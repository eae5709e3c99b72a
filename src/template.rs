//! Expansion of a commit-message template against positional arguments.
//!
//! A template holds plain text and tokens: `$d` stands for argument `d`
//! (after its rule's case transform, checked against its allowed values),
//! `$d+` for the arguments from `d` on, joined by single spaces. `d` is a
//! single digit from 1 to 9; a `$` that is not followed by one is text.
//! The template is read once from left to right, so a substituted value is
//! never read again as a token.
use vstd::prelude::*;

use crate::case::{apply_case, case_named, case_transform_of, lower_of, transformed};
use crate::config::{
    rules_of, text_result, Arguments, CommitMessageArguments, ErrorView, GlitterError, GlitterRc,
};
use crate::text::{join_from, join_words, str_eq, views};

verus! {

/// A digit that can name an argument.
pub open spec fn is_index_digit(c: char) -> bool {
    '1' <= c && c <= '9'
}

pub open spec fn digit_value(c: char) -> int {
    c as int - '0' as int
}

/// The length of the token that starts at `i` in `t`, or 0 where none does.
pub open spec fn token_len(t: Seq<char>, i: int) -> int {
    if 0 <= i && i + 1 < t.len() && t[i] == '$' && is_index_digit(t[i + 1]) {
        if i + 2 < t.len() && t[i + 2] == '+' {
            3
        } else {
            2
        }
    } else {
        0
    }
}

/// The first rule, in list order, on argument `d`.
pub open spec fn rule_for(rules: Seq<CommitMessageArguments>, d: int) -> Option<
    CommitMessageArguments,
>
    decreases rules.len(),
{
    if rules.len() == 0 {
        None
    } else {
        let front = rule_for(rules.drop_last(), d);
        if front is Some {
            front
        } else if rules.last().argument as int == d {
            Some(rules.last())
        } else {
            None
        }
    }
}

/// `s` under the case transform a rule names; unchanged when it names none.
pub open spec fn cased(case: Option<String>, s: Seq<char>) -> Seq<char> {
    match case {
        Some(c) => match case_named(lower_of(c@)) {
            Some(t) => transformed(t, s),
            None => s,
        },
        None => s,
    }
}

/// The value a plain token `$d` stands for.
pub open spec fn plain_value(
    args: Seq<Seq<char>>,
    rules: Seq<CommitMessageArguments>,
    d: int,
) -> Result<Seq<char>, ErrorView> {
    if d < 1 || d - 1 >= args.len() {
        Err(ErrorView::MissingArgument(d))
    } else {
        match rule_for(rules, d) {
            None => Ok(args[d - 1]),
            Some(rule) => {
                let v = cased(rule.case, args[d - 1]);
                match rule.type_enums {
                    Some(allowed) => if views(allowed@).contains(v) {
                        Ok(v)
                    } else {
                        Err(ErrorView::InvalidEnumValue(d, views(allowed@)))
                    },
                    None => Ok(v),
                }
            },
        }
    }
}

/// The value a rest token `$d+` stands for.
pub open spec fn rest_value(args: Seq<Seq<char>>, d: int) -> Result<Seq<char>, ErrorView> {
    if d < 1 || d - 1 >= args.len() {
        Err(ErrorView::MissingRestArgument(d))
    } else {
        Ok(join_words(args.subrange(d - 1, args.len() as int)))
    }
}

/// The value of the piece of `t` that starts at `i`: a token or one character.
pub open spec fn piece_value(
    t: Seq<char>,
    i: int,
    args: Seq<Seq<char>>,
    rules: Seq<CommitMessageArguments>,
) -> Result<Seq<char>, ErrorView> {
    let n = token_len(t, i);
    if n == 3 {
        rest_value(args, digit_value(t[i + 1]))
    } else if n == 2 {
        plain_value(args, rules, digit_value(t[i + 1]))
    } else {
        Ok(seq![t[i]])
    }
}

pub open spec fn piece_len(t: Seq<char>, i: int) -> int {
    if token_len(t, i) == 0 {
        1
    } else {
        token_len(t, i)
    }
}

/// `p` followed by `r`, the first error where either is one.
pub open spec fn then_text(
    p: Result<Seq<char>, ErrorView>,
    r: Result<Seq<char>, ErrorView>,
) -> Result<Seq<char>, ErrorView> {
    match p {
        Err(e) => Err(e),
        Ok(a) => match r {
            Err(e) => Err(e),
            Ok(b) => Ok(a + b),
        },
    }
}

/// The expansion of `t` from position `i` on: the values of its pieces in
/// order, or the error of the first piece that has none.
pub open spec fn expand_from(
    t: Seq<char>,
    i: int,
    args: Seq<Seq<char>>,
    rules: Seq<CommitMessageArguments>,
) -> Result<Seq<char>, ErrorView>
    decreases t.len() - i,
{
    if i < 0 || i >= t.len() {
        Ok(Seq::empty())
    } else {
        then_text(piece_value(t, i, args, rules), expand_from(t, i + piece_len(t, i), args, rules))
    }
}

/// The expansion of the template `t`.
pub open spec fn expansion(
    t: Seq<char>,
    args: Seq<Seq<char>>,
    rules: Seq<CommitMessageArguments>,
) -> Result<Seq<char>, ErrorView> {
    expand_from(t, 0, args, rules)
}

proof fn lemma_then_text_assoc(
    a: Seq<char>,
    p: Result<Seq<char>, ErrorView>,
    r: Result<Seq<char>, ErrorView>,
)
    ensures
        then_text(Ok(a), then_text(p, r)) == then_text(then_text(Ok(a), p), r),
{
    match (p, r) {
        (Ok(x), Ok(y)) => {
            assert(a + (x + y) =~= (a + x) + y);
        },
        _ => {},
    }
}

/// The first rule, in list order, on argument `d`.
pub fn find_rule(rules: &Vec<CommitMessageArguments>, d: i32) -> (r: Option<usize>)
    ensures
        match r {
            Some(k) => k < rules.len() && rule_for(rules@, d as int) == Some(rules@[k as int]),
            None => rule_for(rules@, d as int) is None,
        },
{
    let mut found: Option<usize> = None;
    let mut i: usize = 0;
    while i < rules.len()
        invariant
            i <= rules.len(),
            match found {
                Some(k) => k < i && rule_for(rules@.subrange(0, i as int), d as int) == Some(
                    rules@[k as int],
                ),
                None => rule_for(rules@.subrange(0, i as int), d as int) is None,
            },
        decreases rules.len() - i,
    {
        assert(rules@.subrange(0, i as int + 1).drop_last() =~= rules@.subrange(0, i as int));
        if found.is_none() && rules[i].argument == d {
            found = Some(i);
        }
        i = i + 1;
    }
    assert(rules@.subrange(0, rules.len() as int) =~= rules@);
    found
}

/// Whether `v` is one of `allowed`.
fn is_allowed(allowed: &Vec<String>, v: &str) -> (r: bool)
    ensures
        r == views(allowed@).contains(v@),
{
    let mut i: usize = 0;
    while i < allowed.len()
        invariant
            i <= allowed.len(),
            forall|k: int| 0 <= k < i ==> allowed@[k]@ != v@,
        decreases allowed.len() - i,
    {
        if str_eq(allowed[i].as_str(), v) {
            assert(views(allowed@)[i as int] == v@);
            return true;
        }
        i = i + 1;
    }
    proof {
        if views(allowed@).contains(v@) {
            let k = choose|k: int| 0 <= k < views(allowed@).len() && views(allowed@)[k] == v@;
            assert(allowed@[k]@ == v@);
        }
    }
    false
}

/// The value of the plain token `$d`: argument `d`, under the case
/// transform of the first rule on `d`, which must be one of the rule's
/// allowed values where it lists them.
pub fn argument_value(args: &Vec<String>, rules: &Vec<CommitMessageArguments>, d: u32) -> (r:
    Result<String, GlitterError>)
    requires
        1 <= d <= 9,
    ensures
        text_result(r) == plain_value(views(args@), rules@, d as int),
{
    if args.len() <= (d - 1) as usize {
        return Err(GlitterError::MissingArgument(d));
    }
    let raw = &args[(d - 1) as usize];
    let k = match find_rule(rules, d as i32) {
        None => {
            return Ok(raw.clone());
        },
        Some(k) => k,
    };
    let rule = &rules[k];
    let value = match &rule.case {
        Some(c) => match case_transform_of(c.as_str()) {
            Some(t) => apply_case(t, raw.as_str()),
            None => raw.clone(),
        },
        None => raw.clone(),
    };
    match &rule.type_enums {
        Some(allowed) => {
            if is_allowed(allowed, value.as_str()) {
                Ok(value)
            } else {
                Err(GlitterError::InvalidEnumValue(d, crate::config::clone_strings(allowed)))
            }
        },
        None => Ok(value),
    }
}

/// The value of the rest token `$d+`: the arguments from `d` on, joined by
/// single spaces; there must be at least one.
pub fn rest_argument_value(args: &Vec<String>, d: u32) -> (r: Result<String, GlitterError>)
    requires
        1 <= d <= 9,
    ensures
        text_result(r) == rest_value(views(args@), d as int),
{
    if args.len() <= (d - 1) as usize {
        return Err(GlitterError::MissingRestArgument(d));
    }
    let s = join_from(args, (d - 1) as usize);
    assert(views(args@.subrange(d - 1, args.len() as int)) =~= views(args@).subrange(
        d - 1,
        args.len() as int,
    ));
    Ok(s)
}

/// Expands `template` against `args` under `rules`.
///
/// Each token takes its value from the arguments; the first token, from the
/// left, that has none gives the error: a missing argument, a missing rest
/// argument, or a value that its rule does not allow.
pub fn expand(template: &str, args: &Vec<String>, rules: &Vec<CommitMessageArguments>) -> (r:
    Result<String, GlitterError>)
    ensures
        text_result(r) == expansion(template@, views(args@), rules@),
{
    let ghost t = template@;
    let ghost a = views(args@);
    let n = template.unicode_len();
    let mut out = String::new();
    let mut i: usize = 0;
    while i < n
        invariant
            t == template@,
            a == views(args@),
            n == t.len(),
            i <= n,
            expansion(t, a, rules@) == then_text(Ok(out@), expand_from(t, i as int, a, rules@)),
        decreases n - i,
    {
        let c = template.get_char(i);
        let mut step: usize = 1;
        let mut token: u32 = 0;
        let mut rest = false;
        if c == '$' && i + 1 < n {
            let c1 = template.get_char(i + 1);
            if '1' <= c1 && c1 <= '9' {
                token = (c1 as u32) - ('0' as u32);
                step = 2;
                if i + 2 < n && template.get_char(i + 2) == '+' {
                    rest = true;
                    step = 3;
                }
            }
        }
        assert(step as int == piece_len(t, i as int));
        let piece = if token == 0 {
            assert(template@.subrange(i as int, i + 1) =~= seq![c]);
            Ok(template.substring_char(i, i + 1).to_owned())
        } else if rest {
            rest_argument_value(args, token)
        } else {
            argument_value(args, rules, token)
        };
        assert(text_result(piece) == piece_value(t, i as int, a, rules@));
        proof {
            lemma_then_text_assoc(
                out@,
                piece_value(t, i as int, a, rules@),
                expand_from(t, i + step, a, rules@),
            );
        }
        match piece {
            Err(e) => {
                return Err(e);
            },
            Ok(p) => {
                out.append(p.as_str());
            },
        }
        i = i + step;
    }
    assert(out@ + Seq::<char>::empty() =~= out@);
    Ok(out)
}

/// The commit message for an invocation: the configured template expanded
/// against the invocation's arguments under the configured rules.
pub fn get_commit_message(config: &GlitterRc, args: &Arguments) -> (r: Result<
    String,
    GlitterError,
>)
    ensures
        text_result(r) == expansion(
            config.commit_message@,
            views(args.arguments@),
            rules_of(config),
        ),
{
    match &config.commit_message_arguments {
        Some(rules) => expand(config.commit_message.as_str(), &args.arguments, rules),
        None => {
            let none: Vec<CommitMessageArguments> = Vec::new();
            expand(config.commit_message.as_str(), &args.arguments, &none)
        },
    }
}

/// The commit message taken as is: all arguments joined by single spaces,
/// with no template and no rules.
pub fn raw_commit_message(args: &Arguments) -> (r: Result<String, GlitterError>)
    ensures
        text_result(r) == rest_value(views(args.arguments@), 1),
{
    rest_argument_value(&args.arguments, 1)
}

/// `s` holds no `$`.
pub open spec fn no_dollar(s: Seq<char>) -> bool {
    forall|i: int| 0 <= i < s.len() ==> s[i] != '$'
}

/// Every `$` of `t` starts a token.
pub open spec fn dollars_are_tokens(t: Seq<char>) -> bool {
    forall|i: int| 0 <= i < t.len() && t[i] == '$' ==> token_len(t, i) != 0
}

/// No rule names a case transform.
pub open spec fn no_transforms(rules: Seq<CommitMessageArguments>) -> bool {
    forall|k: int| 0 <= k < rules.len() ==> (#[trigger] rules[k]).case is None
}

proof fn lemma_rule_for_in(rules: Seq<CommitMessageArguments>, d: int)
    ensures
        rule_for(rules, d) matches Some(r) ==> exists|k: int| 0 <= k < rules.len() && rules[k] == r,
    decreases rules.len(),
{
    if rules.len() > 0 {
        lemma_rule_for_in(rules.drop_last(), d);
        match rule_for(rules.drop_last(), d) {
            Some(r) => {
                let k = choose|k: int|
                    0 <= k < rules.drop_last().len() && rules.drop_last()[k] == r;
                assert(rules[k] == r);
            },
            None => {
                assert(rules[rules.len() - 1] == rules.last());
            },
        }
    }
}

proof fn lemma_join_no_dollar(s: Seq<Seq<char>>)
    requires
        forall|k: int| 0 <= k < s.len() ==> no_dollar(#[trigger] s[k]),
    ensures
        no_dollar(join_words(s)),
    decreases s.len(),
{
    if s.len() > 1 {
        lemma_join_no_dollar(s.drop_last());
        let f = join_words(s.drop_last());
        let l = s.last();
        assert(no_dollar(l));
        assert forall|i: int| 0 <= i < (f + seq![' '] + l).len() implies (f + seq![' '] + l)[i]
            != '$' by {
            if i < f.len() {
            } else if i == f.len() {
            } else {
                assert((f + seq![' '] + l)[i] == l[i - f.len() - 1]);
            }
        }
    } else if s.len() == 1 {
        assert(no_dollar(s[0]));
    }
}

proof fn lemma_expansion_no_dollar(
    t: Seq<char>,
    i: int,
    args: Seq<Seq<char>>,
    rules: Seq<CommitMessageArguments>,
)
    requires
        0 <= i,
        dollars_are_tokens(t),
        forall|k: int| 0 <= k < args.len() ==> no_dollar(#[trigger] args[k]),
        no_transforms(rules),
    ensures
        expand_from(t, i, args, rules) matches Ok(s) ==> no_dollar(s),
    decreases t.len() - i,
{
    if i < t.len() {
        lemma_expansion_no_dollar(t, i + piece_len(t, i), args, rules);
        let n = token_len(t, i);
        if n == 3 {
            let d = digit_value(t[i + 1]);
            if 1 <= d && d - 1 < args.len() {
                let sub = args.subrange(d - 1, args.len() as int);
                assert forall|k: int| 0 <= k < sub.len() implies no_dollar(#[trigger] sub[k]) by {
                    assert(sub[k] == args[k + d - 1]);
                }
                lemma_join_no_dollar(sub);
            }
        } else if n == 2 {
            let d = digit_value(t[i + 1]);
            lemma_rule_for_in(rules, d);
            if 1 <= d && d - 1 < args.len() {
                assert(no_dollar(args[d - 1]));
            }
        }
        match (piece_value(t, i, args, rules), expand_from(t, i + piece_len(t, i), args, rules)) {
            (Ok(p), Ok(r)) => {
                assert(no_dollar(p));
                assert forall|j: int| 0 <= j < (p + r).len() implies (p + r)[j] != '$' by {
                    if j >= p.len() {
                        assert((p + r)[j] == r[j - p.len()]);
                    }
                }
            },
            _ => {},
        }
    }
}

proof fn lemma_plain_text_expands_to_itself(
    t: Seq<char>,
    i: int,
    args: Seq<Seq<char>>,
    rules: Seq<CommitMessageArguments>,
)
    requires
        0 <= i <= t.len(),
        no_dollar(t),
    ensures
        expand_from(t, i, args, rules) == Ok::<Seq<char>, ErrorView>(t.subrange(i, t.len() as int)),
    decreases t.len() - i,
{
    if i < t.len() {
        lemma_plain_text_expands_to_itself(t, i + 1, args, rules);
        assert(seq![t[i]] + t.subrange(i + 1, t.len() as int) =~= t.subrange(i, t.len() as int));
    } else {
        assert(t.subrange(i, t.len() as int) =~= Seq::<char>::empty());
    }
}

/// Expanding an expanded message again changes nothing, where every `$` of
/// the template starts a token, no argument holds a `$`, and no rule names
/// a case transform: no token is left to expand. (A `$d` and a `$d+` are
/// told apart by the `+` alone, so each is expanded once, independently.)
pub proof fn lemma_expansion_idempotent(
    t: Seq<char>,
    args: Seq<Seq<char>>,
    rules: Seq<CommitMessageArguments>,
)
    requires
        dollars_are_tokens(t),
        forall|k: int| 0 <= k < args.len() ==> no_dollar(#[trigger] args[k]),
        no_transforms(rules),
    ensures
        expansion(t, args, rules) matches Ok(s) ==> no_dollar(s) && expansion(s, args, rules)
            == Ok::<Seq<char>, ErrorView>(s),
{
    lemma_expansion_no_dollar(t, 0, args, rules);
    match expansion(t, args, rules) {
        Ok(s) => {
            lemma_plain_text_expands_to_itself(s, 0, args, rules);
            assert(s.subrange(0, s.len() as int) =~= s);
        },
        Err(_) => {},
    }
}

/// `s` from position `i` on, with every plain token `$d` replaced by `v`,
/// read from left to right as a find-and-replace does; a `$d` followed by
/// `+` is left as it is.
pub open spec fn replace_plain(s: Seq<char>, i: int, d: int, v: Seq<char>) -> Seq<char>
    decreases s.len() - i,
{
    if i < 0 || i >= s.len() {
        Seq::empty()
    } else if token_len(s, i) == 2 && digit_value(s[i + 1]) == d {
        v + replace_plain(s, i + 2, d, v)
    } else {
        seq![s[i]] + replace_plain(s, i + 1, d, v)
    }
}

/// `s` after replacing `$1` with the first argument, then `$2` with the
/// second, and so on up to `$k`.
pub open spec fn replace_in_order(s: Seq<char>, args: Seq<Seq<char>>, k: int) -> Seq<char>
    decreases k,
{
    if k <= 0 {
        s
    } else {
        replace_plain(replace_in_order(s, args, k - 1), 0, k, args[k - 1])
    }
}

/// Every `$` of `t` starts a plain token whose argument is among `n`.
pub open spec fn only_plain_tokens(t: Seq<char>, n: int) -> bool {
    forall|i: int|
        0 <= i < t.len() && t[i] == '$' ==> token_len(t, i) == 2 && digit_value(t[i + 1]) <= n
}

/// `t` from `i` on with the tokens of arguments up to `k` replaced and the
/// others kept.
spec fn partially_replaced(t: Seq<char>, i: int, args: Seq<Seq<char>>, k: int) -> Seq<char>
    decreases t.len() - i,
{
    if i < 0 || i >= t.len() {
        Seq::empty()
    } else if token_len(t, i) == 2 {
        let d = digit_value(t[i + 1]);
        (if d <= k {
            args[d - 1]
        } else {
            t.subrange(i, i + 2)
        }) + partially_replaced(t, i + 2, args, k)
    } else {
        seq![t[i]] + partially_replaced(t, i + 1, args, k)
    }
}

proof fn lemma_replace_shift(x: Seq<char>, r: Seq<char>, j: int, d: int, v: Seq<char>)
    requires
        0 <= j <= r.len(),
    ensures
        replace_plain(x + r, x.len() + j, d, v) == replace_plain(r, j, d, v),
    decreases r.len() - j,
{
    let s = x + r;
    let i = x.len() + j;
    if j < r.len() {
        assert(s[i] == r[j]);
        if i + 1 < s.len() {
            assert(s[i + 1] == r[j + 1]);
        }
        if i + 2 < s.len() {
            assert(s[i + 2] == r[j + 2]);
        }
        assert(token_len(s, i) == token_len(r, j));
        if token_len(r, j) == 2 && digit_value(r[j + 1]) == d {
            lemma_replace_shift(x, r, j + 2, d, v);
        } else {
            lemma_replace_shift(x, r, j + 1, d, v);
        }
    }
}

proof fn lemma_replace_plain_text(x: Seq<char>, r: Seq<char>, j: int, d: int, v: Seq<char>)
    requires
        0 <= j <= x.len(),
        no_dollar(x),
    ensures
        replace_plain(x + r, j, d, v) == x.subrange(j, x.len() as int) + replace_plain(
            r,
            0,
            d,
            v,
        ),
    decreases x.len() - j,
{
    if j == x.len() {
        lemma_replace_shift(x, r, 0, d, v);
        assert(x.subrange(j, x.len() as int) =~= Seq::<char>::empty());
        assert(Seq::<char>::empty() + replace_plain(r, 0, d, v) =~= replace_plain(r, 0, d, v));
    } else {
        assert((x + r)[j] == x[j]);
        lemma_replace_plain_text(x, r, j + 1, d, v);
        assert(seq![x[j]] + (x.subrange(j + 1, x.len() as int) + replace_plain(r, 0, d, v))
            =~= x.subrange(j, x.len() as int) + replace_plain(r, 0, d, v));
    }
}

proof fn lemma_partial_start(t: Seq<char>, j: int, args: Seq<Seq<char>>, k: int)
    requires
        0 <= j <= t.len(),
        j < t.len() ==> t[j] != '+',
        only_plain_tokens(t, args.len() as int),
        forall|a: int| 0 <= a < args.len() ==> !((#[trigger] args[a]).len() > 0 && args[a][0] == '+'),
    ensures
        partially_replaced(t, j, args, k).len() > 0 ==> partially_replaced(t, j, args, k)[0] != '+',
    decreases t.len() - j,
{
    if j < t.len() && token_len(t, j) == 2 {
        let d = digit_value(t[j + 1]);
        let piece = if d <= k {
            args[d - 1]
        } else {
            t.subrange(j, j + 2)
        };
        if piece.len() == 0 {
            assert(j + 2 < t.len() ==> t[j + 2] != '+');
            lemma_partial_start(t, j + 2, args, k);
            assert(piece + partially_replaced(t, j + 2, args, k) =~= partially_replaced(
                t,
                j + 2,
                args,
                k,
            ));
        } else {
            assert((piece + partially_replaced(t, j + 2, args, k))[0] == piece[0]);
            assert(d > k ==> piece[0] == '$');
        }
    }
}

proof fn lemma_partial_step(t: Seq<char>, i: int, args: Seq<Seq<char>>, k: int)
    requires
        0 <= i <= t.len(),
        0 <= k < args.len(),
        only_plain_tokens(t, args.len() as int),
        forall|a: int| 0 <= a < args.len() ==> no_dollar(#[trigger] args[a]),
        forall|a: int| 0 <= a < args.len() ==> !((#[trigger] args[a]).len() > 0 && args[a][0] == '+'),
    ensures
        replace_plain(partially_replaced(t, i, args, k), 0, k + 1, args[k])
            == partially_replaced(t, i, args, k + 1),
    decreases t.len() - i,
{
    let v = args[k];
    let cur = partially_replaced(t, i, args, k);
    if i >= t.len() {
    } else if token_len(t, i) == 2 {
        let d = digit_value(t[i + 1]);
        let rest = partially_replaced(t, i + 2, args, k);
        lemma_partial_step(t, i + 2, args, k);
        if d <= k {
            assert(no_dollar(args[d - 1]));
            lemma_replace_plain_text(args[d - 1], rest, 0, k + 1, v);
            assert(args[d - 1].subrange(0, args[d - 1].len() as int) =~= args[d - 1]);
        } else {
            let tok = t.subrange(i, i + 2);
            assert(tok[0] == '$' && tok[1] == t[i + 1]);
            assert(cur == tok + rest);
            assert(cur[0] == '$' && cur[1] == t[i + 1]);
            assert(i + 2 < t.len() ==> t[i + 2] != '+');
            lemma_partial_start(t, i + 2, args, k);
            if rest.len() > 0 {
                assert(cur[2] == rest[0]);
            }
            assert(token_len(cur, 0) == 2);
            if d == k + 1 {
                lemma_replace_shift(tok, rest, 0, k + 1, v);
            } else {
                assert(token_len(cur, 1) == 0);
                lemma_replace_shift(tok, rest, 0, k + 1, v);
                assert(digit_value(cur[1]) != k + 1);
                assert(replace_plain(cur, 1, k + 1, v) == seq![cur[1]] + replace_plain(
                    cur,
                    2,
                    k + 1,
                    v,
                ));
                assert(replace_plain(cur, 0, k + 1, v) == seq![cur[0]] + (seq![cur[1]]
                    + replace_plain(cur, 2, k + 1, v)));
                assert(seq![cur[0]] + (seq![cur[1]] + replace_plain(rest, 0, k + 1, v)) =~= tok
                    + replace_plain(rest, 0, k + 1, v));
            }
        }
    } else {
        assert(t[i] != '$');
        let rest = partially_replaced(t, i + 1, args, k);
        lemma_partial_step(t, i + 1, args, k);
        assert(no_dollar(seq![t[i]]));
        lemma_replace_plain_text(seq![t[i]], rest, 0, k + 1, v);
        assert(seq![t[i]].subrange(0, 1) =~= seq![t[i]]);
    }
}

proof fn lemma_partial_none(t: Seq<char>, i: int, args: Seq<Seq<char>>)
    requires
        0 <= i <= t.len(),
        only_plain_tokens(t, args.len() as int),
    ensures
        partially_replaced(t, i, args, 0) == t.subrange(i, t.len() as int),
    decreases t.len() - i,
{
    if i == t.len() {
        assert(t.subrange(i, t.len() as int) =~= Seq::<char>::empty());
    } else if token_len(t, i) == 2 {
        lemma_partial_none(t, i + 2, args);
        assert(t.subrange(i, i + 2) + t.subrange(i + 2, t.len() as int) =~= t.subrange(
            i,
            t.len() as int,
        ));
    } else {
        lemma_partial_none(t, i + 1, args);
        assert(seq![t[i]] + t.subrange(i + 1, t.len() as int) =~= t.subrange(i, t.len() as int));
    }
}

proof fn lemma_partial_all(t: Seq<char>, i: int, args: Seq<Seq<char>>, k: int)
    requires
        0 <= i <= t.len(),
        only_plain_tokens(t, args.len() as int),
        k == args.len() || k == 9,
        k <= args.len(),
    ensures
        expand_from(t, i, args, Seq::empty()) == Ok::<Seq<char>, ErrorView>(
            partially_replaced(t, i, args, k),
        ),
    decreases t.len() - i,
{
    if i < t.len() {
        if token_len(t, i) == 2 {
            lemma_partial_all(t, i + 2, args, k);
        } else {
            lemma_partial_all(t, i + 1, args, k);
        }
    }
}

proof fn lemma_in_order(t: Seq<char>, args: Seq<Seq<char>>, k: int)
    requires
        0 <= k <= args.len(),
        only_plain_tokens(t, args.len() as int),
        forall|a: int| 0 <= a < args.len() ==> no_dollar(#[trigger] args[a]),
        forall|a: int| 0 <= a < args.len() ==> !((#[trigger] args[a]).len() > 0 && args[a][0] == '+'),
    ensures
        replace_in_order(t, args, k) == partially_replaced(t, 0, args, k),
    decreases k,
{
    if k == 0 {
        lemma_partial_none(t, 0, args);
        assert(t.subrange(0, t.len() as int) =~= t);
    } else {
        lemma_in_order(t, args, k - 1);
        lemma_partial_step(t, 0, args, k - 1);
    }
}

/// Where every `$` of the template starts a plain token `$d` whose argument
/// was given, no argument holds a `$` or starts with `+`, and there are no
/// rules, expanding is replacing `$1` with the first argument, then `$2`
/// with the second, and so on up to the last argument (or `$9`).
pub proof fn lemma_expansion_is_sequential_replacement(t: Seq<char>, args: Seq<Seq<char>>)
    requires
        only_plain_tokens(t, args.len() as int),
        forall|a: int| 0 <= a < args.len() ==> no_dollar(#[trigger] args[a]),
        forall|a: int| 0 <= a < args.len() ==> !((#[trigger] args[a]).len() > 0 && args[a][0] == '+'),
    ensures
        expansion(t, args, Seq::empty()) == Ok::<Seq<char>, ErrorView>(
            replace_in_order(t, args, if args.len() < 9 { args.len() as int } else { 9 }),
        ),
{
    let k = if args.len() < 9 {
        args.len() as int
    } else {
        9
    };
    lemma_in_order(t, args, k);
    lemma_partial_all(t, 0, args, k);
}

} // verus!
