//! Case transforms of a single argument.
//!
//! The transforms themselves are those of the standard library (lower and
//! upper case) and of the `Inflector` crate; the library gives each result
//! a name and relies on it being a function of the input alone.
use vstd::prelude::*;

use crate::text::str_eq;

verus! {

/// The case transforms an argument rule may name.
#[derive(Clone, Copy, Debug, PartialEq, Eq, Structural)]
pub enum CaseTransform {
    Lower,
    Upper,
    Snake,
    ScreamingSnake,
    Kebab,
    Train,
    Sentence,
    Title,
    Pascal,
}

pub uninterp spec fn lower_of(s: Seq<char>) -> Seq<char>;

pub uninterp spec fn upper_of(s: Seq<char>) -> Seq<char>;

pub uninterp spec fn snake_of(s: Seq<char>) -> Seq<char>;

pub uninterp spec fn screaming_snake_of(s: Seq<char>) -> Seq<char>;

pub uninterp spec fn kebab_of(s: Seq<char>) -> Seq<char>;

pub uninterp spec fn train_of(s: Seq<char>) -> Seq<char>;

pub uninterp spec fn sentence_of(s: Seq<char>) -> Seq<char>;

pub uninterp spec fn title_of(s: Seq<char>) -> Seq<char>;

pub uninterp spec fn pascal_of(s: Seq<char>) -> Seq<char>;

/// Relies on `str::to_lowercase`: the result depends on the characters alone.
#[verifier::external_body]
pub(crate) fn lowercase(s: &str) -> (r: String)
    ensures
        r@ == lower_of(s@),
{
    s.to_lowercase()
}

/// Relies on `str::to_uppercase`: the result depends on the characters alone.
#[verifier::external_body]
fn uppercase(s: &str) -> (r: String)
    ensures
        r@ == upper_of(s@),
{
    s.to_uppercase()
}

/// Relies on `inflector::cases::snakecase::to_snake_case`, a function of its input.
#[verifier::external_body]
fn snake_case(s: &str) -> (r: String)
    ensures
        r@ == snake_of(s@),
{
    inflector::cases::snakecase::to_snake_case(s)
}

/// Relies on `inflector::cases::screamingsnakecase::to_screaming_snake_case`,
/// a function of its input.
#[verifier::external_body]
fn screaming_snake_case(s: &str) -> (r: String)
    ensures
        r@ == screaming_snake_of(s@),
{
    inflector::cases::screamingsnakecase::to_screaming_snake_case(s)
}

/// Relies on `inflector::cases::kebabcase::to_kebab_case`, a function of its input.
#[verifier::external_body]
fn kebab_case(s: &str) -> (r: String)
    ensures
        r@ == kebab_of(s@),
{
    inflector::cases::kebabcase::to_kebab_case(s)
}

/// Relies on `inflector::cases::traincase::to_train_case`, a function of its input.
#[verifier::external_body]
fn train_case(s: &str) -> (r: String)
    ensures
        r@ == train_of(s@),
{
    inflector::cases::traincase::to_train_case(s)
}

/// Relies on `inflector::cases::sentencecase::to_sentence_case`, a function of its input.
#[verifier::external_body]
fn sentence_case(s: &str) -> (r: String)
    ensures
        r@ == sentence_of(s@),
{
    inflector::cases::sentencecase::to_sentence_case(s)
}

/// Relies on `inflector::cases::titlecase::to_title_case`, a function of its input.
#[verifier::external_body]
fn title_case(s: &str) -> (r: String)
    ensures
        r@ == title_of(s@),
{
    inflector::cases::titlecase::to_title_case(s)
}

/// Relies on `inflector::cases::pascalcase::to_pascal_case`, a function of its input.
#[verifier::external_body]
fn pascal_case(s: &str) -> (r: String)
    ensures
        r@ == pascal_of(s@),
{
    inflector::cases::pascalcase::to_pascal_case(s)
}

/// The transform a lower-case name stands for.
pub open spec fn case_named(n: Seq<char>) -> Option<CaseTransform> {
    if n == "lower"@ {
        Some(CaseTransform::Lower)
    } else if n == "upper"@ {
        Some(CaseTransform::Upper)
    } else if n == "snake"@ {
        Some(CaseTransform::Snake)
    } else if n == "screaming-snake"@ {
        Some(CaseTransform::ScreamingSnake)
    } else if n == "kebab"@ {
        Some(CaseTransform::Kebab)
    } else if n == "train"@ {
        Some(CaseTransform::Train)
    } else if n == "sentence"@ {
        Some(CaseTransform::Sentence)
    } else if n == "title"@ {
        Some(CaseTransform::Title)
    } else if n == "pascal"@ {
        Some(CaseTransform::Pascal)
    } else {
        None
    }
}

/// The transform a rule's case name stands for, compared without regard
/// to case; `None` for a name that is no transform.
pub fn case_transform_of(name: &str) -> (r: Option<CaseTransform>)
    ensures
        r == case_named(lower_of(name@)),
{
    let n = lowercase(name);
    let n = n.as_str();
    if str_eq(n, "lower") {
        Some(CaseTransform::Lower)
    } else if str_eq(n, "upper") {
        Some(CaseTransform::Upper)
    } else if str_eq(n, "snake") {
        Some(CaseTransform::Snake)
    } else if str_eq(n, "screaming-snake") {
        Some(CaseTransform::ScreamingSnake)
    } else if str_eq(n, "kebab") {
        Some(CaseTransform::Kebab)
    } else if str_eq(n, "train") {
        Some(CaseTransform::Train)
    } else if str_eq(n, "sentence") {
        Some(CaseTransform::Sentence)
    } else if str_eq(n, "title") {
        Some(CaseTransform::Title)
    } else if str_eq(n, "pascal") {
        Some(CaseTransform::Pascal)
    } else {
        None
    }
}

/// `s` under the transform `c`.
pub open spec fn transformed(c: CaseTransform, s: Seq<char>) -> Seq<char> {
    match c {
        CaseTransform::Lower => lower_of(s),
        CaseTransform::Upper => upper_of(s),
        CaseTransform::Snake => snake_of(s),
        CaseTransform::ScreamingSnake => screaming_snake_of(s),
        CaseTransform::Kebab => kebab_of(s),
        CaseTransform::Train => train_of(s),
        CaseTransform::Sentence => sentence_of(s),
        CaseTransform::Title => title_of(s),
        CaseTransform::Pascal => pascal_of(s),
    }
}

/// Applies the transform `c` to `s`.
pub fn apply_case(c: CaseTransform, s: &str) -> (r: String)
    ensures
        r@ == transformed(c, s@),
{
    match c {
        CaseTransform::Lower => lowercase(s),
        CaseTransform::Upper => uppercase(s),
        CaseTransform::Snake => snake_case(s),
        CaseTransform::ScreamingSnake => screaming_snake_case(s),
        CaseTransform::Kebab => kebab_case(s),
        CaseTransform::Train => train_case(s),
        CaseTransform::Sentence => sentence_case(s),
        CaseTransform::Title => title_case(s),
        CaseTransform::Pascal => pascal_case(s),
    }
}

} // verus!
