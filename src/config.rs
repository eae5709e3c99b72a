//! The invocation, the configuration and the errors of the library.
use vstd::prelude::*;

use crate::text::views;

verus! {

#[verifier::external_type_specification]
#[verifier::external_body]
pub struct ExPathBuf(std::path::PathBuf);

/// A flag after resolution: whether it was given, and its value.
#[derive(Clone, Copy, Debug, PartialEq, Eq, Structural)]
pub struct FlagValue {
    pub provided: bool,
    pub value: bool,
}

/// One invocation: the action, its positional arguments and its flags.
///
/// Each flag is `None` when absent, `Some(None)` when given without a
/// value (which means `true`) and `Some(Some(v))` when given as `v`.
pub struct Arguments {
    pub action: String,
    pub arguments: Vec<String>,
    pub rc_path: std::path::PathBuf,
    pub dry: Option<Option<bool>>,
    pub raw: Option<Option<bool>>,
    pub skip_verify: Option<Option<bool>>,
    pub verbose: Option<Option<bool>>,
    pub no_add: Option<Option<bool>>,
}

/// A rule on one positional argument of the commit message.
#[derive(Debug)]
pub struct CommitMessageArguments {
    /// The 1-based index of the argument.
    pub argument: i32,
    /// The name of a case transform.
    pub case: Option<String>,
    /// The values the (transformed) argument may take.
    pub type_enums: Option<Vec<String>>,
}

/// A named list of command lines.
#[derive(Debug)]
pub struct CustomTaskOptions {
    pub name: String,
    pub execute: Option<Vec<String>>,
}

/// The configuration of a repository.
pub struct GlitterRc {
    pub commit_message: String,
    pub arguments: Option<Vec<Arguments>>,
    pub commit_message_arguments: Option<Vec<CommitMessageArguments>>,
    pub fetch: Option<bool>,
    pub custom_tasks: Option<Vec<CustomTaskOptions>>,
    pub __default: Option<bool>,
    pub hooks: Option<Vec<String>>,
    pub verbose: Option<bool>,
}

/// What a flag means: absent is `false`, given without a value is `true`.
pub open spec fn flag_set(f: Option<Option<bool>>) -> bool {
    match f {
        None => false,
        Some(None) => true,
        Some(Some(v)) => v,
    }
}

fn flag_of(f: &Option<Option<bool>>) -> (r: bool)
    ensures
        r == flag_set(*f),
{
    match f {
        None => false,
        Some(None) => true,
        Some(Some(v)) => *v,
    }
}

impl Arguments {
    pub fn dry(&self) -> (r: bool)
        ensures
            r == flag_set(self.dry),
    {
        flag_of(&self.dry)
    }

    pub fn raw(&self) -> (r: bool)
        ensures
            r == flag_set(self.raw),
    {
        flag_of(&self.raw)
    }

    pub fn skip_verify(&self) -> (r: bool)
        ensures
            r == flag_set(self.skip_verify),
    {
        flag_of(&self.skip_verify)
    }

    pub fn no_add(&self) -> (r: bool)
        ensures
            r == flag_set(self.no_add),
    {
        flag_of(&self.no_add)
    }

    /// The verbose flag, with whether it was given at all, so that the
    /// configuration can supply the value when it was not.
    pub fn verbose(&self) -> (r: FlagValue)
        ensures
            r.provided == (self.verbose is Some),
            r.value == flag_set(self.verbose),
    {
        FlagValue { provided: self.verbose.is_some(), value: flag_of(&self.verbose) }
    }
}

/// The commit-message template used when the configuration gives none:
/// every argument, joined by spaces.
pub fn commit_msg() -> (r: String)
    ensures
        r@ == "$1+"@,
{
    "$1+".to_owned()
}

/// The argument rules used when the configuration gives none: a single
/// rule that no argument index matches.
pub fn commit_msg_arguments() -> (r: Vec<CommitMessageArguments>)
    ensures
        r.len() == 1,
        r[0].argument == 0,
        r[0].case matches Some(c) && c@ == "standard"@,
        r[0].type_enums is None,
{
    let mut v = Vec::new();
    v.push(
        CommitMessageArguments {
            argument: 0,
            case: Some("standard".to_owned()),
            type_enums: None,
        },
    );
    v
}

/// The command lines of a task; a task without any has none to run.
pub open spec fn task_commands(t: CustomTaskOptions) -> Seq<Seq<char>> {
    match t.execute {
        Some(v) => views(v@),
        None => Seq::empty(),
    }
}

/// The configured tasks, none when the configuration has no list.
pub open spec fn tasks_of(config: &GlitterRc) -> Seq<CustomTaskOptions> {
    match config.custom_tasks {
        Some(v) => v@,
        None => Seq::empty(),
    }
}

/// The configured argument rules, none when the configuration has no list.
pub open spec fn rules_of(config: &GlitterRc) -> Seq<CommitMessageArguments> {
    match config.commit_message_arguments {
        Some(v) => v@,
        None => Seq::empty(),
    }
}

/// The configured hook names, none when the configuration has no list.
pub open spec fn hooks_of(config: &GlitterRc) -> Seq<Seq<char>> {
    match config.hooks {
        Some(v) => views(v@),
        None => Seq::empty(),
    }
}

/// Why a flow could not go on.
#[derive(Debug)]
pub enum GlitterError {
    /// The working directory is not a git repository.
    NotARepository,
    /// A plain token named an argument that was not given.
    MissingArgument(u32),
    /// A rest token named an argument that was not given.
    MissingRestArgument(u32),
    /// An argument is not among the values its rule allows.
    InvalidEnumValue(u32, Vec<String>),
    /// A hook names no configured task.
    UnknownHook(String),
    /// `cc` was given a name that is no task.
    UnknownCustomTask(String),
    /// The action is neither built in nor a task.
    NotAnAction(String),
    /// A program was not found on the search path.
    BinaryNotFound(String),
    /// A program exited unsuccessfully: program, arguments, and what it
    /// wrote to stdout and to stderr.
    CommandFailed(String, Vec<String>, Vec<u8>, Vec<u8>),
}

/// The content of a [`GlitterError`] as plain values.
pub enum ErrorView {
    NotARepository,
    MissingArgument(int),
    MissingRestArgument(int),
    InvalidEnumValue(int, Seq<Seq<char>>),
    UnknownHook(Seq<char>),
    UnknownCustomTask(Seq<char>),
    NotAnAction(Seq<char>),
    BinaryNotFound(Seq<char>),
    CommandFailed(Seq<char>, Seq<Seq<char>>, Seq<u8>, Seq<u8>),
}

impl View for GlitterError {
    type V = ErrorView;

    open spec fn view(&self) -> ErrorView {
        match self {
            GlitterError::NotARepository => ErrorView::NotARepository,
            GlitterError::MissingArgument(d) => ErrorView::MissingArgument(*d as int),
            GlitterError::MissingRestArgument(d) => ErrorView::MissingRestArgument(*d as int),
            GlitterError::InvalidEnumValue(d, v) => ErrorView::InvalidEnumValue(
                *d as int,
                views(v@),
            ),
            GlitterError::UnknownHook(n) => ErrorView::UnknownHook(n@),
            GlitterError::UnknownCustomTask(n) => ErrorView::UnknownCustomTask(n@),
            GlitterError::NotAnAction(n) => ErrorView::NotAnAction(n@),
            GlitterError::BinaryNotFound(p) => ErrorView::BinaryNotFound(p@),
            GlitterError::CommandFailed(p, a, o, e) => ErrorView::CommandFailed(
                p@,
                views(a@),
                o@,
                e@,
            ),
        }
    }
}

/// The plain content of a result that carries a string.
pub open spec fn text_result(r: Result<String, GlitterError>) -> Result<Seq<char>, ErrorView> {
    match r {
        Ok(s) => Ok(s@),
        Err(e) => Err(e@),
    }
}

/// A copy of `v`, string by string.
pub fn clone_strings(v: &Vec<String>) -> (r: Vec<String>)
    ensures
        views(r@) == views(v@),
{
    let mut out: Vec<String> = Vec::new();
    let mut i: usize = 0;
    while i < v.len()
        invariant
            i <= v.len(),
            out.len() == i,
            forall|k: int| 0 <= k < i ==> #[trigger] out@[k]@ == v@[k]@,
        decreases v.len() - i,
    {
        let c = v[i].clone();
        assert(c@ == v@[i as int]@);
        out.push(c);
        i = i + 1;
    }
    assert(views(out@) =~= views(v@));
    out
}

} // verus!
