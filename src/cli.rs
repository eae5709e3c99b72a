//! The flows of the command line: which steps each action takes.
//!
//! Nothing here runs a command. A flow is decided from the invocation, the
//! configuration and what the caller found out (whether the directory is
//! a repository, the current branch), and is handed back as a list of steps
//! for a [`Runner`](crate::runner::Runner).
use vstd::prelude::*;

use crate::case::{lower_of, lowercase};
use crate::config::{
    flag_set, hooks_of, rules_of, tasks_of, Arguments, CustomTaskOptions, ErrorView,
    GlitterError, GlitterRc,
};
use crate::tasks::{
    append_steps, resolve, resolved, step_views, steps_of_task,
    task_steps, Step, StepView,
};
use crate::template::{expansion, get_commit_message, raw_commit_message, rest_value};
use crate::text::{first_line, first_line_of, str_eq, views};

verus! {

/// A `git` step with these arguments.
pub open spec fn git_step(args: Seq<Seq<char>>) -> StepView {
    ("git"@, args)
}

/// `args`, with `--no-verify` at the end when hooks are skipped.
pub open spec fn verified_args(args: Seq<Seq<char>>, skip_verify: bool) -> Seq<Seq<char>> {
    if skip_verify {
        args.push("--no-verify"@)
    } else {
        args
    }
}

fn owned(s: &str) -> (r: String)
    ensures
        r@ == s@,
{
    s.to_owned()
}

/// The strings `a` and `b`, in that order.
fn pair(a: &str, b: &str) -> (r: Vec<String>)
    ensures
        views(r@) == seq![a@, b@],
{
    let mut v: Vec<String> = Vec::new();
    v.push(owned(a));
    v.push(owned(b));
    assert(views(v@) =~= seq![a@, b@]);
    v
}

fn git(args: Vec<String>) -> (r: Step)
    ensures
        r@ == git_step(views(args@)),
{
    Step { program: owned("git"), args }
}

fn push_verify_flag(args: &mut Vec<String>, skip_verify: bool)
    ensures
        views(final(args)@) == verified_args(views(old(args)@), skip_verify),
{
    if skip_verify {
        args.push(owned("--no-verify"));
        assert(views(args@) =~= views(old(args)@).push("--no-verify"@));
    }
}

/// The steps of the hooks, task by task in the order of the hook list; the
/// first hook that names no task is an error.
pub open spec fn hook_steps(tasks: Seq<CustomTaskOptions>, hooks: Seq<Seq<char>>) -> Result<
    Seq<StepView>,
    ErrorView,
>
    decreases hooks.len(),
{
    if hooks.len() == 0 {
        Ok(Seq::empty())
    } else {
        match hook_steps(tasks, hooks.drop_last()) {
            Err(e) => Err(e),
            Ok(front) => match resolved(tasks, hooks.last()) {
                None => Err(ErrorView::UnknownHook(hooks.last())),
                Some(k) => Ok(front + task_steps(tasks[k])),
            },
        }
    }
}

proof fn lemma_hook_error_stays(
    tasks: Seq<CustomTaskOptions>,
    hooks: Seq<Seq<char>>,
    i: int,
    e: ErrorView,
)
    requires
        0 <= i <= hooks.len(),
        hook_steps(tasks, hooks.subrange(0, i)) == Err::<Seq<StepView>, ErrorView>(e),
    ensures
        hook_steps(tasks, hooks) == Err::<Seq<StepView>, ErrorView>(e),
    decreases hooks.len() - i,
{
    if i == hooks.len() {
        assert(hooks.subrange(0, i) =~= hooks);
    } else {
        assert(hooks.subrange(0, i + 1).drop_last() =~= hooks.subrange(0, i));
        lemma_hook_error_stays(tasks, hooks, i + 1, e);
    }
}

/// The steps of the configured hooks.
pub fn hook_plan(tasks: &Vec<CustomTaskOptions>, hooks: &Vec<String>) -> (r: Result<
    Vec<Step>,
    GlitterError,
>)
    ensures
        match r {
            Ok(s) => hook_steps(tasks@, views(hooks@)) == Ok::<Seq<StepView>, ErrorView>(
                step_views(s@),
            ),
            Err(e) => hook_steps(tasks@, views(hooks@)) == Err::<Seq<StepView>, ErrorView>(e@),
        },
{
    let ghost hs = views(hooks@);
    let mut out: Vec<Step> = Vec::new();
    let mut i: usize = 0;
    assert(hs.subrange(0, 0) =~= Seq::<Seq<char>>::empty());
    assert(step_views(out@) =~= Seq::<StepView>::empty());
    while i < hooks.len()
        invariant
            hs == views(hooks@),
            i <= hooks.len(),
            hook_steps(tasks@, hs.subrange(0, i as int)) == Ok::<Seq<StepView>, ErrorView>(
                step_views(out@),
            ),
        decreases hooks.len() - i,
    {
        assert(hs.subrange(0, i as int + 1).drop_last() =~= hs.subrange(0, i as int));
        assert(hs.subrange(0, i as int + 1).last() == hooks@[i as int]@);
        match resolve(tasks, hooks[i].as_str()) {
            None => {
                let e = GlitterError::UnknownHook(hooks[i].clone());
                proof {
                    lemma_hook_error_stays(tasks@, hs, i + 1, e@);
                }
                return Err(e);
            },
            Some(k) => {
                let more = steps_of_task(&tasks[k]);
                append_steps(&mut out, more);
            },
        }
        i = i + 1;
    }
    assert(hs.subrange(0, hooks.len() as int) =~= hs);
    Ok(out)
}

/// The commit message of an invocation: the arguments as they are in raw
/// mode, else the configured template expanded against them.
pub open spec fn message_of(config: &GlitterRc, args: &Arguments, raw: bool) -> Result<
    Seq<char>,
    ErrorView,
> {
    if raw {
        rest_value(views(args.arguments@), 1)
    } else {
        expansion(config.commit_message@, views(args.arguments@), rules_of(config))
    }
}

/// The steps of a commit with `message`: `git fetch` where the
/// configuration asks for it, the hooks unless they are skipped, `git add .`
/// unless adding is turned off, and `git commit -m <message>`.
pub open spec fn commit_steps(
    config: &GlitterRc,
    message: Seq<char>,
    skip_verify: bool,
    no_add: bool,
) -> Result<Seq<StepView>, ErrorView> {
    let fetch = if config.fetch == Some(true) {
        seq![git_step(seq!["fetch"@])]
    } else {
        Seq::empty()
    };
    let hooks = if skip_verify {
        Ok(Seq::empty())
    } else {
        hook_steps(tasks_of(config), hooks_of(config))
    };
    let add = if no_add {
        Seq::empty()
    } else {
        seq![git_step(seq!["add"@, "."@])]
    };
    match hooks {
        Err(e) => Err(e),
        Ok(h) => Ok(
            fetch + h + add + seq![
                git_step(verified_args(seq!["commit"@, "-m"@, message], skip_verify)),
            ],
        ),
    }
}

/// The message and steps of a commit, or why there are none.
pub open spec fn commit_spec(
    config: &GlitterRc,
    args: &Arguments,
    raw: bool,
    skip_verify: bool,
    no_add: bool,
    in_repository: bool,
) -> Result<(Seq<char>, Seq<StepView>), ErrorView> {
    if !in_repository {
        Err(ErrorView::NotARepository)
    } else {
        match message_of(config, args, raw) {
            Err(e) => Err(e),
            Ok(m) => match commit_steps(config, m, skip_verify, no_add) {
                Err(e) => Err(e),
                Ok(s) => Ok((m, s)),
            },
        }
    }
}

/// A commit (and push) ready to run: the message, the steps, and the flags
/// it was made with.
pub struct CommitPlan {
    pub message: String,
    pub steps: Vec<Step>,
    pub dry: bool,
    pub raw: bool,
    pub skip_verify: bool,
    pub verbose: bool,
    pub no_add: bool,
    /// The configuration is the built-in default.
    pub default_config: bool,
}

/// The message and steps of a plan as plain values.
pub open spec fn plan_result(r: Result<CommitPlan, GlitterError>) -> Result<
    (Seq<char>, Seq<StepView>),
    ErrorView,
> {
    match r {
        Ok(p) => Ok((p.message@, step_views(p.steps@))),
        Err(e) => Err(e@),
    }
}

/// The flags of a plan are those it was asked for.
pub open spec fn plan_flags(
    r: Result<CommitPlan, GlitterError>,
    config: &GlitterRc,
    dry: bool,
    raw: bool,
    skip_verify: bool,
    verbose: bool,
    no_add: bool,
) -> bool {
    r matches Ok(p) ==> p.dry == dry && p.raw == raw && p.skip_verify == skip_verify && p.verbose
        == verbose && p.no_add == no_add && p.default_config == (config.__default is Some)
}

/// Plans a commit: checks that the directory is a repository, builds the
/// message (every argument as is in raw mode, else the template), and
/// lists the steps. Every error comes before any step would run.
#[allow(clippy::too_many_arguments)]
pub fn commit(
    config: &GlitterRc,
    args: &Arguments,
    dry: bool,
    raw: bool,
    skip_verify: bool,
    verbose: bool,
    no_add: bool,
    in_repository: bool,
) -> (r: Result<CommitPlan, GlitterError>)
    ensures
        plan_result(r) == commit_spec(config, args, raw, skip_verify, no_add, in_repository),
        plan_flags(r, config, dry, raw, skip_verify, verbose, no_add),
{
    if !in_repository {
        return Err(GlitterError::NotARepository);
    }
    let message = if raw {
        raw_commit_message(args)
    } else {
        get_commit_message(config, args)
    };
    let message = match message {
        Err(e) => {
            return Err(e);
        },
        Ok(m) => m,
    };
    let mut steps: Vec<Step> = Vec::new();
    if config.fetch == Some(true) {
        let mut a: Vec<String> = Vec::new();
        a.push(owned("fetch"));
        assert(views(a@) =~= seq!["fetch"@]);
        let s = git(a);
        steps.push(s);
        assert(step_views(steps@) =~= seq![git_step(seq!["fetch"@])]);
    }
    let ghost fetch = step_views(steps@);
    assert(fetch =~= (if config.fetch == Some(true) {
        seq![git_step(seq!["fetch"@])]
    } else {
        Seq::<StepView>::empty()
    }));
    if !skip_verify {
        let none_tasks: Vec<CustomTaskOptions> = Vec::new();
        let none_hooks: Vec<String> = Vec::new();
        let tasks = match &config.custom_tasks {
            Some(t) => t,
            None => &none_tasks,
        };
        let hooks = match &config.hooks {
            Some(h) => h,
            None => &none_hooks,
        };
        assert(tasks@ == tasks_of(config));
        assert(views(hooks@) =~= hooks_of(config));
        match hook_plan(tasks, hooks) {
            Err(e) => {
                return Err(e);
            },
            Ok(more) => {
                append_steps(&mut steps, more);
            },
        }
    }
    let ghost before_add = step_views(steps@);
    if !no_add {
        let s = git(pair("add", "."));
        steps.push(s);
        assert(step_views(steps@) =~= before_add + seq![git_step(seq!["add"@, "."@])]);
    } else {
        assert(step_views(steps@) =~= before_add + Seq::<StepView>::empty());
    }
    let ghost before_commit = step_views(steps@);
    let mut commit_args = pair("commit", "-m");
    let ghost two = views(commit_args@);
    let m = message.clone();
    commit_args.push(m);
    assert(views(commit_args@) =~= two.push(message@));
    assert(views(commit_args@) =~= seq!["commit"@, "-m"@, message@]);
    push_verify_flag(&mut commit_args, skip_verify);
    let s = git(commit_args);
    steps.push(s);
    assert(step_views(steps@) =~= before_commit + seq![
        git_step(verified_args(seq!["commit"@, "-m"@, message@], skip_verify)),
    ]);
    Ok(
        CommitPlan {
            message,
            steps,
            dry,
            raw,
            skip_verify,
            verbose,
            no_add,
            default_config: config.__default.is_some(),
        },
    )
}

/// The steps that follow a commit on a push: `git pull origin <branch>`,
/// then `git push origin <branch>`.
pub open spec fn push_steps(branch: Seq<char>, skip_verify: bool) -> Seq<StepView> {
    seq![
        git_step(verified_args(seq!["pull"@, "origin"@, branch], skip_verify)),
        git_step(verified_args(seq!["push"@, "origin"@, branch], skip_verify)),
    ]
}

/// The message and steps of a push, or why there are none: those of the
/// commit, then a pull and a push of the branch named on the first line of
/// `branch_output`.
pub open spec fn push_spec(
    config: &GlitterRc,
    args: &Arguments,
    raw: bool,
    skip_verify: bool,
    no_add: bool,
    in_repository: bool,
    branch_output: Seq<char>,
) -> Result<(Seq<char>, Seq<StepView>), ErrorView> {
    match commit_spec(config, args, raw, skip_verify, no_add, in_repository) {
        Err(e) => Err(e),
        Ok((m, s)) => Ok((m, s + push_steps(first_line(branch_output), skip_verify))),
    }
}

fn remote_step(verb: &str, branch: &String, skip_verify: bool) -> (r: Step)
    ensures
        r@ == git_step(verified_args(seq![verb@, "origin"@, branch@], skip_verify)),
{
    let mut a = pair(verb, "origin");
    let ghost two = views(a@);
    let b = branch.clone();
    a.push(b);
    assert(views(a@) =~= two.push(branch@));
    push_verify_flag(&mut a, skip_verify);
    git(a)
}

/// Plans a push: the commit, then a pull and a push of the current branch,
/// read from the first line of `branch_output` (what `git branch
/// --show-current` printed).
#[allow(clippy::too_many_arguments)]
pub fn push(
    config: &GlitterRc,
    args: &Arguments,
    dry: bool,
    raw: bool,
    skip_verify: bool,
    verbose: bool,
    no_add: bool,
    in_repository: bool,
    branch_output: &str,
) -> (r: Result<CommitPlan, GlitterError>)
    ensures
        plan_result(r) == push_spec(
            config,
            args,
            raw,
            skip_verify,
            no_add,
            in_repository,
            branch_output@,
        ),
        plan_flags(r, config, dry, raw, skip_verify, verbose, no_add),
{
    let mut plan = match commit(config, args, dry, raw, skip_verify, verbose, no_add, in_repository) {
        Err(e) => {
            return Err(e);
        },
        Ok(p) => p,
    };
    let branch = first_line_of(branch_output);
    let ghost before = step_views(plan.steps@);
    let pull = remote_step("pull", &branch, skip_verify);
    plan.steps.push(pull);
    let up = remote_step("push", &branch, skip_verify);
    plan.steps.push(up);
    assert(step_views(plan.steps@) =~= before + push_steps(first_line(branch_output@), skip_verify));
    Ok(plan)
}

/// What a flow asks of the caller, short of running a commit.
#[derive(Clone, Copy, Debug, PartialEq, Eq, Structural)]
pub struct CommitRequest {
    /// Push after committing.
    pub push: bool,
    pub dry: bool,
    pub raw: bool,
    pub skip_verify: bool,
    pub verbose: bool,
    pub no_add: bool,
}

/// The flow an invocation asks for.
#[derive(Debug)]
pub enum Flow {
    /// A commit or a push; the caller finds out whether the directory is a
    /// repository and which branch it is on, then calls [`commit`] or
    /// [`push`].
    Commit(CommitRequest),
    /// Print the built-in actions.
    Actions(Vec<String>),
    /// Print the configured task names.
    TaskList(Vec<String>),
    /// Print the `cc` subcommands and the configured task names.
    Help(Vec<String>, Vec<String>),
    /// `cc` without a subcommand: point at `cc help`.
    Usage,
    /// Run these steps; then whether this is a dry run, and verbose.
    Run(Vec<Step>, bool, bool),
}

/// A [`Flow`] as plain values.
pub enum FlowView {
    Commit(CommitRequest),
    Actions(Seq<Seq<char>>),
    TaskList(Seq<Seq<char>>),
    Help(Seq<Seq<char>>, Seq<Seq<char>>),
    Usage,
    Run(Seq<StepView>, bool, bool),
}

impl View for Flow {
    type V = FlowView;

    open spec fn view(&self) -> FlowView {
        match self {
            Flow::Commit(q) => FlowView::Commit(*q),
            Flow::Actions(a) => FlowView::Actions(views(a@)),
            Flow::TaskList(t) => FlowView::TaskList(views(t@)),
            Flow::Help(a, t) => FlowView::Help(views(a@), views(t@)),
            Flow::Usage => FlowView::Usage,
            Flow::Run(s, d, v) => FlowView::Run(step_views(s@), *d, *v),
        }
    }
}

/// A flow result as plain values.
pub open spec fn flow_result(r: Result<Flow, GlitterError>) -> Result<FlowView, ErrorView> {
    match r {
        Ok(f) => Ok(f@),
        Err(e) => Err(e@),
    }
}

/// The names of the configured tasks, in order.
pub open spec fn task_names(config: &GlitterRc) -> Seq<Seq<char>> {
    tasks_of(config).map_values(|t: CustomTaskOptions| t.name@)
}

fn names_of(tasks: &Vec<CustomTaskOptions>) -> (r: Vec<String>)
    ensures
        views(r@) == tasks@.map_values(|t: CustomTaskOptions| t.name@),
{
    let mut out: Vec<String> = Vec::new();
    let mut i: usize = 0;
    while i < tasks.len()
        invariant
            i <= tasks.len(),
            out.len() == i,
            forall|k: int| 0 <= k < i ==> #[trigger] out@[k]@ == tasks@[k].name@,
        decreases tasks.len() - i,
    {
        let n = tasks[i].name.clone();
        out.push(n);
        i = i + 1;
    }
    assert(views(out@) =~= tasks@.map_values(|t: CustomTaskOptions| t.name@));
    out
}

fn configured_names(config: &GlitterRc) -> (r: Vec<String>)
    ensures
        views(r@) == task_names(config),
{
    match &config.custom_tasks {
        Some(t) => names_of(t),
        None => {
            let r: Vec<String> = Vec::new();
            assert(views(r@) =~= task_names(config));
            r
        },
    }
}

/// The flow a task name asks for, or `missing` where no task answers to it.
pub open spec fn task_flow(
    config: &GlitterRc,
    name: Seq<char>,
    dry: bool,
    verbose: bool,
    missing: ErrorView,
) -> Result<FlowView, ErrorView> {
    match resolved(tasks_of(config), name) {
        Some(k) => Ok(FlowView::Run(task_steps(tasks_of(config)[k]), dry, verbose)),
        None => Err(missing),
    }
}

fn run_task(config: &GlitterRc, name: &str, dry: bool, verbose: bool) -> (r: Option<Flow>)
    ensures
        match r {
            Some(f) => task_flow(config, name@, dry, verbose, ErrorView::NotARepository) == Ok::<
                FlowView,
                ErrorView,
            >(f@),
            None => resolved(tasks_of(config), name@) is None,
        },
{
    match &config.custom_tasks {
        Some(tasks) => match resolve(tasks, name) {
            Some(k) => Some(Flow::Run(steps_of_task(&tasks[k]), dry, verbose)),
            None => None,
        },
        None => None,
    }
}

/// The flow of `cc`: with no subcommand, usage; `list`, the task names;
/// `help`, the subcommands and the task names (both compared without regard
/// to case); any other name, the steps of the task that answers to it.
pub open spec fn cc_spec(config: &GlitterRc, args: &Arguments, dry: bool, verbose: bool) -> Result<
    FlowView,
    ErrorView,
> {
    if args.arguments.len() == 0 {
        Ok(FlowView::Usage)
    } else {
        let first = args.arguments@[0]@;
        if lower_of(first) == "list"@ {
            Ok(FlowView::TaskList(task_names(config)))
        } else if lower_of(first) == "help"@ {
            Ok(FlowView::Help(seq!["list"@, "help"@], task_names(config)))
        } else {
            task_flow(config, first, dry, verbose, ErrorView::UnknownCustomTask(first))
        }
    }
}

/// Decides the `cc` subcommand.
pub fn cc(config: &GlitterRc, args: &Arguments, dry: bool, verbose: bool) -> (r: Result<
    Flow,
    GlitterError,
>)
    ensures
        flow_result(r) == cc_spec(config, args, dry, verbose),
{
    if args.arguments.len() == 0 {
        return Ok(Flow::Usage);
    }
    let first = args.arguments[0].as_str();
    let l = lowercase(first);
    if str_eq(l.as_str(), "list") {
        Ok(Flow::TaskList(configured_names(config)))
    } else if str_eq(l.as_str(), "help") {
        Ok(Flow::Help(pair("list", "help"), configured_names(config)))
    } else {
        match run_task(config, first, dry, verbose) {
            Some(f) => Ok(f),
            None => Err(GlitterError::UnknownCustomTask(owned(first))),
        }
    }
}

/// The step of `undo`: `git reset --soft HEAD~1`.
pub open spec fn undo_step() -> StepView {
    git_step(seq!["reset"@, "--soft"@, "HEAD~1"@])
}

/// Decides `undo`: a soft reset of the last commit.
pub fn undo(dry: bool, verbose: bool) -> (r: Result<Flow, GlitterError>)
    ensures
        flow_result(r) == Ok::<FlowView, ErrorView>(FlowView::Run(seq![undo_step()], dry, verbose)),
{
    let mut a = pair("reset", "--soft");
    let ghost two = views(a@);
    a.push(owned("HEAD~1"));
    assert(views(a@) =~= two.push("HEAD~1"@));
    assert(views(a@) =~= seq!["reset"@, "--soft"@, "HEAD~1"@]);
    let s = git(a);
    let mut steps: Vec<Step> = Vec::new();
    steps.push(s);
    assert(step_views(steps@) =~= seq![undo_step()]);
    Ok(Flow::Run(steps, dry, verbose))
}

/// `s` is wrapped in double quotes.
pub open spec fn is_quoted(s: Seq<char>) -> bool {
    s.len() >= 2 && s[0] == '"' && s.last() == '"'
}

/// The quoted items, in order, without their quotes; the others are left out.
pub open spec fn unquoted(items: Seq<Seq<char>>) -> Seq<Seq<char>>
    decreases items.len(),
{
    if items.len() == 0 {
        Seq::empty()
    } else {
        let front = unquoted(items.drop_last());
        if is_quoted(items.last()) {
            front.push(items.last().subrange(1, items.last().len() - 1))
        } else {
            front
        }
    }
}

/// The names of a list of match patterns: each quoted pattern without its
/// quotes; a pattern that is not quoted (the catch-all) is left out.
pub fn action(input: Vec<&str>) -> (r: Result<Vec<String>, GlitterError>)
    ensures
        r matches Ok(names) && views(names@) == unquoted(input@.map_values(|s: &str| s@)),
{
    let ghost items = input@.map_values(|s: &str| s@);
    let mut out: Vec<String> = Vec::new();
    let mut i: usize = 0;
    while i < input.len()
        invariant
            items == input@.map_values(|s: &str| s@),
            i <= input.len(),
            views(out@) == unquoted(items.subrange(0, i as int)),
        decreases input.len() - i,
    {
        let s: &str = input[i];
        let ghost pre = items.subrange(0, i as int);
        assert(items.subrange(0, i as int + 1).drop_last() =~= pre);
        assert(items.subrange(0, i as int + 1).last() == s@);
        let n = s.unicode_len();
        if n >= 2 && s.get_char(0) == '"' && s.get_char(n - 1) == '"' {
            let inner = s.substring_char(1, n - 1).to_owned();
            let ghost before = views(out@);
            out.push(inner);
            assert(views(out@) =~= before.push(s@.subrange(1, s@.len() - 1)));
        }
        i = i + 1;
    }
    assert(items.subrange(0, input.len() as int) =~= items);
    Ok(out)
}

/// The built-in actions.
pub open spec fn builtin_actions() -> Seq<Seq<char>> {
    seq!["push"@, "commit"@, "action"@, "actions"@, "cc"@, "undo"@]
}

fn action_names() -> (r: Vec<String>)
    ensures
        views(r@) == builtin_actions(),
{
    let mut v = pair("push", "commit");
    let ghost two = views(v@);
    let a = owned("action");
    let b = owned("actions");
    let c = owned("cc");
    let d = owned("undo");
    v.push(a);
    v.push(b);
    v.push(c);
    v.push(d);
    assert(views(v@) =~= two + seq![a@, b@, c@, d@]);
    assert(views(v@) =~= builtin_actions());
    v
}

/// The verbose setting: the flag where it was given, else the configuration,
/// else off.
pub open spec fn verbose_of(args: &Arguments, config: &GlitterRc) -> bool {
    if args.verbose is Some {
        flag_set(args.verbose)
    } else {
        match config.verbose {
            Some(v) => v,
            None => false,
        }
    }
}

/// The flow an invocation asks for. The action is compared without regard
/// to case: `push` and `commit` ask for a commit, `action` and `actions` for
/// the list of actions, `cc` for a subcommand, `undo` for a soft reset; any
/// other action names a task, whose steps are run.
pub open spec fn dispatch(args: &Arguments, config: &GlitterRc) -> Result<FlowView, ErrorView> {
    let a = lower_of(args.action@);
    let dry = flag_set(args.dry);
    let verbose = verbose_of(args, config);
    let request = CommitRequest {
        push: a == "push"@,
        dry,
        raw: flag_set(args.raw),
        skip_verify: flag_set(args.skip_verify),
        verbose,
        no_add: flag_set(args.no_add),
    };
    if a == "push"@ || a == "commit"@ {
        Ok(FlowView::Commit(request))
    } else if a == "action"@ || a == "actions"@ {
        Ok(FlowView::Actions(builtin_actions()))
    } else if a == "cc"@ {
        cc_spec(config, args, dry, verbose)
    } else if a == "undo"@ {
        Ok(FlowView::Run(seq![undo_step()], dry, verbose))
    } else {
        task_flow(config, args.action@, dry, verbose, ErrorView::NotAnAction(args.action@))
    }
}

/// Decides the flow of an invocation.
pub fn match_cmds(args: &Arguments, config: &GlitterRc) -> (r: Result<Flow, GlitterError>)
    ensures
        flow_result(r) == dispatch(args, config),
{
    let dry = args.dry();
    let flag = args.verbose();
    let verbose = if flag.provided {
        flag.value
    } else {
        match config.verbose {
            Some(v) => v,
            None => false,
        }
    };
    let a = lowercase(args.action.as_str());
    let a = a.as_str();
    let is_push = str_eq(a, "push");
    if is_push || str_eq(a, "commit") {
        Ok(
            Flow::Commit(
                CommitRequest {
                    push: is_push,
                    dry,
                    raw: args.raw(),
                    skip_verify: args.skip_verify(),
                    verbose,
                    no_add: args.no_add(),
                },
            ),
        )
    } else if str_eq(a, "action") || str_eq(a, "actions") {
        Ok(Flow::Actions(action_names()))
    } else if str_eq(a, "cc") {
        cc(config, args, dry, verbose)
    } else if str_eq(a, "undo") {
        undo(dry, verbose)
    } else {
        match run_task(config, args.action.as_str(), dry, verbose) {
            Some(f) => Ok(f),
            None => Err(GlitterError::NotAnAction(args.action.clone())),
        }
    }
}

proof fn lemma_unknown_hook_is_error(tasks: Seq<CustomTaskOptions>, hooks: Seq<Seq<char>>, i: int)
    requires
        0 <= i < hooks.len(),
        resolved(tasks, hooks[i]) is None,
    ensures
        hook_steps(tasks, hooks) is Err,
    decreases hooks.len(),
{
    if i < hooks.len() - 1 {
        assert(hooks.drop_last()[i] == hooks[i]);
        lemma_unknown_hook_is_error(tasks, hooks.drop_last(), i);
    }
}

/// A hook that names no task stops a commit, and a push, before any step:
/// no plan is made, so neither an earlier step nor one of another hook runs.
pub proof fn lemma_unknown_hook_aborts(
    config: &GlitterRc,
    args: &Arguments,
    raw: bool,
    skip_verify: bool,
    no_add: bool,
    branch_output: Seq<char>,
    i: int,
)
    requires
        !skip_verify,
        0 <= i < hooks_of(config).len(),
        resolved(tasks_of(config), hooks_of(config)[i]) is None,
    ensures
        commit_spec(config, args, raw, skip_verify, no_add, true) is Err,
        push_spec(config, args, raw, skip_verify, no_add, true, branch_output) is Err,
{
    lemma_unknown_hook_is_error(tasks_of(config), hooks_of(config), i);
}

/// An action or a `cc` subcommand that names no task and nothing built in
/// is an error, with no step to run.
pub proof fn lemma_unknown_task_aborts(args: &Arguments, config: &GlitterRc)
    ensures
        ({
            let a = lower_of(args.action@);
            a != "push"@ && a != "commit"@ && a != "action"@ && a != "actions"@ && a != "cc"@ && a
                != "undo"@ && resolved(tasks_of(config), args.action@) is None
        }) ==> dispatch(args, config) == Err::<FlowView, ErrorView>(
            ErrorView::NotAnAction(args.action@),
        ),
        (lower_of(args.action@) == "cc"@ && args.arguments.len() > 0 && lower_of(
            args.arguments@[0]@,
        ) != "list"@ && lower_of(args.arguments@[0]@) != "help"@ && resolved(
            tasks_of(config),
            args.arguments@[0]@,
        ) is None) ==> dispatch(args, config) == Err::<FlowView, ErrorView>(
            ErrorView::UnknownCustomTask(args.arguments@[0]@),
        ),
{
    reveal_strlit("cc");
    reveal_strlit("push");
    reveal_strlit("commit");
    reveal_strlit("action");
    reveal_strlit("actions");
    assert("cc"@ != "push"@ && "cc"@ != "commit"@ && "cc"@ != "action"@ && "cc"@ != "actions"@)
        by {
        assert("cc"@.len() != "push"@.len());
        assert("cc"@.len() != "commit"@.len());
        assert("cc"@.len() != "action"@.len());
        assert("cc"@.len() != "actions"@.len());
    }
}

} // verus!
