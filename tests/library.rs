use std::path::PathBuf;

use glitter::case::{apply_case, case_transform_of, CaseTransform};
use glitter::cli::{action, cc, commit, match_cmds, push, undo, CommitPlan, Flow};
use glitter::config::{
    commit_msg, commit_msg_arguments, Arguments, CommitMessageArguments, CustomTaskOptions,
    GlitterError, GlitterRc,
};
use glitter::runner::{classify_exit, RunAction, RunEvent, Runner, StepOutcome};
use glitter::tasks::{resolve, step_of_line, Step};
use glitter::template::{expand, raw_commit_message};
use glitter::text::{first_line_of, join_from, split_at_spaces};

fn strings(items: &[&str]) -> Vec<String> {
    items.iter().map(|s| s.to_string()).collect()
}

fn invocation(action: &str, arguments: &[&str]) -> Arguments {
    Arguments {
        action: action.to_string(),
        arguments: strings(arguments),
        rc_path: PathBuf::new(),
        dry: None,
        raw: None,
        skip_verify: None,
        verbose: None,
        no_add: None,
    }
}

fn task(name: &str, lines: &[&str]) -> CustomTaskOptions {
    CustomTaskOptions { name: name.to_string(), execute: Some(strings(lines)) }
}

fn settings(template: &str) -> GlitterRc {
    GlitterRc {
        commit_message: template.to_string(),
        arguments: None,
        commit_message_arguments: None,
        fetch: None,
        custom_tasks: Some(vec![task("fmt", &["cargo fmt"])]),
        __default: None,
        hooks: None,
        verbose: None,
    }
}

fn rule(index: i32, case: Option<&str>, allowed: Option<&[&str]>) -> CommitMessageArguments {
    CommitMessageArguments {
        argument: index,
        case: case.map(|c| c.to_string()),
        type_enums: allowed.map(strings),
    }
}

fn expanded(template: &str, args: &[&str], rules: Vec<CommitMessageArguments>) -> Result<String, GlitterError> {
    expand(template, &strings(args), &rules)
}

fn shown(steps: &[Step]) -> Vec<String> {
    steps.iter().map(|s| format!("{} {}", s.program, s.args.join(" "))).collect()
}

fn plan_steps(r: Result<CommitPlan, GlitterError>) -> Vec<String> {
    shown(&r.unwrap().steps)
}

#[test]
fn plain_tokens_are_replaced_in_place() {
    assert_eq!(expanded("$2 $1", &["a", "b"], vec![]).unwrap(), "b a");
    assert_eq!(expanded("$1-$1", &["x"], vec![]).unwrap(), "x-x");
}

#[test]
fn plain_tokens_match_sequential_replacement() {
    let args = ["fix", "parser", "crash"];
    let template = "$3 in $1: $2 ($1)";
    let mut manual = template.to_string();
    for (i, a) in args.iter().enumerate() {
        manual = manual.replace(&format!("${}", i + 1), a);
    }
    assert_eq!(expanded(template, &args, vec![]).unwrap(), manual);
}

#[test]
fn rest_token_joins_from_its_index() {
    assert_eq!(expanded("$2+", &["a", "b", "c"], vec![]).unwrap(), "b c");
    assert_eq!(expanded("$1+", &["test", "a"], vec![]).unwrap(), "test a");
}

#[test]
fn rest_token_single_argument() {
    assert_eq!(expanded("$1+", &["only"], vec![]).unwrap(), "only");
}

#[test]
fn missing_plain_argument_is_reported_first() {
    let r = expanded("$1($2): $3+", &["test"], vec![]);
    assert!(matches!(r, Err(GlitterError::MissingArgument(2))));
}

#[test]
fn missing_rest_argument_is_reported() {
    let r = expanded("$1($2): $3+", &["test", "a"], vec![]);
    assert!(matches!(r, Err(GlitterError::MissingRestArgument(3))));
    let r = expanded("$5+", &["a"], vec![]);
    assert!(matches!(r, Err(GlitterError::MissingRestArgument(5))));
}

#[test]
fn empty_arguments_and_rest() {
    let r = expanded("$1+", &[], vec![]);
    assert!(matches!(r, Err(GlitterError::MissingRestArgument(1))));
    assert_eq!(expanded("", &[], vec![]).unwrap(), "");
}

#[test]
fn dollar_without_digit_is_text() {
    assert_eq!(expanded("cost $x $0 $", &[], vec![]).unwrap(), "cost $x $0 $");
}

#[test]
fn enum_rule_accepts_listed_value() {
    let allowed: &[&str] = &["fix", "feat", "chore"];
    let r = expanded("$1: $2: $3+", &["feat", "test", "tests"], vec![rule(1, Some("snake"), Some(allowed))]);
    assert_eq!(r.unwrap(), "feat: test: tests");
}

#[test]
fn enum_rule_rejects_other_value() {
    let allowed: &[&str] = &["fix", "feat", "chore"];
    let r = expanded("$1: $2: $3+", &["bogus", "test", "tests"], vec![rule(1, Some("snake"), Some(allowed))]);
    match r {
        Err(GlitterError::InvalidEnumValue(1, v)) => assert_eq!(v, strings(allowed)),
        other => panic!("unexpected {:?}", other),
    }
}

#[test]
fn first_rule_on_an_index_wins() {
    let rules = vec![rule(1, Some("upper"), None), rule(1, Some("lower"), None)];
    assert_eq!(expanded("$1", &["MiXed"], rules).unwrap(), "MIXED");
}

#[test]
fn rest_token_is_not_transformed() {
    let rules = vec![rule(1, Some("upper"), None)];
    assert_eq!(expanded("$1 $1+", &["ab", "cd"], rules).unwrap(), "AB ab cd");
}

#[test]
fn unknown_case_leaves_value() {
    let rules = vec![rule(1, Some("weird"), None)];
    assert_eq!(expanded("$1", &["MiXed"], rules).unwrap(), "MiXed");
    assert_eq!(case_transform_of("weird"), None);
    assert_eq!(case_transform_of("SNAKE"), Some(CaseTransform::Snake));
    assert_eq!(case_transform_of("Screaming-Snake"), Some(CaseTransform::ScreamingSnake));
}

#[test]
fn case_transforms() {
    assert_eq!(apply_case(CaseTransform::Lower, "MiXed"), "mixed");
    assert_eq!(apply_case(CaseTransform::Upper, "MiXed"), "MIXED");
    assert_eq!(apply_case(CaseTransform::Snake, "helloWorld"), "hello_world");
    assert_eq!(apply_case(CaseTransform::ScreamingSnake, "helloWorld"), "HELLO_WORLD");
    assert_eq!(apply_case(CaseTransform::Kebab, "helloWorld"), "hello-world");
    assert_eq!(apply_case(CaseTransform::Train, "helloWorld"), "Hello-World");
    assert_eq!(apply_case(CaseTransform::Sentence, "helloWorld"), "Hello world");
    assert_eq!(apply_case(CaseTransform::Title, "helloWorld"), "Hello World");
    assert_eq!(apply_case(CaseTransform::Pascal, "hello_world"), "HelloWorld");
}

#[test]
fn case_rule_through_template() {
    let rules = vec![rule(1, Some("kebab"), None)];
    assert_eq!(expanded("[$1]", &["helloWorld"], rules).unwrap(), "[hello-world]");
}

#[test]
fn plain_and_rest_forms_are_independent() {
    assert_eq!(expanded("$1 | $1+", &["a", "b"], vec![]).unwrap(), "a | a b");
}

#[test]
fn expanding_twice_changes_nothing() {
    let once = expanded("$1($2): $3+ : $2 | $1+", &["test", "a", "b", "c"], vec![]).unwrap();
    let twice = expanded(&once, &["test", "a", "b", "c"], vec![]).unwrap();
    assert_eq!(once, twice);
}

#[test]
fn substituted_values_are_not_expanded_again() {
    assert_eq!(expanded("$1 $2", &["$2", "x"], vec![]).unwrap(), "$2 x");
}

#[test]
fn raw_message_joins_all_arguments() {
    assert_eq!(raw_commit_message(&invocation("commit", &["a", "$1", "c"])).unwrap(), "a $1 c");
    assert!(matches!(raw_commit_message(&invocation("commit", &[])), Err(GlitterError::MissingRestArgument(1))));
}

#[test]
fn default_template_and_rules() {
    assert_eq!(commit_msg(), "$1+");
    let rules = commit_msg_arguments();
    assert_eq!(rules.len(), 1);
    assert_eq!(rules[0].argument, 0);
    assert_eq!(rules[0].case.as_deref(), Some("standard"));
}

#[test]
fn flags_resolve() {
    let mut a = invocation("push", &[]);
    assert!(!a.dry());
    a.dry = Some(None);
    assert!(a.dry());
    a.dry = Some(Some(false));
    assert!(!a.dry());
    let v = a.verbose();
    assert!(!v.provided && !v.value);
}

#[test]
fn text_helpers() {
    assert_eq!(join_from(&strings(&["a", "b", "c"]), 1), "b c");
    assert_eq!(join_from(&strings(&["a"]), 1), "");
    assert_eq!(split_at_spaces("cargo  fmt"), strings(&["cargo", "", "fmt"]));
    assert_eq!(first_line_of("main\nrest"), "main");
    assert_eq!(first_line_of("main"), "main");
}

#[test]
fn resolve_ignores_case() {
    let tasks = vec![task("fmt", &["cargo fmt"]), task("FMT", &["other"]), task("lint", &[])];
    assert_eq!(resolve(&tasks, "FMT"), Some(0));
    assert_eq!(resolve(&tasks, "Lint"), Some(2));
    assert_eq!(resolve(&tasks, "test"), None);
}

#[test]
fn command_line_becomes_step() {
    let s = step_of_line("cargo fmt --all");
    assert_eq!(s.program, "cargo");
    assert_eq!(s.args, strings(&["fmt", "--all"]));
}

#[test]
fn pull_missing_remote_ref_is_warning() {
    let pull = strings(&["pull", "origin", "main"]);
    let err = b"fatal: couldn't find remote ref main\n";
    assert_eq!(classify_exit(&pull, false, b"", err), StepOutcome::Warning);
    assert_eq!(classify_exit(&pull, false, err, b""), StepOutcome::Warning);
    assert_eq!(classify_exit(&pull, false, b"", b"fatal: other"), StepOutcome::Fatal);
    let up = strings(&["push", "origin", "main"]);
    assert_eq!(classify_exit(&up, false, b"", err), StepOutcome::Fatal);
    assert_eq!(classify_exit(&up, true, b"", b""), StepOutcome::Success);
}

#[test]
fn runner_goes_on_after_warning_and_stops_on_failure() {
    let steps = vec![step_of_line("git pull origin main"), step_of_line("git push origin main")];
    let mut r = Runner::new(steps, false);
    assert_eq!(r.next_action(), RunAction::Execute(0));
    let o = r.handle(RunEvent::Exited(false, vec![], b"fatal: couldn't find remote ref main".to_vec()));
    assert_eq!(o, StepOutcome::Warning);
    assert_eq!(r.next_action(), RunAction::Execute(1));
    let o = r.handle(RunEvent::Exited(false, b"out".to_vec(), b"err".to_vec()));
    assert_eq!(o, StepOutcome::Fatal);
    assert_eq!(r.next_action(), RunAction::Failed);
    match &r.failure {
        Some(GlitterError::CommandFailed(p, a, o, e)) => {
            assert_eq!(p, "git");
            assert_eq!(a, &strings(&["push", "origin", "main"]));
            assert_eq!(o, b"out");
            assert_eq!(e, b"err");
        }
        other => panic!("unexpected {:?}", other),
    }
}

#[test]
fn runner_missing_binary_and_dry_run() {
    let mut r = Runner::new(vec![step_of_line("nosuch x")], false);
    assert_eq!(r.handle(RunEvent::BinaryMissing), StepOutcome::Fatal);
    assert!(matches!(&r.failure, Some(GlitterError::BinaryNotFound(p)) if p == "nosuch"));
    let mut d = Runner::new(vec![step_of_line("git status")], true);
    assert_eq!(d.next_action(), RunAction::Preview(0));
    assert_eq!(d.handle(RunEvent::Previewed), StepOutcome::Success);
    assert_eq!(d.next_action(), RunAction::Finished);
}

#[test]
fn commit_plan_steps() {
    let mut config = settings("$1");
    config.fetch = Some(true);
    config.hooks = Some(strings(&["FMT"]));
    let args = invocation("commit", &["msg"]);
    let steps = plan_steps(commit(&config, &args, false, false, false, false, false, true));
    assert_eq!(steps, strings(&["git fetch", "cargo fmt", "git add .", "git commit -m msg"]));
}

#[test]
fn commit_plan_skip_verify_and_no_add() {
    let mut config = settings("$1");
    config.hooks = Some(strings(&["missing"]));
    let args = invocation("commit", &["msg"]);
    let plan = commit(&config, &args, true, false, true, false, true, true).unwrap();
    assert!(plan.dry && plan.skip_verify && plan.no_add);
    assert_eq!(plan.message, "msg");
    assert_eq!(shown(&plan.steps), strings(&["git commit -m msg --no-verify"]));
}

#[test]
fn commit_plan_errors() {
    let mut config = settings("$1");
    let args = invocation("commit", &["msg"]);
    assert!(matches!(commit(&config, &args, false, false, false, false, false, false), Err(GlitterError::NotARepository)));
    config.hooks = Some(strings(&["fmt", "missing"]));
    config.fetch = Some(true);
    match commit(&config, &args, false, false, false, false, false, true) {
        Err(GlitterError::UnknownHook(h)) => assert_eq!(h, "missing"),
        _ => panic!("an unknown hook must stop the commit"),
    }
    let empty = invocation("commit", &[]);
    assert!(matches!(commit(&config, &empty, false, false, false, false, false, true), Err(GlitterError::MissingArgument(1))));
}

#[test]
fn push_plan_adds_pull_and_push() {
    let config = settings("$1+");
    let args = invocation("push", &["a", "b"]);
    let steps = plan_steps(push(&config, &args, false, false, false, false, false, true, "main\n"));
    assert_eq!(
        steps,
        strings(&["git add .", "git commit -m a b", "git pull origin main", "git push origin main"])
    );
    let steps = plan_steps(push(&config, &args, false, true, true, false, true, true, "dev"));
    assert_eq!(
        steps,
        strings(&[
            "git commit -m a b --no-verify",
            "git pull origin dev --no-verify",
            "git push origin dev --no-verify"
        ])
    );
}

#[test]
fn cc_subcommands() {
    let config = settings("$1");
    assert!(matches!(cc(&config, &invocation("cc", &[]), false, false), Ok(Flow::Usage)));
    match cc(&config, &invocation("cc", &["LIST"]), false, false) {
        Ok(Flow::TaskList(n)) => assert_eq!(n, strings(&["fmt"])),
        _ => panic!("list expected"),
    }
    match cc(&config, &invocation("cc", &["help"]), false, false) {
        Ok(Flow::Help(s, n)) => {
            assert_eq!(s, strings(&["list", "help"]));
            assert_eq!(n, strings(&["fmt"]));
        }
        _ => panic!("help expected"),
    }
    match cc(&config, &invocation("cc", &["Fmt"]), true, false) {
        Ok(Flow::Run(steps, dry, _)) => {
            assert!(dry);
            assert_eq!(shown(&steps), strings(&["cargo fmt"]));
        }
        _ => panic!("run expected"),
    }
    match cc(&config, &invocation("cc", &["nope"]), false, false) {
        Err(GlitterError::UnknownCustomTask(n)) => assert_eq!(n, "nope"),
        _ => panic!("error expected"),
    }
}

#[test]
fn undo_resets_softly() {
    match undo(false, true) {
        Ok(Flow::Run(steps, false, true)) => assert_eq!(shown(&steps), strings(&["git reset --soft HEAD~1"])),
        _ => panic!("run expected"),
    }
}

#[test]
fn dispatch_actions() {
    let mut config = settings("$1");
    config.verbose = Some(true);
    match match_cmds(&invocation("PUSH", &["a"]), &config) {
        Ok(Flow::Commit(q)) => assert!(q.push && q.verbose && !q.dry),
        _ => panic!("commit expected"),
    }
    match match_cmds(&invocation("commit", &["a"]), &config) {
        Ok(Flow::Commit(q)) => assert!(!q.push),
        _ => panic!("commit expected"),
    }
    match match_cmds(&invocation("actions", &[]), &config) {
        Ok(Flow::Actions(a)) => assert_eq!(a, strings(&["push", "commit", "action", "actions", "cc", "undo"])),
        _ => panic!("actions expected"),
    }
    match match_cmds(&invocation("fmt", &[]), &config) {
        Ok(Flow::Run(steps, _, true)) => assert_eq!(shown(&steps), strings(&["cargo fmt"])),
        _ => panic!("task expected"),
    }
    match match_cmds(&invocation("zzz", &[]), &config) {
        Err(GlitterError::NotAnAction(a)) => assert_eq!(a, "zzz"),
        _ => panic!("error expected"),
    }
}

#[test]
fn action_strips_quotes() {
    assert_eq!(action(vec!["\"push\"", "_", "\"cc\"", "\""]).unwrap(), strings(&["push", "cc"]));
    assert_eq!(action(vec!["test"]).unwrap(), Vec::<String>::new());
}
