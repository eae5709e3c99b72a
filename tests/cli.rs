use std::path::PathBuf;

use glitter::cli::match_cmds;
use glitter::cli::action;
use glitter::config::{Arguments, CommitMessageArguments, CustomTaskOptions, GlitterRc};
use glitter::template::get_commit_message;

#[test]
fn basic() {
    let args = Arguments {
        action: "push".to_string(),
        arguments: vec![
            "test".to_string(),
            "a".to_string(),
            "b".to_string(),
            "c".to_string(),
        ],
        rc_path: PathBuf::new(),
        dry: Some(Some(false)),
        raw: Some(Some(false)),
        skip_verify: Some(Some(false)),
        verbose: Some(Some(false)),
        no_add: Some(Some(false)),
    };

    let config = GlitterRc {
        commit_message: "$1($2): $3+".to_string(),
        arguments: None,
        commit_message_arguments: None,
        fetch: None,
        custom_tasks: Some(vec![CustomTaskOptions {
            name: "fmt".to_owned(),
            execute: Some(vec!["cargo fmt".to_owned()]),
        }]),
        __default: None,
        hooks: None,
        verbose: None,
    };

    assert_eq!(get_commit_message(&config, &args).unwrap(), "test(a): b c")
}

#[test]
fn reuse_arguments() {
    let args = Arguments {
        action: "push".to_string(),
        arguments: vec![
            "test".to_string(),
            "a".to_string(),
            "b".to_string(),
            "c".to_string(),
        ],
        rc_path: PathBuf::new(),
        dry: Some(Some(false)),
        raw: Some(Some(false)),
        skip_verify: Some(Some(false)),
        verbose: Some(Some(false)),
        no_add: Some(Some(false)),
    };

    let config = GlitterRc {
        commit_message: "$1($2): $3+ : $2 | $1+".to_string(),
        arguments: None,
        commit_message_arguments: None,
        fetch: None,
        custom_tasks: Some(vec![CustomTaskOptions {
            name: "fmt".to_owned(),
            execute: Some(vec!["cargo fmt".to_owned()]),
        }]),
        __default: None,
        hooks: None,
        verbose: None,
    };

    assert_eq!(
        get_commit_message(&config, &args).unwrap(),
        "test(a): b c : a | test a b c"
    )
}

#[test]
fn less_than_required_args() {
    let args = Arguments {
        action: "push".to_string(),
        arguments: vec!["test".to_string(), "a".to_string()],
        rc_path: PathBuf::new(),
        dry: Some(Some(false)),
        raw: Some(Some(false)),
        skip_verify: Some(Some(false)),
        verbose: Some(Some(false)),
        no_add: Some(Some(false)),
    };

    let args_2 = Arguments {
        action: "push".to_string(),
        arguments: vec!["test".to_string()],
        rc_path: PathBuf::new(),
        dry: Some(Some(false)),
        raw: Some(Some(false)),
        skip_verify: Some(Some(false)),
        verbose: Some(Some(false)),
        no_add: Some(Some(false)),
    };

    let config = GlitterRc {
        commit_message: "$1($2): $3+".to_string(),
        arguments: None,
        commit_message_arguments: None,
        fetch: None,
        custom_tasks: Some(vec![CustomTaskOptions {
            name: "fmt".to_owned(),
            execute: Some(vec!["cargo fmt".to_owned()]),
        }]),
        __default: None,
        hooks: None,
        verbose: None,
    };

    let config_2 = GlitterRc {
        commit_message: "$1($2): $3+".to_string(),
        arguments: None,
        commit_message_arguments: None,
        fetch: None,
        custom_tasks: Some(vec![CustomTaskOptions {
            name: "fmt".to_owned(),
            execute: Some(vec!["cargo fmt".to_owned()]),
        }]),
        __default: None,
        hooks: None,
        verbose: None,
    };

    assert!(get_commit_message(&config, &args).is_err());
    assert!(get_commit_message(&config_2, &args_2).is_err());
}

#[test]
fn no_commit_message_format() {
    let args = Arguments {
        action: "push".to_string(),
        arguments: vec!["test".to_string(), "a".to_string()],
        rc_path: PathBuf::new(),
        dry: Some(Some(false)),
        raw: Some(Some(false)),
        skip_verify: Some(Some(false)),
        verbose: Some(Some(false)),
        no_add: Some(Some(false)),
    };

    let config = GlitterRc {
        // "$1+" is the default
        commit_message: "$1+".to_string(),
        arguments: None,
        commit_message_arguments: None,
        fetch: None,
        custom_tasks: Some(vec![CustomTaskOptions {
            name: "fmt".to_owned(),
            execute: Some(vec!["cargo fmt".to_owned()]),
        }]),
        __default: None,
        hooks: None,
        verbose: None,
    };

    assert!(get_commit_message(&config, &args).is_ok())
}

#[test]
fn commit_message_arguments() {
    let args = Arguments {
        action: "push".to_string(),
        arguments: vec!["feat".to_string(), "test".to_string(), "tests".to_string()],
        rc_path: PathBuf::new(),
        dry: Some(Some(false)),
        raw: Some(Some(false)),
        skip_verify: Some(Some(false)),
        verbose: Some(Some(false)),
        no_add: Some(Some(false)),
    };

    let config = GlitterRc {
        commit_message: "$1: $2: $3+".to_string(),
        arguments: None,
        commit_message_arguments: Some(vec![CommitMessageArguments {
            argument: 1,
            case: Some("snake".to_string()),
            type_enums: Some(vec![
                "fix".to_owned(),
                "feat".to_owned(),
                "chore".to_owned(),
            ]),
        }]),
        fetch: None,
        custom_tasks: Some(vec![CustomTaskOptions {
            name: "fmt".to_owned(),
            execute: Some(vec!["cargo fmt".to_owned()]),
        }]),
        __default: None,
        hooks: None,
        verbose: None,
    };

    assert_eq!(
        get_commit_message(&config, &args).unwrap(),
        "feat: test: tests"
    )
}

#[test]
fn test_action() {
    assert!(action(vec!["test"]).is_ok())
}

#[test]
fn matching_cmds() {
    let args = Arguments {
        action: "action".to_string(),
        arguments: vec![
            "test".to_string(),
            "a".to_string(),
            "b".to_string(),
            "c".to_string(),
        ],
        rc_path: PathBuf::new(),
        dry: Some(Some(false)),
        raw: Some(Some(false)),
        skip_verify: Some(Some(false)),
        verbose: Some(Some(false)),
        no_add: Some(Some(false)),
    };

    let config = GlitterRc {
        commit_message: "$1($2): $3+".to_string(),
        arguments: None,
        commit_message_arguments: None,
        fetch: None,
        custom_tasks: Some(vec![CustomTaskOptions {
            name: "fmt".to_owned(),
            execute: Some(vec!["cargo fmt".to_owned()]),
        }]),
        __default: None,
        hooks: None,
        verbose: None,
    };

    assert!(match_cmds(&args, &config).is_ok());

    let args = Arguments {
        action: "actions".to_string(),
        arguments: vec![
            "test".to_string(),
            "a".to_string(),
            "b".to_string(),
            "c".to_string(),
        ],
        rc_path: PathBuf::new(),
        dry: Some(Some(false)),
        raw: Some(Some(false)),
        skip_verify: Some(Some(false)),
        verbose: Some(Some(false)),
        no_add: Some(Some(false)),
    };

    let config = GlitterRc {
        commit_message: "$1($2): $3+".to_string(),
        arguments: None,
        commit_message_arguments: None,
        fetch: None,
        custom_tasks: Some(vec![CustomTaskOptions {
            name: "fmt".to_owned(),
            execute: Some(vec!["cargo fmt".to_owned()]),
        }]),
        __default: None,
        hooks: None,
        verbose: None,
    };

    assert!(match_cmds(&args, &config).is_ok());

    let args = Arguments {
        action: "fasdafsfsa".to_string(),
        arguments: vec![
            "test".to_string(),
            "a".to_string(),
            "b".to_string(),
            "c".to_string(),
        ],
        rc_path: PathBuf::new(),
        dry: Some(Some(false)),
        raw: Some(Some(false)),
        skip_verify: Some(Some(false)),
        verbose: Some(Some(false)),
        no_add: Some(Some(false)),
    };

    let config = GlitterRc {
        commit_message: "$1($2): $3+".to_string(),
        arguments: None,
        commit_message_arguments: None,
        fetch: None,
        custom_tasks: Some(vec![CustomTaskOptions {
            name: "fmt".to_owned(),
            execute: Some(vec!["cargo fmt".to_owned()]),
        }]),
        __default: None,
        hooks: None,
        verbose: None,
    };

    assert!(match_cmds(&args, &config).is_err());
}
