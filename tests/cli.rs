use substrace::cli::SubstraceCmd;

fn words(s: &str) -> Vec<String> {
    s.split_whitespace().map(ToString::to_string).collect()
}

#[test]
fn fix() {
    let cmd = SubstraceCmd::new(words("cargo substrace --fix"));
    assert_eq!("fix", cmd.cargo_subcommand);
    assert!(!cmd.args.iter().any(|arg| arg.ends_with("unstable-options")));
}

#[test]
fn fix_implies_no_deps() {
    let cmd = SubstraceCmd::new(words("cargo substrace --fix"));
    assert!(cmd.substrace_args.iter().any(|arg| arg == "--no-deps"));
}

#[test]
fn no_deps_not_duplicated_with_fix() {
    let cmd = SubstraceCmd::new(words("cargo substrace --fix -- --no-deps"));
    assert_eq!(cmd.substrace_args.iter().filter(|arg| *arg == "--no-deps").count(), 1);
}

#[test]
fn check() {
    let cmd = SubstraceCmd::new(words("cargo substrace"));
    assert_eq!("check", cmd.cargo_subcommand);
}

#[test]
fn arguments_are_split_at_the_separator() {
    let cmd = SubstraceCmd::new(words("--no-deps --all-targets -- -W foo"));
    assert_eq!("check", cmd.cargo_subcommand);
    assert_eq!(cmd.args, vec!["--all-targets".to_string()]);
    assert_eq!(
        cmd.substrace_args,
        vec!["--no-deps".to_string(), "-W".to_string(), "foo".to_string()]
    );
}

#[test]
fn empty_command_line_checks() {
    let cmd = SubstraceCmd::new(Vec::new());
    assert_eq!("check", cmd.cargo_subcommand);
    assert!(cmd.args.is_empty());
    assert!(cmd.substrace_args.is_empty());
}
