use substrace::diagnostics::{Applicability, Finding, Span};
use substrace::no_panics::{extract_clippy_lint, format_help, LintAttribute, Panics, RequiredAttributes};

fn lint(segs: &[&str]) -> Vec<String> {
    segs.iter().map(|s| s.to_string()).collect()
}

fn attr(name: &str, lints: &[&[&str]]) -> LintAttribute {
    LintAttribute { name: name.to_string(), items: lints.iter().map(|l| lint(l)).collect() }
}

#[test]
fn lint_names_round_trip() {
    for a in [
        RequiredAttributes::DisallowedMethod,
        RequiredAttributes::IndexingSlicing,
        RequiredAttributes::Todo,
        RequiredAttributes::UnwrapUsed,
        RequiredAttributes::Panic,
    ] {
        assert_eq!(RequiredAttributes::from_str(&a.to_string()), Ok(a));
    }
    assert_eq!(RequiredAttributes::from_str("disallowed_method"), Err(()));
    assert_eq!(RequiredAttributes::DisallowedMethod.to_string(), "disallowed_methods");
}

#[test]
fn only_clippy_paths_name_lints() {
    assert_eq!(extract_clippy_lint(&lint(&["clippy", "todo"])), Some(RequiredAttributes::Todo));
    assert_eq!(extract_clippy_lint(&lint(&["todo"])), None);
    assert_eq!(extract_clippy_lint(&lint(&["rustc", "panic"])), None);
    assert_eq!(extract_clippy_lint(&lint(&["clippy", "needless_return"])), None);
}

#[test]
fn all_lints_enabled_gives_no_report() {
    let mut p = Panics::new();
    p.check_attribute(&attr(
        "warn",
        &[&["clippy", "disallowed_methods"], &["clippy", "indexing_slicing"], &["clippy", "todo"]],
    ));
    p.check_attribute(&attr("deny", &[&["clippy", "unwrap_used"], &["clippy", "panic"]]));
    assert!(p.check_crate_post(Some("#")).is_none());
}

#[test]
fn allow_does_not_enable() {
    let mut p = Panics::new();
    p.check_attribute(&attr("allow", &[&["clippy", "todo"]]));
    assert!(!p.todo);
    p.check_attribute(&attr("forbid", &[&["clippy", "todo"]]));
    assert!(p.todo);
}

#[test]
fn missing_lints_are_suggested() {
    let mut p = Panics::new();
    p.check_attribute(&attr("warn", &[&["clippy", "todo"], &["clippy", "panic"]]));
    assert_eq!(
        format_help(&p),
        "#![warn(\n    clippy::disallowed_methods,\n    clippy::indexing_slicing,\n    clippy::unwrap_used,\n)]\n"
    );
    let d = p.check_crate_post(Some("u")).unwrap();
    assert_eq!(d.finding, Finding::MissingPanicLints);
    assert_eq!(d.span, Span { lo: 0, hi: 1 });
    assert_eq!(d.applicability, Applicability::MachineApplicable);
    assert_eq!(
        d.suggestion.as_deref(),
        Some("#![warn(\n    clippy::disallowed_methods,\n    clippy::indexing_slicing,\n    clippy::unwrap_used,\n)]\nu")
    );
    assert!(p.check_crate_post(None).is_none());
}
