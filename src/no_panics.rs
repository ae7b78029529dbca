//! The crate root must enable every clippy lint against panicking code.
use vstd::prelude::*;
use crate::diagnostics::{diag_spec, emit, Applicability, Diagnostic, DiagnosticView, Finding, Span};
use crate::text::{chars_of, push_str, str_eq, string_from_chars, strings_view};

verus! {

/// The clippy lints that must be enabled.
#[derive(Clone, Copy, Debug, PartialEq, Eq, Structural)]
pub enum RequiredAttributes {
    DisallowedMethod,
    IndexingSlicing,
    Todo,
    UnwrapUsed,
    Panic,
}

/// The name clippy gives each lint.
pub open spec fn lint_name(a: RequiredAttributes) -> Seq<char> {
    match a {
        RequiredAttributes::DisallowedMethod => "disallowed_methods"@,
        RequiredAttributes::IndexingSlicing => "indexing_slicing"@,
        RequiredAttributes::Todo => "todo"@,
        RequiredAttributes::UnwrapUsed => "unwrap_used"@,
        RequiredAttributes::Panic => "panic"@,
    }
}

/// The lint named `s`, if it is one of those required.
pub open spec fn parse_required(s: Seq<char>) -> Result<RequiredAttributes, ()> {
    if s == lint_name(RequiredAttributes::DisallowedMethod) {
        Ok(RequiredAttributes::DisallowedMethod)
    } else if s == lint_name(RequiredAttributes::IndexingSlicing) {
        Ok(RequiredAttributes::IndexingSlicing)
    } else if s == lint_name(RequiredAttributes::Todo) {
        Ok(RequiredAttributes::Todo)
    } else if s == lint_name(RequiredAttributes::UnwrapUsed) {
        Ok(RequiredAttributes::UnwrapUsed)
    } else if s == lint_name(RequiredAttributes::Panic) {
        Ok(RequiredAttributes::Panic)
    } else {
        Err(())
    }
}

impl RequiredAttributes {
    /// The lint named `s`, if it is one of those required.
    pub fn from_str(s: &str) -> (r: Result<Self, ()>)
        ensures
            r == parse_required(s@),
    {
        if str_eq(s, "disallowed_methods") {
            Ok(RequiredAttributes::DisallowedMethod)
        } else if str_eq(s, "indexing_slicing") {
            Ok(RequiredAttributes::IndexingSlicing)
        } else if str_eq(s, "todo") {
            Ok(RequiredAttributes::Todo)
        } else if str_eq(s, "unwrap_used") {
            Ok(RequiredAttributes::UnwrapUsed)
        } else if str_eq(s, "panic") {
            Ok(RequiredAttributes::Panic)
        } else {
            Err(())
        }
    }

    /// The name clippy gives this lint.
    pub fn to_string(&self) -> (r: String)
        ensures
            r@ == lint_name(*self),
    {
        let s = match self {
            RequiredAttributes::DisallowedMethod => "disallowed_methods",
            RequiredAttributes::IndexingSlicing => "indexing_slicing",
            RequiredAttributes::Todo => "todo",
            RequiredAttributes::UnwrapUsed => "unwrap_used",
            RequiredAttributes::Panic => "panic",
        };
        s.to_owned()
    }
}

/// A lint-level attribute such as `#![warn(clippy::todo)]`: its name and
/// the paths of the lints it lists.
#[derive(Clone, Debug)]
pub struct LintAttribute {
    pub name: String,
    pub items: Vec<Vec<String>>,
}

/// The required lint that a listed path names, if it is a clippy lint.
pub open spec fn clippy_lint_spec(path: Seq<Seq<char>>) -> Option<RequiredAttributes> {
    if path.len() > 1 && path[0] == "clippy"@ {
        match parse_required(path.last()) {
            Ok(a) => Some(a),
            Err(_) => None,
        }
    } else {
        None
    }
}

/// Whether an attribute of this name raises the level of the lints it lists.
pub open spec fn enables(name: Seq<char>) -> bool {
    name == "warn"@ || name == "deny"@ || name == "forbid"@
}

/// Whether `attr` enables the required lint `a`.
pub open spec fn attr_enables(attr: LintAttribute, a: RequiredAttributes) -> bool {
    enables(attr.name@) && exists|i: int|
        0 <= i < attr.items@.len() && clippy_lint_spec(strings_view(#[trigger] attr.items@[i]@)) == Some(a)
}

/// The required lint that a listed path names, if it is a clippy lint.
pub fn extract_clippy_lint(path: &Vec<String>) -> (r: Option<RequiredAttributes>)
    ensures
        r == clippy_lint_spec(strings_view(path@)),
{
    if path.len() > 1 && str_eq(path[0].as_str(), "clippy") {
        match RequiredAttributes::from_str(path[path.len() - 1].as_str()) {
            Ok(a) => Some(a),
            Err(()) => None,
        }
    } else {
        None
    }
}

/// Which required lints the crate has enabled so far.
#[derive(Clone, Copy, Debug, Default, PartialEq, Eq, Structural)]
pub struct Panics {
    pub disallowed_method: bool,
    pub indexing_slicing: bool,
    pub todo: bool,
    pub unwrap_used: bool,
    pub panic: bool,
}

/// Whether `p` has seen `a` enabled.
pub open spec fn seen(p: Panics, a: RequiredAttributes) -> bool {
    match a {
        RequiredAttributes::DisallowedMethod => p.disallowed_method,
        RequiredAttributes::IndexingSlicing => p.indexing_slicing,
        RequiredAttributes::Todo => p.todo,
        RequiredAttributes::UnwrapUsed => p.unwrap_used,
        RequiredAttributes::Panic => p.panic,
    }
}

/// The line that enables `a`, unless it is enabled already.
pub open spec fn help_for(p: Panics, a: RequiredAttributes) -> Seq<char> {
    if seen(p, a) {
        seq![]
    } else {
        "    clippy::"@ + lint_name(a) + ",\n"@
    }
}

/// The attribute that enables every required lint that `p` has not seen.
pub open spec fn help_spec(p: Panics) -> Seq<char> {
    "#![warn(\n"@ + help_for(p, RequiredAttributes::DisallowedMethod) + help_for(
        p,
        RequiredAttributes::IndexingSlicing,
    ) + help_for(p, RequiredAttributes::Todo) + help_for(p, RequiredAttributes::UnwrapUsed)
        + help_for(p, RequiredAttributes::Panic) + ")]\n"@
}

/// Whether `p` has seen every required lint enabled.
pub open spec fn all_seen(p: Panics) -> bool {
    p.disallowed_method && p.indexing_slicing && p.todo && p.unwrap_used && p.panic
}

/// What the pass reports at the end of the crate, given the source text of
/// its first byte.
pub open spec fn crate_post_diag(p: Panics, head: Option<Seq<char>>) -> Option<DiagnosticView> {
    match head {
        Some(h) => if all_seen(p) {
            None
        } else {
            Some(
                diag_spec(
                    Finding::MissingPanicLints,
                    Span { lo: 0, hi: 1 },
                    Some(help_spec(p) + h),
                    Applicability::MachineApplicable,
                ),
            )
        },
        None => None,
    }
}

/// Appends the line that enables `a`, unless `p` has seen it.
fn push_help(out: &mut Vec<char>, p: &Panics, a: RequiredAttributes)
    ensures
        final(out)@ == old(out)@ + help_for(*p, a),
{
    if !p.has_seen(a) {
        push_str(out, "    clippy::");
        let name = a.to_string();
        push_str(out, name.as_str());
        push_str(out, ",\n");
        assert(final(out)@ =~= old(out)@ + help_for(*p, a));
    } else {
        assert(out@ =~= old(out)@ + help_for(*p, a));
    }
}

/// The attribute that enables every required lint that `p` has not seen.
pub fn format_help(p: &Panics) -> (r: String)
    ensures
        r@ == help_spec(*p),
{
    let mut out: Vec<char> = Vec::new();
    push_str(&mut out, "#![warn(\n");
    push_help(&mut out, p, RequiredAttributes::DisallowedMethod);
    push_help(&mut out, p, RequiredAttributes::IndexingSlicing);
    push_help(&mut out, p, RequiredAttributes::Todo);
    push_help(&mut out, p, RequiredAttributes::UnwrapUsed);
    push_help(&mut out, p, RequiredAttributes::Panic);
    push_str(&mut out, ")]\n");
    assert(out@ =~= help_spec(*p));
    string_from_chars(&out)
}

impl Panics {
    /// A pass that has seen nothing enabled.
    pub fn new() -> (r: Self)
        ensures
            !r.disallowed_method && !r.indexing_slicing && !r.todo && !r.unwrap_used && !r.panic,
    {
        Panics { disallowed_method: false, indexing_slicing: false, todo: false, unwrap_used: false, panic: false }
    }

    /// Whether `a` has been seen enabled.
    pub fn has_seen(&self, a: RequiredAttributes) -> (r: bool)
        ensures
            r == seen(*self, a),
    {
        match a {
            RequiredAttributes::DisallowedMethod => self.disallowed_method,
            RequiredAttributes::IndexingSlicing => self.indexing_slicing,
            RequiredAttributes::Todo => self.todo,
            RequiredAttributes::UnwrapUsed => self.unwrap_used,
            RequiredAttributes::Panic => self.panic,
        }
    }

    fn insert(&mut self, a: RequiredAttributes)
        ensures
            forall|b: RequiredAttributes| seen(*final(self), b) == (seen(*old(self), b) || b == a),
    {
        match a {
            RequiredAttributes::DisallowedMethod => self.disallowed_method = true,
            RequiredAttributes::IndexingSlicing => self.indexing_slicing = true,
            RequiredAttributes::Todo => self.todo = true,
            RequiredAttributes::UnwrapUsed => self.unwrap_used = true,
            RequiredAttributes::Panic => self.panic = true,
        }
    }

    /// Records the required lints that a `warn`, `deny` or `forbid`
    /// attribute enables.
    pub fn check_attribute(&mut self, attr: &LintAttribute)
        ensures
            forall|a: RequiredAttributes| #[trigger] seen(*final(self), a) == (seen(*old(self), a) || attr_enables(*attr, a)),
    {
        let n = attr.name.as_str();
        if !(str_eq(n, "warn") || str_eq(n, "deny") || str_eq(n, "forbid")) {
            return;
        }
        let mut i: usize = 0;
        while i < attr.items.len()
            invariant
                i <= attr.items@.len(),
                enables(attr.name@),
                forall|a: RequiredAttributes| seen(*self, a) == (seen(*old(self), a) || exists|k: int|
                    0 <= k < i && clippy_lint_spec(strings_view(#[trigger] attr.items@[k]@)) == Some(a)),
            decreases attr.items@.len() - i,
        {
            let ghost before = *self;
            match extract_clippy_lint(&attr.items[i]) {
                Some(a) => self.insert(a),
                None => {},
            }
            assert forall|a: RequiredAttributes| seen(*self, a) == (seen(*old(self), a) || exists|k: int|
                0 <= k < i + 1 && clippy_lint_spec(strings_view(#[trigger] attr.items@[k]@)) == Some(a)) by {
                if clippy_lint_spec(strings_view(attr.items@[i as int]@)) == Some(a) {
                    assert(seen(*self, a));
                }
                if exists|k: int| 0 <= k < i + 1 && clippy_lint_spec(strings_view(#[trigger] attr.items@[k]@)) == Some(a) {
                    let k = choose|k: int| 0 <= k < i + 1 && clippy_lint_spec(strings_view(#[trigger] attr.items@[k]@)) == Some(a);
                    if k < i {
                        assert(seen(before, a));
                    }
                }
            }
            i += 1;
        }
    }

    /// At the end of the crate: if some required lint was never enabled,
    /// reports at the first byte, suggesting the missing attribute in front
    /// of `head`, the source text of that byte.
    pub fn check_crate_post(&self, head: Option<&str>) -> (r: Option<Diagnostic>)
        ensures
            match crate_post_diag(*self, match head {
                Some(h) => Some(h@),
                None => None,
            }) {
                Some(d) => r is Some && r->0@ == d,
                None => r is None,
            },
    {
        match head {
            Some(h) => {
                if self.disallowed_method && self.indexing_slicing && self.todo && self.unwrap_used && self.panic {
                    None
                } else {
                    let mut text = chars_of(format_help(self).as_str());
                    push_str(&mut text, h);
                    Some(emit(Finding::MissingPanicLints, Span { lo: 0, hi: 1 }, Some(string_from_chars(&text)), Applicability::MachineApplicable))
                }
            },
            None => None,
        }
    }
}

} // verus!
