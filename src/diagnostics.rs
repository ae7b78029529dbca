//! Diagnostics and their uniform constructor.
use vstd::prelude::*;

verus! {

/// A half-open byte range `[lo, hi)` in a source buffer.
#[derive(Clone, Copy, Debug, PartialEq, Eq, Structural)]
pub struct Span {
    pub lo: usize,
    pub hi: usize,
}

/// How safely a suggested rewrite can be applied.
#[derive(Clone, Copy, Debug, PartialEq, Eq, Structural)]
pub enum Applicability {
    /// The rewrite can be applied mechanically.
    MachineApplicable,
    /// The rewrite holds text that the user must fill in.
    HasPlaceholders,
    /// Informational only.
    Unspecified,
}

/// How a diagnostic is presented.
#[derive(Clone, Copy, Debug, PartialEq, Eq, Structural)]
pub enum Severity {
    /// A warning.
    Advisory,
    /// A blocking error.
    MustFix,
}

/// What a diagnostic reports.
#[derive(Clone, Copy, Debug, PartialEq, Eq, Structural)]
pub enum Finding {
    /// Storage is mutated while an iteration over it is live.
    StorageIterInsert,
    /// A documentation paragraph holds an odd number of backticks.
    UnbalancedBackticks,
    /// A storage map with an insecure hasher has no `# Security` section.
    MissingSecurityDoc,
    /// An extrinsic's call-index annotation is absent or wrong.
    ExtrinsicNotTagged,
    /// An extrinsic does not end in the transaction wrapper.
    MissingTransactional,
    /// The crate root does not enable every lint against panicking code.
    MissingPanicLints,
}

/// The severity of each finding.
pub open spec fn severity_of(f: Finding) -> Severity {
    match f {
        Finding::StorageIterInsert => Severity::Advisory,
        Finding::UnbalancedBackticks => Severity::Advisory,
        Finding::MissingPanicLints => Severity::Advisory,
        _ => Severity::MustFix,
    }
}

/// The primary message of each finding.
pub open spec fn message_of(f: Finding) -> Seq<char> {
    match f {
        Finding::StorageIterInsert => "iterating and modifying storage has undefined results"@,
        Finding::UnbalancedBackticks => "backticks are unbalanced"@,
        Finding::MissingSecurityDoc => "Using the Identity or Twox64Concat hasher requires a doc describing it's secure usage"@,
        Finding::ExtrinsicNotTagged => "substrace: Extrinsic not tagged"@,
        Finding::MissingTransactional => "substrace: Missing #[transactional] on extrinsic"@,
        Finding::MissingPanicLints => "substrace: clippy must be configured to warn or deny about any panicking code"@,
    }
}

/// The help text of each finding.
pub open spec fn help_of(f: Finding) -> Seq<char> {
    match f {
        Finding::StorageIterInsert => "restructure code, or specifically describe why this isn't undefined behaviour"@,
        Finding::UnbalancedBackticks => "a backtick may be missing a pair"@,
        Finding::MissingSecurityDoc => "add a `# Security` section explaining why the hasher is safe here"@,
        Finding::ExtrinsicNotTagged => "Add the #[pallet::call_index(...)] macro to the top of your extrinsic definition"@,
        Finding::MissingTransactional => "Add the #[transactional] macro to the top of your extrinsic definition"@,
        Finding::MissingPanicLints => "insert attributes at the root of the crate"@,
    }
}

impl Finding {
    /// The severity of this finding.
    pub fn severity(&self) -> (r: Severity)
        ensures
            r == severity_of(*self),
    {
        match self {
            Finding::StorageIterInsert => Severity::Advisory,
            Finding::UnbalancedBackticks => Severity::Advisory,
            Finding::MissingPanicLints => Severity::Advisory,
            _ => Severity::MustFix,
        }
    }

    /// The primary message of this finding.
    pub fn message(&self) -> (r: &'static str)
        ensures
            r@ == message_of(*self),
    {
        match self {
            Finding::StorageIterInsert => "iterating and modifying storage has undefined results",
            Finding::UnbalancedBackticks => "backticks are unbalanced",
            Finding::MissingSecurityDoc =>
                "Using the Identity or Twox64Concat hasher requires a doc describing it's secure usage",
            Finding::ExtrinsicNotTagged => "substrace: Extrinsic not tagged",
            Finding::MissingTransactional => "substrace: Missing #[transactional] on extrinsic",
            Finding::MissingPanicLints =>
                "substrace: clippy must be configured to warn or deny about any panicking code",
        }
    }

    /// The help text of this finding.
    pub fn help(&self) -> (r: &'static str)
        ensures
            r@ == help_of(*self),
    {
        match self {
            Finding::StorageIterInsert =>
                "restructure code, or specifically describe why this isn't undefined behaviour",
            Finding::UnbalancedBackticks => "a backtick may be missing a pair",
            Finding::MissingSecurityDoc =>
                "add a `# Security` section explaining why the hasher is safe here",
            Finding::ExtrinsicNotTagged =>
                "Add the #[pallet::call_index(...)] macro to the top of your extrinsic definition",
            Finding::MissingTransactional =>
                "Add the #[transactional] macro to the top of your extrinsic definition",
            Finding::MissingPanicLints => "insert attributes at the root of the crate",
        }
    }
}

/// A report handed to the host.
#[derive(Clone, Debug)]
pub struct Diagnostic {
    pub finding: Finding,
    pub span: Span,
    pub severity: Severity,
    pub suggestion: Option<String>,
    pub applicability: Applicability,
}

/// What a diagnostic says, as plain values.
pub struct DiagnosticView {
    pub finding: Finding,
    pub span: Span,
    pub severity: Severity,
    pub suggestion: Option<Seq<char>>,
    pub applicability: Applicability,
}

impl View for Diagnostic {
    type V = DiagnosticView;

    open spec fn view(&self) -> DiagnosticView {
        DiagnosticView {
            finding: self.finding,
            span: self.span,
            severity: self.severity,
            suggestion: match self.suggestion {
                Some(s) => Some(s@),
                None => None,
            },
            applicability: self.applicability,
        }
    }
}

/// The views of a sequence of diagnostics.
pub open spec fn diags_view(ds: Seq<Diagnostic>) -> Seq<DiagnosticView> {
    ds.map_values(|d: Diagnostic| d@)
}

/// The diagnostic the constructor builds from these parts.
pub open spec fn diag_spec(
    finding: Finding,
    span: Span,
    suggestion: Option<Seq<char>>,
    applicability: Applicability,
) -> DiagnosticView {
    DiagnosticView { finding, span, severity: severity_of(finding), suggestion, applicability }
}

/// Builds a diagnostic; its severity follows from the finding.
pub fn emit(
    finding: Finding,
    span: Span,
    suggestion: Option<String>,
    applicability: Applicability,
) -> (r: Diagnostic)
    ensures
        r@ == diag_spec(
            finding,
            span,
            match suggestion {
                Some(s) => Some(s@),
                None => None,
            },
            applicability,
        ),
{
    let severity = finding.severity();
    Diagnostic { finding, span, severity, suggestion, applicability }
}

} // verus!
