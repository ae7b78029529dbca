//! Storage maps keyed through an insecure hasher must document why that is safe.
use vstd::prelude::*;
use crate::diagnostics::{diag_spec, diags_view, emit, Applicability, Diagnostic, DiagnosticView, Finding};
use crate::docs::{analysed, attrs_diags, check_attrs, has_security_section};
use crate::paths::{
    has_insecure_hash, is_insecure_hash_function, is_like_storage_map, is_pattern,
    like_storage_map_spec, pattern_spec, segments_view, Pattern,
};
use crate::tree::{item_wf, Item, ItemKind};

verus! {

/// Whether `item` declares a storage map keyed through an insecure hasher.
pub open spec fn needs_security_doc(item: Item) -> bool {
    match item.kind {
        ItemKind::TyAlias { target: Some(p), type_args } => (like_storage_map_spec(segments_view(p@))
            || segments_view(p@) == pattern_spec(Pattern::StorageMapTrait)) && has_insecure_hash(
            type_args@,
        ),
        _ => false,
    }
}

/// The suggestion offered with a missing section.
pub open spec fn security_doc_hint() -> Seq<char> {
    "/// # Security\n///\n/// <why this hasher is safe here>\n"@
}

/// The diagnostics the pass reports for `item`: those of the walk over its
/// documentation, then one for a missing section where one is required.
pub open spec fn item_doc_diags(item: Item) -> Seq<DiagnosticView> {
    let walked = if analysed(item.attrs@) {
        attrs_diags(item.attrs@)
    } else {
        seq![]
    };
    if needs_security_doc(item) && !has_security_section(item.attrs@) {
        walked.push(
            diag_spec(
                Finding::MissingSecurityDoc,
                item.span,
                Some(security_doc_hint()),
                Applicability::HasPlaceholders,
            ),
        )
    } else {
        walked
    }
}

/// The documentation pass.
#[derive(Clone, Debug)]
pub struct DocMarkdown {
    /// Names of further hash functions that count as insecure.
    pub suspicious_hash_functions: Vec<String>,
    pub in_trait_impl: bool,
}

impl DocMarkdown {
    pub fn new(suspicious_hash_functions: Vec<String>) -> (r: Self)
        ensures
            r.suspicious_hash_functions@ == suspicious_hash_functions@,
            !r.in_trait_impl,
    {
        DocMarkdown { suspicious_hash_functions, in_trait_impl: false }
    }

    /// Checks the documentation of `item`; returns whether it holds the
    /// required `# Security` section.
    pub fn check_item(&self, item: &Item, out: &mut Vec<Diagnostic>) -> (r: bool)
        requires
            item_wf(*item),
        ensures
            r == has_security_section(item.attrs@),
            diags_view(final(out)@) == diags_view(old(out)@) + item_doc_diags(*item),
    {
        let headers = check_attrs(&item.attrs, out);
        let needs = match &item.kind {
            ItemKind::TyAlias { target: Some(p), type_args } => (is_like_storage_map(p)
                || is_pattern(p, Pattern::StorageMapTrait)) && is_insecure_hash_function(type_args),
            _ => false,
        };
        if needs && !headers.security {
            let ghost before = out@;
            let hint = "/// # Security\n///\n/// <why this hasher is safe here>\n".to_owned();
            let d = emit(Finding::MissingSecurityDoc, item.span, Some(hint), Applicability::HasPlaceholders);
            out.push(d);
            assert(diags_view(out@) =~= diags_view(before).push(d@));
        }
        headers.security
    }
}

} // verus!
