//! The traversal: each item in order, each pass at its hook point.
use vstd::prelude::*;
use crate::diagnostics::{diags_view, Diagnostic, DiagnosticView};
use crate::extrinsics::{tagged_diags, transactional_diags, AnalysisError, DispatchTable, ExtrinsicsMustBeTagged, MissingTransactional};
use crate::missing_security_doc::{item_doc_diags, DocMarkdown};
use crate::storage_iter_insert::{fresh, scan_diags, StorageIterInsert};
use crate::no_panics::{attr_enables, crate_post_diag, seen, LintAttribute, Panics, RequiredAttributes};
use crate::tree::{item_wf, preorder, Item, ItemKind};

verus! {

/// What the passes report for one item, and the storage state after it,
/// when the storage detector starts from `s`.
pub open spec fn item_run(s: StorageIterInsert, item: Item, t: DispatchTable) -> (StorageIterInsert, Result<Seq<DiagnosticView>, AnalysisError>) {
    let docs = item_doc_diags(item);
    match item.kind {
        ItemKind::Method { sig, body } => match tagged_diags(sig, t) {
            Err(e) => (s, Err(e)),
            Ok(tagged) => (
                fresh(),
                Ok(docs + tagged + transactional_diags(sig, body, t) + scan_diags(s, preorder(body))),
            ),
        },
        ItemKind::Fn { sig, body } => (fresh(), Ok(docs + scan_diags(s, preorder(body)))),
        _ => (s, Ok(docs)),
    }
}

/// What the passes report for `items` in order, stopping at the first item
/// whose analysis cannot complete, and the storage state at the end.
pub open spec fn crate_run(s: StorageIterInsert, items: Seq<Item>, t: DispatchTable) -> (StorageIterInsert, Result<Seq<DiagnosticView>, AnalysisError>)
    decreases items.len(),
{
    if items.len() == 0 {
        (s, Ok(seq![]))
    } else {
        let (s1, before) = crate_run(s, items.drop_last(), t);
        match before {
            Err(e) => (s1, Err(e)),
            Ok(ds) => {
                let (s2, here) = item_run(s1, items.last(), t);
                match here {
                    Err(e) => (s2, Err(e)),
                    Ok(d2) => (s2, Ok(ds + d2)),
                }
            },
        }
    }
}

/// Whether every item of `items` is well formed.
pub open spec fn items_wf(items: Seq<Item>) -> bool {
    forall|i: int| 0 <= i < items.len() ==> item_wf(#[trigger] items[i])
}

/// A crate as the passes see it.
#[derive(Debug)]
pub struct Crate {
    /// The lint-level attributes of the crate.
    pub attrs: Vec<LintAttribute>,
    /// The items, in traversal order.
    pub items: Vec<Item>,
    /// The source text of the crate's first byte, when it can be read.
    pub head: Option<String>,
}

/// The panic-lint state after the attribute `attr`.
pub open spec fn attr_step(p: Panics, attr: LintAttribute) -> Panics {
    Panics {
        disallowed_method: p.disallowed_method || attr_enables(attr, RequiredAttributes::DisallowedMethod),
        indexing_slicing: p.indexing_slicing || attr_enables(attr, RequiredAttributes::IndexingSlicing),
        todo: p.todo || attr_enables(attr, RequiredAttributes::Todo),
        unwrap_used: p.unwrap_used || attr_enables(attr, RequiredAttributes::UnwrapUsed),
        panic: p.panic || attr_enables(attr, RequiredAttributes::Panic),
    }
}

/// The panic-lint state after the attributes `attrs`.
pub open spec fn attrs_run(p: Panics, attrs: Seq<LintAttribute>) -> Panics
    decreases attrs.len(),
{
    if attrs.len() == 0 {
        p
    } else {
        attr_step(attrs_run(p, attrs.drop_last()), attrs.last())
    }
}

/// The source text of the crate's first byte, as plain values.
pub open spec fn head_view(head: Option<String>) -> Option<Seq<char>> {
    match head {
        Some(h) => Some(h@),
        None => None,
    }
}

/// What a whole run reports, and the states of the stateful passes after it:
/// the attributes on entering the crate, then the items, then the panic
/// lints on leaving it.
pub open spec fn lint_run(p: Panics, s: StorageIterInsert, k: Crate, t: DispatchTable) -> (Panics, StorageIterInsert, Result<Seq<DiagnosticView>, AnalysisError>) {
    let p1 = attrs_run(p, k.attrs@);
    let (s1, r) = crate_run(s, k.items@, t);
    match r {
        Err(e) => (p1, s1, Err(e)),
        Ok(ds) => (p1, s1, Ok(match crate_post_diag(p1, head_view(k.head)) {
            Some(d) => ds.push(d),
            None => ds,
        })),
    }
}

/// The panic-lint state before any attribute.
pub open spec fn no_lints_seen() -> Panics {
    Panics { disallowed_method: false, indexing_slicing: false, todo: false, unwrap_used: false, panic: false }
}

/// The registered passes, in registration order.
#[derive(Debug)]
pub struct Linter {
    pub panics: Panics,
    pub storage: StorageIterInsert,
    pub docs: DocMarkdown,
    pub tagged: ExtrinsicsMustBeTagged,
    pub transactional: MissingTransactional,
}

impl Linter {
    /// The passes with nothing seen yet.
    pub fn new() -> (r: Self)
        ensures
            r.storage == fresh(),
            r.panics == no_lints_seen(),
    {
        Linter {
            panics: Panics::new(),
            storage: StorageIterInsert::new(),
            docs: DocMarkdown::new(Vec::new()),
            tagged: ExtrinsicsMustBeTagged,
            transactional: MissingTransactional,
        }
    }

    /// Runs the passes over one item: the documentation pass on entering it;
    /// for a function, the extrinsic checks on entering it, the storage
    /// detector on each expression of its body in pre-order, and the reset
    /// on leaving it.
    pub fn check_item(&mut self, item: &Item, table: &DispatchTable, out: &mut Vec<Diagnostic>) -> (r: Result<(), AnalysisError>)
        requires
            item_wf(*item),
        ensures
            final(self).panics == old(self).panics,
            final(self).storage == item_run(old(self).storage, *item, *table).0,
            match item_run(old(self).storage, *item, *table).1 {
                Ok(ds) => r is Ok && diags_view(final(out)@) == diags_view(old(out)@) + ds,
                Err(e) => r == Err::<(), AnalysisError>(e),
            },
    {
        let ghost d0 = diags_view(old(out)@);
        self.docs.check_item(item, out);
        let ghost d1 = diags_view(out@);
        match &item.kind {
            ItemKind::Method { sig, body } => {
                match self.tagged.check_fn(sig, table, out) {
                    Ok(()) => {},
                    Err(e) => {
                        return Err(e);
                    },
                }
                self.transactional.check_fn(sig, body, table, out);
                self.storage.check_body(body, out);
                assert(diags_view(out@) =~= d0 + item_run(old(self).storage, *item, *table).1->Ok_0);
            },
            ItemKind::Fn { sig, body } => {
                self.storage.check_body(body, out);
                assert(diags_view(out@) =~= d0 + item_run(old(self).storage, *item, *table).1->Ok_0);
            },
            _ => {},
        }
        Ok(())
    }

    /// Runs the passes over the items of a crate in order. Fails with the
    /// first item whose analysis cannot complete.
    pub fn lint_items(&mut self, items: &Vec<Item>, table: &DispatchTable) -> (r: Result<Vec<Diagnostic>, AnalysisError>)
        requires
            items_wf(items@),
        ensures
            final(self).panics == old(self).panics,
            final(self).storage == crate_run(old(self).storage, items@, *table).0,
            match crate_run(old(self).storage, items@, *table).1 {
                Ok(ds) => r is Ok && diags_view(r->Ok_0@) == ds,
                Err(e) => r == Err::<Vec<Diagnostic>, AnalysisError>(e),
            },
    {
        let ghost s0 = self.storage;
        let mut out: Vec<Diagnostic> = Vec::new();
        let mut i: usize = 0;
        while i < items.len()
            invariant
                i <= items@.len(),
                s0 == old(self).storage,
                self.panics == old(self).panics,
                items_wf(items@),
                self.storage == crate_run(s0, items@.take(i as int), *table).0,
                crate_run(s0, items@.take(i as int), *table).1 is Ok,
                diags_view(out@) == crate_run(s0, items@.take(i as int), *table).1->Ok_0,
            decreases items@.len() - i,
        {
            assert(items@.take(i + 1).drop_last() =~= items@.take(i as int));
            assert(items@.take(i + 1).last() == items@[i as int]);
            assert(item_wf(items@[i as int]));
            let ghost st = self.storage;
            let ghost prefix = crate_run(s0, items@.take(i as int), *table);
            assert(crate_run(s0, items@.take(i + 1), *table) == ({
                let (s2, here) = item_run(prefix.0, items@[i as int], *table);
                match here {
                    Err(e) => (s2, Err(e)),
                    Ok(d2) => (s2, Ok(prefix.1->Ok_0 + d2)),
                }
            }));
            match self.check_item(&items[i], table, &mut out) {
                Ok(()) => {},
                Err(e) => {
                    proof {
                        lemma_error_stays(s0, items@, i + 1, items@.len() as int, *table);
                        assert(items@.take(items@.len() as int) =~= items@);
                    }
                    return Err(e);
                },
            }
            i += 1;
        }
        assert(items@.take(items@.len() as int) =~= items@);
        Ok(out)
    }
}

impl Linter {
    /// Runs every pass over a crate: the panic-lint pass reads the crate's
    /// attributes on entering it, the other passes visit the items in order,
    /// and the panic-lint pass reports on leaving it. Fails with the first
    /// item whose analysis cannot complete.
    pub fn lint_crate(&mut self, krate: &Crate, table: &DispatchTable) -> (r: Result<Vec<Diagnostic>, AnalysisError>)
        requires
            items_wf(krate.items@),
        ensures
            ({
                let (p, s, res) = lint_run(old(self).panics, old(self).storage, *krate, *table);
                &&& final(self).panics == p
                &&& final(self).storage == s
                &&& match res {
                    Ok(ds) => r is Ok && diags_view(r->Ok_0@) == ds,
                    Err(e) => r == Err::<Vec<Diagnostic>, AnalysisError>(e),
                }
            }),
    {
        let ghost p0 = self.panics;
        let ghost a = krate.attrs@;
        let mut i: usize = 0;
        while i < krate.attrs.len()
            invariant
                i <= a.len(),
                a == krate.attrs@,
                p0 == old(self).panics,
                self.panics == attrs_run(p0, a.take(i as int)),
                self.storage == old(self).storage,
            decreases a.len() - i,
        {
            assert(a.take(i + 1).drop_last() =~= a.take(i as int));
            assert(a.take(i + 1).last() == a[i as int]);
            let ghost before = self.panics;
            self.panics.check_attribute(&krate.attrs[i]);
            proof {
                let want = attr_step(before, a[i as int]);
                assert(seen(self.panics, RequiredAttributes::DisallowedMethod) == want.disallowed_method);
                assert(seen(self.panics, RequiredAttributes::IndexingSlicing) == want.indexing_slicing);
                assert(seen(self.panics, RequiredAttributes::Todo) == want.todo);
                assert(seen(self.panics, RequiredAttributes::UnwrapUsed) == want.unwrap_used);
                assert(seen(self.panics, RequiredAttributes::Panic) == want.panic);
            }
            i += 1;
        }
        assert(a.take(a.len() as int) =~= a);
        let mut out = match self.lint_items(&krate.items, table) {
            Ok(ds) => ds,
            Err(e) => {
                return Err(e);
            },
        };
        let head = match &krate.head {
            Some(h) => Some(h.as_str()),
            None => None,
        };
        match self.panics.check_crate_post(head) {
            Some(d) => {
                let ghost before = out@;
                out.push(d);
                assert(diags_view(out@) =~= diags_view(before).push(d@));
            },
            None => {},
        }
        Ok(out)
    }
}

proof fn lemma_attrs_run_seen(p: Panics, attrs: Seq<LintAttribute>, x: RequiredAttributes)
    ensures
        seen(attrs_run(p, attrs), x) == (seen(p, x) || exists|i: int|
            0 <= i < attrs.len() && attr_enables(#[trigger] attrs[i], x)),
    decreases attrs.len(),
{
    if attrs.len() > 0 {
        lemma_attrs_run_seen(p, attrs.drop_last(), x);
        if exists|i: int| 0 <= i < attrs.len() && attr_enables(#[trigger] attrs[i], x) {
            let i = choose|i: int| 0 <= i < attrs.len() && attr_enables(#[trigger] attrs[i], x);
            if i < attrs.len() - 1 {
                assert(attrs.drop_last()[i] == attrs[i]);
            }
        }
        if exists|i: int| 0 <= i < attrs.drop_last().len() && attr_enables(#[trigger] attrs.drop_last()[i], x) {
            let i = choose|i: int| 0 <= i < attrs.drop_last().len() && attr_enables(#[trigger] attrs.drop_last()[i], x);
            assert(attrs[i] == attrs.drop_last()[i]);
        }
    }
}

proof fn lemma_attrs_run_twice(attrs: Seq<LintAttribute>)
    ensures
        attrs_run(attrs_run(no_lints_seen(), attrs), attrs) == attrs_run(no_lints_seen(), attrs),
{
    let once = attrs_run(no_lints_seen(), attrs);
    let twice = attrs_run(once, attrs);
    lemma_attrs_run_seen(no_lints_seen(), attrs, RequiredAttributes::DisallowedMethod);
    lemma_attrs_run_seen(no_lints_seen(), attrs, RequiredAttributes::IndexingSlicing);
    lemma_attrs_run_seen(no_lints_seen(), attrs, RequiredAttributes::Todo);
    lemma_attrs_run_seen(no_lints_seen(), attrs, RequiredAttributes::UnwrapUsed);
    lemma_attrs_run_seen(no_lints_seen(), attrs, RequiredAttributes::Panic);
    lemma_attrs_run_seen(once, attrs, RequiredAttributes::DisallowedMethod);
    lemma_attrs_run_seen(once, attrs, RequiredAttributes::IndexingSlicing);
    lemma_attrs_run_seen(once, attrs, RequiredAttributes::Todo);
    lemma_attrs_run_seen(once, attrs, RequiredAttributes::UnwrapUsed);
    lemma_attrs_run_seen(once, attrs, RequiredAttributes::Panic);
}

proof fn lemma_error_stays(s: StorageIterInsert, items: Seq<Item>, m: int, n: int, t: DispatchTable)
    requires
        0 <= m <= n <= items.len(),
        crate_run(s, items.take(m), t).1 is Err,
    ensures
        crate_run(s, items.take(n), t) == crate_run(s, items.take(m), t),
    decreases n - m,
{
    if n > m {
        lemma_error_stays(s, items, m, n - 1, t);
        assert(items.take(n).drop_last() =~= items.take(n - 1));
    }
}

proof fn lemma_run_ends_fresh(items: Seq<Item>, t: DispatchTable)
    ensures
        crate_run(fresh(), items, t).0 == fresh(),
    decreases items.len(),
{
    if items.len() > 0 {
        lemma_run_ends_fresh(items.drop_last(), t);
    }
}

/// The traversal is idempotent: running it a second time over the same,
/// unchanged crate, with the passes as the first run left them, gives the
/// same diagnostics, or the same failure, and leaves the same states.
pub proof fn lemma_traversal_idempotent(k: Crate, t: DispatchTable)
    ensures
        ({
            let (p1, s1, first) = lint_run(no_lints_seen(), fresh(), k, t);
            lint_run(p1, s1, k, t) == (p1, s1, first)
        }),
{
    lemma_run_ends_fresh(k.items@, t);
    lemma_attrs_run_twice(k.attrs@);
}

} // verus!
