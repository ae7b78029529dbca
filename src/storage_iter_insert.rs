//! Detection of storage maps mutated while an iteration over them is live.
use vstd::prelude::*;
use crate::diagnostics::{diag_spec, diags_view, emit, Applicability, Diagnostic, DiagnosticView, Finding, Span};
use crate::paths::{is_pattern, pattern_spec, segments_view, Pattern};
use crate::tree::{preorder, preorder_all, Expr};

verus! {

/// The two families of storage containers that are tracked separately.
#[derive(Clone, Copy, Debug, PartialEq, Eq, Structural)]
pub enum MapKind {
    SingleKey,
    DoubleKey,
}

/// What a recognised storage call does.
#[derive(Clone, Copy, Debug, PartialEq, Eq, Structural)]
pub enum StorageCall {
    /// Starts an iteration or a drain.
    Iterate(MapKind),
    /// Changes the container's contents.
    Mutate(MapKind),
}

/// Whether `p` iterates over or drains a single-key map.
pub open spec fn is_storage_map_spec(p: Seq<Seq<char>>) -> bool {
    p == pattern_spec(Pattern::IterableStorageMapIter)
        || p == pattern_spec(Pattern::IterableStorageMapDrain)
}

/// Whether `p` iterates over or drains a double-key map, whole or by prefix.
pub open spec fn is_storage_double_map_spec(p: Seq<Seq<char>>) -> bool {
    p == pattern_spec(Pattern::IterableStorageDoubleMapIterPrefix)
        || p == pattern_spec(Pattern::IterableStorageDoubleMapDrainPrefix)
        || p == pattern_spec(Pattern::IterableStorageDoubleMapIter)
        || p == pattern_spec(Pattern::IterableStorageDoubleMapDrain)
}

/// Whether `p` mutates a single-key map.
pub open spec fn modifies_storage_map_spec(p: Seq<Seq<char>>) -> bool {
    p == pattern_spec(Pattern::StorageMapSwap)
        || p == pattern_spec(Pattern::StorageMapRemove)
        || p == pattern_spec(Pattern::StorageMapTake)
        || p == pattern_spec(Pattern::StorageMapAppend)
        || p == pattern_spec(Pattern::StorageMapInsert)
        || p == pattern_spec(Pattern::StorageMapMigrateKey)
        || p == pattern_spec(Pattern::StorageMapMigrateKeyFromBlake)
        || p == pattern_spec(Pattern::StorageMapMutate)
        || p == pattern_spec(Pattern::StorageMapTryMutate)
        || p == pattern_spec(Pattern::StorageMapTryMutateExists)
}

/// Whether `p` mutates a double-key map.
pub open spec fn modifies_storage_double_map_spec(p: Seq<Seq<char>>) -> bool {
    p == pattern_spec(Pattern::StorageDoubleMapSwap)
        || p == pattern_spec(Pattern::StorageDoubleMapTake)
        || p == pattern_spec(Pattern::StorageDoubleMapInsert)
        || p == pattern_spec(Pattern::StorageDoubleMapRemove)
        || p == pattern_spec(Pattern::StorageDoubleMapRemovePrefix)
        || p == pattern_spec(Pattern::StorageDoubleMapTryMutate)
        || p == pattern_spec(Pattern::StorageDoubleMapMutate)
        || p == pattern_spec(Pattern::StorageDoubleMapTryMutateExists)
        || p == pattern_spec(Pattern::StorageDoubleMapAppend)
        || p == pattern_spec(Pattern::StorageDoubleMapMigrateKeys)
}

/// What the call to the definition `p` does to storage, if anything.
pub open spec fn classify_spec(p: Seq<Seq<char>>) -> Option<StorageCall> {
    if is_storage_map_spec(p) {
        Some(StorageCall::Iterate(MapKind::SingleKey))
    } else if modifies_storage_map_spec(p) {
        Some(StorageCall::Mutate(MapKind::SingleKey))
    } else if is_storage_double_map_spec(p) {
        Some(StorageCall::Iterate(MapKind::DoubleKey))
    } else if modifies_storage_double_map_spec(p) {
        Some(StorageCall::Mutate(MapKind::DoubleKey))
    } else {
        None
    }
}

/// Whether `p` iterates over or drains a single-key map.
pub fn is_storage_map(p: &Vec<String>) -> (r: bool)
    ensures
        r == is_storage_map_spec(segments_view(p@)),
{
    is_pattern(p, Pattern::IterableStorageMapIter) || is_pattern(p, Pattern::IterableStorageMapDrain)
}

/// Whether `p` iterates over or drains a double-key map.
pub fn is_storage_double_map(p: &Vec<String>) -> (r: bool)
    ensures
        r == is_storage_double_map_spec(segments_view(p@)),
{
    is_pattern(p, Pattern::IterableStorageDoubleMapIterPrefix)
        || is_pattern(p, Pattern::IterableStorageDoubleMapDrainPrefix)
        || is_pattern(p, Pattern::IterableStorageDoubleMapIter)
        || is_pattern(p, Pattern::IterableStorageDoubleMapDrain)
}

/// Whether `p` mutates a single-key map.
pub fn modifies_storage_map(p: &Vec<String>) -> (r: bool)
    ensures
        r == modifies_storage_map_spec(segments_view(p@)),
{
    is_pattern(p, Pattern::StorageMapSwap) || is_pattern(p, Pattern::StorageMapRemove)
        || is_pattern(p, Pattern::StorageMapTake) || is_pattern(p, Pattern::StorageMapAppend)
        || is_pattern(p, Pattern::StorageMapInsert) || is_pattern(p, Pattern::StorageMapMigrateKey)
        || is_pattern(p, Pattern::StorageMapMigrateKeyFromBlake)
        || is_pattern(p, Pattern::StorageMapMutate) || is_pattern(p, Pattern::StorageMapTryMutate)
        || is_pattern(p, Pattern::StorageMapTryMutateExists)
}

/// Whether `p` mutates a double-key map.
pub fn modifies_storage_double_map(p: &Vec<String>) -> (r: bool)
    ensures
        r == modifies_storage_double_map_spec(segments_view(p@)),
{
    is_pattern(p, Pattern::StorageDoubleMapSwap) || is_pattern(p, Pattern::StorageDoubleMapTake)
        || is_pattern(p, Pattern::StorageDoubleMapInsert)
        || is_pattern(p, Pattern::StorageDoubleMapRemove)
        || is_pattern(p, Pattern::StorageDoubleMapRemovePrefix)
        || is_pattern(p, Pattern::StorageDoubleMapTryMutate)
        || is_pattern(p, Pattern::StorageDoubleMapMutate)
        || is_pattern(p, Pattern::StorageDoubleMapTryMutateExists)
        || is_pattern(p, Pattern::StorageDoubleMapAppend)
        || is_pattern(p, Pattern::StorageDoubleMapMigrateKeys)
}

/// Per-body state: for each map kind, whether an iteration is live and
/// whether the map was mutated since it began.
#[derive(Clone, Copy, Debug, PartialEq, Eq, Structural)]
pub struct StorageIterInsert {
    pub storage_map_mutated: bool,
    pub storage_double_map_mutated: bool,
    pub iterating_over_storage_map: bool,
    pub iterating_over_storage_double_map: bool,
}

/// The state every body starts from.
pub open spec fn fresh() -> StorageIterInsert {
    StorageIterInsert {
        storage_map_mutated: false,
        storage_double_map_mutated: false,
        iterating_over_storage_map: false,
        iterating_over_storage_double_map: false,
    }
}

/// The state after a call that does `c` (nothing when `None`).
pub open spec fn step(s: StorageIterInsert, c: Option<StorageCall>) -> StorageIterInsert {
    match c {
        Some(StorageCall::Iterate(MapKind::SingleKey)) => StorageIterInsert {
            storage_map_mutated: s.iterating_over_storage_map && s.storage_map_mutated,
            iterating_over_storage_map: true,
            ..s
        },
        Some(StorageCall::Mutate(MapKind::SingleKey)) => StorageIterInsert {
            storage_map_mutated: true,
            ..s
        },
        Some(StorageCall::Iterate(MapKind::DoubleKey)) => StorageIterInsert {
            storage_double_map_mutated: s.iterating_over_storage_double_map
                && s.storage_double_map_mutated,
            iterating_over_storage_double_map: true,
            ..s
        },
        Some(StorageCall::Mutate(MapKind::DoubleKey)) => StorageIterInsert {
            storage_double_map_mutated: true,
            ..s
        },
        None => s,
    }
}

/// Whether some map kind is mutated while an iteration over it is live.
pub open spec fn hazard(s: StorageIterInsert) -> bool {
    (s.storage_map_mutated && s.iterating_over_storage_map) || (s.storage_double_map_mutated
        && s.iterating_over_storage_double_map)
}

/// What visiting the expression `e` does: `None` unless it dispatches to a
/// recognised storage call.
pub open spec fn call_of(e: Expr) -> Option<StorageCall> {
    match e.dispatch {
        Some(p) => classify_spec(segments_view(p@)),
        None => None,
    }
}

/// The diagnostic reported at a hazardous call.
pub open spec fn hazard_diag(span: Span) -> DiagnosticView {
    diag_spec(
        Finding::StorageIterInsert,
        span,
        Some(allow_hint()),
        Applicability::HasPlaceholders,
    )
}

/// The state after visiting the expressions `vs` in order, from `s`.
pub open spec fn scan(s: StorageIterInsert, vs: Seq<Expr>) -> StorageIterInsert
    decreases vs.len(),
{
    if vs.len() == 0 {
        s
    } else {
        step(scan(s, vs.drop_last()), call_of(vs.last()))
    }
}

/// The diagnostics reported while visiting `vs` in order, from `s`: one at
/// each recognised call after which a hazard holds.
pub open spec fn scan_diags(s: StorageIterInsert, vs: Seq<Expr>) -> Seq<DiagnosticView>
    decreases vs.len(),
{
    if vs.len() == 0 {
        seq![]
    } else {
        let before = scan_diags(s, vs.drop_last());
        if call_of(vs.last()) is Some && hazard(scan(s, vs)) {
            before.push(hazard_diag(vs.last().span))
        } else {
            before
        }
    }
}

/// Whether a diagnostic is reported at the `j`-th of the visits `vs`.
pub open spec fn flagged_at(s: StorageIterInsert, vs: Seq<Expr>, j: int) -> bool {
    call_of(vs[j]) is Some && hazard(scan(s, vs.take(j + 1)))
}

proof fn lemma_iterating_stays(s: StorageIterInsert, vs: Seq<Expr>, i: int, n: int, k: MapKind)
    requires
        0 <= i < n <= vs.len(),
        call_of(vs[i]) == Some(StorageCall::Iterate(k)),
    ensures
        k == MapKind::SingleKey ==> scan(s, vs.take(n)).iterating_over_storage_map,
        k == MapKind::DoubleKey ==> scan(s, vs.take(n)).iterating_over_storage_double_map,
    decreases n,
{
    assert(vs.take(n).drop_last() =~= vs.take(n - 1));
    assert(vs.take(n).last() == vs[n - 1]);
    if n - 1 > i {
        lemma_iterating_stays(s, vs, i, n - 1, k);
    }
}

/// A mutation of a map kind after an iteration over that kind began is
/// reported at the mutating call: the diagnostics up to and including that
/// call end with one at it.
pub proof fn lemma_iterate_then_mutate_flagged(
    s: StorageIterInsert,
    vs: Seq<Expr>,
    i: int,
    j: int,
    k: MapKind,
)
    requires
        0 <= i < j < vs.len(),
        call_of(vs[i]) == Some(StorageCall::Iterate(k)),
        call_of(vs[j]) == Some(StorageCall::Mutate(k)),
    ensures
        flagged_at(s, vs, j),
        scan_diags(s, vs.take(j + 1)).last() == hazard_diag(vs[j].span),
        scan_diags(s, vs.take(j + 1)).is_prefix_of(scan_diags(s, vs)),
{
    lemma_iterating_stays(s, vs, i, j, k);
    assert(vs.take(j + 1).drop_last() =~= vs.take(j));
    assert(vs.take(j + 1).last() == vs[j]);
    lemma_scan_append(s, vs.take(j + 1), vs.skip(j + 1));
    assert(vs.take(j + 1) + vs.skip(j + 1) =~= vs);
}

/// Whether, in `vs`, no call mutates a map kind after a call iterating over
/// that kind.
pub open spec fn no_mutation_after_iteration(vs: Seq<Expr>) -> bool {
    forall|i: int, j: int|
        0 <= i < j < vs.len() ==> !mutates_after(#[trigger] call_of(vs[i]), #[trigger] call_of(vs[j]))
}

/// Whether `later` mutates the kind of map that `earlier` iterates over.
pub open spec fn mutates_after(earlier: Option<StorageCall>, later: Option<StorageCall>) -> bool {
    match (earlier, later) {
        (Some(StorageCall::Iterate(k1)), Some(StorageCall::Mutate(k2))) => k1 == k2,
        _ => false,
    }
}

proof fn lemma_silent_prefix(vs: Seq<Expr>, n: int)
    requires
        0 <= n <= vs.len(),
        no_mutation_after_iteration(vs),
    ensures
        scan_diags(fresh(), vs.take(n)) == Seq::<DiagnosticView>::empty(),
        ({
            let t = scan(fresh(), vs.take(n));
            &&& t.iterating_over_storage_map ==> !t.storage_map_mutated
            &&& t.iterating_over_storage_double_map ==> !t.storage_double_map_mutated
            &&& t.iterating_over_storage_map ==> exists|i: int|
                0 <= i < n && call_of(vs[i]) == Some(StorageCall::Iterate(MapKind::SingleKey))
            &&& t.iterating_over_storage_double_map ==> exists|i: int|
                0 <= i < n && call_of(vs[i]) == Some(StorageCall::Iterate(MapKind::DoubleKey))
        }),
    decreases n,
{
    if n == 0 {
        assert(vs.take(0) =~= Seq::<Expr>::empty());
    } else {
        lemma_silent_prefix(vs, n - 1);
        assert(vs.take(n).drop_last() =~= vs.take(n - 1));
        assert(vs.take(n).last() == vs[n - 1]);
        let t = scan(fresh(), vs.take(n - 1));
        if t.iterating_over_storage_map {
            let i = choose|i: int| 0 <= i < n - 1 && call_of(vs[i]) == Some(StorageCall::Iterate(MapKind::SingleKey));
            assert(call_of(vs[n - 1]) != Some(StorageCall::Mutate(MapKind::SingleKey)));
        }
        if t.iterating_over_storage_double_map {
            let i = choose|i: int| 0 <= i < n - 1 && call_of(vs[i]) == Some(StorageCall::Iterate(MapKind::DoubleKey));
            assert(call_of(vs[n - 1]) != Some(StorageCall::Mutate(MapKind::DoubleKey)));
        }
    }
}

/// A body in which every mutation of a map kind comes before any iteration
/// over that kind gets no diagnostic.
pub proof fn lemma_mutate_then_iterate_silent(vs: Seq<Expr>)
    requires
        no_mutation_after_iteration(vs),
    ensures
        scan_diags(fresh(), vs) == Seq::<DiagnosticView>::empty(),
{
    lemma_silent_prefix(vs, vs.len() as int);
    assert(vs.take(vs.len() as int) =~= vs);
}

/// The suggestion offered with a hazard.
pub open spec fn allow_hint() -> Seq<char> {
    "#[allow(storage_iter_insert)]..."@
}

/// Visiting `a` and then `b` is visiting `a + b`: the state carries over and
/// the diagnostics are concatenated. Chaining the contracts of successive
/// `check_expr` calls with this gives the fold over the whole sequence.
pub proof fn lemma_scan_append(s: StorageIterInsert, a: Seq<Expr>, b: Seq<Expr>)
    ensures
        scan(s, a + b) == scan(scan(s, a), b),
        scan_diags(s, a + b) == scan_diags(s, a) + scan_diags(scan(s, a), b),
    decreases b.len(),
{
    if b.len() == 0 {
        assert(a + b =~= a);
    } else {
        lemma_scan_append(s, a, b.drop_last());
        assert((a + b).drop_last() =~= a + b.drop_last());
        assert((a + b).last() == b.last());
    }
}

impl StorageIterInsert {
    /// A detector with nothing seen yet.
    pub fn new() -> (r: Self)
        ensures
            r == fresh(),
    {
        StorageIterInsert {
            storage_map_mutated: false,
            storage_double_map_mutated: false,
            iterating_over_storage_map: false,
            iterating_over_storage_double_map: false,
        }
    }

    /// Records a call to `p` if it iterates over or mutates a single-key
    /// map; returns whether it did.
    fn check_storage_map(&mut self, p: &Vec<String>) -> (r: bool)
        ensures
            r == (is_storage_map_spec(segments_view(p@)) || modifies_storage_map_spec(
                segments_view(p@),
            )),
            r ==> *final(self) == step(*old(self), classify_spec(segments_view(p@))),
            !r ==> *final(self) == *old(self),
    {
        if is_storage_map(p) {
            if !self.iterating_over_storage_map {
                self.storage_map_mutated = false;
            }
            self.iterating_over_storage_map = true;
            true
        } else if modifies_storage_map(p) {
            self.storage_map_mutated = true;
            true
        } else {
            false
        }
    }

    /// Records a call to `p` if it iterates over or mutates a double-key
    /// map; returns whether it did.
    fn check_storage_double_map(&mut self, p: &Vec<String>) -> (r: bool)
        requires
            !is_storage_map_spec(segments_view(p@)),
            !modifies_storage_map_spec(segments_view(p@)),
        ensures
            r == (classify_spec(segments_view(p@)) is Some),
            *final(self) == step(*old(self), classify_spec(segments_view(p@))),
    {
        if is_storage_double_map(p) {
            if !self.iterating_over_storage_double_map {
                self.storage_double_map_mutated = false;
            }
            self.iterating_over_storage_double_map = true;
            true
        } else if modifies_storage_double_map(p) {
            self.storage_double_map_mutated = true;
            true
        } else {
            false
        }
    }

    /// Records a call to the definition `p`; returns whether it is a
    /// recognised storage call.
    pub fn check_call(&mut self, p: &Vec<String>) -> (r: bool)
        ensures
            r == (classify_spec(segments_view(p@)) is Some),
            *final(self) == step(*old(self), classify_spec(segments_view(p@))),
    {
        self.check_storage_map(p) || self.check_storage_double_map(p)
    }

    /// The diagnostic at `span` if a hazard holds in the current state.
    pub fn finalize(&self, span: Span) -> (r: Option<Diagnostic>)
        ensures
            hazard(*self) ==> r is Some && r->0@ == hazard_diag(span),
            !hazard(*self) ==> r is None,
    {
        if self.storage_map_mutated && self.iterating_over_storage_map
            || self.storage_double_map_mutated && self.iterating_over_storage_double_map {
            let hint = "#[allow(storage_iter_insert)]...".to_owned();
            Some(emit(Finding::StorageIterInsert, span, Some(hint), Applicability::HasPlaceholders))
        } else {
            None
        }
    }

    /// Visits one expression: records the storage call it dispatches to and
    /// reports a diagnostic at it if that leaves a hazard.
    pub fn check_expr(&mut self, e: &Expr, out: &mut Vec<Diagnostic>)
        ensures
            *final(self) == scan(*old(self), seq![*e]),
            diags_view(final(out)@) == diags_view(old(out)@) + scan_diags(*old(self), seq![*e]),
    {
        let ghost vs = seq![*e];
        let ghost s0 = *old(self);
        proof {
            assert(vs.drop_last() =~= Seq::<Expr>::empty());
            assert(vs.last() == *e);
            assert(scan(s0, vs.drop_last()) == s0);
            assert(scan(s0, vs) == step(s0, call_of(*e)));
            assert(scan_diags(s0, vs.drop_last()) == Seq::<DiagnosticView>::empty());
        }
        match &e.dispatch {
            Some(p) => {
                if self.check_call(p) {
                    match self.finalize(e.span) {
                        Some(d) => {
                            out.push(d);
                            assert(diags_view(out@) =~= diags_view(old(out)@) + scan_diags(s0, vs));
                        },
                        None => {},
                    }
                }
            },
            None => {},
        }
        assert(diags_view(out@) =~= diags_view(old(out)@) + scan_diags(s0, vs));
    }

    /// Visits `e` and its sub-expressions in pre-order.
    fn visit(&mut self, e: &Expr, out: &mut Vec<Diagnostic>)
        ensures
            *final(self) == scan(*old(self), preorder(*e)),
            diags_view(final(out)@) == diags_view(old(out)@) + scan_diags(*old(self), preorder(*e)),
        decreases e,
    {
        let ghost s0 = *old(self);
        let ghost d0 = diags_view(old(out)@);
        self.check_expr(e, out);
        let mut i: usize = 0;
        while i < e.children.len()
            invariant
                i <= e.children@.len(),
                *self == scan(s0, seq![*e] + preorder_all(e.children@.take(i as int))),
                diags_view(out@) == d0 + scan_diags(s0, seq![*e] + preorder_all(e.children@.take(i as int))),
            decreases e.children@.len() - i,
        {
            let ghost before = seq![*e] + preorder_all(e.children@.take(i as int));
            let ghost s1 = *self;
            let ghost d1 = diags_view(out@);
            assert(decreases_to!(e => e.children@[i as int]));
            self.visit(&e.children[i], out);
            proof {
                let c = e.children@[i as int];
                assert(e.children@.take(i + 1).drop_last() =~= e.children@.take(i as int));
                assert(e.children@.take(i + 1).last() == c);
                assert(preorder_all(e.children@.take(i + 1)) == preorder_all(e.children@.take(i as int)) + preorder(c));
                assert(seq![*e] + preorder_all(e.children@.take(i + 1)) =~= before + preorder(c));
                lemma_scan_append(s0, before, preorder(c));
                assert(diags_view(out@) =~= d0 + scan_diags(s0, before + preorder(c)));
            }
            i += 1;
        }
        proof {
            assert(e.children@.take(e.children@.len() as int) =~= e.children@);
        }
    }

    /// Visits a function body in pre-order, reporting each hazard, and
    /// resets the state once the body is done.
    pub fn check_body(&mut self, body: &Expr, out: &mut Vec<Diagnostic>)
        ensures
            *final(self) == fresh(),
            diags_view(final(out)@) == diags_view(old(out)@) + scan_diags(*old(self), preorder(*body)),
    {
        self.visit(body, out);
        self.check_body_post();
    }

    /// Resets the state when a body has been fully visited.
    pub fn check_body_post(&mut self)
        ensures
            *final(self) == fresh(),
    {
        self.iterating_over_storage_map = false;
        self.storage_map_mutated = false;
        self.iterating_over_storage_double_map = false;
        self.storage_double_map_mutated = false;
    }
}

} // verus!
