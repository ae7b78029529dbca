//! Checks on extrinsics: their call-index annotation must match the
//! dispatch table, and their body must end in the transaction wrapper.
use vstd::prelude::*;
use crate::diagnostics::{diag_spec, diags_view, emit, Applicability, Diagnostic, DiagnosticView, Finding};
use crate::paths::{is_pattern, pattern_spec, segments_view, Pattern};
use crate::text::{chars_of, decimal, occurs_at, occurs_at_exec, push_decimal, push_str, str_eq, string_from_chars};
use crate::tree::{Expr, ExprKind, FnSig};

verus! {

/// A variant of the call enum that the pallet macro generates, with the
/// index its attribute assigns, if any.
#[derive(Clone, Debug)]
pub struct CallVariant {
    pub name: String,
    pub index: Option<u8>,
}

/// What macro expansion tells about the dispatchable functions.
#[derive(Clone, Debug)]
pub struct DispatchTable {
    /// The names of the dispatchable functions, in the order the call-name
    /// list gives them.
    pub call_names: Vec<String>,
    /// The variants of the call enum, in declaration order.
    pub variants: Vec<CallVariant>,
}

/// Why the analysis of an item could not complete.
#[derive(Clone, Copy, Debug, PartialEq, Eq, Structural)]
pub enum AnalysisError {
    /// A dispatchable function has no call index in the expansion.
    MissingCallIndex,
}

/// Whether `name` is a dispatchable function.
pub open spec fn is_extrinsic_spec(name: Seq<char>, t: DispatchTable) -> bool {
    exists|i: int| 0 <= i < t.call_names@.len() && #[trigger] t.call_names@[i]@ == name
}

/// The position of the first variant named `name` that carries an index,
/// among the first `n`, or -1.
pub open spec fn first_indexed(name: Seq<char>, vs: Seq<CallVariant>, n: int) -> int
    decreases n,
{
    if n <= 0 {
        -1
    } else {
        let k = first_indexed(name, vs, n - 1);
        if k >= 0 {
            k
        } else if vs[n - 1].name@ == name && vs[n - 1].index is Some {
            n - 1
        } else {
            -1
        }
    }
}

/// The index the expansion assigns to `name`.
pub open spec fn index_in_expansion(name: Seq<char>, t: DispatchTable) -> Result<u8, AnalysisError> {
    let k = first_indexed(name, t.variants@, t.variants@.len() as int);
    if k >= 0 {
        Ok(t.variants@[k].index->0)
    } else {
        Err(AnalysisError::MissingCallIndex)
    }
}

/// Whether `name` is a dispatchable function.
pub fn is_extrinsic_name(name: &str, table: &DispatchTable) -> (r: bool)
    ensures
        r == is_extrinsic_spec(name@, *table),
{
    let mut i: usize = 0;
    while i < table.call_names.len()
        invariant
            i <= table.call_names@.len(),
            forall|k: int| 0 <= k < i ==> #[trigger] table.call_names@[k]@ != name@,
        decreases table.call_names@.len() - i,
    {
        if str_eq(table.call_names[i].as_str(), name) {
            return true;
        }
        i += 1;
    }
    false
}

/// The call index the expansion assigns to `name`: that of the first
/// variant so named that carries one.
pub fn get_index_in_expansion(name: &str, table: &DispatchTable) -> (r: Result<u8, AnalysisError>)
    ensures
        r == index_in_expansion(name@, *table),
{
    let ghost vs = table.variants@;
    let mut i: usize = 0;
    while i < table.variants.len()
        invariant
            i <= vs.len(),
            vs == table.variants@,
            first_indexed(name@, vs, i as int) == -1,
        decreases vs.len() - i,
    {
        let v = &table.variants[i];
        if str_eq(v.name.as_str(), name) {
            if let Some(index) = v.index {
                proof {
                    lemma_first_indexed_stays(name@, vs, i + 1, vs.len() as int);
                }
                return Ok(index);
            }
        }
        i += 1;
    }
    Err(AnalysisError::MissingCallIndex)
}

proof fn lemma_first_indexed_stays(name: Seq<char>, vs: Seq<CallVariant>, m: int, n: int)
    requires
        0 < m <= n,
        first_indexed(name, vs, m) == m - 1,
    ensures
        first_indexed(name, vs, n) == m - 1,
    decreases n - m,
{
    if n > m {
        lemma_first_indexed_stays(name, vs, m, n - 1);
    }
}

/// The numeric value of a string of decimal digits.
pub open spec fn digits_value(s: Seq<char>) -> int
    decreases s.len(),
{
    if s.len() == 0 {
        0
    } else {
        digits_value(s.drop_last()) * 10 + (s.last() as int - '0' as int)
    }
}

/// Whether every character of `s` is a decimal digit.
pub open spec fn all_digits(s: Seq<char>) -> bool {
    forall|i: int| 0 <= i < s.len() ==> '0' <= #[trigger] s[i] <= '9'
}

/// What `u8::from_str` gives for `s`: an optional `+` and then at least one
/// digit, with a value that fits.
pub open spec fn parse_u8_spec(s: Seq<char>) -> Option<u8> {
    let d = if s.len() > 0 && s[0] == '+' {
        s.drop_first()
    } else {
        s
    };
    if d.len() > 0 && all_digits(d) && digits_value(d) <= 255 {
        Some(digits_value(d) as u8)
    } else {
        None
    }
}

proof fn lemma_digits_grow(s: Seq<char>, i: int)
    requires
        0 <= i <= s.len(),
        all_digits(s),
    ensures
        digits_value(s.take(i)) <= digits_value(s),
        digits_value(s.take(i)) >= 0,
    decreases s.len() - i,
{
    if i < s.len() {
        lemma_digits_grow(s, i + 1);
        assert(s.take(i + 1).drop_last() =~= s.take(i));
        lemma_digits_nonneg(s.take(i));
    } else {
        assert(s.take(i) =~= s);
        lemma_digits_nonneg(s);
    }
}

proof fn lemma_digits_nonneg(s: Seq<char>)
    requires
        all_digits(s),
    ensures
        digits_value(s) >= 0,
    decreases s.len(),
{
    if s.len() > 0 {
        lemma_digits_nonneg(s.drop_last());
    }
}

/// Parses `s[a..b]` as `u8::from_str` would.
pub fn parse_u8(s: &Vec<char>, a: usize, b: usize) -> (r: Option<u8>)
    requires
        a <= b <= s@.len(),
    ensures
        r == parse_u8_spec(s@.subrange(a as int, b as int)),
{
    let ghost t = s@.subrange(a as int, b as int);
    let mut i: usize = a;
    if i < b && s[i] == '+' {
        i += 1;
    }
    let ghost d = s@.subrange(i as int, b as int);
    assert(d =~= if t.len() > 0 && t[0] == '+' { t.drop_first() } else { t });
    if i == b {
        assert(d.len() == 0);
        return None;
    }
    let mut v: u32 = 0;
    let start = i;
    while i < b
        invariant
            start <= i <= b <= s@.len(),
            a <= start,
            t == s@.subrange(a as int, b as int),
            d == s@.subrange(start as int, b as int),
            d == if t.len() > 0 && t[0] == '+' { t.drop_first() } else { t },
            d.len() > 0,
            all_digits(s@.subrange(start as int, i as int)),
            v == digits_value(s@.subrange(start as int, i as int)),
            v <= 255,
        decreases b - i,
    {
        let c = s[i];
        if !('0' <= c && c <= '9') {
            assert(d[i - start] == c);
            assert(!all_digits(d));
            return None;
        }
        assert(s@.subrange(start as int, i + 1).drop_last() =~= s@.subrange(start as int, i as int));
        let digit = (c as u32) - ('0' as u32);
        v = v * 10 + digit;
        i += 1;
        assert(v == digits_value(s@.subrange(start as int, i as int)));
        assert(all_digits(s@.subrange(start as int, i as int)));
        if v > 255 {
            proof {
                if all_digits(d) {
                    assert(d.take(i - start) =~= s@.subrange(start as int, i as int));
                    lemma_digits_grow(d, i - start);
                }
            }
            return None;
        }
    }
    assert(d =~= s@.subrange(start as int, i as int));
    Some(v as u8)
}

/// The attribute text that declares a call index.
pub open spec fn call_index_marker() -> Seq<char> {
    "#[pallet::call_index("@
}

/// The position of the last occurrence of `marker` in `s` that starts
/// before `n`, or -1.
pub open spec fn last_occurrence(s: Seq<char>, marker: Seq<char>, n: int) -> int
    decreases n,
{
    if n <= 0 {
        -1
    } else if occurs_at(s, marker, n - 1) {
        n - 1
    } else {
        last_occurrence(s, marker, n - 1)
    }
}

/// The index of the first `)` in `s` at or after `i`, or the length of `s`.
pub open spec fn close_paren_from(s: Seq<char>, i: int) -> int
    decreases s.len() - i,
{
    if i >= s.len() {
        s.len() as int
    } else if s[i] == ')' {
        i
    } else {
        close_paren_from(s, i + 1)
    }
}

/// The call index declared in `preceding`, the source text before a
/// function's signature: the argument of the last call-index attribute, up
/// to the first `)`, read as a `u8`.
pub open spec fn index_in_macro(preceding: Seq<char>) -> Option<u8> {
    let m = call_index_marker();
    let k = last_occurrence(preceding, m, preceding.len() as int);
    if k < 0 {
        None
    } else {
        let a = k + m.len();
        parse_u8_spec(preceding.subrange(a, close_paren_from(preceding, a)))
    }
}

/// The call index declared above a function, given the source text before
/// its signature.
pub fn get_index_in_macro(preceding: &str) -> (r: Option<u8>)
    ensures
        r == index_in_macro(preceding@),
{
    let s = chars_of(preceding);
    let m = chars_of("#[pallet::call_index(");
    let mut n: usize = s.len();
    while n > 0 && !occurs_at_exec(&s, &m, n - 1)
        invariant
            n <= s@.len(),
            s@ == preceding@,
            m@ == call_index_marker(),
            last_occurrence(s@, m@, s@.len() as int) == last_occurrence(s@, m@, n as int),
        decreases n,
    {
        n -= 1;
    }
    if n == 0 {
        return None;
    }
    let a = n - 1 + m.len();
    let mut e = a;
    while e < s.len() && s[e] != ')'
        invariant
            a <= e <= s@.len(),
            close_paren_from(s@, a as int) == close_paren_from(s@, e as int),
        decreases s@.len() - e,
    {
        e += 1;
    }
    parse_u8(&s, a, e)
}

/// The annotation an extrinsic with call index `index` needs.
pub open spec fn call_index_prefix(index: u8) -> Seq<char> {
    call_index_marker() + decimal(index as nat) + ")]\n"@
}

/// The annotation an extrinsic without the transaction wrapper needs.
pub open spec fn transactional_prefix() -> Seq<char> {
    "#[transactional]\n"@
}

/// The suggestion that puts `prefix` above the line `line`, if there is one.
fn rewrite_above_exec(prefix: Vec<char>, line: &Option<String>) -> (r: (Option<String>, Applicability))
    ensures
        (match r.0 {
            Some(s) => Some(s@),
            None => None,
        }, r.1) == rewrite_above(prefix@, *line),
{
    match line {
        Some(l) => {
            let mut text = prefix;
            push_str(&mut text, l.as_str());
            (Some(string_from_chars(&text)), Applicability::MachineApplicable)
        },
        None => (None, Applicability::Unspecified),
    }
}

/// The suggestion and its applicability for a rewrite that puts `prefix`
/// above the signature's line: none, and informational only, when that line
/// cannot be read.
pub open spec fn rewrite_above(prefix: Seq<char>, line: Option<String>) -> (Option<Seq<char>>, Applicability) {
    match line {
        Some(l) => (Some(prefix + l@), Applicability::MachineApplicable),
        None => (None, Applicability::Unspecified),
    }
}

/// What the index check reports for the method `sig`.
pub open spec fn tagged_diags(sig: FnSig, t: DispatchTable) -> Result<Seq<DiagnosticView>, AnalysisError> {
    if !is_extrinsic_spec(sig.name@, t) {
        Ok(seq![])
    } else {
        match index_in_expansion(sig.name@, t) {
            Err(e) => Err(e),
            Ok(index) => if index_in_macro(sig.preceding_text@) == Some(index) {
                Ok(seq![])
            } else {
                Ok(
                    seq![
                        diag_spec(
                            Finding::ExtrinsicNotTagged,
                            sig.span,
                            rewrite_above(call_index_prefix(index), sig.line_text).0,
                            rewrite_above(call_index_prefix(index), sig.line_text).1,
                        ),
                    ],
                )
            },
        }
    }
}

/// The index check: extrinsics must carry the call index that the dispatch
/// table assigns them.
#[derive(Clone, Copy, Debug, Default)]
pub struct ExtrinsicsMustBeTagged;

impl ExtrinsicsMustBeTagged {
    /// Checks the method with signature `sig`.
    pub fn check_fn(&self, sig: &FnSig, table: &DispatchTable, out: &mut Vec<Diagnostic>) -> (r: Result<(), AnalysisError>)
        ensures
            match tagged_diags(*sig, *table) {
                Ok(ds) => r is Ok && diags_view(final(out)@) == diags_view(old(out)@) + ds,
                Err(e) => r == Err::<(), AnalysisError>(e) && final(out)@ == old(out)@,
            },
    {
        if !is_extrinsic_name(sig.name.as_str(), table) {
            assert(diags_view(out@) =~= diags_view(old(out)@) + Seq::<DiagnosticView>::empty());
            return Ok(());
        }
        let index = match get_index_in_expansion(sig.name.as_str(), table) {
            Ok(i) => i,
            Err(e) => {
                return Err(e);
            },
        };
        let declared = get_index_in_macro(sig.preceding_text.as_str());
        let matches_index = match declared {
            Some(i) => i == index,
            None => false,
        };
        if !matches_index {
            let mut prefix: Vec<char> = Vec::new();
            push_str(&mut prefix, "#[pallet::call_index(");
            push_decimal(&mut prefix, index as u64);
            push_str(&mut prefix, ")]\n");
            assert(prefix@ =~= call_index_prefix(index));
            let (suggestion, applicability) = rewrite_above_exec(prefix, &sig.line_text);
            let d = emit(Finding::ExtrinsicNotTagged, sig.span, suggestion, applicability);
            let ghost before = out@;
            out.push(d);
            assert(diags_view(out@) =~= diags_view(before) + seq![d@]);
        } else {
            assert(diags_view(out@) =~= diags_view(old(out)@) + Seq::<DiagnosticView>::empty());
        }
        Ok(())
    }
}

/// Whether `body` ends in a call of the transaction wrapper: it is a block
/// whose tail is a call whose callee resolves to that function.
pub open spec fn ends_in_transaction(body: Expr) -> bool {
    match body.kind {
        ExprKind::Block { has_tail } => has_tail && body.children@.len() > 0 && {
            let tail = body.children@.last();
            tail.kind is Call && tail.children@.len() > 0 && match tail.children@[0].kind {
                ExprKind::Path(Some(p)) => segments_view(p@) == pattern_spec(Pattern::WithTransaction),
                _ => false,
            }
        },
        _ => false,
    }
}

/// What the wrapper check reports for the method `sig` with body `body`.
pub open spec fn transactional_diags(sig: FnSig, body: Expr, t: DispatchTable) -> Seq<DiagnosticView> {
    if is_extrinsic_spec(sig.name@, t) && !ends_in_transaction(body) {
        seq![
            diag_spec(
                Finding::MissingTransactional,
                sig.span,
                rewrite_above(transactional_prefix(), sig.line_text).0,
                rewrite_above(transactional_prefix(), sig.line_text).1,
            ),
        ]
    } else {
        seq![]
    }
}

/// Whether `body` ends in a call of the transaction wrapper.
pub fn is_transactional(body: &Expr) -> (r: bool)
    ensures
        r == ends_in_transaction(*body),
{
    match &body.kind {
        ExprKind::Block { has_tail } => {
            if !*has_tail || body.children.len() == 0 {
                return false;
            }
            let tail = &body.children[body.children.len() - 1];
            let is_call = match tail.kind {
                ExprKind::Call => true,
                _ => false,
            };
            if !is_call || tail.children.len() == 0 {
                return false;
            }
            match &tail.children[0].kind {
                ExprKind::Path(Some(p)) => is_pattern(p, Pattern::WithTransaction),
                _ => false,
            }
        },
        _ => false,
    }
}

/// The wrapper check: extrinsics must end in the transaction wrapper.
#[derive(Clone, Copy, Debug, Default)]
pub struct MissingTransactional;

impl MissingTransactional {
    /// Checks the method with signature `sig` and body `body`.
    pub fn check_fn(&self, sig: &FnSig, body: &Expr, table: &DispatchTable, out: &mut Vec<Diagnostic>)
        ensures
            diags_view(final(out)@) == diags_view(old(out)@) + transactional_diags(*sig, *body, *table),
    {
        if is_extrinsic_name(sig.name.as_str(), table) && !is_transactional(body) {
            let prefix = chars_of("#[transactional]\n");
            let (suggestion, applicability) = rewrite_above_exec(prefix, &sig.line_text);
            let d = emit(Finding::MissingTransactional, sig.span, suggestion, applicability);
            let ghost before = out@;
            out.push(d);
            assert(diags_view(out@) =~= diags_view(before) + seq![d@]);
        } else {
            assert(diags_view(out@) =~= diags_view(old(out)@) + Seq::<DiagnosticView>::empty());
        }
    }
}

} // verus!
