//! Benchmark code must also be compiled for tests.
use vstd::prelude::*;
use crate::text::{chars_of, decimal, first_occurrence, occurs_at, occurs_at_exec, push_decimal, push_range, push_str, string_from_chars};

verus! {

/// The pass that looks for benchmark-only `cfg` attributes.
#[derive(Clone, Copy, Debug, Default)]
pub struct EnableSinglepassBenchmarks;

/// The opening of an `any(...)` predicate.
pub open spec fn any_open() -> Seq<char> {
    "any("@
}

/// The attribute that enables code for benchmarks and tests alike.
pub open spec fn both_cfg() -> Seq<char> {
    "#[cfg(any(test, feature = \"runtime-benchmarks\"))]"@
}

/// The replacement for a benchmark-only `cfg` attribute: `test` is added
/// first to its `any(...)` predicate, or the whole attribute becomes one
/// that enables both.
pub open spec fn suggested_text(text: Seq<char>) -> Seq<char> {
    let k = first_occurrence(text, any_open(), 0);
    if k >= 0 {
        text.take(k) + "any(test, "@ + text.skip(k + 4)
    } else {
        both_cfg()
    }
}

/// The replacement for a benchmark-only `cfg` attribute.
pub fn create_suggested_text(text: &str) -> (r: String)
    ensures
        r@ == suggested_text(text@),
{
    let s = chars_of(text);
    let m = chars_of("any(");
    let mut k: usize = 0;
    while k < s.len() && !occurs_at_exec(&s, &m, k)
        invariant
            k <= s@.len(),
            s@ == text@,
            m@ == any_open(),
            first_occurrence(s@, m@, 0) == first_occurrence(s@, m@, k as int),
        decreases s@.len() - k,
    {
        k += 1;
    }
    if k < s.len() {
        proof {
            reveal_strlit("any(");
            assert(occurs_at(s@, m@, k as int));
            assert(m@.len() == 4);
        }
        let mut out: Vec<char> = Vec::new();
        push_range(&mut out, &s, 0, k);
        let ins = chars_of("any(test, ");
        push_range(&mut out, &ins, 0, ins.len());
        push_range(&mut out, &s, k + 4, s.len());
        assert(ins@.subrange(0, ins@.len() as int) =~= ins@);
        assert(out@ =~= suggested_text(text@));
        string_from_chars(&out)
    } else {
        proof {
            reveal_strlit("any(");
            assert(first_occurrence(s@, m@, k as int) == -1);
        }
        "#[cfg(any(test, feature = \"runtime-benchmarks\"))]".to_owned()
    }
}

/// The warning for a benchmark-only `cfg` attribute found at `line` of `file`.
pub open spec fn warning_spec(text: Seq<char>, line: nat, file: Seq<char>) -> Seq<char> {
    "substrace: benchmarks not run in tests.\nFound:\n"@ + text + "\nat line "@ + decimal(line) + " in "@
        + file + ". Suggested replacement:\n"@ + suggested_text(text)
}

impl EnableSinglepassBenchmarks {
    /// The warning for the benchmark-only `cfg` attribute `found_text`, found
    /// at `line` of `file`, with its replacement.
    pub fn warning_message(&self, found_text: &str, line: u64, file: &str) -> (r: String)
        ensures
            r@ == warning_spec(found_text@, line as nat, file@),
    {
        let mut out: Vec<char> = Vec::new();
        push_str(&mut out, "substrace: benchmarks not run in tests.\nFound:\n");
        push_str(&mut out, found_text);
        push_str(&mut out, "\nat line ");
        push_decimal(&mut out, line);
        push_str(&mut out, " in ");
        push_str(&mut out, file);
        push_str(&mut out, ". Suggested replacement:\n");
        let suggestion = create_suggested_text(found_text);
        push_str(&mut out, suggestion.as_str());
        assert(out@ =~= warning_spec(found_text@, line as nat, file@));
        string_from_chars(&out)
    }
}

} // verus!
