//! How the command line of `cargo substrace` becomes a cargo invocation.
use vstd::prelude::*;
use crate::text::{str_eq, strings_view};

verus! {

/// The flag that asks cargo to apply suggestions.
pub open spec fn fix_flag() -> Seq<char> {
    "--fix"@
}

/// The flag that limits the run to the given crate.
pub open spec fn no_deps_flag() -> Seq<char> {
    "--no-deps"@
}

/// The separator after which arguments go to the analyser.
pub open spec fn separator() -> Seq<char> {
    "--"@
}

/// The position of the first separator in `a`, or its length.
pub open spec fn separator_pos(a: Seq<Seq<char>>, i: int) -> int
    decreases a.len() - i,
{
    if i >= a.len() {
        a.len() as int
    } else if a[i] == separator() {
        i
    } else {
        separator_pos(a, i + 1)
    }
}

/// The arguments of `h` that go to cargo: all but the two flags.
pub open spec fn cargo_args(h: Seq<Seq<char>>) -> Seq<Seq<char>>
    decreases h.len(),
{
    if h.len() == 0 {
        seq![]
    } else {
        let x = h.last();
        if x == fix_flag() || x == no_deps_flag() {
            cargo_args(h.drop_last())
        } else {
            cargo_args(h.drop_last()).push(x)
        }
    }
}

/// One `--no-deps` for each in `h`.
pub open spec fn no_deps_args(h: Seq<Seq<char>>) -> Seq<Seq<char>>
    decreases h.len(),
{
    if h.len() == 0 {
        seq![]
    } else if h.last() == no_deps_flag() {
        no_deps_args(h.drop_last()).push(no_deps_flag())
    } else {
        no_deps_args(h.drop_last())
    }
}

/// The arguments for the analyser: the `--no-deps` flags before the
/// separator, then everything after it, then `--no-deps` if fixing needs it.
pub open spec fn analyser_args(a: Seq<Seq<char>>) -> Seq<Seq<char>> {
    let p = separator_pos(a, 0);
    let h = a.take(p);
    let rest = if p < a.len() {
        a.skip(p + 1)
    } else {
        seq![]
    };
    let sub = no_deps_args(h) + rest;
    if h.contains(fix_flag()) && !sub.contains(no_deps_flag()) {
        sub.push(no_deps_flag())
    } else {
        sub
    }
}

/// A cargo invocation that runs the analyser.
#[derive(Debug)]
pub struct SubstraceCmd {
    /// `fix` or `check`.
    pub cargo_subcommand: &'static str,
    /// The arguments for cargo.
    pub args: Vec<String>,
    /// The arguments for the analyser.
    pub substrace_args: Vec<String>,
}

impl SubstraceCmd {
    /// Reads the command line: `--fix` selects `cargo fix` and implies
    /// `--no-deps`; `--no-deps` goes to the analyser; after `--` everything
    /// goes to the analyser; the rest goes to cargo.
    pub fn new(old_args: Vec<String>) -> (r: Self)
        ensures
            ({
                let a = strings_view(old_args@);
                let h = a.take(separator_pos(a, 0));
                &&& r.cargo_subcommand@ == if h.contains(fix_flag()) {
                    "fix"@
                } else {
                    "check"@
                }
                &&& strings_view(r.args@) == cargo_args(h)
                &&& strings_view(r.substrace_args@) == analyser_args(a)
            }),
    {
        let ghost a = strings_view(old_args@);
        let n = old_args.len();
        let mut p: usize = 0;
        while p < n && !str_eq(old_args[p].as_str(), "--")
            invariant
                n == a.len(),
                a == strings_view(old_args@),
                p <= n,
                separator_pos(a, 0) == separator_pos(a, p as int),
            decreases n - p,
        {
            p += 1;
        }
        assert(separator_pos(a, 0) == p);
        proof {
            reveal_strlit("--fix");
            reveal_strlit("--no-deps");
            assert(fix_flag().len() == 5);
            assert(no_deps_flag().len() == 9);
        }
        let mut fix = false;
        let mut args: Vec<String> = Vec::new();
        let mut substrace_args: Vec<String> = Vec::new();
        let mut i: usize = 0;
        while i < p
            invariant
                n == a.len(),
                a == strings_view(old_args@),
                i <= p <= n,
                fix_flag() != no_deps_flag(),
                fix == a.take(i as int).contains(fix_flag()),
                strings_view(args@) == cargo_args(a.take(i as int)),
                strings_view(substrace_args@) == no_deps_args(a.take(i as int)),
            decreases p - i,
        {
            let arg = old_args[i].clone();
            let ghost x = a[i as int];
            assert(arg@ == x);
            assert(a.take(i + 1).drop_last() =~= a.take(i as int));
            assert(a.take(i + 1).last() == x);
            if str_eq(arg.as_str(), "--fix") {
                fix = true;
                assert(a.take(i + 1).contains(fix_flag())) by {
                    assert(a.take(i + 1)[i as int] == fix_flag());
                }
            } else {
                assert(a.take(i + 1).contains(fix_flag()) == a.take(i as int).contains(fix_flag())) by {
                    if a.take(i + 1).contains(fix_flag()) {
                        let k = choose|k: int| 0 <= k < a.take(i + 1).len() && #[trigger] a.take(i + 1)[k] == fix_flag();
                        assert(a.take(i as int)[k] == fix_flag());
                    }
                    if a.take(i as int).contains(fix_flag()) {
                        let k = choose|k: int| 0 <= k < a.take(i as int).len() && #[trigger] a.take(i as int)[k] == fix_flag();
                        assert(a.take(i + 1)[k] == fix_flag());
                    }
                }
                if str_eq(arg.as_str(), "--no-deps") {
                    substrace_args.push(arg);
                    assert(strings_view(substrace_args@) =~= no_deps_args(a.take(i + 1)));
                } else {
                    args.push(arg);
                    assert(strings_view(args@) =~= cargo_args(a.take(i + 1)));
                }
            }
            i += 1;
        }
        let mut j: usize = if p < n {
            p + 1
        } else {
            n
        };
        let ghost base = substrace_args@;
        let ghost rest_start = j as int;
        assert(a.subrange(rest_start, rest_start) =~= Seq::<Seq<char>>::empty());
        assert(strings_view(base) + a.subrange(rest_start, rest_start) =~= strings_view(base));
        while j < n
            invariant
                n == a.len(),
                a == strings_view(old_args@),
                0 <= rest_start <= j <= n,
                strings_view(substrace_args@) == strings_view(base) + a.subrange(rest_start, j as int),
            decreases n - j,
        {
            let ghost prev = substrace_args@;
            substrace_args.push(old_args[j].clone());
            assert(a[j as int] == old_args@[j as int]@);
            assert(strings_view(substrace_args@) =~= strings_view(prev).push(a[j as int]));
            assert(a.subrange(rest_start, j + 1) =~= a.subrange(rest_start, j as int).push(a[j as int]));
            j += 1;
        }
        assert(a.subrange(rest_start, n as int) =~= if p < a.len() { a.skip(p + 1) } else { seq![] });
        assert(a.take(p as int) =~= a.take(separator_pos(a, 0)));
        let mut has_no_deps = false;
        let mut k: usize = 0;
        while k < substrace_args.len()
            invariant
                k <= substrace_args@.len(),
                has_no_deps == strings_view(substrace_args@.take(k as int)).contains(no_deps_flag()),
            decreases substrace_args@.len() - k,
        {
            let ghost sv = strings_view(substrace_args@);
            let ghost pre = strings_view(substrace_args@.take(k as int));
            assert(strings_view(substrace_args@.take(k + 1)) =~= pre.push(sv[k as int]));
            let hit = str_eq(substrace_args[k].as_str(), "--no-deps");
            proof {
                let post = pre.push(sv[k as int]);
                if hit {
                    assert(post[k as int] == no_deps_flag());
                } else {
                    if post.contains(no_deps_flag()) {
                        let q = choose|q: int| 0 <= q < post.len() && #[trigger] post[q] == no_deps_flag();
                        assert(pre[q] == no_deps_flag());
                    }
                    if pre.contains(no_deps_flag()) {
                        let q = choose|q: int| 0 <= q < pre.len() && #[trigger] pre[q] == no_deps_flag();
                        assert(post[q] == no_deps_flag());
                    }
                }
            }
            if hit {
                has_no_deps = true;
            }
            k += 1;
        }
        assert(substrace_args@.take(k as int) =~= substrace_args@);
        if fix && !has_no_deps {
            let ghost before = substrace_args@;
            substrace_args.push("--no-deps".to_owned());
            assert(strings_view(substrace_args@) =~= strings_view(before).push(no_deps_flag()));
        }
        let cargo_subcommand: &'static str = if fix {
            "fix"
        } else {
            "check"
        };
        SubstraceCmd { cargo_subcommand, args, substrace_args }
    }
}

} // verus!
