use vstd::prelude::*;

verus! {

/// The newline byte.
pub open spec fn nl() -> u8 {
    10u8
}

/// Length of the leading run of newline bytes.
pub open spec fn newline_run(s: Seq<u8>) -> nat
    decreases s.len(),
{
    if s.len() == 0 || s[0] != nl() {
        0
    } else {
        1 + newline_run(s.drop_first())
    }
}

/// The leading newline run is a maximal, all-newline prefix.
pub proof fn lemma_newline_run_facts(s: Seq<u8>)
    ensures
        newline_run(s) <= s.len(),
        s.len() > 0 && s[0] == nl() ==> newline_run(s) >= 1,
        forall|i: int| 0 <= i < newline_run(s) ==> s[i] == nl(),
        newline_run(s) < s.len() ==> s[newline_run(s) as int] != nl(),
    decreases s.len(),
{
    if s.len() == 0 || s[0] != nl() {
    } else {
        lemma_newline_run_facts(s.drop_first());
        let t = s.drop_first();
        assert forall|i: int| 0 <= i < newline_run(s) implies s[i] == nl() by {
            if i > 0 {
                assert(t[i - 1] == s[i]);
            }
        }
        if newline_run(s) < s.len() {
            assert(t[newline_run(t) as int] == s[newline_run(s) as int]);
        }
    }
}

/// A leading stretch of `n` newlines followed by a non-newline byte (or
/// the end) pins the run length to `n` exactly.
pub proof fn lemma_newline_run_exact(s: Seq<u8>, n: int)
    requires
        0 <= n <= s.len(),
        forall|i: int| 0 <= i < n ==> s[i] == nl(),
        n == s.len() || s[n] != nl(),
    ensures
        newline_run(s) == n,
    decreases n,
{
    if n == 0 {
    } else {
        assert(s[0] == nl());
        let t = s.drop_first();
        assert forall|i: int| 0 <= i < n - 1 implies t[i] == nl() by {
            assert(t[i] == s[i + 1]);
        }
        if n - 1 < t.len() {
            assert(t[n - 1] == s[n]);
        }
        lemma_newline_run_exact(t, n - 1);
    }
}

/// The whitespace normalization applied to every rendered artifact:
/// interior runs of three or more newlines collapse to exactly two, and a
/// trailing run of newlines collapses to exactly one.
pub open spec fn collapse_spec(s: Seq<u8>) -> Seq<u8>
    decreases s.len(),
    via collapse_spec_dec
{
    if s.len() == 0 {
        Seq::empty()
    } else if s[0] != nl() {
        seq![s[0]] + collapse_spec(s.drop_first())
    } else {
        let n = newline_run(s) as int;
        let rest = s.skip(n);
        if rest.len() == 0 {
            seq![nl()]
        } else if n >= 3 {
            seq![nl(), nl()] + collapse_spec(rest)
        } else {
            s.take(n) + collapse_spec(rest)
        }
    }
}

#[via_fn]
proof fn collapse_spec_dec(s: Seq<u8>) {
    lemma_newline_run_facts(s);
}

/// Text already in normal form: collapsing changes nothing.
pub open spec fn is_collapsed(s: Seq<u8>) -> bool {
    collapse_spec(s) == s
}

/// Collapsing keeps a non-newline first byte in place and never empties a
/// nonempty text.
pub proof fn lemma_collapse_head(s: Seq<u8>)
    requires
        s.len() > 0,
    ensures
        collapse_spec(s).len() > 0,
        s[0] != nl() ==> collapse_spec(s)[0] == s[0],
{
    lemma_newline_run_facts(s);
}

/// Collapsing is idempotent: normalizing already-normalized text changes
/// nothing, so the normalization pass runs once and is done.
pub proof fn lemma_collapse_idempotent(s: Seq<u8>)
    ensures
        collapse_spec(collapse_spec(s)) == collapse_spec(s),
    decreases s.len(),
{
    lemma_newline_run_facts(s);
    if s.len() == 0 {
    } else if s[0] != nl() {
        let c = collapse_spec(s);
        let tail = collapse_spec(s.drop_first());
        lemma_collapse_idempotent(s.drop_first());
        assert(c == seq![s[0]] + tail);
        assert(c[0] == s[0]);
        assert(c.drop_first() =~= tail);
        assert(collapse_spec(c) == seq![s[0]] + collapse_spec(tail));
    } else {
        let n = newline_run(s) as int;
        let rest = s.skip(n);
        if rest.len() == 0 {
            let c = collapse_spec(s);
            assert(c =~= seq![nl()]);
            lemma_newline_run_exact(c, 1);
            assert(c.skip(1).len() == 0);
        } else {
            assert(rest[0] == s[n]);
            assert(rest[0] != nl());
            lemma_collapse_head(rest);
            lemma_collapse_idempotent(rest);
            let cr = collapse_spec(rest);
            if n >= 3 {
                let c = collapse_spec(s);
                assert(c == seq![nl(), nl()] + cr);
                assert(c[0] == nl() && c[1] == nl() && c[2] == cr[0]);
                assert(forall|i: int| 0 <= i < 2 ==> c[i] == nl());
                lemma_newline_run_exact(c, 2);
                assert(c.skip(2) =~= cr);
                assert(c.take(2) =~= seq![nl(), nl()]);
                assert(collapse_spec(c) == c.take(2) + collapse_spec(cr));
                assert(collapse_spec(c) == seq![nl(), nl()] + cr);
            } else {
                let c = collapse_spec(s);
                assert(c == s.take(n) + cr);
                assert(forall|i: int| 0 <= i < n ==> c[i] == s[i] && s[i] == nl());
                assert(c[n] == cr[0]);
                lemma_newline_run_exact(c, n);
                assert(c.skip(n) =~= cr);
                assert(c.take(n) =~= s.take(n));
                assert(collapse_spec(c) == c.take(n) + collapse_spec(cr));
                assert(collapse_spec(c) == s.take(n) + cr);
            }
        }
    }
}

/// Collapse interior runs of three or more newlines to two and a trailing
/// newline run to one, easing blank-line bookkeeping for template authors.
pub fn collapse_newlines(s: &Vec<u8>) -> (r: Vec<u8>)
    ensures
        r@ == collapse_spec(s@),
        is_collapsed(r@),
{
    let mut out: Vec<u8> = Vec::new();
    let mut i: usize = 0;
    proof {
        assert(s@.skip(0) =~= s@);
    }
    while i < s.len()
        invariant
            i <= s@.len(),
            collapse_spec(s@) == out@ + collapse_spec(s@.skip(i as int)),
        decreases s@.len() - i,
    {
        if s[i] != 10u8 {
            out.push(s[i]);
            proof {
                let rest = s@.skip(i as int);
                assert(rest[0] == s@[i as int]);
                assert(rest.drop_first() =~= s@.skip(i + 1));
                assert(collapse_spec(rest) == seq![s@[i as int]] + collapse_spec(s@.skip(i + 1)));
                assert(out@ + collapse_spec(s@.skip(i + 1)) =~= collapse_spec(s@));
            }
            i = i + 1;
        } else {
            let mut j: usize = i;
            while j < s.len() && s[j] == 10u8
                invariant
                    i <= j <= s@.len(),
                    forall|k: int| i <= k < j ==> s@[k] == nl(),
                decreases s@.len() - j,
            {
                j = j + 1;
            }
            let n = j - i;
            proof {
                let rest = s@.skip(i as int);
                assert forall|k: int| 0 <= k < n implies rest[k] == nl() by {
                    assert(rest[k] == s@[i + k]);
                }
                if n < rest.len() {
                    assert(rest[n as int] == s@[j as int]);
                }
                lemma_newline_run_exact(rest, n as int);
                assert(rest.skip(n as int) =~= s@.skip(j as int));
            }
            if j == s.len() {
                out.push(10u8);
                proof {
                    let rest = s@.skip(i as int);
                    assert(rest.skip(n as int).len() == 0);
                    assert(collapse_spec(rest) =~= seq![nl()]);
                    assert(out@ + collapse_spec(s@.skip(j as int)) =~= collapse_spec(s@));
                }
            } else if n >= 3 {
                out.push(10u8);
                out.push(10u8);
                proof {
                    let rest = s@.skip(i as int);
                    assert(collapse_spec(rest) == seq![nl(), nl()] + collapse_spec(
                        s@.skip(j as int),
                    ));
                    assert(out@ + collapse_spec(s@.skip(j as int)) =~= collapse_spec(s@));
                }
            } else {
                out.push(10u8);
                if n == 2 {
                    out.push(10u8);
                }
                proof {
                    let rest = s@.skip(i as int);
                    assert(collapse_spec(rest) == rest.take(n as int) + collapse_spec(
                        s@.skip(j as int),
                    ));
                    if n == 1 {
                        assert(rest.take(1) =~= seq![nl()]);
                    } else {
                        assert(rest.take(2) =~= seq![nl(), nl()]);
                    }
                    assert(out@ + collapse_spec(s@.skip(j as int)) =~= collapse_spec(s@));
                }
            }
            i = j;
        }
    }
    proof {
        assert(s@.skip(s@.len() as int).len() == 0);
        assert(out@ =~= collapse_spec(s@));
        lemma_collapse_idempotent(s@);
    }
    out
}

} // verus!
