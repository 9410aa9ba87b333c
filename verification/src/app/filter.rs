//! The fuzzy filter over device names.

use vstd::prelude::*;

use crate::text;
use crate::text::lowercase;

verus! {

/// The positions pick `needle` out of `hay`, from left to right.
pub open spec fn picks(hay: Seq<char>, needle: Seq<char>, at: Seq<int>) -> bool {
    &&& at.len() == needle.len()
    &&& forall|k: int|
        0 <= k < at.len() ==> 0 <= #[trigger] at[k] < hay.len() && hay[at[k]] == needle[k]
    &&& forall|k: int, l: int| 0 <= k < l < at.len() ==> #[trigger] at[k] < #[trigger] at[l]
}

/// Every character of `needle` appears in `hay`, in order.
pub open spec fn subsequence(hay: Seq<char>, needle: Seq<char>) -> bool {
    exists|at: Seq<int>| picks(hay, needle, at)
}

/// The name matches the query, whatever the case.
pub open spec fn fuzzy(name: Seq<char>, query: Seq<char>) -> bool {
    subsequence(lowercase(name), lowercase(query))
}

/// A device of that name is shown: an empty filter shows all.
pub open spec fn matches_filter(name: Seq<char>, filter: Seq<char>) -> bool {
    filter.len() == 0 || fuzzy(name, filter)
}

/// Without its last position, a pick is one of the needle without its last
/// character, out of what stands before that position.
proof fn lemma_picks_shorter(hay: Seq<char>, needle: Seq<char>, at: Seq<int>, end: int)
    requires
        picks(hay, needle, at),
        needle.len() > 0,
        at.last() <= end <= hay.len(),
    ensures
        picks(hay.take(end), needle.drop_last(), at.drop_last()),
{
    let shorter = at.drop_last();
    assert forall|k: int| 0 <= k < shorter.len() implies 0 <= #[trigger] shorter[k] < end
        && hay.take(end)[shorter[k]] == needle.drop_last()[k] by {
        assert(at[k] < at[at.len() - 1]);
    }
}

proof fn lemma_picks_prefix(hay: Seq<char>, needle: Seq<char>, at: Seq<int>, n: int)
    requires
        picks(hay, needle, at),
        0 <= n <= needle.len(),
    ensures
        picks(hay, needle.take(n), at.take(n)),
{
}

fn is_subsequence(hay: &Vec<char>, needle: &Vec<char>) -> (r: bool)
    ensures
        r == subsequence(hay@, needle@),
{
    let mut i: usize = 0;
    let mut k: usize = 0;
    let ghost mut at: Seq<int> = Seq::empty();
    assert(picks(hay@.take(0), needle@.take(0), at));
    assert(k < needle@.len() ==> !subsequence(hay@.take(0), needle@.take(k + 1))) by {
        if k < needle@.len() && subsequence(hay@.take(0), needle@.take(k + 1)) {
            let n = needle@.take(k + 1);
            let none = hay@.take(0);
            let q = choose|q: Seq<int>| picks(none, n, q);
            assert(0 <= q[0] < none.len());
        }
    }
    while i < hay.len() && k < needle.len()
        invariant
            i <= hay@.len(),
            k <= needle@.len(),
            picks(hay@.take(i as int), needle@.take(k as int), at),
            k < needle@.len() ==> !subsequence(hay@.take(i as int), needle@.take(k + 1)),
        decreases hay@.len() - i,
    {
        let ghost h = hay@.take(i + 1);
        if hay[i] == needle[k] {
            proof {
                let longer = at.push(i as int);
                assert forall|m: int| 0 <= m < longer.len() implies 0 <= #[trigger] longer[m]
                    < h.len() && h[longer[m]] == needle@.take(k + 1)[m] by {
                    if m < at.len() {
                        assert(longer[m] == at[m]);
                        assert(hay@.take(i as int)[at[m]] == needle@.take(k as int)[m]);
                    }
                }
                assert forall|m: int, l: int| 0 <= m < l < longer.len() implies #[trigger] longer[m]
                    < #[trigger] longer[l] by {
                    assert(longer[m] == at[m]);
                    if l < at.len() {
                        assert(longer[l] == at[l]);
                    }
                }
                if k + 1 < needle@.len() && subsequence(h, needle@.take(k + 2)) {
                    let n = needle@.take(k + 2);
                    let q = choose|q: Seq<int>| picks(h, n, q);
                    assert(0 <= q[k + 1] < h.len());
                    lemma_picks_shorter(h, needle@.take(k + 2), q, i as int);
                    assert(h.take(i as int) =~= hay@.take(i as int));
                    assert(needle@.take(k + 2).drop_last() =~= needle@.take(k + 1));
                    assert(subsequence(hay@.take(i as int), needle@.take(k + 1)));
                }
                at = longer;
            }
            k += 1;
        } else {
            proof {
                assert forall|m: int| 0 <= m < at.len() implies 0 <= #[trigger] at[m] < h.len()
                    && h[at[m]] == needle@.take(k as int)[m] by {
                    assert(hay@.take(i as int)[at[m]] == needle@.take(k as int)[m]);
                }
                if subsequence(h, needle@.take(k + 1)) {
                    let n = needle@.take(k + 1);
                    let q = choose|q: Seq<int>| picks(h, n, q);
                    assert(0 <= q[k as int] < h.len());
                    assert(h[q[k as int]] == needle@.take(k + 1)[k as int]);
                    assert(q[k as int] != i);
                    assert forall|m: int| 0 <= m < q.len() implies 0 <= #[trigger] q[m] < i
                        && hay@.take(i as int)[q[m]] == needle@.take(k + 1)[m] by {
                        if m < k {
                            assert(q[m] < q[k as int]);
                        }
                        assert(h[q[m]] == needle@.take(k + 1)[m]);
                    }
                    assert(picks(hay@.take(i as int), needle@.take(k + 1), q));
                }
            }
        }
        i += 1;
    }
    proof {
        if k == needle@.len() {
            assert(needle@.take(k as int) =~= needle@);
            assert forall|m: int| 0 <= m < at.len() implies 0 <= #[trigger] at[m] < hay@.len()
                && hay@[at[m]] == needle@[m] by {
                assert(hay@.take(i as int)[at[m]] == needle@.take(k as int)[m]);
            }
            assert(picks(hay@, needle@, at));
        } else {
            assert(hay@.take(i as int) =~= hay@);
            if subsequence(hay@, needle@) {
                let q = choose|q: Seq<int>| picks(hay@, needle@, q);
                lemma_picks_prefix(hay@, needle@, q, k + 1);
            }
        }
    }
    k == needle.len()
}

/// Case-insensitive subsequence match, fzf-style: every needle char must
/// appear in the haystack in order.
pub fn fuzzy_match(haystack: &str, needle: &str) -> (r: bool)
    ensures
        r == fuzzy(haystack@, needle@),
{
    let hay = text::chars_of(haystack.to_lowercase().as_str());
    let needle = text::chars_of(needle.to_lowercase().as_str());
    is_subsequence(&hay, &needle)
}

// ---------------------------------------------------------------------------
// Laws
// ---------------------------------------------------------------------------

/// A name matches itself.
pub proof fn names_match_themselves(name: Seq<char>)
    ensures
        fuzzy(name, name),
{
    let s = lowercase(name);
    assert(picks(s, s, Seq::new(s.len(), |k: int| k)));
}

/// A longer query matches no more than a shorter one that begins it.
pub proof fn typing_narrows_the_match(hay: Seq<char>, needle: Seq<char>, n: int)
    requires
        0 <= n <= needle.len(),
        subsequence(hay, needle),
    ensures
        subsequence(hay, needle.take(n)),
{
    let at = choose|at: Seq<int>| picks(hay, needle, at);
    lemma_picks_prefix(hay, needle, at, n);
}

} // verus!
