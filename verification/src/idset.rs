//! Ordered sets of game ids, kept as strictly ascending vectors, and the
//! paginated enumeration over them.

use vstd::prelude::*;
use crate::state::sorted_strict;

verus! {

/// Page size used when a query names none.
pub const DEFAULT_LIMIT: u32 = 10;

/// Hard cap on the page size of a query.
pub const MAX_LIMIT: u32 = 30;

/// Whether `x` lies beyond the exclusive lower bound of a page.
pub open spec fn above(start_after: Option<u128>, x: u128) -> bool {
    match start_after {
        Option::None => true,
        Option::Some(b) => x > b,
    }
}

/// The page size a query asked for: the stated limit, capped at
/// `MAX_LIMIT`, or `DEFAULT_LIMIT` when none was stated.
pub open spec fn effective_limit(limit: Option<u32>) -> u32 {
    let l = match limit {
        Option::None => DEFAULT_LIMIT,
        Option::Some(l) => l,
    };
    if l > MAX_LIMIT {
        MAX_LIMIT
    } else {
        l
    }
}

/// The first `lim` elements of `s`, in order, that lie beyond the exclusive
/// lower bound.
pub open spec fn page_of(s: Seq<u128>, start_after: Option<u128>, lim: nat) -> Seq<u128>
    decreases s.len(),
{
    if s.len() == 0 || lim == 0 {
        Seq::empty()
    } else if above(start_after, s[0]) {
        seq![s[0]] + page_of(s.drop_first(), start_after, (lim - 1) as nat)
    } else {
        page_of(s.drop_first(), start_after, lim)
    }
}

/// A page of the empty sequence is empty.
pub proof fn lemma_page_empty(start_after: Option<u128>, lim: nat)
    ensures
        page_of(Seq::<u128>::empty(), start_after, lim) == Seq::<u128>::empty(),
{
}

/// A page never exceeds its limit.
pub proof fn lemma_page_len(s: Seq<u128>, start_after: Option<u128>, lim: nat)
    ensures
        page_of(s, start_after, lim).len() <= lim,
    decreases s.len(),
{
    if s.len() == 0 || lim == 0 {
    } else if above(start_after, s[0]) {
        lemma_page_len(s.drop_first(), start_after, (lim - 1) as nat)
    } else {
        lemma_page_len(s.drop_first(), start_after, lim)
    }
}

/// How a page grows when one more element is appended to the underlying
/// sequence: it is appended to the page exactly when it qualifies and the
/// page has room.
pub proof fn lemma_page_push(s: Seq<u128>, start_after: Option<u128>, lim: nat, x: u128)
    ensures
        page_of(s.push(x), start_after, lim) == if above(start_after, x) && page_of(
            s,
            start_after,
            lim,
        ).len() < lim {
            page_of(s, start_after, lim).push(x)
        } else {
            page_of(s, start_after, lim)
        },
    decreases s.len(),
{
    lemma_page_len(s, start_after, lim);
    lemma_page_empty(start_after, lim);
    lemma_page_empty(start_after, (lim - 1) as nat);
    if s.len() == 0 {
        assert(page_of(s, start_after, lim) =~= Seq::<u128>::empty());
        if lim == 0 {
            assert(page_of(s.push(x), start_after, lim) =~= Seq::<u128>::empty());
        } else if above(start_after, x) {
            assert(s.push(x)[0] == x);
            assert(s.push(x).drop_first() =~= Seq::<u128>::empty());
            assert(page_of(s.push(x), start_after, lim) == seq![x] + page_of(
                Seq::<u128>::empty(),
                start_after,
                (lim - 1) as nat,
            ));
            assert(page_of(s.push(x), start_after, lim) =~= Seq::<u128>::empty().push(x));
        } else {
            assert(s.push(x)[0] == x);
            assert(s.push(x).drop_first() =~= Seq::<u128>::empty());
            assert(page_of(s.push(x), start_after, lim) =~= Seq::<u128>::empty());
        }
    } else if lim == 0 {
        assert(page_of(s.push(x), start_after, lim) =~= Seq::<u128>::empty());
        assert(page_of(s, start_after, lim) =~= Seq::<u128>::empty());
    } else {
        assert(s.push(x)[0] == s[0]);
        assert(s.push(x).drop_first() =~= s.drop_first().push(x));
        if above(start_after, s[0]) {
            lemma_page_push(s.drop_first(), start_after, (lim - 1) as nat, x);
            if above(start_after, x) && page_of(s, start_after, lim).len() < lim {
                assert(seq![s[0]] + page_of(s.drop_first(), start_after, (lim - 1) as nat).push(x)
                    =~= (seq![s[0]] + page_of(s.drop_first(), start_after, (lim - 1) as nat)).push(
                    x,
                ));
            }
        } else {
            lemma_page_push(s.drop_first(), start_after, lim, x);
        }
    }
}

/// Every element of a page qualifies and comes from the underlying
/// sequence; a page of an ascending sequence is ascending.
pub proof fn lemma_page_members(s: Seq<u128>, start_after: Option<u128>, lim: nat)
    ensures
        forall|k: int|
            0 <= k < page_of(s, start_after, lim).len() ==> s.contains(
                #[trigger] page_of(s, start_after, lim)[k],
            ) && above(start_after, page_of(s, start_after, lim)[k]),
        sorted_strict(s) ==> sorted_strict(page_of(s, start_after, lim)),
    decreases s.len(),
{
    if s.len() == 0 || lim == 0 {
    } else {
        let tail = s.drop_first();
        lemma_page_members(tail, start_after, lim);
        lemma_page_members(tail, start_after, (lim - 1) as nat);
        assert forall|y: u128| tail.contains(y) implies s.contains(y) by {
            let i = choose|i: int| 0 <= i < tail.len() && tail[i] == y;
            assert(s[i + 1] == y);
        }
        if sorted_strict(s) {
            assert(forall|i: int, j: int| 0 <= i < j < tail.len() ==> tail[i] < tail[j]);
            assert(sorted_strict(tail));
        }
        if above(start_after, s[0]) {
            let rest = page_of(tail, start_after, (lim - 1) as nat);
            let whole = seq![s[0]] + rest;
            assert(page_of(s, start_after, lim) == whole);
            assert(whole[0] == s[0]);
            assert(s.contains(s[0])) by {
                assert(s[0] == s[0]);
            }
            assert(forall|k: int| 0 <= k < rest.len() ==> whole[k + 1] == rest[k]);
            assert forall|k: int| 0 <= k < whole.len() implies s.contains(#[trigger] whole[k])
                && above(start_after, whole[k]) by {
                if k > 0 {
                    assert(whole[k] == rest[k - 1]);
                    assert(tail.contains(rest[k - 1]));
                }
            }
            if sorted_strict(s) {
                assert forall|k: int| 0 <= k < rest.len() implies s[0] < rest[k] by {
                    assert(tail.contains(rest[k]));
                    let i = choose|i: int| 0 <= i < tail.len() && tail[i] == rest[k];
                    assert(s[i + 1] == rest[k]);
                }
                assert forall|i: int, j: int|
                    0 <= i < j < whole.len() implies whole[i] < whole[j] by {
                    if i == 0 {
                        assert(whole[j] == rest[j - 1]);
                    } else {
                        assert(whole[i] == rest[i - 1]);
                        assert(whole[j] == rest[j - 1]);
                    }
                }
                assert(sorted_strict(whole));
            }
        } else {
            assert(page_of(s, start_after, lim) == page_of(tail, start_after, lim));
        }
    }
}

/// Inserts an id that is not yet present into an ascending id list, keeping
/// the list ascending.
#[verifier::loop_isolation(false)]
pub fn insert_sorted(v: &mut Vec<u128>, id: u128)
    requires
        sorted_strict(old(v)@),
        !old(v)@.contains(id),
    ensures
        sorted_strict(final(v)@),
        final(v)@.len() == old(v)@.len() + 1,
        forall|x: u128| final(v)@.contains(x) <==> old(v)@.contains(x) || x == id,
{
    let ghost orig = v@;
    let mut i: usize = 0;
    while i < v.len() && v[i] < id
        invariant
            i <= orig.len(),
            v@ == orig,
            forall|k: int| 0 <= k < i ==> orig[k] < id,
        decreases orig.len() - i,
    {
        i += 1;
    }
    proof {
        assert forall|k: int| i <= k < orig.len() implies orig[k] > id by {
            assert(orig.contains(orig[k])) by {
                assert(orig[k] == orig[k]);
            }
            assert(orig[k] != id);
            if k > i {
                assert(orig[i as int] < orig[k]);
            }
        }
    }
    v.insert(i, id);
    proof {
        orig.insert_ensures(i as int, id);
        assert forall|a: int, b: int| 0 <= a < b < v@.len() implies v@[a] < v@[b] by {
            if b < i {
                assert(v@[a] == orig[a] && v@[b] == orig[b]);
            } else if a > i {
                assert(v@[a] == orig[a - 1] && v@[b] == orig[b - 1]);
            } else if a == i {
                assert(v@[a] == id && v@[b] == orig[b - 1]);
            } else if b == i {
                assert(v@[a] == orig[a] && v@[b] == id);
            } else {
                assert(v@[a] == orig[a] && v@[b] == orig[b - 1]);
            }
        }
        assert forall|x: u128| v@.contains(x) implies orig.contains(x) || x == id by {
            let k = choose|k: int| 0 <= k < v@.len() && v@[k] == x;
            if k < i {
                assert(orig[k] == x);
            } else if k > i {
                assert(orig[k - 1] == x);
            }
        }
        assert forall|x: u128| orig.contains(x) || x == id implies v@.contains(x) by {
            if x == id {
                assert(v@[i as int] == id);
            } else {
                let k = choose|k: int| 0 <= k < orig.len() && orig[k] == x;
                if k < i {
                    assert(v@[k] == x);
                } else {
                    assert(v@[k + 1] == x);
                }
            }
        }
    }
}

/// Removes a present id from an ascending id list, keeping the list
/// ascending.
#[verifier::loop_isolation(false)]
pub fn remove_sorted(v: &mut Vec<u128>, id: u128)
    requires
        sorted_strict(old(v)@),
        old(v)@.contains(id),
    ensures
        sorted_strict(final(v)@),
        final(v)@.len() == old(v)@.len() - 1,
        forall|x: u128| final(v)@.contains(x) <==> old(v)@.contains(x) && x != id,
{
    let ghost orig = v@;
    let ghost w = choose|w: int| 0 <= w < orig.len() && orig[w] == id;
    let mut i: usize = 0;
    while i < v.len() && v[i] != id
        invariant
            0 <= i <= w,
            v@ == orig,
        decreases w - i,
    {
        proof {
            if i == w {
                assert(orig[i as int] == id);
            }
        }
        i += 1;
    }
    proof {
        if i as int != w {
            assert(orig[w] == id);
        }
    }
    proof {
        assert forall|k: int| 0 <= k < orig.len() && k != i implies orig[k] != id by {
            if k < i {
                assert(orig[k] < orig[i as int]);
            } else {
                assert(orig[i as int] < orig[k]);
            }
        }
    }
    v.remove(i);
    proof {
        orig.remove_ensures(i as int);
        assert forall|a: int, b: int| 0 <= a < b < v@.len() implies v@[a] < v@[b] by {
            if b < i {
                assert(v@[a] == orig[a] && v@[b] == orig[b]);
            } else if a >= i {
                assert(v@[a] == orig[a + 1] && v@[b] == orig[b + 1]);
            } else {
                assert(v@[a] == orig[a] && v@[b] == orig[b + 1]);
            }
        }
        assert forall|x: u128| v@.contains(x) implies orig.contains(x) && x != id by {
            let k = choose|k: int| 0 <= k < v@.len() && v@[k] == x;
            if k < i {
                assert(orig[k] == x);
            } else {
                assert(orig[k + 1] == x);
            }
        }
        assert forall|x: u128| orig.contains(x) && x != id implies v@.contains(x) by {
            let k = choose|k: int| 0 <= k < orig.len() && orig[k] == x;
            if k < i {
                assert(v@[k] == x);
            } else {
                assert(v@[k - 1] == x);
            }
        }
    }
}

/// Collects one page of ids: at most the effective limit, in ascending
/// position order, each strictly beyond the exclusive lower bound.
pub fn paginate_ids(v: &Vec<u128>, start_after: Option<u128>, limit: Option<u32>) -> (page: Vec<
    u128,
>)
    ensures
        page@ == page_of(v@, start_after, effective_limit(limit) as nat),
{
    let lim: u32 = match limit {
        Option::None => DEFAULT_LIMIT,
        Option::Some(l) => if l > MAX_LIMIT {
            MAX_LIMIT
        } else {
            l
        },
    };
    let mut page: Vec<u128> = Vec::new();
    let mut i: usize = 0;
    proof {
        assert(v@.take(0) =~= Seq::<u128>::empty());
    }
    while i < v.len()
        invariant
            i <= v@.len(),
            lim == effective_limit(limit),
            page@ == page_of(v@.take(i as int), start_after, lim as nat),
            page@.len() <= lim,
        decreases v@.len() - i,
    {
        proof {
            assert(v@.take(i as int).push(v@[i as int]) =~= v@.take(i as int + 1));
            lemma_page_push(v@.take(i as int), start_after, lim as nat, v@[i as int]);
        }
        let qualifies: bool = match start_after {
            Option::None => true,
            Option::Some(b) => v[i] > b,
        };
        if qualifies && page.len() < lim as usize {
            page.push(v[i]);
        }
        i += 1;
    }
    proof {
        assert(v@.take(v@.len() as int) =~= v@);
    }
    page
}

} // verus!
