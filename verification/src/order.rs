//! Listings: the order in which rows are returned, and the page of a listing
//! that a limit and an offset select.

use crate::timestamp::Timestamp;
use vstd::prelude::*;

verus! {

/// Whether a row created at `a` has to stand after a row created at `b`.
pub open spec fn comes_after(a: Timestamp, b: Timestamp, newest_first: bool) -> bool {
    if newest_first {
        a.before(b)
    } else {
        b.before(a)
    }
}

/// The first place at or after `from` in `order` whose row has to stand after
/// a row created at `key`; the length of `order` if there is none.
pub open spec fn slot(
    keys: Seq<Timestamp>,
    order: Seq<int>,
    key: Timestamp,
    newest_first: bool,
    from: int,
) -> int
    decreases order.len() - from,
{
    if from < 0 || from >= order.len() {
        order.len() as int
    } else if comes_after(keys[order[from]], key, newest_first) {
        from
    } else {
        slot(keys, order, key, newest_first, from + 1)
    }
}

/// The places of the rows in a listing by creation time: oldest first, or
/// newest first. Rows created at the same time keep the order of the table.
pub open spec fn arranged(keys: Seq<Timestamp>, newest_first: bool) -> Seq<int>
    decreases keys.len(),
{
    if keys.len() == 0 {
        Seq::empty()
    } else {
        let earlier = arranged(keys.drop_last(), newest_first);
        earlier.insert(slot(keys, earlier, keys.last(), newest_first, 0), keys.len() - 1)
    }
}

/// The rows of `rows` in the order that `arranged` gives to their keys.
pub open spec fn listing<A>(rows: Seq<A>, keys: Seq<Timestamp>, newest_first: bool) -> Seq<A> {
    Seq::new(rows.len(), |p: int| rows[arranged(keys, newest_first)[p]])
}

/// The part of a listing that starts after `offset` rows and holds at most
/// `limit` rows. An offset beyond the end gives the empty page.
pub open spec fn page<A>(rows: Seq<A>, limit: u64, offset: u64) -> Seq<A> {
    let lo = if offset <= rows.len() {
        offset as int
    } else {
        rows.len() as int
    };
    let hi = if offset + limit <= rows.len() {
        offset + limit
    } else {
        rows.len() as int
    };
    rows.subrange(lo, hi)
}

/// Whether the keys `keys`, read in the order `order`, never step against the
/// direction of the listing.
pub open spec fn in_order(keys: Seq<Timestamp>, order: Seq<int>, newest_first: bool) -> bool {
    forall|p: int, q: int|
        0 <= p < q < order.len() ==> !comes_after(
            keys[#[trigger] order[p]],
            keys[#[trigger] order[q]],
            newest_first,
        )
}

/// Whether `order` names the place `i`.
pub open spec fn names(order: Seq<int>, i: int) -> bool {
    exists|p: int| 0 <= p < order.len() && order[p] == i
}

/// Whether `order` names each of the places `0 .. n` exactly once.
pub open spec fn is_permutation(order: Seq<int>, n: int) -> bool {
    &&& order.len() == n
    &&& forall|p: int| 0 <= p < order.len() ==> 0 <= #[trigger] order[p] < n
    &&& forall|p: int, q: int|
        0 <= p < q < order.len() ==> #[trigger] order[p] != #[trigger] order[q]
    &&& forall|i: int| 0 <= i < n ==> #[trigger] names(order, i)
}

proof fn lemma_slot<A>(
    keys: Seq<Timestamp>,
    order: Seq<int>,
    key: Timestamp,
    newest_first: bool,
    from: int,
)
    requires
        0 <= from <= order.len(),
    ensures
        from <= slot(keys, order, key, newest_first, from) <= order.len(),
        forall|p: int|
            from <= p < slot(keys, order, key, newest_first, from) ==> !comes_after(
                keys[#[trigger] order[p]],
                key,
                newest_first,
            ),
        slot(keys, order, key, newest_first, from) < order.len() ==> comes_after(
            keys[order[slot(keys, order, key, newest_first, from)]],
            key,
            newest_first,
        ),
    decreases order.len() - from,
{
    if from < order.len() && !comes_after(keys[order[from]], key, newest_first) {
        lemma_slot::<A>(keys, order, key, newest_first, from + 1);
    }
}

/// The place of a new row depends only on the keys of the rows already
/// arranged.
pub proof fn lemma_slot_agrees(
    keys: Seq<Timestamp>,
    others: Seq<Timestamp>,
    order: Seq<int>,
    key: Timestamp,
    newest_first: bool,
    from: int,
)
    requires
        0 <= from,
        forall|p: int| 0 <= p < order.len() ==> keys[#[trigger] order[p]] == others[order[p]],
    ensures
        slot(keys, order, key, newest_first, from) == slot(others, order, key, newest_first, from),
    decreases order.len() - from,
{
    if from < order.len() && !comes_after(keys[order[from]], key, newest_first) {
        lemma_slot_agrees(keys, others, order, key, newest_first, from + 1);
    }
}

/// An arrangement names every row once, and reads the keys in order.
pub proof fn lemma_arranged(keys: Seq<Timestamp>, newest_first: bool)
    ensures
        is_permutation(arranged(keys, newest_first), keys.len() as int),
        in_order(keys, arranged(keys, newest_first), newest_first),
    decreases keys.len(),
{
    if keys.len() > 0 {
        let rest = keys.drop_last();
        let earlier = arranged(rest, newest_first);
        let last = keys.len() - 1;
        let at = slot(keys, earlier, keys.last(), newest_first, 0);
        let order = arranged(keys, newest_first);
        lemma_arranged(rest, newest_first);
        lemma_slot::<int>(keys, earlier, keys.last(), newest_first, 0);
        assert(order == earlier.insert(at, last));
        assert forall|p: int| 0 <= p < order.len() implies 0 <= #[trigger] order[p] < keys.len() by {
            if p < at {
                assert(order[p] == earlier[p]);
            } else if p > at {
                assert(order[p] == earlier[p - 1]);
            }
        }
        assert forall|p: int, q: int| 0 <= p < q < order.len() implies #[trigger] order[p]
            != #[trigger] order[q] by {
            let a = if p < at {
                p
            } else {
                p - 1
            };
            let b = if q < at {
                q
            } else {
                q - 1
            };
            if p != at && q != at {
                assert(order[p] == earlier[a]);
                assert(order[q] == earlier[b]);
            } else if p == at {
                assert(order[q] == earlier[b]);
            } else {
                assert(order[p] == earlier[a]);
            }
        }
        assert forall|i: int| 0 <= i < keys.len() implies #[trigger] names(order, i) by {
            if i == last {
                assert(order[at] == i);
            } else {
                assert(names(earlier, i));
                let found = choose|p: int| 0 <= p < earlier.len() && earlier[p] == i;
                if found < at {
                    assert(order[found] == i);
                } else {
                    assert(order[found + 1] == i);
                }
            }
        }
        assert forall|p: int, q: int| 0 <= p < q < order.len() implies !comes_after(
            keys[#[trigger] order[p]],
            keys[#[trigger] order[q]],
            newest_first,
        ) by {
            let a = if p < at {
                p
            } else {
                p - 1
            };
            let b = if q < at {
                q
            } else {
                q - 1
            };
            if p != at && q != at {
                assert(order[p] == earlier[a]);
                assert(order[q] == earlier[b]);
                assert(rest[earlier[a]] == keys[earlier[a]]);
                assert(rest[earlier[b]] == keys[earlier[b]]);
            } else if p == at {
                // the row at q stood at or after the slot: it comes after the new key,
                // or some row before it does and it does not come before that row
                assert(order[q] == earlier[b]);
                assert(rest[earlier[b]] == keys[earlier[b]]);
                assert(rest[earlier[at]] == keys[earlier[at]]);
                if b > at {
                    assert(!comes_after(rest[earlier[at]], rest[earlier[b]], newest_first));
                }
            } else {
                assert(order[p] == earlier[a]);
            }
        }
    }
}

/// Whether a row created at `a` has to stand after a row created at `b`.
pub fn stands_after(a: &Timestamp, b: &Timestamp, newest_first: bool) -> (r: bool)
    ensures
        r == comes_after(*a, *b, newest_first),
{
    if newest_first {
        a.is_before(b)
    } else {
        b.is_before(a)
    }
}

/// The bounds of a page within a listing of `len` rows.
pub fn page_bounds(len: usize, limit: u64, offset: u64) -> (r: (usize, usize))
    ensures
        r.0 <= r.1 <= len,
        r.0 == if offset <= len {
            offset as int
        } else {
            len as int
        },
        r.1 == if offset + limit <= len {
            offset + limit
        } else {
            len as int
        },
{
    if offset >= len as u64 {
        (len, len)
    } else {
        let lo: usize = offset as usize;
        let room: usize = len - lo;
        if limit >= room as u64 {
            (lo, len)
        } else {
            (lo, lo + limit as usize)
        }
    }
}

/// Arranges rows by their creation times. The result holds, for each place
/// of the listing, the place of its row in `keys`.
pub fn arrange(keys: &Vec<Timestamp>, newest_first: bool) -> (r: Vec<usize>)
    ensures
        r@.len() == keys@.len(),
        forall|p: int| 0 <= p < r@.len() ==> r@[p] as int == arranged(keys@, newest_first)[p],
        forall|p: int| 0 <= p < r@.len() ==> (#[trigger] r@[p]) < keys@.len(),
{
    let mut order: Vec<usize> = Vec::new();
    let mut i: usize = 0;
    proof {
        assert(keys@.take(0) =~= Seq::empty());
    }
    while i < keys.len()
        invariant
            0 <= i <= keys@.len(),
            order@.len() == i,
            forall|p: int|
                0 <= p < order@.len() ==> order@[p] as int == arranged(
                    keys@.take(i as int),
                    newest_first,
                )[p],
            forall|p: int| 0 <= p < order@.len() ==> (#[trigger] order@[p]) < i,
        decreases keys@.len() - i,
    {
        let ghost earlier = arranged(keys@.take(i as int), newest_first);
        let ghost grown = keys@.take(i as int + 1);
        let key = keys[i];
        proof {
            lemma_arranged(keys@.take(i as int), newest_first);
            assert(grown.drop_last() =~= keys@.take(i as int));
            assert(grown.last() == key);
            assert forall|p: int| 0 <= p < earlier.len() implies grown[#[trigger] earlier[p]]
                == keys@[earlier[p]] by {}
            lemma_slot_agrees(grown, keys@, earlier, key, newest_first, 0);
        }
        let mut at: usize = 0;
        while at < order.len() && !stands_after(&keys[order[at]], &key, newest_first)
            invariant
                0 <= at <= order@.len(),
                order@.len() == i,
                i < keys@.len(),
                earlier.len() == i,
                forall|p: int| 0 <= p < order@.len() ==> order@[p] as int == earlier[p],
                forall|p: int| 0 <= p < order@.len() ==> (#[trigger] order@[p]) < i,
                slot(keys@, earlier, key, newest_first, 0) == slot(
                    keys@,
                    earlier,
                    key,
                    newest_first,
                    at as int,
                ),
            decreases order@.len() - at,
        {
            at += 1;
        }
        order.insert(at, i);
        proof {
            let next = arranged(grown, newest_first);
            assert(next == earlier.insert(at as int, i as int));
            assert forall|p: int| 0 <= p < order@.len() implies order@[p] as int == next[p] by {
                if p < at {
                } else if p > at {
                }
            }
        }
        i += 1;
    }
    proof {
        assert(keys@.take(keys@.len() as int) =~= keys@);
    }
    order
}

/// A page of the listing of `items` by the creation times `keys`.
pub fn paged<A: Copy>(
    items: &Vec<A>,
    keys: &Vec<Timestamp>,
    newest_first: bool,
    limit: u64,
    offset: u64,
) -> (r: Vec<A>)
    requires
        items@.len() == keys@.len(),
    ensures
        r@ == page(listing(items@, keys@, newest_first), limit, offset),
{
    let order = arrange(keys, newest_first);
    let (lo, hi) = page_bounds(order.len(), limit, offset);
    let mut out: Vec<A> = Vec::new();
    let mut p: usize = lo;
    while p < hi
        invariant
            lo <= p <= hi <= order@.len(),
            order@.len() == keys@.len(),
            items@.len() == keys@.len(),
            forall|q: int|
                0 <= q < order@.len() ==> order@[q] as int == arranged(keys@, newest_first)[q],
            forall|q: int| 0 <= q < order@.len() ==> (#[trigger] order@[q]) < keys@.len(),
            out@.len() == p - lo,
            forall|q: int|
                0 <= q < out@.len() ==> out@[q] == items@[arranged(keys@, newest_first)[lo + q]],
        decreases hi - p,
    {
        out.push(items[order[p]]);
        p += 1;
    }
    proof {
        assert(out@ =~= page(listing(items@, keys@, newest_first), limit, offset));
    }
    out
}

} // verus!
