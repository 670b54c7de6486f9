//! Selections from a table: which rows of a sequence a predicate keeps, where
//! each kept row came from, and what a selection preserves.

use vstd::prelude::*;

verus! {

/// How many of the first `i` rows of `s` the predicate keeps.
pub open spec fn rank<A>(s: Seq<A>, keep: spec_fn(A) -> bool, i: int) -> int
    decreases i,
{
    if i <= 0 {
        0
    } else {
        rank(s, keep, i - 1) + if keep(s[i - 1]) {
            1int
        } else {
            0int
        }
    }
}

/// The place in `s` of the row that stands at place `k` of `s.filter(keep)`.
pub open spec fn origin<A>(s: Seq<A>, keep: spec_fn(A) -> bool, k: int) -> int
    decreases s.len(),
{
    if s.len() == 0 {
        0
    } else if keep(s.last()) && k == s.drop_last().filter(keep).len() {
        s.len() - 1
    } else {
        origin(s.drop_last(), keep, k)
    }
}

/// Selecting from a table with one more row.
pub proof fn lemma_filter_push<A>(s: Seq<A>, row: A, keep: spec_fn(A) -> bool)
    ensures
        s.push(row).filter(keep) == if keep(row) {
            s.filter(keep).push(row)
        } else {
            s.filter(keep)
        },
{
    reveal(Seq::filter);
    assert(s.push(row).drop_last() =~= s);
}

proof fn lemma_rank_prefix<A>(s: Seq<A>, t: Seq<A>, keep: spec_fn(A) -> bool, i: int)
    requires
        0 <= i <= s.len(),
        i <= t.len(),
        forall|j: int| 0 <= j < i ==> s[j] == t[j],
    ensures
        rank(s, keep, i) == rank(t, keep, i),
    decreases i,
{
    if i > 0 {
        lemma_rank_prefix(s, t, keep, i - 1);
    }
}

/// The rank of the whole table is the size of the selection.
pub proof fn lemma_rank_total<A>(s: Seq<A>, keep: spec_fn(A) -> bool)
    ensures
        rank(s, keep, s.len() as int) == s.filter(keep).len(),
    decreases s.len(),
{
    reveal(Seq::filter);
    if s.len() > 0 {
        lemma_rank_total(s.drop_last(), keep);
        lemma_rank_prefix(s, s.drop_last(), keep, s.len() - 1);
    }
}

/// Ranks never decrease.
pub proof fn lemma_rank_monotone<A>(s: Seq<A>, keep: spec_fn(A) -> bool, i: int, j: int)
    requires
        i <= j,
    ensures
        rank(s, keep, i) <= rank(s, keep, j),
        0 <= rank(s, keep, i),
    decreases j - i, j,
{
    if i < j {
        lemma_rank_monotone(s, keep, i, j - 1);
    } else if i > 0 {
        lemma_rank_monotone(s, keep, i - 1, i - 1);
    }
}

/// Every row of a selection is a kept row of the table, at the place that
/// `origin` names.
pub proof fn lemma_origin<A>(s: Seq<A>, keep: spec_fn(A) -> bool, k: int)
    requires
        0 <= k < s.filter(keep).len(),
    ensures
        0 <= origin(s, keep, k) < s.len(),
        s[origin(s, keep, k)] == s.filter(keep)[k],
        keep(s.filter(keep)[k]),
        rank(s, keep, origin(s, keep, k)) == k,
    decreases s.len(),
{
    reveal(Seq::filter);
    if s.len() > 0 {
        let rest = s.drop_last();
        let n = rest.filter(keep).len() as int;
        if keep(s.last()) && k == n {
            lemma_rank_total(rest, keep);
            lemma_rank_prefix(s, rest, keep, s.len() - 1);
        } else {
            lemma_origin(rest, keep, k);
            lemma_rank_prefix(s, rest, keep, origin(rest, keep, k));
        }
    }
}

/// A selection keeps the order of the table.
pub proof fn lemma_origin_increases<A>(s: Seq<A>, keep: spec_fn(A) -> bool, a: int, b: int)
    requires
        0 <= a < b < s.filter(keep).len(),
    ensures
        origin(s, keep, a) < origin(s, keep, b),
    decreases s.len(),
{
    reveal(Seq::filter);
    if s.len() > 0 {
        let rest = s.drop_last();
        let n = rest.filter(keep).len() as int;
        if keep(s.last()) && b == n {
            lemma_origin(rest, keep, a);
        } else {
            lemma_origin_increases(rest, keep, a, b);
        }
    }
}

/// Every kept row of the table stands in the selection, at its rank.
pub proof fn lemma_kept<A>(s: Seq<A>, keep: spec_fn(A) -> bool, i: int)
    requires
        0 <= i < s.len(),
        keep(s[i]),
    ensures
        0 <= rank(s, keep, i) < s.filter(keep).len(),
        s.filter(keep)[rank(s, keep, i)] == s[i],
        origin(s, keep, rank(s, keep, i)) == i,
    decreases s.len(),
{
    reveal(Seq::filter);
    let rest = s.drop_last();
    let n = rest.filter(keep).len() as int;
    lemma_rank_total(rest, keep);
    if i == s.len() - 1 {
        lemma_rank_prefix(s, rest, keep, i);
    } else {
        lemma_kept(rest, keep, i);
        lemma_rank_prefix(s, rest, keep, i);
    }
}

/// A selection that keeps nothing is empty, and one that keeps everything is
/// the table.
pub proof fn lemma_filter_extremes<A>(s: Seq<A>, keep: spec_fn(A) -> bool)
    ensures
        (forall|i: int| 0 <= i < s.len() ==> !keep(#[trigger] s[i])) ==> s.filter(keep) == Seq::<
            A,
        >::empty(),
        (forall|i: int| 0 <= i < s.len() ==> keep(#[trigger] s[i])) ==> s.filter(keep) == s,
    decreases s.len(),
{
    reveal(Seq::filter);
    if s.len() > 0 {
        lemma_filter_extremes(s.drop_last(), keep);
        if forall|i: int| 0 <= i < s.len() ==> keep(#[trigger] s[i]) {
            assert forall|i: int| 0 <= i < s.drop_last().len() implies keep(
                #[trigger] s.drop_last()[i],
            ) by {
                assert(s.drop_last()[i] == s[i]);
            }
            assert(s.drop_last().push(s.last()) =~= s);
        }
        if forall|i: int| 0 <= i < s.len() ==> !keep(#[trigger] s[i]) {
            assert forall|i: int| 0 <= i < s.drop_last().len() implies !keep(
                #[trigger] s.drop_last()[i],
            ) by {
                assert(s.drop_last()[i] == s[i]);
            }
        }
    }
}

/// The places that are marked, in rising order.
pub open spec fn places(marks: Seq<bool>) -> Seq<int>
    decreases marks.len(),
{
    if marks.len() == 0 {
        Seq::empty()
    } else if marks.last() {
        places(marks.drop_last()).push(marks.len() - 1)
    } else {
        places(marks.drop_last())
    }
}

/// The rows at the marked places.
pub open spec fn picked<T>(rows: Seq<T>, marks: Seq<bool>) -> Seq<T> {
    Seq::new(places(marks).len(), |k: int| rows[places(marks)[k]])
}

/// Marked places lie within the marks.
pub proof fn lemma_places_bounds(marks: Seq<bool>)
    ensures
        places(marks).len() <= marks.len(),
        forall|k: int|
            0 <= k < places(marks).len() ==> 0 <= #[trigger] places(marks)[k] < marks.len()
                && marks[places(marks)[k]],
    decreases marks.len(),
{
    if marks.len() > 0 {
        lemma_places_bounds(marks.drop_last());
    }
}

/// Marking by a predicate and picking is selecting by the predicate.
pub proof fn lemma_picked_is_filter<T>(rows: Seq<T>, marks: Seq<bool>, keep: spec_fn(T) -> bool)
    requires
        rows.len() == marks.len(),
        forall|i: int| 0 <= i < rows.len() ==> marks[i] == keep(#[trigger] rows[i]),
    ensures
        picked(rows, marks) == rows.filter(keep),
    decreases rows.len(),
{
    reveal(Seq::filter);
    lemma_places_bounds(marks);
    if rows.len() > 0 {
        let rest = rows.drop_last();
        let fewer = marks.drop_last();
        lemma_picked_is_filter(rest, fewer, keep);
        lemma_places_bounds(fewer);
        assert(picked(rows, marks) =~= if marks.last() {
            picked(rest, fewer).push(rows.last())
        } else {
            picked(rest, fewer)
        });
    } else {
        assert(picked(rows, marks) =~= rows.filter(keep));
    }
}

/// The marked places, computed.
pub fn marked_places(marks: &Vec<bool>) -> (r: Vec<usize>)
    ensures
        r@.len() == places(marks@).len(),
        forall|k: int| 0 <= k < r@.len() ==> r@[k] as int == places(marks@)[k],
        forall|k: int| 0 <= k < r@.len() ==> (#[trigger] r@[k]) < marks@.len(),
{
    let mut out: Vec<usize> = Vec::new();
    let mut i: usize = 0;
    proof {
        assert(marks@.take(0) =~= Seq::empty());
    }
    while i < marks.len()
        invariant
            0 <= i <= marks@.len(),
            out@.len() == places(marks@.take(i as int)).len(),
            forall|k: int| 0 <= k < out@.len() ==> out@[k] as int == places(marks@.take(i as int))[k],
            forall|k: int| 0 <= k < out@.len() ==> (#[trigger] out@[k]) < i,
        decreases marks@.len() - i,
    {
        proof {
            assert(marks@.take(i as int + 1).drop_last() =~= marks@.take(i as int));
        }
        if marks[i] {
            out.push(i);
        }
        i += 1;
    }
    proof {
        assert(marks@.take(marks@.len() as int) =~= marks@);
    }
    out
}

/// The rows at the marked places, in order; the others are dropped.
pub fn keep_marked<T>(rows: Vec<T>, marks: &Vec<bool>) -> (r: Vec<T>)
    requires
        rows@.len() == marks@.len(),
    ensures
        r@ == picked(rows@, marks@),
{
    let ghost all = rows@;
    let n = marks.len();
    let mut out: Vec<T> = Vec::new();
    let mut i: usize = 0;
    proof {
        assert(marks@.take(0) =~= Seq::empty());
        assert(out@ =~= picked(all, marks@.take(0)));
    }
    for row in it: rows.into_iter()
        invariant
            i == it.index(),
            n == marks@.len(),
            it.seq() == all,
            all.len() == marks@.len(),
            out@ == picked(all, marks@.take(i as int)),
    {
        proof {
            assert(marks@.take(i as int + 1).drop_last() =~= marks@.take(i as int));
            lemma_places_bounds(marks@.take(i as int));
        }
        if marks[i] {
            out.push(row);
            proof {
                assert(out@ =~= picked(all, marks@.take(i as int + 1)));
            }
        } else {
            proof {
                assert(out@ =~= picked(all, marks@.take(i as int + 1)));
            }
        }
        i += 1;
    }
    proof {
        assert(marks@.take(marks@.len() as int) =~= marks@);
    }
    out
}

/// What a test says of each row of a table.
pub fn marks_of<T, F: Fn(&T) -> bool>(rows: &Vec<T>, test: F) -> (r: Vec<bool>)
    requires
        forall|i: int| 0 <= i < rows@.len() ==> call_requires(test, (&#[trigger] rows@[i],)),
    ensures
        r@.len() == rows@.len(),
        forall|i: int| 0 <= i < rows@.len() ==> call_ensures(test, (&rows@[i],), #[trigger] r@[i]),
{
    let mut marks: Vec<bool> = Vec::new();
    let mut i: usize = 0;
    while i < rows.len()
        invariant
            0 <= i <= rows@.len(),
            marks@.len() == i,
            forall|k: int| 0 <= k < rows@.len() ==> call_requires(test, (&#[trigger] rows@[k],)),
            forall|k: int| 0 <= k < i ==> call_ensures(test, (&rows@[k],), #[trigger] marks@[k]),
        decreases rows@.len() - i,
    {
        let mark = test(&rows[i]);
        marks.push(mark);
        i += 1;
    }
    marks
}

/// Copies of the rows at the marked places, in order.
pub fn copies_of_marked<T: Copy>(rows: &Vec<T>, marks: &Vec<bool>) -> (r: Vec<T>)
    requires
        rows@.len() == marks@.len(),
    ensures
        r@ == picked(rows@, marks@),
{
    let at = marked_places(marks);
    let mut out: Vec<T> = Vec::new();
    let mut k: usize = 0;
    while k < at.len()
        invariant
            0 <= k <= at@.len(),
            rows@.len() == marks@.len(),
            at@.len() == places(marks@).len(),
            forall|j: int| 0 <= j < at@.len() ==> at@[j] as int == places(marks@)[j],
            forall|j: int| 0 <= j < at@.len() ==> (#[trigger] at@[j]) < marks@.len(),
            out@.len() == k,
            forall|j: int| 0 <= j < k ==> out@[j] == rows@[places(marks@)[j]],
        decreases at@.len() - k,
    {
        out.push(rows[at[k]]);
        k += 1;
    }
    proof {
        assert(out@ =~= picked(rows@, marks@));
    }
    out
}

/// Two predicates that agree on every row of a table select the same rows.
pub proof fn lemma_filter_agree<A>(s: Seq<A>, f: spec_fn(A) -> bool, g: spec_fn(A) -> bool)
    requires
        forall|i: int| 0 <= i < s.len() ==> f(#[trigger] s[i]) == g(s[i]),
    ensures
        s.filter(f) == s.filter(g),
    decreases s.len(),
{
    reveal(Seq::filter);
    if s.len() > 0 {
        assert forall|i: int| 0 <= i < s.drop_last().len() implies f(#[trigger] s.drop_last()[i])
            == g(s.drop_last()[i]) by {
            assert(s.drop_last()[i] == s[i]);
        }
        lemma_filter_agree(s.drop_last(), f, g);
        assert(f(s.last()) == g(s[s.len() - 1]));
    }
}

} // verus!
