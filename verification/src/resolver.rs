//! Geometry resolver: from the raw regions of the active outputs to the
//! ordered list of regions that carry a bar.
//!
//! A region that lies within another entry of the list is dropped (mirrored
//! or cloned outputs report the same area more than once). What remains is
//! ordered from left to right, and top to bottom among regions at the same
//! `x`; regions that tie keep the order in which they were reported.

use crate::setup::Rectangle;
use vstd::prelude::*;

verus! {

/// The entry at index `i` lies within no other entry of `regions`.
pub open spec fn is_maximal(regions: Seq<Rectangle>, i: int) -> bool {
    forall|j: int| 0 <= j < regions.len() && j != i ==> !regions[i].inside(#[trigger] regions[j])
}

/// Wherever `r` stands in `regions`, no other entry contains it. A rectangle
/// that is listed twice does not survive: each copy lies within the other.
pub open spec fn survives(regions: Seq<Rectangle>, r: Rectangle) -> bool {
    forall|i: int, j: int|
        #![trigger regions[i], regions[j]]
        0 <= i < regions.len() && 0 <= j < regions.len() && i != j && regions[i] == r
            ==> !r.inside(regions[j])
}

/// [`survives`] as a predicate on rectangles.
pub open spec fn survivor(regions: Seq<Rectangle>) -> spec_fn(Rectangle) -> bool {
    |r: Rectangle| survives(regions, r)
}

/// The entries of `regions` that no other entry contains, in their order.
pub open spec fn maximal(regions: Seq<Rectangle>) -> Seq<Rectangle> {
    regions.filter(survivor(regions))
}

/// `r` stands in `regions` at a maximal index below `n`.
pub open spec fn maximal_below(regions: Seq<Rectangle>, n: int, r: Rectangle) -> bool {
    exists|m: int| 0 <= m < n && is_maximal(regions, m) && #[trigger] regions[m] == r
}

/// `r` is an entry of `regions` that no other entry contains.
pub open spec fn is_maximal_entry(regions: Seq<Rectangle>, r: Rectangle) -> bool {
    maximal_below(regions, regions.len() as int, r)
}

/// Every entry precedes all entries behind it.
pub open spec fn ordered(s: Seq<Rectangle>) -> bool {
    forall|i: int, j: int| 0 <= i < j < s.len() ==> (#[trigger] s[i]).precedes(#[trigger] s[j])
}

/// No entry lies within another one.
pub open spec fn no_containment(s: Seq<Rectangle>) -> bool {
    forall|i: int, j: int|
        0 <= i < s.len() && 0 <= j < s.len() && i != j ==> !(#[trigger] s[i]).inside(
            #[trigger] s[j],
        )
}

/// Where `e` enters the ordered sequence `s`: directly behind the last entry
/// that precedes it.
pub open spec fn insertion_point(s: Seq<Rectangle>, e: Rectangle) -> int
    decreases s.len(),
{
    if s.len() == 0 || s.last().precedes(e) {
        s.len() as int
    } else {
        insertion_point(s.drop_last(), e)
    }
}

/// `s` ordered by [`Rectangle::precedes`], ties in the order of `s`.
pub open spec fn sorted_stably(s: Seq<Rectangle>) -> Seq<Rectangle>
    decreases s.len(),
{
    if s.len() == 0 {
        Seq::empty()
    } else {
        let rest = sorted_stably(s.drop_last());
        rest.insert(insertion_point(rest, s.last()), s.last())
    }
}

/// The regions that carry a bar, in bar order.
pub open spec fn resolved(regions: Seq<Rectangle>) -> Seq<Rectangle> {
    sorted_stably(maximal(regions))
}

/// The two readings of "no other entry contains it" agree.
pub proof fn lemma_maximal_survives(regions: Seq<Rectangle>, i: int)
    requires
        0 <= i < regions.len(),
    ensures
        is_maximal(regions, i) <==> survives(regions, regions[i]),
{
    let r = regions[i];
    if is_maximal(regions, i) {
        assert forall|a: int, b: int|
            #![trigger regions[a], regions[b]]
            0 <= a < regions.len() && 0 <= b < regions.len() && a != b && regions[a]
                == r implies !r.inside(regions[b]) by {
            if a != i {
                // a second copy of `r` would contain the entry at `i`
                assert(regions[i].inside(regions[a]));
            }
        }
    }
    if survives(regions, r) {
        assert forall|j: int| 0 <= j < regions.len() && j != i implies !regions[i].inside(
            #[trigger] regions[j],
        ) by {
            let _ = (regions[i], regions[j]);
        }
    }
}

/// The insertion point lies within the sequence, directly behind an entry
/// that precedes `e` and in front of entries that do not.
pub proof fn lemma_insertion_point(s: Seq<Rectangle>, e: Rectangle)
    ensures
        0 <= insertion_point(s, e) <= s.len(),
        insertion_point(s, e) > 0 ==> s[insertion_point(s, e) - 1].precedes(e),
        forall|k: int| insertion_point(s, e) <= k < s.len() ==> !(#[trigger] s[k]).precedes(e),
    decreases s.len(),
{
    if s.len() == 0 || s.last().precedes(e) {
    } else {
        let front = s.drop_last();
        lemma_insertion_point(front, e);
        assert forall|k: int| insertion_point(s, e) <= k < s.len() implies !(#[trigger] s[k]).precedes(
            e,
        ) by {
            if k < front.len() {
                assert(front[k] == s[k]);
            }
        }
    }
}

/// Entering `e` at its insertion point keeps an ordered sequence ordered.
pub proof fn lemma_insert_keeps_order(s: Seq<Rectangle>, e: Rectangle)
    requires
        ordered(s),
    ensures
        ordered(s.insert(insertion_point(s, e), e)),
{
    let p = insertion_point(s, e);
    let t = s.insert(p, e);
    lemma_insertion_point(s, e);
    assert forall|i: int, j: int| 0 <= i < j < t.len() implies (#[trigger] t[i]).precedes(
        #[trigger] t[j],
    ) by {
        if j < p {
            assert(t[i] == s[i] && t[j] == s[j]);
        } else if j == p {
            assert(t[i] == s[i]);
            if i < p - 1 {
                assert(s[i].precedes(s[p - 1]));
            }
        } else if i < p {
            assert(t[i] == s[i] && t[j] == s[j - 1]);
        } else if i == p {
            assert(t[j] == s[j - 1]);
            assert(!s[j - 1].precedes(e));
        } else {
            assert(t[i] == s[i - 1] && t[j] == s[j - 1]);
        }
    }
}

/// The ordered sequence is ordered, and holds the entries of `s`, each as
/// often as `s` does.
pub proof fn lemma_sorted_stably(s: Seq<Rectangle>)
    ensures
        ordered(sorted_stably(s)),
        sorted_stably(s).len() == s.len(),
        sorted_stably(s).to_multiset() == s.to_multiset(),
        forall|r: Rectangle| sorted_stably(s).contains(r) <==> s.contains(r),
    decreases s.len(),
{
    broadcast use {
        vstd::seq_lib::to_multiset_insert,
        vstd::seq_lib::to_multiset_build,
        vstd::seq_lib::to_multiset_contains,
    };

    if s.len() == 0 {
        assert(sorted_stably(s) =~= s);
    } else {
        let front = s.drop_last();
        let rest = sorted_stably(front);
        lemma_sorted_stably(front);
        lemma_insertion_point(rest, s.last());
        lemma_insert_keeps_order(rest, s.last());
        assert(front.push(s.last()) =~= s);
        assert(sorted_stably(s).to_multiset() =~= s.to_multiset());
        assert forall|r: Rectangle| sorted_stably(s).contains(r) <==> s.contains(r) by {
            assert(sorted_stably(s).to_multiset().count(r) == s.to_multiset().count(r));
        }
    }
}

/// The rectangles that tie with `e`: each precedes the other.
pub open spec fn ties(e: Rectangle) -> spec_fn(Rectangle) -> bool {
    |r: Rectangle| r.precedes(e) && e.precedes(r)
}

/// Ordering is stable: the entries that tie with `e` stand in the ordered
/// sequence in the order in which they stand in `s`.
pub proof fn lemma_sorted_stably_keeps_ties(s: Seq<Rectangle>, e: Rectangle)
    ensures
        sorted_stably(s).filter(ties(e)) == s.filter(ties(e)),
    decreases s.len(),
{
    let tie = ties(e);
    if s.len() == 0 {
        assert(sorted_stably(s) =~= s);
    } else {
        let front = s.drop_last();
        let last = s.last();
        let rest = sorted_stably(front);
        let p = insertion_point(rest, last);
        lemma_sorted_stably_keeps_ties(front, e);
        lemma_insertion_point(rest, last);
        let before = rest.take(p);
        let behind = rest.skip(p);
        assert(rest =~= before + behind);
        assert(sorted_stably(s) =~= before.push(last) + behind);
        assert(front.push(last) =~= s);
        Seq::filter_distributes_over_add(before, behind, tie);
        Seq::filter_distributes_over_add(before.push(last), behind, tie);
        before.lemma_filter_push(last, tie);
        front.lemma_filter_push(last, tie);
        if tie(last) {
            // behind the insertion point nothing ties with `last`, nor with `e`
            let kept = behind.filter(tie);
            if kept.len() > 0 {
                behind.lemma_filter_pred(tie, 0);
                assert(kept.contains(kept[0]));
                behind.lemma_filter_contains_rev(tie, kept[0]);
                let k = choose|k: int| 0 <= k < behind.len() && behind[k] == kept[0];
                assert(behind[k] == rest[p + k]);
                assert(!rest[p + k].precedes(last));
            }
            assert(kept =~= Seq::<Rectangle>::empty());
            assert(before.filter(tie).push(last) + kept =~= (before.filter(tie) + kept).push(
                last,
            ));
        }
    }
}

/// Ordering a sequence in which no entry lies within another keeps it so.
pub proof fn lemma_sorting_keeps_no_containment(s: Seq<Rectangle>)
    requires
        no_containment(s),
    ensures
        no_containment(sorted_stably(s)),
    decreases s.len(),
{
    if s.len() > 0 {
        let front = s.drop_last();
        let e = s.last();
        let rest = sorted_stably(front);
        assert(no_containment(front)) by {
            assert forall|i: int, j: int|
                0 <= i < front.len() && 0 <= j < front.len() && i != j implies !(
                #[trigger] front[i]).inside(#[trigger] front[j]) by {
                assert(front[i] == s[i] && front[j] == s[j]);
            }
        }
        lemma_sorting_keeps_no_containment(front);
        lemma_sorted_stably(front);
        lemma_insertion_point(rest, e);
        let p = insertion_point(rest, e);
        let t = rest.insert(p, e);
        assert forall|k: int| 0 <= k < rest.len() implies !(#[trigger] rest[k]).inside(e) && !e.inside(
            rest[k],
        ) by {
            assert(rest.contains(rest[k]));
            assert(front.contains(rest[k]));
            let m = choose|m: int| 0 <= m < front.len() && front[m] == rest[k];
            assert(s[m] == rest[k]);
            assert(s[s.len() - 1] == e);
        }
        assert forall|i: int, j: int|
            0 <= i < t.len() && 0 <= j < t.len() && i != j implies !(#[trigger] t[i]).inside(
            #[trigger] t[j],
        ) by {
            let a = if i < p { i } else { i - 1 };
            let b = if j < p { j } else { j - 1 };
            if i == p {
                assert(t[j] == rest[b]);
            } else if j == p {
                assert(t[i] == rest[a]);
            } else {
                assert(t[i] == rest[a] && t[j] == rest[b]);
            }
        }
    }
}

/// A prefix of the input, filtered: every survivor stands in the prefix at
/// an index that is maximal, and no survivor lies within another.
proof fn lemma_filtered_prefix(regions: Seq<Rectangle>, n: int)
    requires
        0 <= n <= regions.len(),
    ensures
        no_containment(regions.take(n).filter(survivor(regions))),
        forall|k: int|
            0 <= k < regions.take(n).filter(survivor(regions)).len() ==> maximal_below(
                regions,
                n,
                #[trigger] regions.take(n).filter(survivor(regions))[k],
            ),
    decreases n,
{
    let pred = survivor(regions);
    let kept = regions.take(n).filter(pred);
    if n == 0 {
        assert(regions.take(0) =~= Seq::<Rectangle>::empty());
        regions.take(0).lemma_filter_len(pred);
    } else {
        let before = regions.take(n - 1).filter(pred);
        let r = regions[n - 1];
        lemma_filtered_prefix(regions, n - 1);
        assert(regions.take(n - 1).push(r) =~= regions.take(n));
        regions.take(n - 1).lemma_filter_push(r, pred);
        lemma_maximal_survives(regions, n - 1);
        assert forall|k: int| 0 <= k < kept.len() implies maximal_below(
            regions,
            n,
            #[trigger] kept[k],
        ) by {
            if k < before.len() {
                assert(maximal_below(regions, n - 1, before[k]));
                let m = choose|m: int|
                    0 <= m < n - 1 && is_maximal(regions, m) && regions[m] == before[k];
                assert(regions[m] == kept[k]);
            } else {
                assert(regions[n - 1] == kept[k]);
            }
        }
        if pred(r) {
            assert forall|i: int, j: int|
                0 <= i < kept.len() && 0 <= j < kept.len() && i != j implies !(
                #[trigger] kept[i]).inside(#[trigger] kept[j]) by {
                if i < before.len() && j < before.len() {
                    assert(kept[i] == before[i] && kept[j] == before[j]);
                } else {
                    let other = if i < before.len() { i } else { j };
                    assert(maximal_below(regions, n - 1, before[other]));
                    let m = choose|m: int|
                        0 <= m < n - 1 && is_maximal(regions, m) && regions[m] == before[other];
                    assert(!regions[n - 1].inside(regions[m]));
                    assert(!regions[m].inside(regions[n - 1]));
                }
            }
        }
    }
}

/// What survives: exactly the entries that stand at a maximal index, and no
/// survivor lies within another.
pub proof fn lemma_maximal(regions: Seq<Rectangle>)
    ensures
        no_containment(maximal(regions)),
        maximal(regions).len() <= regions.len(),
        forall|r: Rectangle|
            #[trigger] maximal(regions).contains(r) <==> is_maximal_entry(regions, r),
{
    let pred = survivor(regions);
    let kept = maximal(regions);
    assert(regions.take(regions.len() as int) =~= regions);
    lemma_filtered_prefix(regions, regions.len() as int);
    regions.lemma_filter_len(pred);
    assert forall|r: Rectangle| #[trigger] kept.contains(r) implies is_maximal_entry(
        regions,
        r,
    ) by {
        let k = choose|k: int| 0 <= k < kept.len() && kept[k] == r;
        assert(maximal_below(regions, regions.len() as int, kept[k]));
    }
    assert forall|r: Rectangle| is_maximal_entry(regions, r) implies #[trigger] kept.contains(
        r,
    ) by {
        let m = choose|m: int|
            0 <= m < regions.len() && is_maximal(regions, m) && #[trigger] regions[m] == r;
        lemma_maximal_survives(regions, m);
        regions.lemma_filter_contains(pred, m);
    }
}

/// Among the resolved regions none lies within another, strictly or not.
pub proof fn lemma_resolved_no_containment(regions: Seq<Rectangle>)
    ensures
        no_containment(resolved(regions)),
{
    lemma_maximal(regions);
    lemma_sorting_keeps_no_containment(maximal(regions));
}

/// The resolved regions are ordered: of two consecutive ones, `a` then `b`,
/// either `a.x < b.x`, or `a.x == b.x` and `a`'s bottom edge is no lower
/// than `b`'s.
pub proof fn lemma_resolved_ordered(regions: Seq<Rectangle>)
    ensures
        ordered(resolved(regions)),
        forall|i: int|
            0 <= i && i + 1 < resolved(regions).len() ==> {
                let a = #[trigger] resolved(regions)[i];
                let b = resolved(regions)[i + 1];
                a.x < b.x || (a.x == b.x && a.y + a.h <= b.y + b.h)
            },
{
    lemma_sorted_stably(maximal(regions));
    let out = resolved(regions);
    assert forall|i: int| 0 <= i && i + 1 < out.len() implies {
        let a = #[trigger] out[i];
        let b = out[i + 1];
        a.x < b.x || (a.x == b.x && a.y + a.h <= b.y + b.h)
    } by {
        assert(out[i].precedes(out[i + 1]));
    }
}

/// A rectangle is among the resolved regions exactly if it stands in the
/// input at an index that is maximal; none is invented and none is lost.
pub proof fn lemma_resolved_members(regions: Seq<Rectangle>)
    ensures
        resolved(regions).len() <= regions.len(),
        forall|r: Rectangle|
            #[trigger] resolved(regions).contains(r) <==> is_maximal_entry(regions, r),
{
    lemma_maximal(regions);
    lemma_sorted_stably(maximal(regions));
    assert forall|r: Rectangle|
        #[trigger] resolved(regions).contains(r) <==> is_maximal_entry(regions, r) by {
        assert(resolved(regions).contains(r) <==> maximal(regions).contains(r));
    }
}

/// Whether the entry at `index` lies within no other entry.
pub fn is_maximal_at(regions: &Vec<Rectangle>, index: usize) -> (b: bool)
    requires
        index < regions.len(),
    ensures
        b == is_maximal(regions@, index as int),
{
    let mut j: usize = 0;
    while j < regions.len()
        invariant
            j <= regions.len(),
            index < regions.len(),
            forall|k: int| 0 <= k < j && k != index ==> !regions@[index as int].inside(
                #[trigger] regions@[k],
            ),
        decreases regions.len() - j,
    {
        if j != index && regions[index].is_inside(&regions[j]) {
            return false;
        }
        j += 1;
    }
    true
}

/// Drops every region that lies within another entry of the list.
pub fn maximal_regions(regions: &Vec<Rectangle>) -> (out: Vec<Rectangle>)
    ensures
        out@ == maximal(regions@),
        no_containment(out@),
{
    let mut out: Vec<Rectangle> = Vec::new();
    let mut i: usize = 0;
    proof {
        assert(regions@.take(0) =~= Seq::<Rectangle>::empty());
        regions@.take(0).lemma_filter_len(survivor(regions@));
    }
    while i < regions.len()
        invariant
            i <= regions.len(),
            out@ == regions@.take(i as int).filter(survivor(regions@)),
        decreases regions.len() - i,
    {
        let keep = is_maximal_at(regions, i);
        proof {
            let r = regions@[i as int];
            lemma_maximal_survives(regions@, i as int);
            assert(regions@.take(i as int).push(r) =~= regions@.take(i + 1));
            regions@.take(i as int).lemma_filter_push(r, survivor(regions@));
        }
        if keep {
            out.push(regions[i]);
        }
        i += 1;
    }
    proof {
        assert(regions@.take(regions.len() as int) =~= regions@);
        lemma_maximal(regions@);
    }
    out
}

/// Orders regions from left to right, then top to bottom; regions that tie
/// keep their order.
pub fn sort_regions(regions: &Vec<Rectangle>) -> (out: Vec<Rectangle>)
    ensures
        out@ == sorted_stably(regions@),
        ordered(out@),
        out@.to_multiset() == regions@.to_multiset(),
{
    let mut out: Vec<Rectangle> = Vec::new();
    let mut i: usize = 0;
    proof {
        assert(regions@.take(0) =~= Seq::<Rectangle>::empty());
    }
    while i < regions.len()
        invariant
            i <= regions.len(),
            out@ == sorted_stably(regions@.take(i as int)),
        decreases regions.len() - i,
    {
        let e = regions[i];
        let mut p: usize = out.len();
        proof {
            lemma_sorted_stably(regions@.take(i as int));
            assert(out@.take(p as int) =~= out@);
        }
        while p > 0 && !out[p - 1].comes_before(&e)
            invariant
                p <= out.len(),
                insertion_point(out@, e) == insertion_point(out@.take(p as int), e),
            decreases p,
        {
            proof {
                assert(out@.take(p as int).drop_last() =~= out@.take(p - 1));
            }
            p -= 1;
        }
        proof {
            assert(insertion_point(out@, e) == p);
            assert(regions@.take(i + 1).drop_last() =~= regions@.take(i as int));
        }
        out.insert(p, e);
        i += 1;
    }
    proof {
        assert(regions@.take(regions.len() as int) =~= regions@);
        lemma_sorted_stably(regions@);
    }
    out
}

/// Resolves the raw regions of the active outputs into the regions that
/// carry a bar. A list without regions resolves to no regions.
pub fn resolve_regions(regions: &Vec<Rectangle>) -> (out: Vec<Rectangle>)
    ensures
        out@ == resolved(regions@),
        ordered(out@),
        no_containment(out@),
        out.len() <= regions.len(),
        forall|r: Rectangle| #[trigger] out@.contains(r) <==> is_maximal_entry(regions@, r),
{
    let kept = maximal_regions(regions);
    let out = sort_regions(&kept);
    proof {
        lemma_resolved_no_containment(regions@);
        lemma_resolved_members(regions@);
    }
    out
}

} // verus!
