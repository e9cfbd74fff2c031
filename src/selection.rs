use vstd::multiset::Multiset;
use vstd::prelude::*;

use crate::types::{
    FacilityId, Shift, ShiftEndTime, ShiftRecord, ShiftStartTime, WorkerProfession,
};

verus! {

broadcast use vstd::seq_lib::group_seq_properties, vstd::seq_lib::group_to_multiset_ensures;

/// What a shift must match to be offered: the facility, the requested window
/// and the worker's profession.
#[derive(Clone, Copy, Debug, PartialEq, Eq, Structural)]
pub struct ShiftQuery {
    pub facility_id: FacilityId,
    pub profession: WorkerProfession,
    pub start: ShiftStartTime,
    pub end: ShiftEndTime,
}

/// The half-open intervals `[a_start, a_end)` and `[b_start, b_end)` share a
/// point; intervals that merely touch do not.
pub open spec fn intervals_overlap(a_start: int, a_end: int, b_start: int, b_end: int) -> bool {
    a_start < b_end && b_start < a_end
}

pub open spec fn shifts_overlap(a: ShiftRecord, b: ShiftRecord) -> bool {
    intervals_overlap(a.start.0 as int, a.end.0 as int, b.start.0 as int, b.end.0 as int)
}

/// `s` overlaps at least one of the shifts in `held`.
pub open spec fn conflicts_with(s: ShiftRecord, held: Seq<ShiftRecord>) -> bool {
    exists|k: int| 0 <= k < held.len() && shifts_overlap(s, #[trigger] held[k])
}

/// The shift-selection predicate: `s` belongs to the queried facility, lies
/// inside the window, requires the worker's profession, is neither deleted
/// nor claimed, and overlaps none of the shifts the worker already holds.
pub open spec fn is_eligible(s: ShiftRecord, q: ShiftQuery, held: Seq<ShiftRecord>) -> bool {
    &&& s.facility_id == q.facility_id
    &&& q.start.0 <= s.start.0
    &&& s.end.0 <= q.end.0
    &&& s.profession == q.profession
    &&& !s.is_deleted
    &&& s.claimed_by is None
    &&& !conflicts_with(s, held)
}

/// The eligible candidates, as callers see them, in the candidates' order.
pub open spec fn eligible_summaries(
    candidates: Seq<ShiftRecord>,
    q: ShiftQuery,
    held: Seq<ShiftRecord>,
) -> Seq<Shift> {
    candidates.filter(|s: ShiftRecord| is_eligible(s, q, held)).map_values(
        |s: ShiftRecord| s.summary(),
    )
}

/// `a` may come before `b`: earlier start, or the same start and an id that
/// is not larger.
pub open spec fn precedes(a: Shift, b: Shift) -> bool {
    a.start.0 < b.start.0 || (a.start.0 == b.start.0 && a.id.0 <= b.id.0)
}

pub open spec fn strictly_precedes(a: Shift, b: Shift) -> bool {
    a.start.0 < b.start.0 || (a.start.0 == b.start.0 && a.id.0 < b.id.0)
}

/// Ascending by start, ties by id.
pub open spec fn is_ordered(s: Seq<Shift>) -> bool {
    forall|i: int, j: int| 0 <= i < j < s.len() ==> precedes(#[trigger] s[i], #[trigger] s[j])
}

pub open spec fn is_strictly_ordered(s: Seq<Shift>) -> bool {
    forall|i: int, j: int|
        0 <= i < j < s.len() ==> strictly_precedes(#[trigger] s[i], #[trigger] s[j])
}

/// No two records share a shift id.
pub open spec fn record_ids_distinct(s: Seq<ShiftRecord>) -> bool {
    forall|i: int, j: int| 0 <= i < j < s.len() ==> (#[trigger] s[i]).id != (#[trigger] s[j]).id
}

pub open spec fn shift_ids_distinct(s: Seq<Shift>) -> bool {
    forall|i: int, j: int| 0 <= i < j < s.len() ==> (#[trigger] s[i]).id != (#[trigger] s[j]).id
}

/// Whether the two shifts' half-open time ranges intersect.
pub fn overlaps(a: &ShiftRecord, b: &ShiftRecord) -> (r: bool)
    ensures
        r == shifts_overlap(*a, *b),
{
    a.start.0 < b.end.0 && b.start.0 < a.end.0
}

/// Whether `s` overlaps any shift in `held`.
pub fn conflicts_with_held(s: &ShiftRecord, held: &Vec<ShiftRecord>) -> (r: bool)
    ensures
        r == conflicts_with(*s, held@),
{
    let mut k: usize = 0;
    while k < held.len()
        invariant
            k <= held@.len(),
            forall|m: int| 0 <= m < k ==> !shifts_overlap(*s, #[trigger] held@[m]),
        decreases held.len() - k,
    {
        if overlaps(s, &held[k]) {
            return true;
        }
        k += 1;
    }
    false
}

/// The shift-selection predicate on one candidate.
pub fn shift_is_eligible(s: &ShiftRecord, query: &ShiftQuery, held: &Vec<ShiftRecord>) -> (r:
    bool)
    ensures
        r == is_eligible(*s, *query, held@),
{
    s.facility_id == query.facility_id && query.start.0 <= s.start.0 && s.end.0 <= query.end.0
        && s.profession == query.profession && !s.is_deleted && s.claimed_by.is_none()
        && !conflicts_with_held(s, held)
}

fn comes_before(a: &Shift, b: &Shift) -> (r: bool)
    ensures
        r == precedes(*a, *b),
{
    a.start.0 < b.start.0 || (a.start.0 == b.start.0 && a.id.0 <= b.id.0)
}

/// Position at which `s` keeps the ordered `v` ordered once inserted.
fn insertion_point(v: &Vec<Shift>, s: &Shift) -> (pos: usize)
    requires
        is_ordered(v@),
    ensures
        pos <= v@.len(),
        forall|a: int| 0 <= a < pos ==> precedes(#[trigger] v@[a], *s),
        forall|a: int| pos <= a < v@.len() ==> precedes(*s, #[trigger] v@[a]),
{
    let mut pos: usize = 0;
    while pos < v.len()
        invariant
            pos <= v@.len(),
            is_ordered(v@),
            forall|a: int| 0 <= a < pos ==> precedes(#[trigger] v@[a], *s),
        decreases v.len() - pos,
    {
        if !comes_before(&v[pos], s) {
            assert forall|a: int| pos <= a < v@.len() implies precedes(*s, #[trigger] v@[a]) by {
                if a > pos {
                    assert(precedes(v@[pos as int], v@[a]));
                }
            }
            return pos;
        }
        pos += 1;
    }
    pos
}

proof fn lemma_insert_multiset(v: Seq<Shift>, pos: int, x: Shift)
    requires
        0 <= pos <= v.len(),
    ensures
        v.insert(pos, x).to_multiset() =~= v.to_multiset().insert(x),
{
    let w = v.insert(pos, x);
    v.insert_ensures(pos, x);
    assert(w.remove(pos) =~= v);
    w.to_multiset_ensures();
    assert(w[pos] == x);
    assert(w.to_multiset().count(x) > 0);
}

proof fn lemma_insert_ordered(v: Seq<Shift>, pos: int, x: Shift)
    requires
        is_ordered(v),
        0 <= pos <= v.len(),
        forall|a: int| 0 <= a < pos ==> precedes(#[trigger] v[a], x),
        forall|a: int| pos <= a < v.len() ==> precedes(x, #[trigger] v[a]),
    ensures
        is_ordered(v.insert(pos, x)),
{
    let w = v.insert(pos, x);
    v.insert_ensures(pos, x);
    assert forall|a: int, b: int| 0 <= a < b < w.len() implies precedes(
        #[trigger] w[a],
        #[trigger] w[b],
    ) by {
        if b > pos {
            assert(w[b] == v[b - 1]);
        }
        if a > pos {
            assert(w[a] == v[a - 1]);
        }
    }
}

proof fn lemma_insert_distinct(v: Seq<Shift>, pos: int, x: Shift)
    requires
        shift_ids_distinct(v),
        0 <= pos <= v.len(),
        forall|a: int| 0 <= a < v.len() ==> (#[trigger] v[a]).id != x.id,
    ensures
        shift_ids_distinct(v.insert(pos, x)),
{
    let w = v.insert(pos, x);
    v.insert_ensures(pos, x);
    assert forall|a: int, b: int| 0 <= a < b < w.len() implies (#[trigger] w[a]).id != (
    #[trigger] w[b]).id by {
        if b > pos {
            assert(w[b] == v[b - 1]);
        }
        if a > pos {
            assert(w[a] == v[a - 1]);
        }
    }
}

/// Whatever a sequence with the same elements as the eligible summaries
/// holds is the summary of an eligible candidate.
pub proof fn lemma_listed_shift_is_eligible(
    v: Seq<Shift>,
    candidates: Seq<ShiftRecord>,
    q: ShiftQuery,
    held: Seq<ShiftRecord>,
    y: Shift,
)
    requires
        v.to_multiset() == eligible_summaries(candidates, q, held).to_multiset(),
        v.contains(y),
    ensures
        exists|z: ShiftRecord|
            candidates.contains(z) && is_eligible(z, q, held) && #[trigger] z.summary() == y,
{
    let pred = |s: ShiftRecord| is_eligible(s, q, held);
    let f = candidates.filter(pred);
    let e = eligible_summaries(candidates, q, held);
    v.to_multiset_ensures();
    e.to_multiset_ensures();
    assert(v.to_multiset().count(y) > 0);
    assert(e.to_multiset().count(y) > 0);
    assert(e.contains(y));
    let i = choose|i: int| 0 <= i < e.len() && e[i] == y;
    let z = f[i];
    assert(f.contains(z));
    candidates.lemma_filter_contains_rev(pred, z);
    assert(z.summary() == y);
}

/// The eligible candidates, projected to what callers see, ascending by start
/// with ties broken by id.
pub fn select_eligible_shifts(
    candidates: &Vec<ShiftRecord>,
    query: &ShiftQuery,
    held: &Vec<ShiftRecord>,
) -> (r: Vec<Shift>)
    ensures
        r@.to_multiset() == eligible_summaries(candidates@, *query, held@).to_multiset(),
        is_ordered(r@),
        record_ids_distinct(candidates@) ==> is_strictly_ordered(r@),
{
    let ghost pred = |s: ShiftRecord| is_eligible(s, *query, held@);
    let ghost proj = |s: ShiftRecord| s.summary();
    let ghost distinct = record_ids_distinct(candidates@);
    let mut r: Vec<Shift> = Vec::new();
    let mut i: usize = 0;
    proof {
        assert(candidates@.take(0) =~= Seq::<ShiftRecord>::empty());
        assert(Seq::<ShiftRecord>::empty().filter(pred) =~= Seq::<ShiftRecord>::empty());
        assert(r@.to_multiset() =~= Multiset::empty());
    }
    while i < candidates.len()
        invariant
            i <= candidates@.len(),
            pred == (|s: ShiftRecord| is_eligible(s, *query, held@)),
            proj == (|s: ShiftRecord| s.summary()),
            distinct == record_ids_distinct(candidates@),
            r@.to_multiset() == candidates@.take(i as int).filter(pred).map_values(
                proj,
            ).to_multiset(),
            is_ordered(r@),
            distinct ==> shift_ids_distinct(r@),
            distinct ==> forall|a: int, k: int|
                0 <= a < r@.len() && i <= k < candidates@.len() ==> (#[trigger] r@[a]).id
                    != (#[trigger] candidates@[k]).id,
        decreases candidates.len() - i,
    {
        let c = &candidates[i];
        let ghost prev = r@;
        let ghost before = candidates@.take(i as int);
        proof {
            assert(candidates@.take(i + 1) =~= before.push(*c));
            before.lemma_filter_push(*c, pred);
        }
        if shift_is_eligible(c, query, held) {
            let s = c.to_shift();
            let pos = insertion_point(&r, &s);
            r.insert(pos, s);
            proof {
                prev.insert_ensures(pos as int, s);
                lemma_insert_multiset(prev, pos as int, s);
                lemma_insert_ordered(prev, pos as int, s);
                before.filter(pred).lemma_push_map_commute(proj, *c);
                if distinct {
                    assert forall|a: int| 0 <= a < prev.len() implies (#[trigger] prev[a]).id
                        != s.id by {
                        assert(prev[a].id != candidates@[i as int].id);
                    }
                    lemma_insert_distinct(prev, pos as int, s);
                    assert forall|a: int, k: int|
                        0 <= a < r@.len() && i + 1 <= k < candidates@.len() implies (
                    #[trigger] r@[a]).id != (#[trigger] candidates@[k]).id by {
                        if a < pos {
                            assert(r@[a] == prev[a]);
                        } else if a > pos {
                            assert(r@[a] == prev[a - 1]);
                        } else {
                            assert(candidates@[i as int].id != candidates@[k].id);
                        }
                    }
                }
            }
        }
        i += 1;
    }
    proof {
        assert(candidates@.take(candidates@.len() as int) =~= candidates@);
        if distinct {
            assert forall|a: int, b: int| 0 <= a < b < r@.len() implies strictly_precedes(
                #[trigger] r@[a],
                #[trigger] r@[b],
            ) by {
                assert(precedes(r@[a], r@[b]));
                assert(r@[a].id != r@[b].id);
            }
        }
    }
    r
}

} // verus!
