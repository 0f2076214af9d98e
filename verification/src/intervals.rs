//! Sets of numbers as lists of closed intervals, and their one canonical form.

use vstd::prelude::*;

verus! {

/// The numbers from `start` to `end`, both included.
#[derive(Clone, Copy, Debug, PartialEq, Eq, Structural)]
pub struct Interval {
    /// The least number.
    pub start: u128,
    /// The greatest number.
    pub end: u128,
}

impl Interval {
    /// Whether a number lies in the interval.
    pub open spec fn holds(self, x: int) -> bool {
        self.start <= x <= self.end
    }
}

/// Whether a number lies in one of the intervals.
pub open spec fn covers(list: Seq<Interval>, x: int) -> bool {
    exists|i: int| 0 <= i < list.len() && (#[trigger] list[i]).holds(x)
}

/// Whether two lists cover the same numbers.
pub open spec fn same_cover(a: Seq<Interval>, b: Seq<Interval>) -> bool {
    forall|x: int| #[trigger] covers(a, x) == covers(b, x)
}

/// Whether no interval is empty.
pub open spec fn proper(list: Seq<Interval>) -> bool {
    forall|i: int| 0 <= i < list.len() ==> (#[trigger] list[i]).start <= list[i].end
}

/// Whether the intervals are in order and neither overlap nor touch.
pub open spec fn canonical(list: Seq<Interval>) -> bool {
    &&& proper(list)
    &&& forall|i: int, j: int|
        0 <= i < j < list.len() ==> (#[trigger] list[i]).end + 1 < (#[trigger] list[j]).start
}

/// Whether the intervals are in the order of their starts.
pub open spec fn sorted(list: Seq<Interval>) -> bool {
    forall|i: int, j: int|
        0 <= i <= j < list.len() ==> (#[trigger] list[i]).start <= (#[trigger] list[j]).start
}

/// The last interval of a canonical list begins no earlier than that of
/// another canonical list with the same cover, and ends where it ends.
proof fn last_interval_agrees(a: Seq<Interval>, b: Seq<Interval>)
    requires
        canonical(a),
        canonical(b),
        same_cover(a, b),
        a.len() > 0,
        b.len() > 0,
    ensures
        a.last().end <= b.last().end,
        a.last().end == b.last().end ==> b.last().start <= a.last().start,
{
    let last = a.len() - 1;
    assert(a[last].holds(a.last().end as int));
    assert(covers(a, a.last().end as int));
    assert(covers(b, a.last().end as int));
    let j = choose|j: int| 0 <= j < b.len() && (#[trigger] b[j]).holds(a.last().end as int);
    assert(b[j].end <= b[b.len() - 1].end);
    if a.last().end == b.last().end && a.last().start < b.last().start {
        let x = b.last().start - 1;
        assert(a[last].holds(x));
        assert(covers(a, x));
        assert(covers(b, x));
        let k = choose|k: int| 0 <= k < b.len() && (#[trigger] b[k]).holds(x);
        if k < b.len() - 1 {
            assert(b[k].end + 1 < b[b.len() - 1].start);
        }
        assert(false);
    }
}

/// What a canonical list covers without its last interval.
proof fn cover_without_last(list: Seq<Interval>, x: int)
    requires
        canonical(list),
        list.len() > 0,
    ensures
        covers(list.drop_last(), x) <==> covers(list, x) && x < list.last().start,
{
    let last = list.len() - 1;
    if covers(list.drop_last(), x) {
        let i = choose|i: int|
            0 <= i < list.drop_last().len() && (#[trigger] list.drop_last()[i]).holds(x);
        assert(list[i].holds(x));
        assert(list[i].end + 1 < list[last].start);
    }
    if covers(list, x) && x < list.last().start {
        let i = choose|i: int| 0 <= i < list.len() && (#[trigger] list[i]).holds(x);
        assert(i != last);
        assert(list.drop_last()[i].holds(x));
    }
}

/// Two canonical lists that cover the same numbers are the same list.
pub proof fn canonical_form_is_unique(a: Seq<Interval>, b: Seq<Interval>)
    requires
        canonical(a),
        canonical(b),
        same_cover(a, b),
    ensures
        a == b,
    decreases a.len(),
{
    if a.len() == 0 {
        if b.len() > 0 {
            assert(b[0].holds(b[0].start as int));
            assert(covers(b, b[0].start as int));
            assert(covers(a, b[0].start as int));
        }
        assert(a =~= b);
    } else if b.len() == 0 {
        assert(a[0].holds(a[0].start as int));
        assert(covers(a, a[0].start as int));
        assert(covers(b, a[0].start as int));
        assert(false);
    } else {
        assert(same_cover(b, a)) by {
            assert forall|x: int| #[trigger] covers(b, x) == covers(a, x) by {
                assert(covers(a, x) == covers(b, x));
            }
        }
        last_interval_agrees(a, b);
        last_interval_agrees(b, a);
        assert(a.last() == b.last());
        assert forall|x: int| #[trigger]
            covers(a.drop_last(), x) == covers(b.drop_last(), x) by {
            cover_without_last(a, x);
            cover_without_last(b, x);
            assert(covers(a, x) == covers(b, x));
        }
        canonical_form_is_unique(a.drop_last(), b.drop_last());
        assert(a =~= a.drop_last().push(a.last()));
        assert(b =~= b.drop_last().push(b.last()));
    }
}

/// What a list covers once an interval is put into it.
proof fn cover_after_insert(list: Seq<Interval>, at: int, interval: Interval, x: int)
    requires
        0 <= at <= list.len(),
    ensures
        covers(list.insert(at, interval), x) <==> covers(list, x) || interval.holds(x),
{
    let longer = list.insert(at, interval);
    if covers(longer, x) {
        let i = choose|i: int| 0 <= i < longer.len() && (#[trigger] longer[i]).holds(x);
        if i < at {
            assert(list[i].holds(x));
        } else if i > at {
            assert(list[i - 1].holds(x));
        }
    }
    if covers(list, x) {
        let i = choose|i: int| 0 <= i < list.len() && (#[trigger] list[i]).holds(x);
        if i < at {
            assert(longer[i].holds(x));
        } else {
            assert(longer[i + 1].holds(x));
        }
    }
    if interval.holds(x) {
        assert(longer[at].holds(x));
    }
}

/// What a list covers once an interval is put at its end.
pub proof fn cover_after_push(list: Seq<Interval>, interval: Interval, x: int)
    ensures
        covers(list.push(interval), x) <==> covers(list, x) || interval.holds(x),
{
    assert(list.push(interval) =~= list.insert(list.len() as int, interval));
    cover_after_insert(list, list.len() as int, interval, x);
}

/// Puts an interval into an ordered list, behind those that start no later.
fn insert_in_order(list: &mut Vec<Interval>, interval: Interval)
    requires
        sorted(old(list)@),
        proper(old(list)@),
        interval.start <= interval.end,
    ensures
        sorted(final(list)@),
        proper(final(list)@),
        forall|x: int| #[trigger]
            covers(final(list)@, x) <==> covers(old(list)@, x) || interval.holds(x),
        final(list)@.len() == old(list)@.len() + 1,
{
    let mut at: usize = 0;
    while at < list.len() && list[at].start <= interval.start
        invariant
            at <= list@.len(),
            list@ == old(list)@,
            forall|j: int| 0 <= j < at ==> (#[trigger] list@[j]).start <= interval.start,
        decreases list@.len() - at,
    {
        at = at + 1;
    }
    let ghost before = list@;
    list.insert(at, interval);
    proof {
        assert forall|x: int| #[trigger] covers(list@, x) <==> covers(before, x) || interval.holds(
            x,
        ) by {
            cover_after_insert(before, at as int, interval, x);
        }
        assert forall|i: int| 0 <= i < list@.len() implies (#[trigger] list@[i]).start
            <= list@[i].end by {
            if i < at {
                assert(list@[i] == before[i]);
            } else if i > at {
                assert(list@[i] == before[i - 1]);
            }
        }
        assert forall|i: int, j: int| 0 <= i <= j < list@.len() implies (#[trigger] list@[i]).start
            <= (#[trigger] list@[j]).start by {
            let i0 = if i < at { i } else { i - 1 };
            let j0 = if j < at { j } else { j - 1 };
            if i != at && j != at {
                assert(list@[i] == before[i0]);
                assert(list@[j] == before[j0]);
            } else if i == at && j > at {
                assert(list@[j] == before[j0]);
                assert(before[at as int].start > interval.start);
                assert(before[at as int].start <= before[j0].start);
            } else if j == at && i < at {
                assert(list@[i] == before[i]);
            }
        }
    }
}

/// The canonical list that covers what the given intervals cover.
pub fn merge_intervals(intervals: &Vec<Interval>) -> (merged: Vec<Interval>)
    requires
        proper(intervals@),
    ensures
        canonical(merged@),
        same_cover(merged@, intervals@),
{
    let mut ordered: Vec<Interval> = Vec::new();
    for i in 0..intervals.len()
        invariant
            proper(intervals@),
            sorted(ordered@),
            proper(ordered@),
            same_cover(ordered@, intervals@.take(i as int)),
    {
        let interval = intervals[i];
        let ghost before = ordered@;
        insert_in_order(&mut ordered, interval);
        proof {
            assert(intervals@.take(i + 1) =~= intervals@.take(i as int).push(interval));
            assert forall|x: int| #[trigger] covers(ordered@, x) == covers(
                intervals@.take(i + 1),
                x,
            ) by {
                cover_after_push(intervals@.take(i as int), interval, x);
                assert(covers(before, x) == covers(intervals@.take(i as int), x));
            }
        }
    }
    assert(intervals@.take(intervals@.len() as int) =~= intervals@);
    let mut merged: Vec<Interval> = Vec::new();
    for i in 0..ordered.len()
        invariant
            sorted(ordered@),
            proper(ordered@),
            canonical(merged@),
            same_cover(merged@, ordered@.take(i as int)),
            merged@.len() > 0 ==> i > 0 && merged@.last().start <= ordered@[i - 1].start,
    {
        let next = ordered[i];
        let ghost before = merged@;
        let ghost done = ordered@.take(i as int);
        assert(ordered@.take(i + 1) =~= done.push(next));
        let count: usize = merged.len();
        let joins = count > 0 && (next.start <= merged[count - 1].end || (merged[count - 1].end
            != u128::MAX && next.start <= merged[count - 1].end + 1));
        if joins {
            let previous = merged[count - 1];
            assert(previous.start <= next.start);
            let joined = Interval {
                start: previous.start,
                end: if previous.end < next.end {
                    next.end
                } else {
                    previous.end
                },
            };
            merged.pop();
            let ghost front = merged@;
            assert(before =~= front.push(previous));
            merged.push(joined);
            proof {
                assert(canonical(merged@)) by {
                    assert forall|a: int, b: int| 0 <= a < b < merged@.len() implies (
                    #[trigger] merged@[a]).end + 1 < (#[trigger] merged@[b]).start by {
                        assert(before[a].end + 1 < before[b].start);
                    }
                    assert forall|a: int| 0 <= a < merged@.len() implies (#[trigger]
                    merged@[a]).start <= merged@[a].end by {
                        assert(before[a].start <= before[a].end);
                    }
                }
                assert forall|x: int| #[trigger] covers(merged@, x) == covers(
                    ordered@.take(i + 1),
                    x,
                ) by {
                    cover_after_push(front, joined, x);
                    cover_after_push(front, previous, x);
                    cover_after_push(done, next, x);
                    assert(covers(before, x) == covers(done, x));
                }
            }
        } else {
            merged.push(next);
            proof {
                assert forall|a: int, b: int| 0 <= a < b < merged@.len() implies (#[trigger]
                merged@[a]).end + 1 < (#[trigger] merged@[b]).start by {
                    if b == before.len() {
                        if a < before.len() - 1 {
                            assert(before[a].end + 1 < before[before.len() - 1].start);
                        }
                    }
                }
                assert forall|x: int| #[trigger] covers(merged@, x) == covers(
                    ordered@.take(i + 1),
                    x,
                ) by {
                    cover_after_push(before, next, x);
                    cover_after_push(done, next, x);
                    assert(covers(before, x) == covers(done, x));
                }
            }
        }
    }
    assert(ordered@.take(ordered@.len() as int) =~= ordered@);
    assert forall|x: int| #[trigger] covers(merged@, x) == covers(intervals@, x) by {
        assert(covers(ordered@, x) == covers(intervals@, x));
    }
    merged
}

/// Whether two lists hold the same intervals in the same order.
fn same_list(a: &Vec<Interval>, b: &Vec<Interval>) -> (same: bool)
    ensures
        same == (a@ == b@),
{
    if a.len() != b.len() {
        return false;
    }
    for i in 0..a.len()
        invariant
            a.len() == b.len(),
            forall|j: int| 0 <= j < i ==> a@[j] == b@[j],
    {
        if a[i].start != b[i].start || a[i].end != b[i].end {
            return false;
        }
    }
    assert(a@ =~= b@);
    true
}

/// Whether two canonical lists cover the same numbers.
pub fn same_set(a: &Vec<Interval>, b: &Vec<Interval>) -> (same: bool)
    requires
        canonical(a@),
        canonical(b@),
    ensures
        same == same_cover(a@, b@),
{
    proof {
        if same_cover(a@, b@) {
            canonical_form_is_unique(a@, b@);
        }
    }
    same_list(a, b)
}

} // verus!
