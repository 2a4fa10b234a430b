//! Update detection: which items of a freshly fetched feed document are new
//! with respect to the feed's high-water mark, in which order they are
//! announced, and how far the mark moves once deliveries are known.
//!
//! Timestamps are microseconds since the Unix epoch, UTC.

use vstd::prelude::*;

verus! {

/// An item with `a` is announced before an item with `b`: earlier publish
/// time first, document order among equal times.
pub open spec fn announced_before(times: Seq<i64>, a: int, b: int) -> bool {
    times[a] < times[b] || (times[a] == times[b] && a < b)
}

/// `order` lists the indices of the items of `times` that are newer than
/// `mark`, each once, oldest first (document order among equal times).
pub open spec fn is_announcement_order(mark: i64, times: Seq<i64>, order: Seq<usize>) -> bool {
    &&& forall|p: int| 0 <= p < order.len() ==> #[trigger] order[p] < times.len()
    &&& forall|p: int| 0 <= p < order.len() ==> times[#[trigger] order[p] as int] > mark
    &&& forall|i: int| 0 <= i < times.len() && times[i] > mark ==> order.contains(i as usize)
    &&& forall|p: int, q: int|
        0 <= p < q < order.len() ==> announced_before(times, #[trigger] order[p] as int, #[trigger] order[q] as int)
}

/// The greatest of `mark` and all of `times`.
pub open spec fn high_mark(mark: i64, times: Seq<i64>) -> i64
    decreases times.len(),
{
    if times.len() == 0 {
        mark
    } else {
        let rest = high_mark(mark, times.drop_last());
        if times.last() > rest {
            times.last()
        } else {
            rest
        }
    }
}

/// What the detector hands back: the items to announce, in order, and the
/// high-water mark once all of them are announced.
pub struct Detection {
    pub new_items: Vec<usize>,
    pub new_mark: i64,
}

/// Finds the items newer than `mark` and the mark that covers them.
pub fn detect_updates(mark: i64, times: &Vec<i64>) -> (r: Detection)
    ensures
        is_announcement_order(mark, times@, r.new_items@),
        r.new_mark == high_mark(mark, times@),
{
    let mut order: Vec<usize> = Vec::new();
    let mut top: i64 = mark;
    let mut i: usize = 0;
    while i < times.len()
        invariant
            i <= times.len(),
            top == high_mark(mark, times@.subrange(0, i as int)),
            forall|p: int| 0 <= p < order.len() ==> #[trigger] order@[p] < i,
            forall|p: int| 0 <= p < order.len() ==> times@[#[trigger] order@[p] as int] > mark,
            forall|k: int| 0 <= k < i && times@[k] > mark ==> order@.contains(k as usize),
            forall|p: int, q: int|
                0 <= p < q < order.len() ==> announced_before(
                    times@,
                    #[trigger] order@[p] as int,
                    #[trigger] order@[q] as int,
                ),
        decreases times.len() - i,
    {
        let t = times[i];
        proof {
            let s = times@.subrange(0, i as int + 1);
            assert(s.drop_last() =~= times@.subrange(0, i as int));
        }
        if t > top {
            top = t;
        }
        if t > mark {
            let mut p: usize = 0;
            while p < order.len() && times[order[p]] <= t
                invariant
                    p <= order.len(),
                    t == times@[i as int],
                    i < times.len(),
                    forall|q: int| 0 <= q < order.len() ==> #[trigger] order@[q] < i,
                    forall|q: int| 0 <= q < p ==> times@[#[trigger] order@[q] as int] <= t,
                decreases order.len() - p,
            {
                p = p + 1;
            }
            let ghost old_order = order@;
            order.insert(p, i);
            proof {
                assert forall|a: int, b: int| 0 <= a < b < order.len() implies announced_before(
                    times@,
                    #[trigger] order@[a] as int,
                    #[trigger] order@[b] as int,
                ) by {
                    if b < p {
                        assert(order@[a] == old_order[a] && order@[b] == old_order[b]);
                    } else if b == p {
                        assert(order@[a] == old_order[a]);
                    } else if a < p {
                        assert(order@[a] == old_order[a] && order@[b] == old_order[b - 1]);
                        assert(announced_before(times@, old_order[p as int] as int, old_order[b - 1] as int) || p == b - 1);
                    } else if a == p {
                        assert(order@[b] == old_order[b - 1]);
                        assert(announced_before(times@, old_order[p as int] as int, old_order[b - 1] as int) || p == b - 1);
                    } else {
                        assert(order@[a] == old_order[a - 1] && order@[b] == old_order[b - 1]);
                    }
                }
                assert forall|k: int| 0 <= k < i + 1 && times@[k] > mark implies order@.contains(k as usize) by {
                    if k == i {
                        assert(order@[p as int] == i);
                    } else {
                        let w = choose|w: int| 0 <= w < old_order.len() && old_order[w] == k as usize;
                        if w < p {
                            assert(order@[w] == k as usize);
                        } else {
                            assert(order@[w + 1] == k as usize);
                        }
                    }
                }
            }
        }
        i = i + 1;
    }
    proof {
        assert(times@.subrange(0, i as int) =~= times@);
    }
    Detection { new_items: order, new_mark: top }
}

/// The announcement at position `p` was delivered (a missing outcome counts
/// as failed).
pub open spec fn delivered_at(delivered: Seq<bool>, p: int) -> bool {
    0 <= p < delivered.len() && delivered[p]
}

/// `t` lies below the publish time of every announcement that failed.
pub open spec fn below_failures(times: Seq<i64>, delivered: Seq<bool>, t: i64) -> bool {
    forall|q: int| 0 <= q < times.len() && !delivered_at(delivered, q) ==> t < #[trigger] times[q]
}

/// The greatest of `mark` and the publish times of the first `n`
/// announcements that were delivered and lie below every failed one.
pub open spec fn committed_upto(mark: i64, times: Seq<i64>, delivered: Seq<bool>, n: nat) -> i64
    decreases n,
{
    if n == 0 || n > times.len() {
        mark
    } else {
        let rest = committed_upto(mark, times, delivered, (n - 1) as nat);
        let t = times[n - 1];
        if delivered_at(delivered, n - 1) && below_failures(times, delivered, t) && t > rest {
            t
        } else {
            rest
        }
    }
}

/// The mark once announcements with publish times `times` were attempted,
/// the one at position `p` delivered where `delivered[p]` holds: the
/// greatest of `mark` and the delivered times that lie below every failed
/// one, so that no failed announcement falls at or under the new mark.
pub open spec fn delivered_mark(mark: i64, times: Seq<i64>, delivered: Seq<bool>) -> i64 {
    committed_upto(mark, times, delivered, times.len())
}

/// The mark once the announcements with publish times `times` were
/// attempted with outcomes `delivered`.
pub fn mark_after_delivery(mark: i64, times: &Vec<i64>, delivered: &Vec<bool>) -> (r: i64)
    ensures
        r == delivered_mark(mark, times@, delivered@),
{
    // the earliest publish time of a failed announcement
    let mut floor: Option<i64> = None;
    let mut p: usize = 0;
    while p < times.len()
        invariant
            p <= times.len(),
            floor is None ==> forall|q: int| 0 <= q < p ==> delivered_at(delivered@, q),
            floor matches Some(f) ==> (exists|q: int|
                0 <= q < p && !delivered_at(delivered@, q) && #[trigger] times@[q] == f),
            floor matches Some(f) ==> forall|q: int|
                0 <= q < p && !delivered_at(delivered@, q) ==> f <= #[trigger] times@[q],
        decreases times.len() - p,
    {
        let ok = p < delivered.len() && delivered[p];
        if !ok {
            match floor {
                Some(f) => {
                    if times[p] < f {
                        floor = Some(times[p]);
                    }
                },
                None => {
                    floor = Some(times[p]);
                },
            }
        }
        p = p + 1;
    }
    let n = p;
    let mut top: i64 = mark;
    let mut p: usize = 0;
    while p < times.len()
        invariant
            n == times.len(),
            p <= times.len(),
            floor is None ==> forall|q: int| 0 <= q < n ==> delivered_at(delivered@, q),
            floor matches Some(f) ==> (exists|q: int|
                0 <= q < n && !delivered_at(delivered@, q) && #[trigger] times@[q] == f),
            floor matches Some(f) ==> forall|q: int|
                0 <= q < n && !delivered_at(delivered@, q) ==> f <= #[trigger] times@[q],
            top == committed_upto(mark, times@, delivered@, p as nat),
        decreases times.len() - p,
    {
        let t = times[p];
        let below = match floor {
            Some(f) => t < f,
            None => true,
        };
        proof {
            if below {
                assert forall|q: int| 0 <= q < times@.len() && !delivered_at(delivered@, q) implies t
                    < #[trigger] times@[q] by {
                    if let Some(f) = floor {
                        assert(f <= times@[q]);
                    }
                }
            } else {
                let f = floor->Some_0;
                let q = choose|q: int| 0 <= q < n && !delivered_at(delivered@, q) && #[trigger] times@[q] == f;
                assert(!(t < times@[q]));
            }
            assert(below == below_failures(times@, delivered@, t));
        }
        if p < delivered.len() && delivered[p] && below && t > top {
            top = t;
        }
        p = p + 1;
    }
    top
}

/// The publish times of the announced items, in announcement order.
pub open spec fn announced_times(times: Seq<i64>, order: Seq<usize>) -> Seq<i64> {
    order.map_values(|i: usize| times[i as int])
}

/// One sweep over a feed: the publish times of the fetched document's
/// items, the order in which the new ones were announced, and which
/// announcements were delivered.
pub struct SweepRecord {
    pub times: Seq<i64>,
    pub order: Seq<usize>,
    pub delivered: Seq<bool>,
}

/// The mark after the first `n` sweeps of `sweeps`, starting from `mark`.
pub open spec fn mark_after_sweeps(mark: i64, sweeps: Seq<SweepRecord>, n: nat) -> i64
    decreases n,
{
    if n == 0 {
        mark
    } else {
        let m = mark_after_sweeps(mark, sweeps, (n - 1) as nat);
        let s = sweeps[n - 1];
        delivered_mark(m, announced_times(s.times, s.order), s.delivered)
    }
}

/// Each sweep announced what the detector finds against the mark it started
/// from.
pub open spec fn sweeps_follow_detector(mark: i64, sweeps: Seq<SweepRecord>) -> bool {
    forall|n: int|
        0 <= n < sweeps.len() ==> is_announcement_order(
            mark_after_sweeps(mark, sweeps, n as nat),
            (#[trigger] sweeps[n]).times,
            sweeps[n].order,
        )
}

proof fn lemma_committed_at_least(mark: i64, times: Seq<i64>, delivered: Seq<bool>, n: nat)
    ensures
        committed_upto(mark, times, delivered, n) >= mark,
    decreases n,
{
    if n > 0 {
        lemma_committed_at_least(mark, times, delivered, (n - 1) as nat);
    }
}

/// Delivery never lowers a mark.
pub proof fn lemma_delivered_mark_at_least(mark: i64, times: Seq<i64>, delivered: Seq<bool>)
    ensures
        delivered_mark(mark, times, delivered) >= mark,
{
    lemma_committed_at_least(mark, times, delivered, times.len());
}

/// Detection never lowers a mark.
pub proof fn lemma_high_mark_at_least(mark: i64, times: Seq<i64>)
    ensures
        high_mark(mark, times) >= mark,
    decreases times.len(),
{
    if times.len() > 0 {
        lemma_high_mark_at_least(mark, times.drop_last());
    }
}

/// A feed's mark never decreases from one sweep to a later one.
pub proof fn lemma_mark_monotone_across_sweeps(mark: i64, sweeps: Seq<SweepRecord>, a: nat, b: nat)
    requires
        a <= b,
    ensures
        mark_after_sweeps(mark, sweeps, a) <= mark_after_sweeps(mark, sweeps, b),
    decreases b,
{
    if a < b {
        lemma_mark_monotone_across_sweeps(mark, sweeps, a, (b - 1) as nat);
        let s = sweeps[b - 1];
        lemma_delivered_mark_at_least(
            mark_after_sweeps(mark, sweeps, (b - 1) as nat),
            announced_times(s.times, s.order),
            s.delivered,
        );
    }
}

/// An item is announced at most once: once a feed's mark has reached `t`,
/// no later sweep announces an item published at or before `t`.
pub proof fn lemma_announced_at_most_once(mark: i64, sweeps: Seq<SweepRecord>, a: nat, b: nat, t: i64)
    requires
        sweeps_follow_detector(mark, sweeps),
        a <= b < sweeps.len(),
        mark_after_sweeps(mark, sweeps, a) >= t,
    ensures
        forall|p: int|
            0 <= p < sweeps[b as int].order.len() ==> sweeps[b as int].times[#[trigger] sweeps[b as int].order[p] as int]
                > t,
{
    lemma_mark_monotone_across_sweeps(mark, sweeps, a, b);
    assert(is_announcement_order(mark_after_sweeps(mark, sweeps, b), sweeps[b as int].times, sweeps[b as int].order));
}

proof fn lemma_committed_all_failed(mark: i64, times: Seq<i64>, delivered: Seq<bool>, n: nat)
    requires
        forall|p: int| 0 <= p < delivered.len() ==> !#[trigger] delivered[p],
    ensures
        committed_upto(mark, times, delivered, n) == mark,
    decreases n,
{
    if n > 0 {
        lemma_committed_all_failed(mark, times, delivered, (n - 1) as nat);
    }
}

/// Where every announcement of a sweep fails, the mark stays where it was.
pub proof fn lemma_failed_deliveries_keep_mark(mark: i64, times: Seq<i64>, delivered: Seq<bool>)
    requires
        forall|p: int| 0 <= p < delivered.len() ==> !#[trigger] delivered[p],
    ensures
        delivered_mark(mark, times, delivered) == mark,
{
    lemma_committed_all_failed(mark, times, delivered, times.len());
}

proof fn lemma_committed_below_failures(mark: i64, times: Seq<i64>, delivered: Seq<bool>, n: nat)
    ensures
        committed_upto(mark, times, delivered, n) == mark || below_failures(
            times,
            delivered,
            committed_upto(mark, times, delivered, n),
        ),
    decreases n,
{
    if n > 0 {
        lemma_committed_below_failures(mark, times, delivered, (n - 1) as nat);
    }
}

/// A failed announcement stays above the new mark, so that it is announced
/// again: where every announced item is newer than `mark`, each one whose
/// delivery failed lies above the mark that delivery leaves.
pub proof fn lemma_failed_delivery_stays_above_mark(
    mark: i64,
    times: Seq<i64>,
    delivered: Seq<bool>,
    q: int,
)
    requires
        forall|p: int| 0 <= p < times.len() ==> #[trigger] times[p] > mark,
        0 <= q < times.len(),
        !delivered_at(delivered, q),
    ensures
        times[q] > delivered_mark(mark, times, delivered),
{
    lemma_committed_below_failures(mark, times, delivered, times.len());
}

/// A failed announcement is retried: where the item is still in the
/// document, with the same publish time, the next sweep announces it again.
pub proof fn lemma_failed_item_announced_again(mark: i64, sweeps: Seq<SweepRecord>, n: nat, p: int)
    requires
        sweeps_follow_detector(mark, sweeps),
        n + 1 < sweeps.len(),
        0 <= p < sweeps[n as int].order.len(),
        !delivered_at(sweeps[n as int].delivered, p),
        (sweeps[n as int].order[p] as int) < sweeps[n + 1int].times.len(),
        sweeps[n + 1int].times[sweeps[n as int].order[p] as int] == sweeps[n as int].times[sweeps[n as int].order[p] as int],
    ensures
        sweeps[n + 1int].order.contains(sweeps[n as int].order[p]),
{
    let s = sweeps[n as int];
    let m = mark_after_sweeps(mark, sweeps, n);
    assert(is_announcement_order(m, s.times, s.order));
    let announced = announced_times(s.times, s.order);
    assert forall|k: int| 0 <= k < announced.len() implies #[trigger] announced[k] > m by {
        assert(s.times[s.order[k] as int] > m);
    }
    lemma_failed_delivery_stays_above_mark(m, announced, s.delivered, p);
    assert(mark_after_sweeps(mark, sweeps, (n + 1) as nat) == delivered_mark(m, announced, s.delivered));
    assert(is_announcement_order(mark_after_sweeps(mark, sweeps, (n + 1) as nat), sweeps[n + 1int].times, sweeps[n + 1int].order));
}

/// The mark after delivery never passes the mark that detection computed:
/// only announced items move it, and each of them is among the document's.
pub proof fn lemma_delivered_mark_within_detection(
    mark: i64,
    times: Seq<i64>,
    order: Seq<usize>,
    delivered: Seq<bool>,
)
    requires
        is_announcement_order(mark, times, order),
    ensures
        delivered_mark(mark, announced_times(times, order), delivered) <= high_mark(mark, times),
{
    lemma_delivered_mark_bounded(mark, announced_times(times, order), delivered, high_mark(mark, times));
    assert forall|p: int| 0 <= p < announced_times(times, order).len() implies #[trigger] announced_times(times, order)[p]
        <= high_mark(mark, times) by {
        lemma_high_mark_bounds(mark, times, order[p] as int);
    }
    lemma_high_mark_at_least(mark, times);
}

proof fn lemma_delivered_mark_bounded(mark: i64, times: Seq<i64>, delivered: Seq<bool>, bound: i64)
    ensures
        mark <= bound && (forall|p: int| 0 <= p < times.len() ==> #[trigger] times[p] <= bound)
            ==> delivered_mark(mark, times, delivered) <= bound,
{
    lemma_committed_bounded(mark, times, delivered, bound, times.len());
}

proof fn lemma_committed_bounded(mark: i64, times: Seq<i64>, delivered: Seq<bool>, bound: i64, n: nat)
    ensures
        mark <= bound && (forall|p: int| 0 <= p < times.len() ==> #[trigger] times[p] <= bound)
            ==> committed_upto(mark, times, delivered, n) <= bound,
    decreases n,
{
    if n > 0 {
        lemma_committed_bounded(mark, times, delivered, bound, (n - 1) as nat);
    }
}

proof fn lemma_high_mark_bounds(mark: i64, times: Seq<i64>, i: int)
    requires
        0 <= i < times.len(),
    ensures
        times[i] <= high_mark(mark, times),
    decreases times.len(),
{
    if i < times.len() - 1 {
        lemma_high_mark_bounds(mark, times.drop_last(), i);
    } else {
        lemma_high_mark_at_least(mark, times.drop_last());
    }
}

} // verus!
