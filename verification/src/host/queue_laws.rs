//! What the eye queue promises as a whole.

use crate::host::eye_queue;
use crate::host::eye_queue::{QueueState, Slot};
use crate::host::grid;
use crate::nvstusb::drm::DrmVblank;
use crate::shm::{Swap, EYE_RIGHT};
use vstd::prelude::*;

verus! {

/// Two eyes pinned to one boundary end up on consecutive slots, in the order
/// in which they were queued: neither displaces the other.
pub proof fn colliding_eyes_take_consecutive_slots(
    q: QueueState,
    first: bool,
    second: bool,
    t: int,
    period: int,
)
    requires
        q.wf(),
        !q.reanchors(),
        q.scheduled.len() + 2 <= eye_queue::MAX_QUEUE,
        period > 0,
        0 <= t,
        t + period <= u64::MAX,
        !eye_queue::claimed(q.scheduled, t),
        !eye_queue::claimed(q.scheduled, t + period),
    ensures
        ({
            let r = q.with_pinned(first, t, period).with_pinned(second, t, period).scheduled;
            r.contains((t as u64, first)) && r.contains(((t + period) as u64, second))
        }),
{
    let s = q.scheduled;
    assert(t + 0 * period == t);
    assert(eye_queue::first_free(s, t, period, 0));
    eye_queue::lemma_first_free_is_unique(s, t, period, 0);
    let a: Slot = (t as u64, first);
    let q1 = q.with_pinned(first, t, period);
    eye_queue::lemma_prefix_bounds(s, eye_queue::not_after(t));
    let i = eye_queue::prefix_len(s, eye_queue::not_after(t)) as int;
    let s1 = q1.scheduled;
    assert(s1 == s.insert(i, a));
    assert(s1[i] == a);
    assert(eye_queue::claimed(s1, t));
    assert(t + 1 * period == t + period);
    assert(!eye_queue::claimed(s1, t + 1 * period)) by {
        if eye_queue::claimed(s1, t + 1 * period) {
            let j = choose|j: int| 0 <= j < s1.len() && (#[trigger] s1[j]).0 == t + 1 * period;
            if j < i {
                assert(s1[j] == s[j]);
                assert(s[j].0 == t + period);
            } else if j > i {
                assert(s1[j] == s[j - 1]);
                assert(s[j - 1].0 == t + period);
            }
        }
    }
    assert(eye_queue::first_free(s1, t, period, 1)) by {
        assert forall|j: int| 0 <= j < 1 implies eye_queue::claimed(
            s1,
            #[trigger] (t + j * period),
        ) by {
            assert(j == 0);
        }
    }
    eye_queue::lemma_first_free_is_unique(s1, t, period, 1);
    let b: Slot = ((t + period) as u64, second);
    eye_queue::lemma_prefix_bounds(s1, eye_queue::not_after(t + period));
    let k = eye_queue::prefix_len(s1, eye_queue::not_after(t + period)) as int;
    let r = q1.with_pinned(second, t, period).scheduled;
    assert(r == s1.insert(k, b));
    assert(r[k] == b);
    if i < k {
        assert(r[i] == a);
    } else {
        assert(r[i + 1] == a);
    }
}

/// An eye whose boundary is armed fires on it, and nothing else changes: the
/// eyes behind it keep their boundaries, and nothing is dropped or invented.
pub proof fn an_eye_fires_on_its_own_boundary(q: QueueState, period: int)
    requires
        q.wf(),
        period > 0,
        q.scheduled.len() > 0,
        q.scheduled.len() > 1 ==> q.scheduled[1].0 > q.scheduled[0].0 + period / 2,
    ensures
        ({
            let e = q.scheduled[0];
            q.next(e.0 as int, period) == (
                QueueState { scheduled: q.scheduled.skip(1), ..q }.fired(e.1),
                Some(e.1),
            )
        }),
{
    let s = q.scheduled;
    let b = s[0].0 as int;
    let half = period / 2;
    eye_queue::lemma_prefix_len(s, eye_queue::overdue_at(b, half), 0);
    assert(s.skip(0) =~= s);
    let q1 = q.without_overdue(b, period);
    assert(q1 == q);
    assert(q1.realigned(b, period) == q);
    eye_queue::lemma_prefix_len(s, eye_queue::due_at(b, half), 1);
}

/// A fire that is not marked as invented is an eye the game reported: it is
/// one of the queued eyes, never altered.
pub proof fn a_real_fire_is_a_reported_eye(q: QueueState, boundary: int, period: int)
    requires
        period > 0,
        q.next(boundary, period).1 is Some,
        !q.next(boundary, period).0.last_was_freerun,
    ensures
        ({
            let e = q.next(boundary, period).1->0;
            ||| exists|i: int| 0 <= i < q.scheduled.len() && (#[trigger] q.scheduled[i]).1 == e
            ||| q.scheduled.len() == 0 && q.fallback.len() > 0 && q.fallback[0] == e
        }),
{
    if q.scheduled.len() > 0 {
        let e = q.next(boundary, period).1->0;
        let half = period / 2;
        let q1 = q.without_overdue(boundary, period);
        let q2 = q1.realigned(boundary, period);
        let n = eye_queue::prefix_len(q.scheduled, eye_queue::overdue_at(boundary, half)) as int;
        let rest = q.scheduled.skip(n);
        eye_queue::lemma_prefix_bounds(q.scheduled, eye_queue::overdue_at(boundary, half));
        eye_queue::lemma_prefix_bounds(q2.scheduled, eye_queue::due_at(boundary, half));
        let m = eye_queue::prefix_len(q2.scheduled, eye_queue::due_at(boundary, half)) as int;
        assert(m > 0);
        let j2 = m - 1;
        let j1 = if q2.scheduled == q1.scheduled {
            j2
        } else {
            lemma_rebased_eye_comes_from(q1.scheduled, boundary, period, j2)
        };
        assert(q1.scheduled[j1].1 == e);
        let j0 = if q1.scheduled == rest {
            j1
        } else {
            lemma_rebased_eye_comes_from(rest, boundary, period, j1)
        };
        assert(rest[j0].1 == e);
        assert(q.scheduled[j0 + n].1 == e);
    }
}

/// Every entry of a moved schedule is an entry of the schedule with the same
/// eye.
pub proof fn lemma_rebased_eye_comes_from(s: Seq<Slot>, origin: int, period: int, i: int) -> (j:
    int)
    requires
        0 <= i < eye_queue::rebased(s, origin, period).len(),
    ensures
        0 <= j < s.len(),
        s[j].1 == eye_queue::rebased(s, origin, period)[i].1,
        s.len() > 0 ==> eye_queue::rebased(s, origin, period)[i].0 == (s[j].0 - eye_queue::drift(
            s[0].0 as int,
            origin,
            period,
        )) as u64,
{
    broadcast use vstd::seq_lib::group_filter_ensures;

    if s.len() == 0 {
        i
    } else {
        let d = eye_queue::drift(s[0].0 as int, origin, period);
        let f = eye_queue::not_before(origin + d);
        let kept = s.filter(f);
        assert(kept.contains(kept[i]));
        s.lemma_filter_contains_rev(f, kept[i]);
        choose|j: int| 0 <= j < s.len() && s[j] == kept[i]
    }
}

/// Before the first reported eye nothing is invented: whatever fires is a
/// reported eye, and silence is not counted as a dip.
pub proof fn launch_is_silent_until_the_first_reported_eye(
    q: QueueState,
    boundary: int,
    period: int,
)
    requires
        period > 0,
        !q.first_fired,
    ensures
        q.next(boundary, period).1 is Some ==> !q.next(boundary, period).0.last_was_freerun
            && q.next(boundary, period).0.first_fired,
        q.next(boundary, period).0.freerun == q.freerun,
        q.next_unpaced().1 is Some ==> q.next_unpaced().0.first_fired,
        q.scheduled.len() == 0 && q.fallback.len() == 0 ==> q.next(boundary, period) == (
            q,
            None::<bool>,
        ) && q.next_unpaced() == (q, None::<bool>),
{
}

/// The state after `k` slots for which the game reported nothing.
pub open spec fn after_empty_slots(q: QueueState, k: nat) -> QueueState
    decreases k,
{
    if k == 0 {
        q
    } else {
        after_empty_slots(q, (k - 1) as nat).freerun_fire().0
    }
}

/// Slots without a reported eye alternate the eye for `stall_hold` slots and
/// hold it from then on.
pub proof fn empty_slots_alternate_and_then_hold(q: QueueState, r: bool, k: nat)
    requires
        q.first_fired,
        q.last_fired == Some(r),
        q.freerun_since == 0,
        k + 1 < u32::MAX,
    ensures
        after_empty_slots(q, k).freerun_since == k,
        after_empty_slots(q, k).stall_hold == q.stall_hold,
        after_empty_slots(q, k).first_fired,
        after_empty_slots(q, k).last_fired == Some(
            if (if k <= q.stall_hold {
                k
            } else {
                q.stall_hold as nat
            }) % 2 == 0 {
                r
            } else {
                !r
            },
        ),
        k < q.stall_hold ==> after_empty_slots(q, k).freerun_fire().1 == Some(
            if k % 2 == 0 {
                !r
            } else {
                r
            },
        ),
        k >= q.stall_hold ==> after_empty_slots(q, k).freerun_fire().1 == after_empty_slots(
            q,
            k,
        ).last_fired,
    decreases k,
{
    if k > 0 {
        empty_slots_alternate_and_then_hold(q, r, (k - 1) as nat);
    }
}

/// One empty slot is no dip, two are: only then does the next pinned eye
/// define the phase anew.
pub proof fn a_dip_is_two_empty_slots(q: QueueState)
    requires
        q.first_fired,
        q.freerun_since == 0,
        !q.pending_reanchor,
    ensures
        !after_empty_slots(q, 1).reanchors(),
        after_empty_slots(q, 2).reanchors(),
{
    reveal_with_fuel(after_empty_slots, 3);
}

/// After a dip the first pinned eye becomes the held phase, whatever was
/// invented meanwhile.
pub proof fn a_dip_ends_on_the_reported_phase(
    q: QueueState,
    right: bool,
    target: int,
    period: int,
)
    requires
        q.reanchors(),
    ensures
        q.with_pinned(right, target, period).last_fired == Some(right),
        !q.with_pinned(right, target, period).reanchors(),
{
}

/// Moving the schedule never steps a whole slot: every boundary moves by one
/// common distance of at most half a period, and an eye keeps its place in the
/// order.
pub proof fn moving_the_schedule_keeps_every_eye_in_its_slot(
    s: Seq<Slot>,
    origin: int,
    period: int,
)
    requires
        period > 0,
        origin >= 0,
        s.len() > 0,
    ensures
        ({
            let d = eye_queue::drift(s[0].0 as int, origin, period);
            let r = eye_queue::rebased(s, origin, period);
            &&& -(period / 2) <= d <= period / 2
            &&& r == s.filter(eye_queue::not_before(origin + d)).map_values(
                eye_queue::moved_back(d),
            )
            &&& forall|i: int|
                0 <= i < r.len() ==> exists|j: int|
                    0 <= j < s.len() && (#[trigger] r[i]).1 == (#[trigger] s[j]).1 && r[i].0 == (
                    s[j].0 - d) as u64
        }),
{
    eye_queue::drift_is_at_most_half_a_period(s[0].0 as int, origin, period);
    let r = eye_queue::rebased(s, origin, period);
    let d = eye_queue::drift(s[0].0 as int, origin, period);
    assert forall|i: int| 0 <= i < r.len() implies exists|j: int|
        0 <= j < s.len() && (#[trigger] r[i]).1 == (#[trigger] s[j]).1 && r[i].0 == (s[j].0
            - d) as u64 by {
        let j = lemma_rebased_eye_comes_from(s, origin, period, i);
        assert(r[i].1 == s[j].1);
    }
}

/// A schedule that was spaced in whole periods lies on the armed grid once it
/// has been moved.
pub proof fn a_moved_schedule_lies_on_the_grid(s: Seq<Slot>, origin: int, period: int, i: int)
    requires
        period > 0,
        0 <= origin,
        s.len() > 0,
        eye_queue::bounded(s, period),
        forall|j: int|
            0 <= j < s.len() ==> grid::on_grid(s[0].0 as int, period, (#[trigger] s[j]).0 as int),
        0 <= i < eye_queue::rebased(s, origin, period).len(),
    ensures
        grid::on_grid(origin, period, eye_queue::rebased(s, origin, period)[i].0 as int),
        eye_queue::rebased(s, origin, period)[i].0 >= origin,
{
    broadcast use vstd::seq_lib::group_filter_ensures;

    let d = eye_queue::drift(s[0].0 as int, origin, period);
    eye_queue::drift_is_at_most_half_a_period(s[0].0 as int, origin, period);
    let f = eye_queue::not_before(origin + d);
    let kept = s.filter(f);
    assert(f(kept[i]));
    assert(kept.contains(kept[i]));
    s.lemma_filter_contains_rev(f, kept[i]);
    let j = choose|j: int| 0 <= j < s.len() && s[j] == kept[i];
    assert(s[j].0 + period <= grid::MAX_TIME_US);
    let b = s[j].0 as int;
    let a = s[0].0 as int;
    // b - d - origin = (b - a) + (a - d - origin), both whole periods.
    vstd::arithmetic::div_mod::lemma_fundamental_div_mod(b - a, period);
    vstd::arithmetic::div_mod::lemma_fundamental_div_mod(a - d - origin, period);
    let k = (b - a) / period + (a - d - origin) / period;
    assert(b - d - origin == period * k + 0) by (nonlinear_arith)
        requires
            b - a == period * ((b - a) / period),
            a - d - origin == period * ((a - d - origin) / period),
            k == (b - a) / period + (a - d - origin) / period,
    ;
    vstd::arithmetic::div_mod::lemma_mod_multiples_vanish(k, 0, period);
    vstd::arithmetic::div_mod::lemma_small_mod(0, period as nat);
}

/// After a stall that skipped whole slots, only the eyes whose slot has passed
/// are dropped: the others keep their boundaries and the phase stays trusted.
pub proof fn a_stall_drops_only_what_has_passed(q: QueueState, boundary: int, period: int)
    requires
        period > 0,
        ({
            let n = eye_queue::prefix_len(
                q.scheduled,
                eye_queue::overdue_at(boundary, period / 2),
            ) as int;
            n == q.scheduled.len() || eye_queue::whole_slots_apart(
                q.scheduled[n].0 as int,
                boundary,
                period,
            )
        }),
    ensures
        ({
            let n = eye_queue::prefix_len(
                q.scheduled,
                eye_queue::overdue_at(boundary, period / 2),
            ) as int;
            q.without_overdue(boundary, period) == (QueueState {
                scheduled: q.scheduled.skip(n),
                overdue: q.overdue + n,
                ..q
            })
        }),
{
    let f = eye_queue::overdue_at(boundary, period / 2);
    eye_queue::lemma_prefix_bounds(q.scheduled, f);
    let n = eye_queue::prefix_len(q.scheduled, f) as int;
    if n < q.scheduled.len() {
        assert(q.scheduled.skip(n)[0] == q.scheduled[n]);
    }
}

/// A schedule that is kept by the purge can fire at the frontier, and one that
/// could fire there is kept.
pub proof fn the_purge_keeps_exactly_the_reachable_fronts(q: QueueState, guess: u64, period: u64)
    requires
        guess + period / 2 <= u64::MAX,
    ensures
        q.purged(guess, period).scheduled.len() > 0 ==> q.purged(guess, period).scheduled[0].0
            <= guess + period / 2,
        q.scheduled.len() > 0 && q.scheduled[0].0 <= guess + period / 2 ==> q.purged(guess, period)
            == q,
{
}

/// The entries that a drain in arrival order appends.
pub open spec fn consecutive(swaps: Seq<Swap>, n: nat, start: int, period: int) -> Seq<Slot> {
    Seq::new(n, |i: int| ((start + i * period) as u64, swaps[i].eye == EYE_RIGHT))
}

/// A drain in arrival order puts the swaps on consecutive boundaries from the
/// drain's start on, behind everything that was scheduled, as long as all of
/// it fits the queue.
pub proof fn a_drain_takes_consecutive_slots(
    q: QueueState,
    swaps: Seq<Swap>,
    n: nat,
    anchor: Option<&DrmVblank>,
    period: int,
    start: u64,
    ref_vb: Option<u64>,
)
    requires
        q.wf(),
        !q.reanchors(),
        n <= swaps.len(),
        0 < period <= u64::MAX,
        start + n * period <= u64::MAX,
        q.scheduled.len() + n <= eye_queue::MAX_QUEUE,
        q.scheduled.len() > 0 ==> q.scheduled.last().0 < start,
    ensures
        q.with_swaps(swaps, n, anchor, period, Some(start), ref_vb, None) == (QueueState {
            scheduled: q.scheduled + consecutive(swaps, n, start as int, period),
            ..q
        }),
    decreases n,
{
    let added = consecutive(swaps, n, start as int, period);
    if n == 0 {
        assert(q.scheduled + added =~= q.scheduled);
    } else {
        let m = (n - 1) as nat;
        assert(start + m * period < start + n * period) by (nonlinear_arith)
            requires
                m == n - 1,
                period > 0,
        ;
        a_drain_takes_consecutive_slots(q, swaps, m, anchor, period, start, ref_vb);
        let before = consecutive(swaps, m, start as int, period);
        let s = q.scheduled + before;
        let t = start + m * period;
        lemma_all_in_order(swaps, m, ref_vb);
        assert forall|i: int| 0 <= i < s.len() implies (#[trigger] s[i]).0 < t by {
            if i < q.scheduled.len() {
                let last = q.scheduled.len() - 1;
                if i < last {
                    assert(q.scheduled[i].0 < q.scheduled[last].0);
                }
                assert(start <= t) by (nonlinear_arith)
                    requires
                        t == start + m * period,
                        m >= 0,
                        period > 0,
                ;
            } else {
                let k = i - q.scheduled.len();
                assert(s[i] == before[k]);
                assert(0 <= k * period && start + k * period < start + m * period)
                    by (nonlinear_arith)
                    requires
                        0 <= k < m,
                        period > 0,
                ;
            }
        }
        assert(t + 0 * period == t);
        assert(eye_queue::first_free(s, t, period, 0));
        eye_queue::lemma_first_free_is_unique(s, t, period, 0);
        let e: Slot = (t as u64, swaps[m as int].eye == EYE_RIGHT);
        eye_queue::lemma_prefix_len(s, eye_queue::not_after(t), s.len() as int);
        assert(eye_queue::inserted(s, e) =~= s.push(e));
        assert(s.push(e) =~= q.scheduled + added);
    }
}

/// The state after the first `k` slots of the grid through `start` were served.
pub open spec fn after_slots(q: QueueState, start: int, period: int, k: nat) -> QueueState
    decreases k,
{
    if k == 0 {
        q
    } else {
        after_slots(q, start, period, (k - 1) as nat).next(start + (k - 1) * period, period).0
    }
}

/// However many slots pass before the first reported eye, every one of them is
/// silent and changes nothing, whatever eye the queue holds.
pub proof fn silence_lasts_until_an_eye_is_reported(
    q: QueueState,
    start: int,
    period: int,
    k: nat,
    boundary: int,
)
    requires
        !q.first_fired,
        q.scheduled.len() == 0,
        q.fallback.len() == 0,
    ensures
        after_slots(q, start, period, k) == q,
        after_slots(q, start, period, k).next(boundary, period) == (q, None::<bool>),
    decreases k,
{
    if k > 0 {
        silence_lasts_until_an_eye_is_reported(q, start, period, (k - 1) as nat, boundary);
    }
}

/// The fired stream is the reported stream: the swaps of a drain into an empty
/// schedule fire one per slot, in the order in which they were reported, each
/// on its own boundary, and not one is dropped, repeated or invented.
pub proof fn a_drain_fires_in_order(
    q: QueueState,
    swaps: Seq<Swap>,
    anchor: Option<&DrmVblank>,
    period: int,
    start: u64,
    ref_vb: Option<u64>,
    k: nat,
)
    requires
        q.wf(),
        !q.reanchors(),
        q.scheduled.len() == 0,
        0 < period <= u64::MAX,
        start + swaps.len() * period <= u64::MAX,
        swaps.len() <= eye_queue::MAX_QUEUE,
        k <= swaps.len(),
    ensures
        ({
            let full = q.with_drain(swaps, anchor, period, Some(start), ref_vb, None);
            let here = after_slots(full, start as int, period, k);
            &&& here.scheduled == consecutive(swaps, swaps.len(), start as int, period).skip(
                k as int,
            )
            &&& here.overdue == q.overdue
            &&& here.coalesced == q.coalesced
            &&& here.freerun == q.freerun
            &&& k < swaps.len() ==> here.next(start + k * period, period).1 == Some(
                swaps[k as int].eye == EYE_RIGHT,
            )
        }),
    decreases k,
{
    let n = swaps.len();
    let all = consecutive(swaps, n, start as int, period);
    let full = q.with_drain(swaps, anchor, period, Some(start), ref_vb, None);
    a_drain_takes_consecutive_slots(q, swaps, n, anchor, period, start, ref_vb);
    assert(full == q.with_swaps(swaps, n, anchor, period, Some(start), ref_vb, None));
    assert(q.scheduled + all =~= all);
    assert forall|i: int| 0 <= i < n implies (#[trigger] all[i]).0 == start + i * period by {
        assert(0 <= i * period <= n * period) by (nonlinear_arith)
            requires
                0 <= i < n,
                period > 0,
        ;
    }
    let here = after_slots(full, start as int, period, k);
    if k == 0 {
        assert(all.skip(0) =~= all);
    } else {
        let j = (k - 1) as nat;
        a_drain_fires_in_order(q, swaps, anchor, period, start, ref_vb, j);
        let before = after_slots(full, start as int, period, j);
        lemma_front_of_a_drain_fires(before, all, start as int, period, j as int);
        assert(all.skip(j as int).skip(1) =~= all.skip(k as int));
    }
    if k < n {
        lemma_front_of_a_drain_fires(here, all, start as int, period, k as int);
    }
}

proof fn lemma_front_of_a_drain_fires(
    q: QueueState,
    all: Seq<Slot>,
    start: int,
    period: int,
    k: int,
)
    requires
        period > 0,
        0 <= k < all.len() <= eye_queue::MAX_QUEUE,
        forall|i: int| 0 <= i < all.len() ==> (#[trigger] all[i]).0 == start + i * period,
        q.scheduled == all.skip(k),
    ensures
        q.next(start + k * period, period) == (
            QueueState { scheduled: all.skip(k).skip(1), ..q }.fired(all[k].1),
            Some(all[k].1),
        ),
{
    let s = all.skip(k);
    let b = start + k * period;
    let half = period / 2;
    assert(s[0] == all[k]);
    eye_queue::lemma_prefix_len(s, eye_queue::overdue_at(b, half), 0);
    assert(s.skip(0) =~= s);
    assert(q.without_overdue(b, period) == q);
    assert(q.realigned(b, period) == q);
    if s.len() > 1 {
        assert(s[1] == all[k + 1]);
        assert((k + 1) * period == k * period + period) by (nonlinear_arith);
    }
    eye_queue::lemma_prefix_len(s, eye_queue::due_at(b, half), 1);
}

proof fn lemma_all_in_order(swaps: Seq<Swap>, n: nat, ref_vb: Option<u64>)
    ensures
        eye_queue::in_order(swaps, n, ref_vb, None) == n,
    decreases n,
{
    if n > 0 {
        lemma_all_in_order(swaps, (n - 1) as nat, ref_vb);
    }
}

} // verus!
