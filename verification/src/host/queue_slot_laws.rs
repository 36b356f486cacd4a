//! What one slot does to the eye queue, and what queueing keeps.

use crate::host::eye_queue;
use crate::host::eye_queue::{QueueState, Slot};
use crate::host::grid;
use crate::host::queue_laws;
use crate::nvstusb::drm::DrmVblank;
use crate::shm::Swap;
use vstd::prelude::*;

verus! {

/// A reported eye that goes out is the held phase from then on, ends a run of
/// invented fires and the silence of the launch.
pub proof fn a_reported_fire_is_remembered(q: QueueState, boundary: int, period: int)
    ensures
        ({
            let (after, eye) = q.next(boundary, period);
            eye is Some && !after.last_was_freerun ==> {
                &&& after.last_fired == eye
                &&& after.first_fired
                &&& after.freerun_since == 0
                &&& after.freerun == q.freerun
            }
        }),
        ({
            let (after, eye) = q.next_unpaced();
            eye is Some && !after.last_was_freerun ==> {
                &&& after.last_fired == eye
                &&& after.first_fired
                &&& after.freerun_since == 0
            }
        }),
        q.next_unpaced().0.freerun == q.freerun,
        q.next_unpaced().0.overdue == q.overdue,
        q.next_unpaced().0.coalesced == q.coalesced,
{
}

/// A slot without any queued eye shows the eye that was not shown last, and
/// counts as invented; after too many of them the eye is held.
pub proof fn an_empty_slot_shows_the_other_eye(
    q: QueueState,
    r: bool,
    boundary: int,
    period: int,
)
    requires
        q.scheduled.len() == 0,
        q.fallback.len() == 0,
        q.first_fired,
        q.last_fired == Some(r),
        q.freerun_since < u32::MAX,
    ensures
        ({
            let (after, eye) = q.next(boundary, period);
            &&& eye == after.last_fired
            &&& q.freerun_since < q.stall_hold ==> eye == Some(!r)
            &&& q.freerun_since >= q.stall_hold ==> eye == Some(r)
            &&& after.last_was_freerun
            &&& after.freerun == q.freerun + 1
            &&& after.freerun_since == q.freerun_since + 1
            &&& after.freerun_since >= 2 ==> after.reanchors()
            &&& after.overdue == q.overdue && after.coalesced == q.coalesced
            &&& after.scheduled.len() == 0 && after.fallback.len() == 0
        }),
        q.next_unpaced().1 == Some(r),
        q.next_unpaced().0.last_was_freerun,
        q.next_unpaced().0.last_fired == Some(r),
        q.next_unpaced().0.freerun_since == q.freerun_since,
{
}

/// Two slots, the first with a reported eye and the second with none, show both
/// eyes.
pub proof fn a_gap_after_a_reported_eye_alternates(
    q: QueueState,
    boundary: int,
    later: int,
    period: int,
)
    requires
        q.stall_hold > 0,
        q.next(boundary, period).1 is Some,
        !q.next(boundary, period).0.last_was_freerun,
        q.next(boundary, period).0.scheduled.len() == 0,
        q.next(boundary, period).0.fallback.len() == 0,
    ensures
        q.next(boundary, period).0.next(later, period).1 == Some(!q.next(boundary, period).1->0),
{
    a_reported_fire_is_remembered(q, boundary, period);
    lemma_hold_is_kept(q, boundary, period);
    an_empty_slot_shows_the_other_eye(
        q.next(boundary, period).0,
        q.next(boundary, period).1->0,
        later,
        period,
    );
}

proof fn lemma_hold_is_kept(q: QueueState, boundary: int, period: int)
    ensures
        q.next(boundary, period).0.stall_hold == q.stall_hold,
{
}

/// When the front lies near the armed boundary, the slot takes every eye within
/// half a period of it: the newest of them goes out, the others are counted as
/// coalesced, and all that lies further on is left as it is.
pub proof fn the_newest_eye_of_a_slot_goes_out(
    q: QueueState,
    boundary: int,
    period: int,
    n: int,
)
    requires
        q.wf(),
        period > 0,
        1 <= n <= q.scheduled.len(),
        -(period / 8) <= q.scheduled[0].0 - boundary <= period / 8,
        q.scheduled[n - 1].0 <= boundary + period / 2,
        n < q.scheduled.len() ==> q.scheduled[n].0 > boundary + period / 2,
    ensures
        ({
            let (after, eye) = q.next(boundary, period);
            &&& eye == Some(q.scheduled[n - 1].1)
            &&& !after.last_was_freerun
            &&& after.scheduled == q.scheduled.skip(n)
            &&& after.coalesced == q.coalesced + n - 1
            &&& after.overdue == q.overdue
            &&& after.freerun == q.freerun
            &&& after.fallback == q.fallback
            &&& after.pending_reanchor == q.pending_reanchor
        }),
{
    let s = q.scheduled;
    let half = period / 2;
    eye_queue::lemma_prefix_len(s, eye_queue::overdue_at(boundary, half), 0);
    assert(s.skip(0) =~= s);
    assert(q.without_overdue(boundary, period) == q);
    assert(q.realigned(boundary, period) == q);
    let f = eye_queue::due_at(boundary, half);
    assert forall|i: int| 0 <= i < n implies f(#[trigger] s[i]) by {
        if i > 0 {
            assert(s[0].0 < s[i].0);
        }
        if i < n - 1 {
            assert(s[i].0 < s[n - 1].0);
        }
    }
    eye_queue::lemma_prefix_len(s, f, n);
}

/// A lone eye goes out on any boundary less than half a period away from its
/// own: the drift within a slot costs nothing.
pub proof fn a_lone_eye_fires_within_half_a_period(
    q: QueueState,
    e: Slot,
    boundary: int,
    period: int,
)
    requires
        q.scheduled == seq![e],
        period > 0,
        0 <= boundary <= u64::MAX,
        -period < 2 * (e.0 - boundary) < period,
    ensures
        ({
            let (after, eye) = q.next(boundary, period);
            &&& eye == Some(e.1)
            &&& !after.last_was_freerun
            &&& after.scheduled.len() == 0
            &&& after.overdue == q.overdue
            &&& after.coalesced == q.coalesced
            &&& after.freerun == q.freerun
        }),
{
    let s = q.scheduled;
    let half = period / 2;
    assert(s[0] == e);
    eye_queue::lemma_prefix_len(s, eye_queue::overdue_at(boundary, half), 0);
    assert(s.skip(0) =~= s);
    assert(q.without_overdue(boundary, period) == q);
    let r = q.realigned(boundary, period);
    if r != q {
        lemma_drift_of_a_near_boundary(e.0 as int, boundary, period);
        lemma_lone_rebased(e, boundary, period);
        assert(r.scheduled[0] == (boundary as u64, e.1));
    }
    eye_queue::lemma_prefix_len(r.scheduled, eye_queue::due_at(boundary, half), 1);
}

proof fn lemma_drift_of_a_near_boundary(b: int, origin: int, period: int)
    requires
        period > 0,
        -period < 2 * (b - origin) < period,
    ensures
        eye_queue::drift(b, origin, period) == b - origin,
{
    let x = b - origin;
    if x >= 0 {
        vstd::arithmetic::div_mod::lemma_small_mod(x as nat, period as nat);
    } else {
        vstd::arithmetic::div_mod::lemma_fundamental_div_mod_converse(x, period, -1, x + period);
    }
}

proof fn lemma_lone_rebased(e: Slot, origin: int, period: int)
    requires
        e.0 >= origin + eye_queue::drift(e.0 as int, origin, period),
    ensures
        ({
            let d = eye_queue::drift(e.0 as int, origin, period);
            eye_queue::rebased(seq![e], origin, period) == seq![((e.0 - d) as u64, e.1)]
        }),
{
    let s = seq![e];
    let d = eye_queue::drift(e.0 as int, origin, period);
    reveal(Seq::filter);
    assert(s.drop_last() =~= Seq::empty());
    assert(s.filter(eye_queue::not_before(origin + d)) =~= s);
    assert(eye_queue::rebased(s, origin, period) =~= seq![((e.0 - d) as u64, e.1)]);
}

/// A lone eye whose slot has passed is dropped, counted, and not fired: the
/// slot is one without a reported eye.
pub proof fn a_lone_eye_that_is_late_is_dropped(
    q: QueueState,
    e: Slot,
    boundary: int,
    period: int,
)
    requires
        q.scheduled == seq![e],
        period > 0,
        e.0 + period / 2 < boundary,
    ensures
        ({
            let (after, eye) = q.next(boundary, period);
            let idle = QueueState { scheduled: Seq::empty(), overdue: q.overdue + 1, ..q };
            &&& after.scheduled.len() == 0
            &&& after.overdue == q.overdue + 1
            &&& after.coalesced == q.coalesced
            &&& q.first_fired ==> after.last_was_freerun && after.freerun == q.freerun + 1
            &&& !q.first_fired ==> eye is None && after == idle
        }),
{
    let s = q.scheduled;
    eye_queue::lemma_prefix_len(s, eye_queue::overdue_at(boundary, period / 2), 1);
    assert(s.skip(1) =~= Seq::empty());
    let r = q.without_overdue(boundary, period);
    assert(r.scheduled =~= Seq::empty());
    assert(eye_queue::prefix_len(
        r.realigned(boundary, period).scheduled,
        eye_queue::due_at(boundary, period / 2),
    ) == 0);
}

/// A lone eye whose slot is still to come waits: it stays queued, within half a
/// period of its boundary, and the slot before it is served without it.
pub proof fn a_lone_eye_waits_for_its_slot(q: QueueState, e: Slot, boundary: int, period: int)
    requires
        q.scheduled == seq![e],
        period > 1,
        boundary >= 0,
        2 * (e.0 - boundary) > period,
        e.0 + period <= u64::MAX,
    ensures
        ({
            let (after, eye) = q.next(boundary, period);
            &&& after.scheduled.len() == 1
            &&& after.scheduled[0].1 == e.1
            &&& -(period / 2) <= after.scheduled[0].0 - e.0 <= period / 2
            &&& !q.pending_reanchor ==> grid::on_grid(
                boundary,
                period,
                after.scheduled[0].0 as int,
            )
            &&& after.overdue == q.overdue
            &&& after.coalesced == q.coalesced
            &&& q.first_fired ==> after.last_was_freerun
            &&& !q.first_fired ==> eye is None
        }),
{
    let s = q.scheduled;
    let half = period / 2;
    assert(s[0] == e);
    eye_queue::lemma_prefix_len(s, eye_queue::overdue_at(boundary, half), 0);
    assert(s.skip(0) =~= s);
    assert(q.without_overdue(boundary, period) == q);
    let r = q.realigned(boundary, period);
    let d = eye_queue::drift(e.0 as int, boundary, period);
    eye_queue::drift_is_at_most_half_a_period(e.0 as int, boundary, period);
    if !q.pending_reanchor {
        lemma_lone_rebased(e, boundary, period);
        let b = e.0 - d;
        assert(r.scheduled[0] == (b as u64, e.1));
        assert(grid::on_grid(boundary, period, b));
        assert(b - boundary > 0);
        assert(b - boundary >= period) by {
            if b - boundary < period {
                vstd::arithmetic::div_mod::lemma_small_mod(
                    (b - boundary) as nat,
                    period as nat,
                );
            }
        }
    }
    eye_queue::lemma_prefix_len(r.scheduled, eye_queue::due_at(boundary, half), 0);
}

/// A slot never makes eyes: what stays queued, what is dropped and what goes
/// out were queued before, each once.
pub proof fn a_slot_makes_no_eyes(q: QueueState, boundary: int, period: int)
    requires
        q.wf(),
        period > 0,
        boundary >= 0,
        eye_queue::bounded(q.scheduled, period),
    ensures
        ({
            let (after, eye) = q.next(boundary, period);
            let out: int = if eye is Some && !after.last_was_freerun {
                1
            } else {
                0
            };
            &&& q.scheduled.len() > 0 ==> after.scheduled.len() + (after.overdue - q.overdue) + (
            after.coalesced - q.coalesced) + out <= q.scheduled.len()
            &&& after.overdue >= q.overdue
            &&& after.coalesced >= q.coalesced
            &&& q.scheduled.len() > 0 ==> after.fallback == q.fallback
        }),
{
    if q.scheduled.len() > 0 {
        let half = period / 2;
        let f = eye_queue::overdue_at(boundary, half);
        eye_queue::lemma_prefix_bounds(q.scheduled, f);
        let n = eye_queue::prefix_len(q.scheduled, f) as int;
        let q1 = q.without_overdue(boundary, period);
        let rest = q.scheduled.skip(n);
        eye_queue::lemma_skip_keeps_order(q.scheduled, n, period);
        lemma_rebased_is_not_longer(rest, boundary, period);
        let q2 = q1.realigned(boundary, period);
        lemma_rebased_is_not_longer(q1.scheduled, boundary, period);
        assert(q2.scheduled.len() <= rest.len());
        eye_queue::lemma_prefix_bounds(q2.scheduled, eye_queue::due_at(boundary, half));
    }
}

proof fn lemma_rebased_is_not_longer(s: Seq<Slot>, origin: int, period: int)
    ensures
        eye_queue::rebased(s, origin, period).len() <= s.len(),
{
    if s.len() > 0 {
        let d = eye_queue::drift(s[0].0 as int, origin, period);
        lemma_filter_is_not_longer(s, eye_queue::not_before(origin + d));
    }
}

proof fn lemma_filter_is_not_longer(s: Seq<Slot>, f: spec_fn(Slot) -> bool)
    ensures
        s.filter(f).len() <= s.len(),
    decreases s.len(),
{
    reveal(Seq::filter);
    if s.len() > 0 {
        lemma_filter_is_not_longer(s.drop_last(), f);
    }
}

/// A stall keeps the pins of the eyes to come as long as the first of them lies
/// within a quarter of a period of some slot; when it lies further off, the
/// phase is to be taken anew.
pub proof fn a_stall_of_whole_slots_keeps_the_pins(
    q: QueueState,
    boundary: int,
    period: int,
    n: int,
    k: int,
)
    requires
        period >= 4,
        0 < n < q.scheduled.len(),
        forall|i: int|
            0 <= i < n ==> (#[trigger] q.scheduled[i]).0 + period / 2 < boundary,
        q.scheduled[n].0 + period / 2 >= boundary,
    ensures
        ({
            let after = q.without_overdue(boundary, period);
            let off = q.scheduled[n].0 - boundary - k * period;
            &&& after.overdue == q.overdue + n
            &&& -(period / 4) <= off <= period / 4 ==> after.scheduled == q.scheduled.skip(n)
                && after.pending_reanchor == q.pending_reanchor
            &&& period / 4 < off < period - period / 4 ==> after.pending_reanchor
            &&& after.coalesced == q.coalesced
            &&& after.last_fired == q.last_fired
        }),
{
    let f = eye_queue::overdue_at(boundary, period / 2);
    eye_queue::lemma_prefix_len(q.scheduled, f, n);
    assert(q.scheduled.skip(n)[0] == q.scheduled[n]);
    let b = q.scheduled[n].0 as int;
    let off = b - boundary - k * period;
    let x = boundary - b;
    assert(x == (-k) * period - off) by (nonlinear_arith)
        requires
            off == -x - k * period,
    ;
    if -(period / 4) <= off <= 0 {
        vstd::arithmetic::div_mod::lemma_fundamental_div_mod_converse(x, period, -k, -off);
    } else if 0 < off < period {
        assert((-k - 1) * period == (-k) * period - period) by (nonlinear_arith);
        vstd::arithmetic::div_mod::lemma_fundamental_div_mod_converse(
            x,
            period,
            -k - 1,
            period - off,
        );
    }
}

/// A front within an eighth of a period of the armed boundary is left alone; one
/// further off is moved onto the grid of that boundary, unless the next pinned
/// eye is to define the phase.
pub proof fn a_lagging_front_is_moved_onto_the_grid(q: QueueState, boundary: int, period: int)
    requires
        period > 0,
        boundary >= 0,
        q.scheduled.len() > 0,
    ensures
        ({
            let after = q.realigned(boundary, period);
            let off = q.scheduled[0].0 - boundary;
            &&& -(period / 8) <= off <= period / 8 ==> after == q
            &&& q.pending_reanchor ==> after == q
            &&& !q.pending_reanchor && (off < -(period / 8) || off > period / 8)
                ==> after.scheduled == eye_queue::rebased(q.scheduled, boundary, period)
            &&& after.pending_reanchor == q.pending_reanchor
            &&& after.last_fired == q.last_fired
            &&& after.overdue == q.overdue
        }),
{
}

/// Eyes without a boundary go out in the order in which they came, one per
/// slot, whether or not a grid is followed.
pub proof fn unpinned_eyes_go_out_in_order(
    q: QueueState,
    start: int,
    period: int,
    k: nat,
)
    requires
        q.scheduled.len() == 0,
        k < q.fallback.len(),
    ensures
        ({
            let here = queue_laws::after_slots(q, start, period, k);
            &&& here.fallback == q.fallback.skip(k as int)
            &&& here.scheduled.len() == 0
            &&& here.next(start + k * period, period).1 == Some(q.fallback[k as int])
            &&& here.next_unpaced().1 == Some(q.fallback[k as int])
            &&& here.next_unpaced().0.fallback == q.fallback.skip(k as int + 1)
        }),
    decreases k,
{
    if k > 0 {
        unpinned_eyes_go_out_in_order(q, start, period, (k - 1) as nat);
        assert(q.fallback.skip(k - 1).skip(1) =~= q.fallback.skip(k as int));
    } else {
        assert(q.fallback.skip(0) =~= q.fallback);
    }
    assert(q.fallback.skip(k as int).skip(1) =~= q.fallback.skip(k as int + 1));
}

/// Without a grid the scheduled eyes go out first to last, none of them twice,
/// and before any eye that has no boundary.
pub proof fn unpaced_fires_follow_the_schedule(q: QueueState)
    requires
        q.scheduled.len() > 0,
    ensures
        q.next_unpaced().1 == Some(q.scheduled.first().1),
        q.next_unpaced().0.scheduled == q.scheduled.drop_first(),
        q.next_unpaced().0.fallback == q.fallback,
        !q.next_unpaced().0.last_was_freerun,
{
    assert(q.scheduled.skip(1) =~= q.scheduled.drop_first());
}

/// A queued eye without a boundary goes to the end; when the queue is full only
/// the new one is left, and it is the phase from then on.
pub proof fn an_unpinned_eye_goes_to_the_end(q: QueueState, right: bool)
    requires
        q.wf(),
    ensures
        ({
            let after = q.with_unpinned(right);
            &&& after.fallback.len() > 0
            &&& after.fallback.last() == right
            &&& after.fallback.len() <= 8
            &&& q.fallback.len() < 8 ==> after.fallback.drop_last() == q.fallback
                && after.last_fired == q.last_fired && after.freerun_since == q.freerun_since
            &&& q.fallback.len() == 8 ==> after.fallback.len() == 1 && after.last_fired == Some(
                right,
            ) && after.freerun_since == 0
            &&& after.scheduled == q.scheduled
            &&& after.wf()
        }),
{
    if q.fallback.len() < 8 {
        assert(q.fallback.push(right).drop_last() =~= q.fallback);
    }
}

/// A pinned eye takes its own boundary or, where that is taken, one whole
/// periods later, and displaces nobody: as long as the queue has room, every
/// other eye keeps its boundary.
pub proof fn a_pinned_eye_displaces_nobody(q: QueueState, right: bool, target: int, period: int)
    requires
        q.wf(),
        !q.reanchors(),
        q.scheduled.len() < 8,
        period > 0,
        0 <= target,
        target + 8 * period <= u64::MAX,
    ensures
        ({
            let after = q.with_pinned(right, target, period);
            &&& after.scheduled.len() == q.scheduled.len() + 1
            &&& forall|i: int|
                0 <= i < q.scheduled.len() ==> after.scheduled.contains(#[trigger] q.scheduled[i])
            &&& exists|b: u64|
                {
                    &&& #[trigger] after.scheduled.contains((b, right))
                    &&& !eye_queue::claimed(q.scheduled, b as int)
                    &&& b >= target
                    &&& grid::on_grid(target, period, b as int)
                }
            &&& !eye_queue::claimed(q.scheduled, target) ==> after.scheduled.contains(
                (target as u64, right),
            )
            &&& after.wf()
            &&& after.last_fired == q.last_fired
        }),
{
    let s = q.scheduled;
    let u = eye_queue::free_slot(s, target, period);
    eye_queue::lemma_free_slot_is_near(s, target, period);
    assert(s.len() * period <= 8 * period) by (nonlinear_arith)
        requires
            s.len() <= 8,
            period > 0,
    ;
    let e: Slot = (u as u64, right);
    eye_queue::lemma_inserted(s, e);
    let f = eye_queue::not_after(u);
    eye_queue::lemma_prefix_bounds(s, f);
    let n = eye_queue::prefix_len(s, f) as int;
    let r = q.with_pinned(right, target, period).scheduled;
    assert(r == s.insert(n, e));
    assert(r[n] == e);
    assert(r.contains(e));
    assert forall|i: int| 0 <= i < s.len() implies r.contains(#[trigger] s[i]) by {
        if i < n {
            assert(r[i] == s[i]);
        } else {
            assert(r[i + 1] == s[i]);
        }
    }
    let k = choose|k: int| eye_queue::first_free(s, target, period, k);
    assert(u - target == period * k + 0) by (nonlinear_arith)
        requires
            u == target + k * period,
    ;
    vstd::arithmetic::div_mod::lemma_mod_multiples_vanish(k, 0, period);
    vstd::arithmetic::div_mod::lemma_small_mod(0, period as nat);
    assert(grid::on_grid(target, period, e.0 as int));
    if !eye_queue::claimed(s, target) {
        assert(target + 0 * period == target);
        assert(eye_queue::first_free(s, target, period, 0));
        eye_queue::lemma_first_free_is_unique(s, target, period, 0);
    }
}

/// A schedule that overflows keeps its newest eye alone: the one furthest on.
pub proof fn an_overflowing_schedule_keeps_the_newest(
    q: QueueState,
    right: bool,
    target: int,
    period: int,
)
    requires
        q.wf(),
        !q.reanchors(),
        q.scheduled.len() == 8,
        period > 0,
        0 <= target,
        target + 8 * period <= u64::MAX,
    ensures
        ({
            let after = q.with_pinned(right, target, period);
            &&& after.scheduled.len() == 1
            &&& forall|i: int|
                0 <= i < q.scheduled.len() ==> (#[trigger] q.scheduled[i]).0
                    <= after.scheduled[0].0
            &&& after.scheduled[0].0 >= target
            &&& target > q.scheduled.last().0 ==> after.scheduled[0] == (target as u64, right)
        }),
{
    let s = q.scheduled;
    let u = eye_queue::free_slot(s, target, period);
    eye_queue::lemma_free_slot_is_near(s, target, period);
    let e: Slot = (u as u64, right);
    eye_queue::lemma_inserted(s, e);
    let f = eye_queue::not_after(u);
    eye_queue::lemma_prefix_bounds(s, f);
    let n = eye_queue::prefix_len(s, f) as int;
    let r = s.insert(n, e);
    assert(eye_queue::inserted(s, e) == r);
    assert(r[n] == e);
    assert(r.last() == r[8]);
    assert forall|i: int| 0 <= i < s.len() implies (#[trigger] s[i]).0 <= r.last().0 by {
        if i < n {
            assert(r[i] == s[i]);
            assert(r[i].0 < r[8].0);
        } else {
            assert(r[i + 1] == s[i]);
            if i + 1 < 8 {
                assert(r[i + 1].0 < r[8].0);
            }
        }
    }
    if n < 8 {
        assert(r[n].0 < r[8].0);
    }
    if target > s.last().0 {
        assert forall|i: int| 0 <= i < s.len() implies (#[trigger] s[i]).0 != target by {
            if i < 7 {
                assert(s[i].0 < s[7].0);
            }
        }
        assert(target + 0 * period == target);
        assert(eye_queue::first_free(s, target, period, 0));
        eye_queue::lemma_first_free_is_unique(s, target, period, 0);
        if n < 8 {
            assert(!f(s[n]));
            if n < 7 {
                assert(s[n].0 < s[7].0);
            }
        }
    }
}

/// Two drains in a row are one drain: the second one starts where the first
/// one ended, whatever boundary the caller guesses for both.
pub proof fn two_drains_are_one(
    q: QueueState,
    a: Seq<Swap>,
    b: Seq<Swap>,
    anchor: Option<&DrmVblank>,
    period: int,
    start: u64,
    ref_vb: Option<u64>,
)
    requires
        q.wf(),
        !q.reanchors(),
        q.scheduled.len() == 0,
        0 < period <= u64::MAX,
        start + (a.len() + b.len() + 1) * period <= u64::MAX,
        a.len() + b.len() <= 8,
        a.len() > 0,
    ensures
        q.with_drain(a, anchor, period, Some(start), ref_vb, None).with_drain(
            b,
            anchor,
            period,
            Some(start),
            ref_vb,
            None,
        ).scheduled == q.with_drain(a + b, anchor, period, Some(start), ref_vb, None).scheduled,
{
    let n = a.len();
    let m = b.len();
    assert((n + m + 1) * period == n * period + m * period + period) by (nonlinear_arith);
    assert((n + m) * period == n * period + m * period) by (nonlinear_arith);
    assert(n * period >= 0 && m * period >= 0) by (nonlinear_arith)
        requires
            period > 0,
            n >= 0,
            m >= 0,
    ;
    queue_laws::a_drain_takes_consecutive_slots(q, a, n, anchor, period, start, ref_vb);
    queue_laws::a_drain_takes_consecutive_slots(q, a + b, n + m, anchor, period, start, ref_vb);
    let first = q.with_drain(a, anchor, period, Some(start), ref_vb, None);
    let s = queue_laws::consecutive(a, n, start as int, period);
    assert(q.scheduled + s =~= s);
    assert(first.scheduled == s);
    assert forall|i: int| 0 <= i < n implies (#[trigger] s[i]).0 == start + i * period by {
        assert(0 <= i * period <= n * period) by (nonlinear_arith)
            requires
                0 <= i < n,
                period > 0,
        ;
    }
    let last = s.last().0 as int;
    assert((n - 1) * period == n * period - period) by (nonlinear_arith);
    assert((n - 1) * period >= 0) by (nonlinear_arith)
        requires
            n >= 1,
            period > 0,
    ;
    assert(last == start + (n - 1) * period);
    assert(0 * period == 0);
    assert(s[0].0 == start);
    assert(first.purged(start, period as u64) == first);
    let next = (last + period) as u64;
    assert(first.drain_start(Some(start), period) == Some(next));
    assert forall|i: int, j: int| 0 <= i < j < s.len() implies (#[trigger] s[i]).0 < (
    #[trigger] s[j]).0 by {
        assert(i * period < j * period) by (nonlinear_arith)
            requires
                i < j,
                period > 0,
        ;
    }
    queue_laws::a_drain_takes_consecutive_slots(first, b, m, anchor, period, next, ref_vb);
    let t = queue_laws::consecutive(b, m, next as int, period);
    let all = queue_laws::consecutive(a + b, n + m, start as int, period);
    assert forall|i: int| 0 <= i < n + m implies (s + t)[i] == #[trigger] all[i] by {
        if i < n {
            assert((a + b)[i] == a[i]);
        } else {
            assert((a + b)[i] == b[i - n]);
            assert(next + (i - n) * period == start + i * period) by (nonlinear_arith)
                requires
                    next == start + n * period,
            ;
        }
    }
    assert(s + t =~= all);
    assert(q.scheduled + all =~= all);
}

/// A schedule moved forward and back again is the same schedule.
pub proof fn a_shift_and_its_opposite_cancel(s: Seq<Slot>, delta: int)
    requires
        delta >= 0,
        forall|i: int| 0 <= i < s.len() ==> (#[trigger] s[i]).0 + delta <= u64::MAX,
    ensures
        s.map_values(eye_queue::shifted(delta)).map_values(eye_queue::shifted(-delta)) == s,
        forall|i: int|
            0 <= i < s.len() ==> (#[trigger] s.map_values(eye_queue::shifted(delta))[i]).0 == s[i].0
                + delta,
{
    let f = s.map_values(eye_queue::shifted(delta));
    assert forall|i: int| 0 <= i < s.len() implies f.map_values(eye_queue::shifted(-delta))[i]
        == #[trigger] s[i] by {
        assert(f[i].0 == s[i].0 + delta);
    }
    assert(f.map_values(eye_queue::shifted(-delta)) =~= s);
}

/// A stamped swap is pinned to the second boundary after its own time: the one
/// behind the slot that its present blocks to.
pub proof fn a_stamp_pins_to_the_second_boundary_after_it(
    swaps: Seq<Swap>,
    i: nat,
    anchor: &DrmVblank,
    period: int,
    start: Option<u64>,
    vblank: u64,
    offset: i64,
    t_us: u64,
)
    requires
        0 < period,
        swaps[i as int].t_us == Some(t_us),
        t_us >= anchor.real_epoch_offset_us,
        t_us - anchor.real_epoch_offset_us + offset >= 0,
        t_us - anchor.real_epoch_offset_us + offset + 2 * period <= u64::MAX,
    ensures
        ({
            let t = t_us - anchor.real_epoch_offset_us + offset;
            let b = eye_queue::pin(
                swaps,
                i,
                Some(anchor),
                period,
                start,
                Some(vblank),
                Some(offset),
            );
            &&& b is Some
            &&& grid::on_grid(vblank as int, period, b->0 as int)
            &&& t + period < b->0 <= t + 2 * period
        }),
{
    let t = t_us - anchor.real_epoch_offset_us + offset;
    grid::first_after_is_the_next_boundary(vblank as int, period, t);
    let b = grid::first_after(vblank as int, period, t);
    vstd::arithmetic::div_mod::lemma_fundamental_div_mod(b - vblank, period);
    let k = (b - vblank) / period;
    assert(b + period - vblank == period * (k + 1) + 0) by (nonlinear_arith)
        requires
            b - vblank == period * k,
    ;
    vstd::arithmetic::div_mod::lemma_mod_multiples_vanish(k + 1, 0, period);
    vstd::arithmetic::div_mod::lemma_small_mod(0, period as nat);
}

/// Swaps that no stamp pins take one boundary after the other in the order of
/// their arrival, and stamped ones in between do not disturb them.
pub proof fn unstamped_swaps_take_the_boundaries_in_order(
    swaps: Seq<Swap>,
    i: nat,
    j: nat,
    anchor: Option<&DrmVblank>,
    period: int,
    start: u64,
    ref_vb: Option<u64>,
    offset: Option<i64>,
)
    requires
        i < j < swaps.len(),
        period > 0,
        !eye_queue::by_stamp(swaps[i as int], ref_vb, offset),
        !eye_queue::by_stamp(swaps[j as int], ref_vb, offset),
        forall|k: int|
            i < k < j ==> eye_queue::by_stamp(#[trigger] swaps[k], ref_vb, offset),
        start + swaps.len() * period <= u64::MAX,
    ensures
        ({
            let a = eye_queue::pin(swaps, i, anchor, period, Some(start), ref_vb, offset);
            let b = eye_queue::pin(swaps, j, anchor, period, Some(start), ref_vb, offset);
            a is Some && b is Some && b->0 == a->0 + period
        }),
        eye_queue::in_order(swaps, 0, ref_vb, offset) == 0,
{
    lemma_between(swaps, i + 1, j, ref_vb, offset);
    lemma_in_order_is_small(swaps, i, ref_vb, offset);
    let n = eye_queue::in_order(swaps, i, ref_vb, offset);
    assert(eye_queue::in_order(swaps, j, ref_vb, offset) == n + 1);
    assert((n + 1) * period == n * period + period) by (nonlinear_arith);
    assert(0 <= n * period && (n + 1) * period <= swaps.len() * period) by (nonlinear_arith)
        requires
            0 <= n,
            n + 1 <= swaps.len(),
            period > 0,
    ;
}

proof fn lemma_between(
    swaps: Seq<Swap>,
    i: nat,
    j: nat,
    ref_vb: Option<u64>,
    offset: Option<i64>,
)
    requires
        i <= j,
        forall|k: int| i <= k < j ==> eye_queue::by_stamp(#[trigger] swaps[k], ref_vb, offset),
    ensures
        eye_queue::in_order(swaps, j, ref_vb, offset) == eye_queue::in_order(
            swaps,
            i,
            ref_vb,
            offset,
        ),
    decreases j,
{
    if j > i {
        assert(eye_queue::by_stamp(swaps[j - 1], ref_vb, offset));
        lemma_between(swaps, i, (j - 1) as nat, ref_vb, offset);
    }
}

proof fn lemma_in_order_is_small(
    swaps: Seq<Swap>,
    n: nat,
    ref_vb: Option<u64>,
    offset: Option<i64>,
)
    ensures
        eye_queue::in_order(swaps, n, ref_vb, offset) <= n,
    decreases n,
{
    if n > 0 {
        lemma_in_order_is_small(swaps, (n - 1) as nat, ref_vb, offset);
    }
}

/// Stamps only count together with a confirmed vblank and a measured offset.
pub proof fn stamps_need_a_grid_and_an_offset(s: Swap, ref_vb: Option<u64>, offset: Option<i64>)
    ensures
        eye_queue::by_stamp(s, ref_vb, offset) ==> ref_vb is Some && offset is Some && s.t_us
            is Some,
        !eye_queue::by_stamp(s, None, offset),
        !eye_queue::by_stamp(s, ref_vb, None),
        ref_vb is Some && offset is Some && s.t_us is Some ==> eye_queue::by_stamp(
            s,
            ref_vb,
            offset,
        ),
{
}

/// After a dip the new eye has a slot of its own at or after its target, no two
/// eyes share a slot, and every other eye that stays is one that was queued,
/// moved by at most half a period.
pub proof fn a_dip_keeps_every_eye_near_its_slot(
    q: QueueState,
    right: bool,
    target: int,
    period: int,
)
    requires
        q.wf(),
        q.reanchors(),
        q.scheduled.len() < 8,
        period > 0,
        0 <= target,
        target + 9 * period <= grid::MAX_TIME_US,
        eye_queue::bounded(q.scheduled, period),
    ensures
        ({
            let r = q.with_pinned(right, target, period).scheduled;
            &&& eye_queue::ascending(r)
            &&& exists|b: u64|
                {
                    &&& #[trigger] r.contains((b, right))
                    &&& b >= target
                    &&& !eye_queue::claimed(q.scheduled, b as int)
                }
            &&& forall|i: int|
                0 <= i < r.len() ==> (#[trigger] r[i]).1 == right || exists|j: int|
                    {
                        &&& 0 <= j < q.scheduled.len()
                        &&& (#[trigger] q.scheduled[j]).1 == r[i].1
                        &&& -(period / 2) <= r[i].0 - q.scheduled[j].0 <= period / 2
                    }
        }),
{
    let s = q.scheduled;
    let u = eye_queue::free_slot(s, target, period);
    eye_queue::lemma_free_slot_is_near(s, target, period);
    assert(s.len() * period <= 8 * period) by (nonlinear_arith)
        requires
            s.len() <= 8,
            period > 0,
    ;
    let e: Slot = (u as u64, right);
    let moved = eye_queue::rebased(s, u, period);
    let kept = moved.filter(eye_queue::other_than(u));
    eye_queue::lemma_rebased(s, u, period, period);
    eye_queue::lemma_filter_ascends(moved, eye_queue::other_than(u));
    assert forall|i: int| 0 <= i < kept.len() implies (#[trigger] kept[i]).0 != u by {
        assert(eye_queue::other_than(u)(kept[i]));
    }
    eye_queue::lemma_inserted(kept, e);
    let r = q.with_pinned(right, target, period).scheduled;
    let f = eye_queue::not_after(u);
    eye_queue::lemma_prefix_bounds(kept, f);
    let n = eye_queue::prefix_len(kept, f) as int;
    assert(r == kept.insert(n, e));
    assert(r[n] == e);
    assert(r.contains(e));
    assert forall|i: int| 0 <= i < r.len() implies (#[trigger] r[i]).1 == right || exists|j: int|
        {
            &&& 0 <= j < s.len()
            &&& (#[trigger] s[j]).1 == r[i].1
            &&& -(period / 2) <= r[i].0 - s[j].0 <= period / 2
        } by {
        if r[i] != e {
            let k = choose|k: int| 0 <= k < kept.len() && kept[k] == r[i];
            let m = choose|m: int| 0 <= m < moved.len() && moved[m] == kept[k];
            lemma_moved_eye_stays_near(s, u, period, m);
        }
    }
}

proof fn lemma_moved_eye_stays_near(s: Seq<Slot>, origin: int, period: int, m: int)
    requires
        period > 0,
        origin >= 0,
        eye_queue::bounded(s, period),
        0 <= m < eye_queue::rebased(s, origin, period).len(),
    ensures
        exists|j: int|
            {
                &&& 0 <= j < s.len()
                &&& (#[trigger] s[j]).1 == eye_queue::rebased(s, origin, period)[m].1
                &&& -(period / 2) <= eye_queue::rebased(s, origin, period)[m].0 - s[j].0 <= period
                    / 2
            },
{
    broadcast use vstd::seq_lib::group_filter_ensures;

    let d = eye_queue::drift(s[0].0 as int, origin, period);
    eye_queue::drift_is_at_most_half_a_period(s[0].0 as int, origin, period);
    let f = eye_queue::not_before(origin + d);
    let kept = s.filter(f);
    assert(f(kept[m]));
    assert(kept.contains(kept[m]));
    s.lemma_filter_contains_rev(f, kept[m]);
    let j = choose|j: int| 0 <= j < s.len() && s[j] == kept[m];
    assert(s[j].0 + period <= grid::MAX_TIME_US);
    assert(eye_queue::rebased(s, origin, period)[m].0 == s[j].0 - d);
}

/// Two empty slots in a row are a dip, and so is one that was noted; nothing
/// else is.
pub proof fn a_dip_is_two_slots_or_noted(q: QueueState)
    ensures
        q.freerun_since >= 2 ==> q.reanchors(),
        q.pending_reanchor ==> q.reanchors(),
        q.freerun_since < 2 && !q.pending_reanchor ==> !q.reanchors(),
{
}

/// A dip is not forgotten with the next fire: after two empty slots and a
/// reported eye without a boundary, the next pinned eye still defines the phase.
pub proof fn a_dip_outlasts_an_unpinned_eye(
    q: QueueState,
    right: bool,
    a: int,
    b: int,
    c: int,
    period: int,
)
    requires
        q.wf(),
        q.scheduled.len() == 0,
        q.fallback.len() == 0,
        q.first_fired,
        q.last_fired is Some,
        q.freerun_since < u32::MAX - 2,
    ensures
        ({
            let dip = q.next(a, period).0.next(b, period).0;
            let (after, eye) = dip.with_unpinned(right).next(c, period);
            &&& dip.reanchors()
            &&& eye == Some(right)
            &&& after.freerun_since == 0
            &&& after.reanchors()
        }),
{
    let one = q.next(a, period).0;
    let dip = one.next(b, period).0;
    assert(one.scheduled.len() == 0 && one.fallback.len() == 0);
    assert(dip.scheduled.len() == 0 && dip.fallback.len() == 0);
    assert(dip.with_unpinned(right).fallback[0] == right);
}

/// Eyes in whole periods that a stall left off the grid are moved onto it.
pub proof fn a_stall_off_the_grid_is_mended(
    q: QueueState,
    boundary: int,
    period: int,
    n: int,
    k: int,
    i: int,
)
    requires
        period >= 4,
        boundary >= 0,
        0 < n < q.scheduled.len(),
        forall|j: int| 0 <= j < n ==> (#[trigger] q.scheduled[j]).0 + period / 2 < boundary,
        q.scheduled[n].0 + period / 2 >= boundary,
        period / 4 < q.scheduled[n].0 - boundary - k * period < period - period / 4,
        eye_queue::bounded(q.scheduled, period),
        forall|j: int|
            n <= j < q.scheduled.len() ==> grid::on_grid(
                q.scheduled[n].0 as int,
                period,
                (#[trigger] q.scheduled[j]).0 as int,
            ),
        0 <= i < q.without_overdue(boundary, period).scheduled.len(),
    ensures
        grid::on_grid(
            boundary,
            period,
            q.without_overdue(boundary, period).scheduled[i].0 as int,
        ),
        q.without_overdue(boundary, period).scheduled[i].0 >= boundary,
{
    a_stall_of_whole_slots_keeps_the_pins(q, boundary, period, n, k);
    let f = eye_queue::overdue_at(boundary, period / 2);
    eye_queue::lemma_prefix_len(q.scheduled, f, n);
    let rest = q.scheduled.skip(n);
    assert(rest[0] == q.scheduled[n]);
    let b = rest[0].0 as int;
    let off = b - boundary - k * period;
    let x = boundary - b;
    assert((-k - 1) * period == -(k * period) - period) by (nonlinear_arith);
    vstd::arithmetic::div_mod::lemma_fundamental_div_mod_converse(x, period, -k - 1, period - off);
    assert(!eye_queue::whole_slots_apart(b, boundary, period));
    assert forall|j: int| 0 <= j < rest.len() implies grid::on_grid(
        rest[0].0 as int,
        period,
        (#[trigger] rest[j]).0 as int,
    ) by {
        assert(rest[j] == q.scheduled[n + j]);
    }
    assert forall|j: int| 0 <= j < rest.len() implies (#[trigger] rest[j]).0 + period
        <= grid::MAX_TIME_US by {
        assert(rest[j] == q.scheduled[n + j]);
    }
    queue_laws::a_moved_schedule_lies_on_the_grid(rest, boundary, period, i);
}

} // verus!
