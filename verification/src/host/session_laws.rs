//! What the host loop promises from one call to the next.

use crate::host::eye_queue;
use crate::host::eye_queue::QueueState;
use crate::host::grid;
use crate::host::inversion;
use crate::host::inversion::InversionState;
use crate::host::queue_laws;
use crate::host::session;
use crate::host::session::{ButtonAction, Fire, SessionState};
use crate::host::stats::DrainWindow;
use crate::nvstusb::drm::{DrmVblank, Prediction, ALARM_DELAY_US, SNAP_MARGIN_US};
use crate::shm::{Swap, EYE_RIGHT};
use vstd::prelude::*;

verus! {

/// A prediction that can still be met is armed as it stands; one that cannot is
/// moved by whole periods, to the first boundary beyond reach.
pub proof fn the_armed_boundary_can_be_met(anchor: &DrmVblank, lead_us: u32, clock: u64)
    requires
        !anchor.broken,
        anchor.period_us > 0,
    ensures
        ({
            let target = session::arm_target(anchor, lead_us, clock);
            let period = anchor.period_us as int;
            &&& target > session::reach(anchor, lead_us, clock)
            &&& grid::on_grid(anchor.next_present_us as int, period, target)
            &&& anchor.next_present_us > session::reach(anchor, lead_us, clock) ==> target
                == anchor.next_present_us
            &&& anchor.next_present_us <= session::reach(anchor, lead_us, clock) ==> target
                - period <= session::reach(anchor, lead_us, clock)
        }),
{
    crate::nvstusb::drm::arming_stays_on_the_grid(
        anchor.next_present_us as int,
        anchor.period_us as int,
        session::reach(anchor, lead_us, clock),
    );
    grid::first_after_is_the_next_boundary(
        anchor.next_present_us as int,
        anchor.period_us as int,
        session::reach(anchor, lead_us, clock),
    );
}

/// A swap drained at the top of an iteration is fired by that iteration: when
/// the wait confirms the vblank after the last one and the boundary behind it
/// is armed, the eye on that boundary is the reported one.  Nothing is dropped
/// as overdue, and no eye is invented.
pub proof fn a_drained_swap_fires_in_its_own_iteration(
    s: SessionState,
    swap: Swap,
    anchor: &DrmVblank,
    armed: &DrmVblank,
    last: u64,
    drained_at: u64,
    lead_us: u32,
    clock: u64,
)
    requires
        s.queue.wf(),
        s.stamped_mode,
        s.last_vblank == Some(last),
        !s.force_grid_resync,
        s.queue.scheduled.len() == 0,
        anchor.period_us > 0,
        last + 3 * anchor.period_us <= u64::MAX,
        anchor.next_present_us == last + 2 * anchor.period_us,
        armed.same_binding(anchor),
        armed.prediction() == s.with_drain(seq![swap], Some(anchor), drained_at).begun_prediction(
            anchor.prediction(),
            (last + anchor.period_us) as u64,
            anchor.period_us,
        ),
        !anchor.broken,
        session::reach(armed, lead_us, clock) < last + 2 * anchor.period_us,
    ensures
        ({
            let vblank = (last + anchor.period_us) as u64;
            let target = session::arm_target(armed, lead_us, clock);
            let slot = s.with_drain(seq![swap], Some(anchor), drained_at).begun(vblank);
            let (after, eye) = slot.served(target, grid::step(armed.period_us));
            &&& target == vblank + anchor.period_us
            &&& eye == Some(swap.eye == EYE_RIGHT)
            &&& after.queue.overdue == s.queue.overdue
            &&& after.queue.coalesced == s.queue.coalesced
            &&& after.queue.freerun == s.queue.freerun
            &&& !after.queue.last_was_freerun
            &&& after.queue.scheduled.len() == 0
            &&& after.queue.fallback == s.queue.fallback
            &&& after.last_vblank == Some(vblank)
        }),
{
    assert(armed.prediction().next == armed.next_present_us);
    assert(armed.prediction().period == armed.period_us);
    the_armed_boundary_can_be_met(armed, lead_us, clock);
    lemma_a_lone_swap_fires(
        s.queue,
        swap,
        anchor,
        (last + 2 * anchor.period_us) as u64,
        s.last_vblank,
    );
}

/// A swap drained right after the wait is fired by the same iteration, on the
/// boundary behind the vblank that the wait confirmed.
pub proof fn a_late_swap_fires_in_its_own_iteration(
    s: SessionState,
    swap: Swap,
    anchor: &DrmVblank,
    vblank: u64,
    drained_at: u64,
    lead_us: u32,
    clock: u64,
)
    requires
        s.queue.wf(),
        s.queue.scheduled.len() == 0,
        !anchor.broken,
        anchor.period_us > 0,
        vblank + 2 * anchor.period_us <= u64::MAX,
        anchor.next_present_us == vblank + anchor.period_us,
        session::reach(anchor, lead_us, clock) < vblank + anchor.period_us,
    ensures
        ({
            let target = session::arm_target(anchor, lead_us, clock);
            let slot = s.with_late_drain(seq![swap], anchor, vblank, drained_at);
            let (after, eye) = slot.served(target, grid::step(anchor.period_us));
            &&& target == vblank + anchor.period_us
            &&& eye == Some(swap.eye == EYE_RIGHT)
            &&& after.queue.overdue == s.queue.overdue
            &&& after.queue.coalesced == s.queue.coalesced
            &&& after.queue.freerun == s.queue.freerun
            &&& !after.queue.last_was_freerun
            &&& after.queue.scheduled.len() == 0
            &&& after.queue.fallback == s.queue.fallback
        }),
{
    the_armed_boundary_can_be_met(anchor, lead_us, clock);
    lemma_a_lone_swap_fires(
        s.queue,
        swap,
        anchor,
        (vblank + anchor.period_us) as u64,
        Some(vblank),
    );
}

/// A batch drained at the top of an iteration goes out one eye per slot, in
/// order, the first one on the boundary that this iteration arms.
pub proof fn a_drained_batch_fires_slot_by_slot(
    s: SessionState,
    swaps: Seq<Swap>,
    anchor: &DrmVblank,
    last: u64,
    drained_at: u64,
    k: nat,
)
    requires
        s.queue.wf(),
        !s.queue.reanchors(),
        s.stamped_mode,
        s.last_vblank == Some(last),
        s.queue.scheduled.len() == 0,
        anchor.period_us > 0,
        k < swaps.len() <= eye_queue::MAX_QUEUE,
        last + (swaps.len() + 2) * anchor.period_us <= u64::MAX,
    ensures
        ({
            let period = anchor.period_us as int;
            let vblank = (last + period) as u64;
            let slot = s.with_drain(swaps, Some(anchor), drained_at).begun(vblank);
            let here = queue_laws::after_slots(slot.queue, vblank + period, period, k);
            let (after, eye) = here.next(vblank + period + k * period, period);
            &&& eye == Some(swaps[k as int].eye == EYE_RIGHT)
            &&& after.overdue == s.queue.overdue
            &&& after.coalesced == s.queue.coalesced
            &&& after.freerun == s.queue.freerun
        }),
{
    let period = anchor.period_us as int;
    let start = (last + 2 * period) as u64;
    assert((swaps.len() + 2) * period == swaps.len() * period + 2 * period) by (nonlinear_arith);
    assert(swaps.len() * period >= 0) by (nonlinear_arith)
        requires
            period > 0,
    ;
    queue_laws::a_drain_fires_in_order(s.queue, swaps, Some(anchor), period, start, s.last_vblank, k);
    queue_laws::a_drain_fires_in_order(
        s.queue,
        swaps,
        Some(anchor),
        period,
        start,
        s.last_vblank,
        k + 1,
    );
    let full = s.queue.with_drain(swaps, Some(anchor), period, Some(start), s.last_vblank, None);
    assert(s.with_drain(swaps, Some(anchor), drained_at).begun((last + period) as u64).queue
        == full);
    assert(queue_laws::after_slots(full, start as int, period, k + 1) == queue_laws::after_slots(
        full,
        start as int,
        period,
        k,
    ).next(start + k * period, period).0);
}

proof fn lemma_a_lone_swap_fires(
    q: QueueState,
    swap: Swap,
    anchor: &DrmVblank,
    start: u64,
    ref_vb: Option<u64>,
)
    requires
        q.wf(),
        q.scheduled.len() == 0,
        anchor.period_us > 0,
        start + anchor.period_us <= u64::MAX,
    ensures
        ({
            let period = anchor.period_us as int;
            let full = q.with_drain(seq![swap], Some(anchor), period, Some(start), ref_vb, None);
            let (after, eye) = full.next(start as int, period);
            &&& full.scheduled.len() == 1
            &&& full.fallback == q.fallback
            &&& eye == Some(swap.eye == EYE_RIGHT)
            &&& after.overdue == q.overdue
            &&& after.coalesced == q.coalesced
            &&& after.freerun == q.freerun
            &&& !after.last_was_freerun
            &&& after.scheduled.len() == 0
            &&& after.fallback == q.fallback
        }),
{
    let period = anchor.period_us as int;
    let right = swap.eye == EYE_RIGHT;
    let swaps = seq![swap];
    let full = q.with_drain(swaps, Some(anchor), period, Some(start), ref_vb, None);
    reveal_with_fuel(QueueState::with_swaps, 2);
    assert(eye_queue::in_order(swaps, 0, ref_vb, None) == 0);
    assert(0 * period == 0);
    assert(eye_queue::first_free(q.scheduled, start as int, period, 0));
    eye_queue::lemma_first_free_is_unique(q.scheduled, start as int, period, 0);
    let e = (start, right);
    assert(full == q.with_pinned(right, start as int, period));
    reveal(Seq::filter);
    assert(eye_queue::rebased(q.scheduled, start as int, period).filter(
        eye_queue::other_than(start as int),
    ) =~= q.scheduled);
    assert(eye_queue::prefix_len(q.scheduled, eye_queue::not_after(start as int)) == 0);
    assert(full.scheduled =~= seq![e]);
    eye_queue::lemma_prefix_len(
        full.scheduled,
        eye_queue::overdue_at(start as int, period / 2),
        0,
    );
    assert(full.scheduled.skip(0) =~= full.scheduled);
    assert(full.without_overdue(start as int, period) == full);
    assert(full.realigned(start as int, period) == full);
    eye_queue::lemma_prefix_len(full.scheduled, eye_queue::due_at(start as int, period / 2), 1);
}

/// A packet's deadline lies ahead of the clock by more than the margin, and
/// leaves the emitter its delay and the configured lead before the boundary.
pub proof fn a_deadline_is_never_missed(anchor: &DrmVblank, lead_us: u32, clock: u64)
    requires
        !anchor.broken,
        anchor.in_range(),
        anchor.period_us > 0,
        anchor.epoch_us <= clock <= 0x3fff_ffff_ffff_ffff,
    ensures
        ({
            let target = session::arm_target(anchor, lead_us, clock);
            let deadline = session::deadline_of(anchor, target, lead_us);
            &&& deadline + ALARM_DELAY_US + lead_us == anchor.epoch_us + target
            &&& deadline > clock + SNAP_MARGIN_US
        }),
{
    the_armed_boundary_can_be_met(anchor, lead_us, clock);
}

/// No packet goes out before its deadline, nor too close behind the one before
/// it; apart from that it is not held back.
pub proof fn packets_keep_their_distance(
    s: SessionState,
    fire: Fire,
    period: u64,
    sent_at: u64,
    deadline: u64,
)
    requires
        sent_at <= 0x3fff_ffff_ffff_ffff,
    ensures
        ({
            let at = s.with_sent(fire, period, sent_at).0.spaced(deadline);
            &&& at >= deadline
            &&& at >= sent_at + 7900
            &&& at == deadline || at == sent_at + 7900
        }),
        s.last_fire is None ==> s.spaced(deadline) == deadline,
{
}

/// The eye that goes out is the reported one, or on request the other one: the
/// two eyes never look the same on the wire.
pub proof fn the_wire_tells_the_eyes_apart(s: SessionState, eye: bool)
    ensures
        !s.manual_invert ==> s.on_wire(eye) == eye,
        s.on_wire(!eye) == !s.on_wire(eye),
        ({
            let other = SessionState { manual_invert: !s.manual_invert, ..s };
            match (s.served_unpaced().1, other.served_unpaced().1) {
                (Some(a), Some(b)) => a != b,
                (None, None) => true,
                _ => false,
            }
        }),
{
}

/// Without pinned eyes a press swaps what is on the wire and nothing else, and
/// says so; with pinned eyes it asks the renderer for the opposite of its flag,
/// takes the reference anew and leaves the wire alone.
pub proof fn a_press_swaps_the_eyes_once(s: SessionState, flag: bool, eye: bool)
    requires
        !s.button_was_down,
    ensures
        ({
            let (t, action) = s.with_button(true, flag);
            &&& t.button_was_down
            &&& t.queue == s.queue
            &&& t.stats == s.stats
            &&& t.last_swap == s.last_swap
            &&& t.last_vblank == s.last_vblank
            &&& t.last_fire == s.last_fire
            &&& t.stamped_mode == s.stamped_mode
            &&& !s.stamped_mode ==> {
                &&& t.on_wire(eye) == !s.on_wire(eye)
                &&& t.inversion == s.inversion
                &&& action == ButtonAction::SwappedOnWire(t.manual_invert)
            }
            &&& s.stamped_mode ==> {
                &&& t.on_wire(eye) == s.on_wire(eye)
                &&& !t.inversion.is_locked()
                &&& t.inversion.cand_boundary is None
                &&& action == ButtonAction::SetRendererFlag(!flag)
            }
        }),
{
}

/// A held button, a repeated reading and a release swap nothing; two presses
/// undo each other.
pub proof fn only_the_press_itself_counts(s: SessionState, flag: bool, later: bool)
    ensures
        ({
            let down = s.with_button(true, flag).0;
            let up = down.with_button(false, later).0;
            &&& down.with_button(true, later) == (down, ButtonAction::Nothing)
            &&& down.with_button(false, later).1 == ButtonAction::Nothing
            &&& s.with_button(false, flag).1 == ButtonAction::Nothing
            &&& up.manual_invert == down.manual_invert
            &&& up.inversion == down.inversion
            &&& !up.button_was_down
            &&& !s.button_was_down ==> up.with_button(true, later).0.manual_invert
                == s.manual_invert
        }),
{
}

/// A swap keeps the game alive for three tenths of a second, and not longer;
/// an empty drain changes nothing at all.
pub proof fn a_swap_keeps_the_game_alive(
    s: SessionState,
    swaps: Seq<Swap>,
    anchor: Option<&DrmVblank>,
    clock: u64,
    later: u64,
)
    requires
        clock <= later,
    ensures
        swaps.len() > 0 ==> (s.with_drain(swaps, anchor, clock).alive(later) <==> later - clock
            <= 300_000),
        swaps.len() == 0 ==> s.with_drain(swaps, anchor, clock) == s,
        s.last_swap is None ==> !s.alive(later),
        forall|a: &DrmVblank, v: u64|
            swaps.len() > 0 ==> ((#[trigger] s.with_late_drain(swaps, a, v, clock)).alive(later)
                <==> later - clock <= 300_000),
{
}

/// When the game stops, the next slot is silent whatever boundary is armed, and
/// no reference is left; as long as it goes on, neither queue nor reference is
/// touched.
pub proof fn a_stopped_game_is_forgotten(
    s: SessionState,
    clock: u64,
    target: int,
    period: int,
)
    ensures
        ({
            let t = s.checked(clock);
            &&& t.was_alive == s.alive(clock)
            &&& s.was_alive && !s.alive(clock) ==> {
                &&& t.served(target, period).1 is None
                &&& t.served_unpaced().1 is None
                &&& !t.inversion.is_locked()
                &&& t.inversion.cand_boundary is None
                &&& t.queue.first_fired == s.queue.first_fired
                &&& t.queue.overdue == s.queue.overdue
            }
            &&& !s.was_alive || s.alive(clock) ==> t.queue == s.queue && t.inversion
                == s.inversion
            &&& t.last_swap == s.last_swap
            &&& t.last_vblank == s.last_vblank
            &&& t.manual_invert == s.manual_invert
        }),
{
}

/// When the game resumes, the very next vblank puts the prediction on the slot
/// after it; the vblanks after that leave the prediction alone.
pub proof fn a_resumed_game_is_put_back_on_the_grid(
    s: SessionState,
    clock: u64,
    p: Prediction,
    q: Prediction,
    vblank: u64,
    next: u64,
    period: u64,
)
    requires
        !s.was_alive,
        s.alive(clock),
        vblank + period <= u64::MAX,
    ensures
        s.checked(clock).begun_prediction(p, vblank, period).next == vblank + period,
        s.checked(clock).begun_prediction(p, vblank, period).period == p.period,
        s.checked(clock).begun(vblank).begun_prediction(q, next, period) == q,
        s.checked(clock).begun(vblank).last_vblank == Some(vblank),
        s.checked(clock).begun(vblank).checked(clock).begun_prediction(q, next, period) == q,
{
}

/// After a move to another display nothing of the old one is served, the first
/// vblank of the new one defines the grid, and pinned swaps that came before it
/// are dropped with it.
pub proof fn a_new_display_starts_clean(
    s: SessionState,
    swaps: Seq<Swap>,
    anchor: Option<&DrmVblank>,
    clock: u64,
    p: Prediction,
    vblank: u64,
    period: u64,
    target: int,
    step: int,
)
    requires
        vblank + period <= u64::MAX,
    ensures
        s.moved().served(target, step).1 is None,
        s.moved().served_unpaced().1 is None,
        !s.moved().inversion.is_locked(),
        s.moved().begun_prediction(p, vblank, period).next == vblank + period,
        s.moved().manual_invert == s.manual_invert,
        s.moved().last_swap == s.last_swap,
        s.stamped_mode ==> ({
            let t = s.moved().with_drain(swaps, anchor, clock).begun(vblank);
            t.queue.scheduled.len() == 0 && t.queue.fallback.len() == 0
        }),
{
    let q = s.moved().queue;
    if swaps.len() > 0 {
        lemma_nothing_is_pinned_without_a_grid(
            q,
            swaps,
            swaps.len(),
            anchor,
            grid::step(session::period_of(anchor)),
            None,
        );
    }
}

proof fn lemma_nothing_is_pinned_without_a_grid(
    q: QueueState,
    swaps: Seq<Swap>,
    n: nat,
    anchor: Option<&DrmVblank>,
    period: int,
    ref_vb: Option<u64>,
)
    ensures
        q.with_swaps(swaps, n, anchor, period, None, ref_vb, None).scheduled == q.scheduled,
    decreases n,
{
    if n > 0 {
        lemma_nothing_is_pinned_without_a_grid(
            q,
            swaps,
            (n - 1) as nat,
            anchor,
            period,
            ref_vb,
        );
    }
}

/// A vblank in the middle of a stream moves neither the queue nor the
/// prediction: it only becomes the last confirmed one.
pub proof fn a_vblank_in_a_stream_changes_nothing_else(
    s: SessionState,
    p: Prediction,
    vblank: u64,
    period: u64,
)
    requires
        s.last_vblank is Some,
        !s.force_grid_resync,
    ensures
        s.begun(vblank) == (SessionState { last_vblank: Some(vblank), ..s }),
        s.begun_prediction(p, vblank, period) == p,
{
}

/// A change of the ring's layout drops the queue of the other mode and keeps
/// everything else; seeing the same layout again changes nothing.
pub proof fn a_change_of_mode_leaves_no_stale_eye(s: SessionState, stamped: bool)
    ensures
        ({
            let t = s.with_mode(stamped);
            &&& t.stamped_mode == stamped
            &&& t.with_mode(stamped) == t
            &&& s.stamped_mode == stamped ==> t == s
            &&& s.stamped_mode && !stamped ==> t.queue.scheduled.len() == 0 && t.queue.fallback
                == s.queue.fallback
            &&& !s.stamped_mode && stamped ==> t.queue.fallback.len() == 0 && t.queue.scheduled
                == s.queue.scheduled
            &&& t.queue.last_fired == s.queue.last_fired
            &&& t.queue.first_fired == s.queue.first_fired
            &&& t.inversion == s.inversion
            &&& t.last_swap == s.last_swap
            &&& t.last_vblank == s.last_vblank
            &&& t.manual_invert == s.manual_invert
            &&& t.was_alive == s.was_alive
        }),
{
}

/// Only a reported eye of a pinned stream is evidence: any other fire neither
/// asks for a swap nor touches the reference.  A reported eye that contradicts
/// a settled reference on its parity does ask for one.
pub proof fn only_reported_pinned_eyes_are_evidence(
    s: SessionState,
    fire: Fire,
    period: u64,
    clock: u64,
)
    requires
        period > 0,
    ensures
        ({
            let (t, inverted) = s.with_sent(fire, period, clock);
            &&& t.last_fire == Some(clock)
            &&& t.queue == s.queue
            &&& t.manual_invert == s.manual_invert
            &&& !s.stamped_mode || s.queue.last_was_freerun ==> !inverted && t.inversion
                == s.inversion
            &&& s.stamped_mode && !s.queue.last_was_freerun ==> {
                &&& s.inversion.is_locked() && s.inversion.ref_phase == Some(!fire.right)
                    && inversion::same_parity(
                    fire.target as int,
                    s.inversion.ref_boundary->0 as int,
                    2 * period,
                ) ==> inverted
                &&& s.inversion == InversionState::blank() ==> !inverted
                    && t.inversion.cand_phase == Some(fire.right)
            }
        }),
{
}

/// Drains add up: the swaps of all of them are counted, the largest batch is
/// kept, and only a batch of two or more counts as a burst.
pub proof fn drains_add_up(w: DrainWindow, a: nat, b: nat)
    requires
        w.swaps + a + b <= u64::MAX,
        w.batches_ge2 + 2 <= u64::MAX,
        a <= usize::MAX,
        b <= usize::MAX,
    ensures
        ({
            let t = session::drained(session::drained(w, a), b);
            &&& t.swaps == w.swaps + a + b
            &&& t.max_batch >= a && t.max_batch >= b && t.max_batch >= w.max_batch
            &&& t.max_batch == a || t.max_batch == b || t.max_batch == w.max_batch
            &&& a < 2 && b < 2 ==> t.batches_ge2 == w.batches_ge2
            &&& a >= 2 && b < 2 ==> t.batches_ge2 == w.batches_ge2 + 1
            &&& a < 2 && b >= 2 ==> t.batches_ge2 == w.batches_ge2 + 1
            &&& a >= 2 && b >= 2 ==> t.batches_ge2 == w.batches_ge2 + 2
            &&& t.lead_n == w.lead_n && t.lead_sum == w.lead_sum
        }),
{
}

/// A lead sample is the time from the drain to the next boundary of the grid,
/// and the window's extremes enclose it.
pub proof fn a_lead_sample_reaches_to_the_next_boundary(
    w: DrainWindow,
    now: u64,
    vblank: u64,
    period: u64,
)
    requires
        period > 0,
        w.lead_n < u64::MAX,
        w.lead_sum + period <= u64::MAX,
    ensures
        now < vblank ==> session::lead_sampled(w, now, vblank, period) == w,
        now >= vblank ==> ({
            let t = session::lead_sampled(w, now, vblank, period);
            let sample = t.lead_sum - w.lead_sum;
            &&& t.lead_n == w.lead_n + 1
            &&& now + sample == grid::first_after(vblank as int, period as int, now as int)
            &&& t.lead_min <= sample <= t.lead_max
            &&& w.lead_min > 0 ==> t.lead_min <= w.lead_min
            &&& t.lead_max >= w.lead_max
            &&& t.lead_min == sample || t.lead_min == w.lead_min
            &&& t.lead_max == sample || t.lead_max == w.lead_max
            &&& t.swaps == w.swaps && t.max_batch == w.max_batch
        }),
{
    if now >= vblank {
        let d = now - vblank;
        vstd::arithmetic::div_mod::lemma_fundamental_div_mod(d, period as int);
        let q = d / (period as int);
        assert((q + 1) * period == period * q + period) by (nonlinear_arith);
    }
}

/// A forgotten stream leaves no dip behind: the first pinned eye of the next one
/// moves nothing and is not taken for the end of a dip.
pub proof fn a_forgotten_stream_leaves_no_dip(s: SessionState, clock: u64)
    ensures
        !s.moved().queue.reanchors(),
        s.moved().queue.freerun_since == 0,
        !s.moved().queue.last_was_freerun,
        s.was_alive && !s.alive(clock) ==> !s.checked(clock).queue.reanchors()
            && s.checked(clock).queue.freerun_since == 0 && !s.checked(
            clock,
        ).queue.last_was_freerun,
        s.moved().queue.stall_hold == s.queue.stall_hold,
        s.moved().queue.freerun == s.queue.freerun,
{
}

} // verus!
