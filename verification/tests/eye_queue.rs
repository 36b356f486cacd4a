//! The eye queue and the inversion detector.

use nvstereo3d::host::eye_queue::{
    EyeQueue, DIP_RESYNC_AFTER_FREERUN_SLOTS, DRIFT_LAG_ALIGN_PERIOD_DIV, MAX_QUEUE,
    STALL_HOLD_AFTER_FREERUN_SLOTS,
};
use nvstereo3d::host::grid::{boundary_after, floored_next_boundary};
use nvstereo3d::host::inversion::{InversionState, INVERSION_REF_STABLE_FIRES};
use nvstereo3d::nvstusb::drm::phase_preserving_step;
use nvstereo3d::shm::{Swap, EYE_LEFT, EYE_RIGHT};

#[test]
fn boundary_after_maps_submit_time_to_scanout_slot() {
    let refb = 100_000u64;
    let p = 8_333u64;
    assert_eq!(boundary_after(refb, p, 105_000), 108_333);
    assert_eq!(boundary_after(refb, p, 108_334), 116_666);
    assert_eq!(boundary_after(refb, p, 112_500), 116_666);
    assert_eq!(boundary_after(refb, p, 100_000), 108_333);
    assert_eq!(boundary_after(refb, p, 124_999), 133_332);
    assert_eq!(boundary_after(refb, p, 99_000), 100_000);
    assert_eq!(boundary_after(refb, p, 90_000), 91_667);
    assert_eq!(boundary_after(refb, p, 80_000), 83_334);
    let p0 = 0u64;
    let r = boundary_after(refb, p0, 105_000);
    assert!(r > 105_000);
}

#[test]
fn stamped_submits_pin_deterministic_slots_across_restarts() {
    let refb = 200_000u64;
    let p = 8_333u64;
    let r_a = boundary_after(refb, p, 205_000);
    let l_a = boundary_after(refb, p, 213_400);
    let r_b = boundary_after(refb, p, 213_333 + 100);
    let l_b = boundary_after(refb, p, 221_700);
    assert_eq!(r_a, 208_333);
    assert_eq!(l_a, 216_666);
    assert_eq!(r_b, 216_666);
    assert_eq!(l_b, 224_999);
    let mut q = EyeQueue::default();
    q.enqueue(true, Some(r_a), p);
    q.enqueue(false, Some(l_a), p);
    assert_eq!(q.next_eye(208_333, p), Some(true));
    assert_eq!(q.next_eye(216_666, p), Some(false));
    assert_eq!(q.next_eye(224_999, p), Some(true));
}

#[test]
fn dip_holds_phase_and_never_shifts_a_slot() {
    let p = 8_333u64;
    let b = 100_000u64;
    let mut q = EyeQueue::default();
    q.enqueue(true, Some(b), p);
    q.enqueue(false, Some(b + 3 * p), p);
    assert_eq!(q.next_eye(b, p), Some(true));
    assert_eq!(q.next_eye(b + p, p), Some(false));
    assert_eq!(q.next_eye(b + 2 * p, p), Some(true));
    assert_eq!(q.next_eye(b + 3 * p, p), Some(false));
    assert_eq!(q.next_eye(b + 4 * p, p), Some(true));
}

#[test]
fn sustained_stall_holds_instead_of_strobing() {
    let p = 8_333u64;
    let b = 100_000u64;
    let mut q = EyeQueue::default();
    q.enqueue(true, Some(b), p);
    assert_eq!(q.next_eye(b, p), Some(true));

    let mut slot = b;
    let mut expect_right = false;
    for _ in 0..STALL_HOLD_AFTER_FREERUN_SLOTS {
        slot += p;
        assert_eq!(q.next_eye(slot, p), Some(expect_right));
        expect_right = !expect_right;
    }

    let held = q.last_fired;
    for _ in 0..20 {
        slot += p;
        assert_eq!(q.next_eye(slot, p), held, "must hold, not strobe, during a real stall");
    }

    slot += p;
    q.enqueue(false, Some(slot), p);
    assert_eq!(q.next_eye(slot, p), Some(false));
    assert_eq!(q.freerun_since, 0, "real eye clears the freerun/stall counter");
}

#[test]
fn overdue_eye_dropped_without_shifting_later_eyes() {
    let p = 8_333u64;
    let b = 100_000u64;
    let mut q = EyeQueue::default();
    q.enqueue(true, Some(b - p), p);
    q.enqueue(false, Some(b), p);
    q.enqueue(true, Some(b + p), p);
    assert_eq!(q.next_eye(b, p), Some(false));
    assert_eq!(q.next_eye(b + p, p), Some(true));
    assert_eq!(q.next_eye(b + 2 * p, p), Some(false));
}

#[test]
fn overdue_drop_rebaselines_the_schedule_onto_the_grid() {
    let p = 8_333u64;
    let b = 100_000u64;
    let drift = 4_000u64;
    let mut q = EyeQueue::default();
    q.enqueue(true, Some(b - p), p);
    q.enqueue(false, Some(b + drift), p);
    q.enqueue(true, Some(b + p + drift), p);
    assert!(!q.pending_reanchor);

    assert_eq!(q.next_eye(b, p), Some(false), "grid-aligned L fires due on b");
    assert_eq!(q.pending_reanchor, true, "overdue drop must flag a re-anchor");
    assert_eq!(
        q.front_boundary(),
        Some(b + p),
        "re-baselined front sits exactly one period on the grid (b+p, not b+p+drift)"
    );
    assert_eq!(q.next_eye(b + p, p), Some(true), "grid-aligned R fires on b+p");
    assert_eq!(q.next_eye(b + 2 * p, p), Some(false), "clean freerun from the re-anchored phase");
    assert_eq!(q.next_eye(b + 3 * p, p), Some(true), "alternation preserved, no stale drift");
}

#[test]
fn freerun_marks_pending_reanchor_consumed_by_next_real_eye() {
    let p = 8_333u64;
    let b = 100_000u64;
    let mut q = EyeQueue::default();
    q.enqueue(false, Some(b), p);
    assert_eq!(q.next_eye(b, p), Some(false));
    assert!(!q.pending_reanchor);

    assert_eq!(q.next_eye(b + p, p), Some(true));
    assert_eq!(q.freerun_since, 1);
    assert_eq!(q.next_eye(b + 2 * p, p), Some(false));
    assert_eq!(q.freerun_since, 2);
    assert_eq!(
        q.pending_reanchor, true,
        "a genuine dip (freerun_since >= threshold) must flag the phase as needing re-anchor"
    );

    assert!(q.pending_reanchor, "flag still pending before the fresh eye");
    q.enqueue(true, Some(b + 3 * p), p);
    assert_eq!(
        q.pending_reanchor, false,
        "the first fresh real eye consumes the pending re-anchor"
    );
    assert_eq!(
        q.last_fired,
        Some(true),
        "held phase re-pinned to the game's eye (R), not the freerun's"
    );
}

#[test]
fn dip_recovery_reanchors_held_phase_to_dll_eye() {
    let p = 8_333u64;
    let b = 100_000u64;
    let mut q = EyeQueue::default();
    q.enqueue(false, Some(b), p);
    q.enqueue(true, Some(b + p), p);
    assert_eq!(q.next_eye(b, p), Some(false));
    assert_eq!(q.next_eye(b + p, p), Some(true));
    let mut slots_into_dip = 0u32;
    let mut boundary = b + 2 * p;
    loop {
        let eye = q.next_eye(boundary, p).expect("must keep shuttering");
        slots_into_dip += 1;
        boundary += p;
        if slots_into_dip >= DIP_RESYNC_AFTER_FREERUN_SLOTS {
            assert_ne!(q.freerun_since, 0, "dip has produced freerun fires");
            break;
        }
        let _ = eye;
    }
    q.enqueue(false, Some(boundary), p);
    assert_eq!(
        q.last_fired,
        Some(false),
        "dip-recovery pre-seeds the held phase to the DLL eye"
    );
    assert_eq!(
        q.freerun_since, 0,
        "first resumed DLL eye clears the freerun gap"
    );
    assert_eq!(q.next_eye(boundary, p), Some(false));
    assert_eq!(q.next_eye(boundary + p, p), Some(true));
}

#[test]
fn short_blip_is_not_a_dip() {
    let p = 8_333u64;
    let b = 100_000u64;
    let mut q = EyeQueue::default();
    q.enqueue(false, Some(b), p);
    assert_eq!(q.next_eye(b, p), Some(false));
    assert_eq!(q.freerun_since, 0);
    assert_eq!(q.next_eye(b + p, p), Some(true));
    assert_eq!(q.freerun_since, 1);
    q.enqueue(true, Some(b + 2 * p), p);
    assert_eq!(q.last_fired, Some(true));
    assert_eq!(q.next_eye(b + 2 * p, p), Some(true));
    assert_eq!(q.freerun_since, 0);
}

#[test]
fn short_dip_still_reanchors_held_phase() {
    let p = 8_333u64;
    let b = 100_000u64;
    let mut q = EyeQueue::default();
    q.enqueue(false, Some(b), p);
    assert_eq!(q.next_eye(b, p), Some(false));
    assert_eq!(q.freerun_since, 0);
    assert_eq!(q.next_eye(b + p, p), Some(true));
    assert_eq!(q.freerun_since, 1);
    assert_eq!(q.next_eye(b + 2 * p, p), Some(false));
    assert_eq!(q.freerun_since, 2);
    q.enqueue(true, Some(b + 3 * p), p);
    assert_eq!(
        q.last_fired,
        Some(true),
        "short dip re-anchors held phase to the DLL eye (no more post-dip inversion)"
    );
    assert_eq!(q.freerun_since, 0, "first resumed DLL eye clears the gap");
    assert_eq!(q.next_eye(b + 3 * p, p), Some(true));
    assert_eq!(q.next_eye(b + 4 * p, p), Some(false));
}

#[test]
fn same_boundary_collision_fires_oldest_then_later() {
    let p = 8_333u64;
    let b = 100_000u64;
    let mut q = EyeQueue::default();
    q.enqueue(true, Some(b), p);
    q.enqueue(false, Some(b), p);
    assert_eq!(q.next_eye(b, p), Some(true), "first (R) owns boundary b");
    assert_eq!(q.next_eye(b + p, p), Some(false), "second (L) on b+p");
}

#[test]
fn backlog_reanchors_on_newest_stamped_boundary() {
    let p = 8_333u64;
    let b = 100_000u64;
    let mut q = EyeQueue::default();
    for i in 0..MAX_QUEUE + 4 {
        q.enqueue(i % 2 == 0, Some(b + i as u64 * p), p);
    }
    assert_eq!(q.next_eye(b, p), None);
    let anchor = b + MAX_QUEUE as u64 * p;
    assert_eq!(q.next_eye(anchor, p), Some(true));
    assert_eq!(q.next_eye(anchor + p, p), Some(false));
    assert_eq!(q.next_eye(anchor + 2 * p, p), Some(true));
}

#[test]
fn fallback_fifo_holds_and_preserves_ring_order() {
    let p = 8_333u64;
    let b = 100_000u64;
    let mut q = EyeQueue::default();
    q.enqueue(true, None, p);
    q.enqueue(false, None, p);
    q.enqueue(true, None, p);
    q.enqueue(false, None, p);
    assert_eq!(q.next_eye(b, p), Some(true));
    assert_eq!(q.next_eye(b + p, p), Some(false));
    assert_eq!(q.next_eye(b + 2 * p, p), Some(true));
    assert_eq!(q.next_eye(b + 3 * p, p), Some(false));
    assert_eq!(q.next_eye(b + 4 * p, p), Some(true));
    q.enqueue(true, None, p);
    q.enqueue(false, None, p);
    assert_eq!(q.next_eye(b + 5 * p, p), Some(true));
    assert_eq!(q.next_eye(b + 6 * p, p), Some(false));
    assert_eq!(q.next_eye(b + 7 * p, p), Some(true));
}

#[test]
fn fallback_backlog_reanchors_on_newest() {
    let p = 8_333u64;
    let b = 100_000u64;
    let mut q = EyeQueue::default();
    for i in 0..MAX_QUEUE + 2 {
        q.enqueue(i % 2 == 0, None, p);
    }
    assert_eq!(q.next_eye(b, p), Some(true));
    assert_eq!(q.next_eye(b + p, p), Some(false));
    assert_eq!(q.next_eye(b + 2 * p, p), Some(true));
}

#[test]
fn empty_queue_is_silent_and_present_driven_pops_oldest() {
    let p = 8_333u64;
    let b = 100_000u64;
    let mut q = EyeQueue::default();
    assert!(!q.has_eye());
    assert_eq!(q.next_eye(b, p), None);
    assert_eq!(q.next_eye_present_driven(), None);
    q.enqueue(false, None, p);
    assert_eq!(q.next_eye_present_driven(), Some(false));
    q.enqueue(true, Some(b + 10 * p), p);
    assert_eq!(q.next_eye_present_driven(), Some(true));
    assert_eq!(q.next_eye_present_driven(), Some(true));
}

#[test]
fn startup_stays_silent_until_first_real_eye() {
    let p = 8_333u64;
    let b = 100_000u64;
    let mut q = EyeQueue::default();
    q.last_fired = Some(true);
    assert!(!q.first_dll_eye_fired);
    let _ = q.fallback.len();
    assert_eq!(q.next_eye(b, p), None, "pre-first-eye dip must not freerun");
    assert_eq!(q.next_eye(b + p, p), None, "pre-first-eye dip must not freerun");
    assert_eq!(q.drops.freerun, 0, "no invented eyes before the first real one");
    assert_eq!(q.freerun_since, 0);
    assert!(!q.pending_reanchor, "silence is not a dip, so no re-anchor flag");
    q.enqueue(true, Some(b + 2 * p), p);
    assert_eq!(q.next_eye(b + 2 * p, p), Some(true));
    assert!(q.first_dll_eye_fired, "first real eye flips the launch latch");
    assert_eq!(q.next_eye(b + 3 * p, p), Some(false), "dip freerun resumes after a real fire");
    assert_eq!(q.drops.freerun, 1);
}

#[test]
fn startup_present_driven_stays_silent_until_first_real_eye() {
    let p = 8_333u64;
    let mut q = EyeQueue::default();
    q.last_fired = Some(false);
    assert!(!q.first_dll_eye_fired);
    assert_eq!(q.next_eye_present_driven(), None);
    assert_eq!(q.next_eye_present_driven(), None);
    q.enqueue(false, None, p);
    assert_eq!(q.next_eye_present_driven(), Some(false));
    assert!(q.first_dll_eye_fired);
    assert_eq!(q.next_eye_present_driven(), Some(false), "held eye repeats after launch");
}

#[test]
fn shift_schedule_repins_targets_on_phase_toggle() {
    let p = 8_333u64;
    let b = 100_000u64;
    let mut q = EyeQueue::default();
    q.enqueue(true, Some(b), p);
    q.enqueue(false, Some(b + p), p);
    q.shift_schedule(p as i64);
    assert_eq!(q.next_eye(b, p), None);
    assert_eq!(q.next_eye(b + p, p), Some(true));
    q.shift_schedule(-(p as i64));
    assert_eq!(q.next_eye(b + p, p), Some(false));
}

#[test]
fn reset_clears_held_and_scheduled_phase() {
    let p = 8_333u64;
    let b = 100_000u64;
    let mut q = EyeQueue::default();
    q.enqueue(true, Some(b), p);
    q.enqueue(false, None, p);
    assert!(q.has_eye());
    q.reset();
    assert!(!q.has_eye(), "reset must clear queued, scheduled AND held eyes");
    assert_eq!(q.next_eye(b, p), None);
    assert_eq!(q.next_eye_present_driven(), None);
    q.enqueue(false, Some(b), p);
    assert_eq!(q.next_eye(b, p), Some(false));
}

#[test]
fn ingest_demuxes_stamped_and_legacy_swaps() {
    let b = 100_000u64;
    let p = 8_333u64;
    let mut q = EyeQueue::default();
    q.ingest(&[Swap { eye: EYE_LEFT, t_us: Some(105_000), seq: 1 }], None, p, None, None, None);
    assert_eq!(q.next_eye(b, p), Some(false));
    q.ingest(&[Swap { eye: EYE_RIGHT, t_us: None, seq: 2 }], None, p, Some(b), None, None);
    assert_eq!(q.next_eye(b + p, p), Some(true));
}

#[test]
fn ingest_respaces_same_boundary_eyes_and_alternates() {
    let p = 8_333u64;
    let mut q = EyeQueue::default();
    q.enqueue(false, Some(108_333), p);
    q.enqueue(true, Some(108_333), p);
    q.enqueue(false, Some(124_999), p);
    q.enqueue(true, Some(124_999), p);
    assert_eq!(q.next_eye(108_333, p), Some(false), "L on first slot");
    assert_eq!(q.next_eye(116_666, p), Some(true), "R on next slot");
    assert_eq!(q.next_eye(124_999, p), Some(false), "L on next slot");
    assert_eq!(q.next_eye(133_332, p), Some(true), "R on next slot");
}

#[test]
fn host_phase_preserving_target_never_steps_a_slot() {
    let period = 8333u64;
    let half = (period / 2) as i64;
    let target = 41_665u64;
    let correct_vblank = target - period;
    for report in [
        correct_vblank,
        correct_vblank - period,
        correct_vblank + period,
        correct_vblank + 3,
    ] {
        let desired = report.saturating_add(period);
        let step = phase_preserving_step(target, desired, period);
        assert!(
            step.abs() <= half,
            "re-anchor stepped toward the next/previous slot: report={report} step={step}"
        );
    }
    assert_eq!(
        phase_preserving_step(target, correct_vblank - period + period, period),
        0,
        "early report kept the slot"
    );
    assert_eq!(
        phase_preserving_step(target, correct_vblank + period + period, period),
        0,
        "late report kept the slot"
    );
}

#[test]
fn anchored_loop_advances_one_slot_per_confirmed_vblank() {
    let p = 8_333u64;
    let mut confirmed = 100_000u64;
    let mut target: Option<u64> = None;
    for i in 0..8u64 {
        let advanced = target.map(|t| t.saturating_add(p));
        let desired = confirmed.saturating_add(p);
        target = Some(match advanced {
            None => desired,
            Some(prev) => {
                let step = phase_preserving_step(prev, desired, p);
                (prev as i64 + step).max(0) as u64
            }
        });
        let t = target.unwrap();
        assert_eq!(
            t,
            confirmed + p,
            "iteration {i}: fire target must sit exactly one period after \
             the just-confirmed vblank"
        );
        confirmed = t;
    }

    let frozen_target = 108_333u64;
    let frozen_confirmed = 108_333u64;
    assert_eq!(
        phase_preserving_step(frozen_target, frozen_confirmed + p, p),
        0,
        "prev == confirmed folds desired == confirmed + period to a zero step"
    );
}

#[test]
fn ingest_fifo_pins_even_stale_submits_to_next_boundary() {
    let p = 8_333u64;
    let confirmed = 1_000_000u64;
    let armed = confirmed + p;
    let mut q = EyeQueue::default();
    let stale = Swap { eye: EYE_RIGHT, t_us: Some(confirmed - 13 * p), seq: 3 };
    q.ingest(&[stale], None, p, Some(armed), None, None);
    assert_eq!(q.drops.overdue, 0, "no overdue drop at ingest");
    assert_eq!(
        q.next_eye(armed, p),
        Some(true),
        "the stale-submit eye fires DUE on the armed boundary"
    );
    assert_eq!(q.drops.overdue, 0, "real eye fired, nothing dropped");

    let mut q2 = EyeQueue::default();
    q2.enqueue(false, Some(armed), p);
    q2.enqueue(true, Some(armed + p), p);
    assert_eq!(q2.next_eye(armed, p), Some(false), "L on B1");
    assert_eq!(q2.next_eye(armed + p, p), Some(true), "R on B2");
    assert_eq!(q2.drops.overdue, 0, "no overdue drops");
}

#[test]
fn ingest_stamped_pin_wins_over_the_fifo_guess() {
    let p = 8_333u64;
    let ref_vb = 1_000_000u64;
    let mut q = EyeQueue::default();
    let swap = Swap { eye: EYE_LEFT, t_us: Some(123), seq: 1 };
    q.ingest(&[swap], None, p, Some(1_008_333), Some(ref_vb), Some(1_004_000));
    assert_eq!(
        q.front_boundary(),
        Some(1_016_666),
        "the eye sits on the armed-served boundary (boundary_after + period)"
    );
    assert_eq!(q.drops.overdue, 0, "not dropped at ingest");
    assert_eq!(
        q.next_eye(1_016_666, p),
        Some(false),
        "fires DUE exactly when the armed grid reaches its boundary"
    );
    assert_eq!(q.drops.overdue, 0, "nothing dropped");
}

#[test]
fn ingest_stamped_keeps_a_true_past_slot_and_lets_it_drop_overdue() {
    let p = 8_333u64;
    let ref_vb = 1_000_000u64;
    let mut q = EyeQueue::default();
    let swap = Swap { eye: EYE_RIGHT, t_us: Some(1), seq: 1 };
    q.ingest(&[swap], None, p, Some(1_016_666), Some(ref_vb), Some(983_333));
    assert_eq!(
        q.front_boundary(),
        Some(991_667),
        "must keep the true (already-scanned) slot"
    );
    assert_eq!(q.drops.overdue, 0, "not dropped at ingest -- it is still pending");
    q.next_eye(1_016_666, p);
    assert!(q.drops.overdue >= 1, "a past slot must drop, never replay");
}

#[test]
fn ingest_stamped_pair_respaces_to_consecutive_slots() {
    let p = 8_333u64;
    let ref_vb = 1_000_000u64;
    let mut q = EyeQueue::default();
    let pair = [
        Swap { eye: EYE_LEFT, t_us: Some(1), seq: 1 },
        Swap { eye: EYE_RIGHT, t_us: Some(2), seq: 2 },
    ];
    q.ingest(&pair, None, p, None, Some(ref_vb), Some(1_004_000));
    assert_eq!(
        q.scheduled.iter().map(|&(b, _)| b).collect::<Vec<_>>(),
        vec![1_016_666, 1_024_999],
        "L keeps B2, R is re-spaced onto B3"
    );
    assert_eq!(q.next_eye(1_016_666, p), Some(false), "L on B2");
    assert_eq!(q.next_eye(1_024_999, p), Some(true), "R on B3");
    assert_eq!(q.drops.overdue, 0, "nothing dropped");
}

#[test]
fn floored_next_boundary_never_starts_behind_the_tail() {
    let p = 8_333u64;

    assert_eq!(floored_next_boundary(None, 500_000, p), 500_000);

    assert_eq!(floored_next_boundary(Some(500_000), 500_000 + p, p), 500_000 + p);
    assert_eq!(floored_next_boundary(Some(500_000), 500_000 + 5 * p, p), 500_000 + 5 * p);

    assert_eq!(floored_next_boundary(Some(500_000), 500_000, p), 500_000 + p);
    assert_eq!(floored_next_boundary(Some(500_000), 500_000 - 3 * p, p), 500_000 + p);
}

#[test]
fn ingest_floors_a_lagging_guess_onto_the_schedule_tail() {
    let p = 8_333u64;
    let mut q = EyeQueue::default();
    let mut b = floored_next_boundary(q.scheduled.back().map(|&(t, _)| t), 1_000_000, p);
    q.enqueue(false, Some(b), p);
    b = b.saturating_add(p);
    q.enqueue(true, Some(b), p);
    assert_eq!(
        q.scheduled.iter().map(|&(bd, _)| bd).collect::<Vec<_>>(),
        vec![1_000_000, 1_000_000 + p],
    );

    let stale_guess = 1_000_000;
    let mut b2 = floored_next_boundary(q.scheduled.back().map(|&(t, _)| t), stale_guess, p);
    assert_eq!(b2, 1_000_000 + 2 * p, "must floor to tail+period, not the stale guess");
    q.enqueue(false, Some(b2), p);
    b2 = b2.saturating_add(p);
    q.enqueue(true, Some(b2), p);

    assert_eq!(
        q.scheduled.iter().map(|&(bd, _)| bd).collect::<Vec<_>>(),
        vec![1_000_000, 1_000_000 + p, 1_000_000 + 2 * p, 1_000_000 + 3 * p],
        "four distinct, correctly-spaced boundaries -- no collision-walk needed"
    );
    assert_eq!(q.drops.coalesced, 0);
    assert_eq!(q.drops.overdue, 0);
}

fn drive_stable(inv: &mut InversionState, b: u64, p: u64, r: bool, slots: u32) -> bool {
    let mut last = false;
    for i in 0..slots {
        let even = i % 2 == 0;
        let fired = if even { r } else { !r };
        last = inv.observe(b + i as u64 * p, p, fired);
    }
    last
}

#[test]
fn inversion_state_reference_locks_after_stable_run() {
    let p = 8_333u64;
    let b = 100_000u64;
    let mut inv = InversionState::default();
    assert!(!drive_stable(&mut inv, b, p, true, 2 * (INVERSION_REF_STABLE_FIRES - 1)));
    assert_eq!(inv.ref_boundary, None, "reference must not lock prematurely");
    assert_eq!(inv.cand_phase, Some(true), "candidate tracks even-parity R");
    assert!(!drive_stable(&mut inv, b, p, true, 2));
    assert_eq!(inv.ref_boundary, Some(b));
    assert_eq!(inv.ref_phase, Some(true));
    assert_eq!(inv.cand_boundary, None, "candidate consumed by the lock");
}

#[test]
fn inversion_state_stable_session_never_toggles() {
    let p = 8_333u64;
    let b = 100_000u64;
    let mut inv = InversionState::default();
    drive_stable(&mut inv, b, p, true, 2 * INVERSION_REF_STABLE_FIRES);
    assert!(!drive_stable(&mut inv, b, p, true, 40));
    assert_eq!(inv.ref_phase, Some(true));
}

#[test]
fn inversion_state_detects_a_slot_shift() {
    let p = 8_333u64;
    let b = 100_000u64;
    let mut inv = InversionState::default();
    drive_stable(&mut inv, b, p, true, 2 * INVERSION_REF_STABLE_FIRES);
    assert!(
        inv.observe(b + 2 * p, p, false),
        "same-parity fire of the opposite eye must flag inversion"
    );
    assert!(!inv.observe(b + p, p, true));
}

#[test]
fn inversion_state_clear_reestablishes_reference() {
    let p = 8_333u64;
    let b = 100_000u64;
    let mut inv = InversionState::default();
    drive_stable(&mut inv, b, p, true, 2 * INVERSION_REF_STABLE_FIRES);
    assert_eq!(inv.ref_phase, Some(true));
    inv.clear();
    assert_eq!(inv.ref_boundary, None);
    assert_eq!(inv.ref_phase, None);
    drive_stable(&mut inv, b + 3 * p, p, false, 2 * INVERSION_REF_STABLE_FIRES);
    assert_eq!(inv.ref_phase, Some(false));
    assert!(!inv.observe(b + 5 * p, p, false));
    assert!(!inv.observe(b + 6 * p, p, true));
}

#[test]
fn inversion_state_self_corrects_without_oscillation() {
    let p = 8_333u64;
    let b = 100_000u64;
    let mut inv = InversionState::default();
    drive_stable(&mut inv, b, p, true, 2 * INVERSION_REF_STABLE_FIRES);

    assert!(inv.observe(b + 2 * p, p, false));

    assert!(!inv.observe(b + 4 * p, p, true));
    assert!(!inv.observe(b + 6 * p, p, true));
    assert!(!inv.observe(b + p, p, false));
    assert!(!inv.observe(b + 3 * p, p, false));
}

#[test]
fn inversion_state_symmetric_for_odd_lockin() {
    let p = 8_333u64;
    let b = 100_000u64;
    let mut inv = InversionState::default();
    let b0 = b + p;
    for i in 0..(2 * INVERSION_REF_STABLE_FIRES) {
        let even = i % 2 == 0;
        let fired = if even { false } else { true };
        inv.observe(b0 + i as u64 * p, p, fired);
    }
    assert_eq!(inv.ref_phase, Some(false), "odd-parity lock-in is L");
    assert!(inv.observe(b0 + 2 * p, p, true), "odd-parity shift detected");
    assert!(!inv.observe(b0 + p, p, false));
}

#[test]
fn inversion_state_does_not_lock_during_startup_thrash() {
    let p = 8_333u64;
    let b = 100_000u64;
    let mut inv = InversionState::default();
    for i in 0..(2 * INVERSION_REF_STABLE_FIRES) {
        let even = i % 2 == 0;
        let fired = if even { i % 4 < 2 } else { !(i % 4 < 2) };
        inv.observe(b + i as u64 * p, p, fired);
    }
    assert_eq!(
        inv.ref_boundary, None,
        "thrashing phase must never lock a reference"
    );
    assert!(!drive_stable(&mut inv, b, p, true, 2 * INVERSION_REF_STABLE_FIRES));
    assert_eq!(inv.ref_boundary, Some(b));
    assert_eq!(inv.ref_phase, Some(true));
    assert!(
        inv.observe(b + 2 * p, p, false),
        "after stabilization the detector must catch a real late flip"
    );
    assert!(
        inv.observe(b + 4 * p, p, false),
        "still locked and still flagging until the renderer swaps"
    );
}

#[test]
fn inversion_state_detects_end_of_session_reanchor_flip() {
    let p = 8_333u64;
    let b = 100_000u64;
    let mut inv = InversionState::default();
    drive_stable(&mut inv, b, p, true, 2 * INVERSION_REF_STABLE_FIRES + 40);
    assert_eq!(inv.ref_phase, Some(true), "correct phase locked");

    assert!(
        inv.observe(b + 2 * p, p, false),
        "the flip must be detected on the first same-parity real fire"
    );
    assert!(!inv.observe(b + 4 * p, p, true), "self-corrected, quiet");
    assert!(!inv.observe(b + p, p, false));
    assert!(!inv.observe(b + 3 * p, p, false));
}

#[test]
fn drift_resync_keeps_front_bounded_before_overdue() {
    let p = 8_333u64;
    let boundary = 100_000u64;
    let mut q = EyeQueue::default();
    let lag = p / DRIFT_LAG_ALIGN_PERIOD_DIV + 1;
    assert!(lag < p / 2, "test drift must stay below the overdue threshold");
    q.enqueue(false, Some(boundary - lag), p);
    q.enqueue(true, Some(boundary - lag + p), p);
    q.enqueue(false, Some(boundary - lag + 2 * p), p);

    let fired = q.next_eye(boundary, p);
    assert_eq!(fired, Some(false), "re-synced front eye fires at the armed boundary");
    assert!(!q.pending_reanchor, "early re-sync must not set pending_reanchor");
    assert_eq!(
        q.drops.overdue, 0,
        "early re-sync must not trigger the overdue drop path"
    );
    let next_front = q.front_boundary().unwrap_or(boundary + p);
    let lag_limit = p / DRIFT_LAG_ALIGN_PERIOD_DIV;
    assert!(
        next_front + lag_limit >= boundary + p,
        "front {next_front} must sit within period/8 of the next armed boundary {}",
        boundary + p
    );
}

#[test]
fn drift_resync_preserves_eye_slot_pairing() {
    let p = 8_333u64;
    let boundary = 100_000u64;
    let build = |q: &mut EyeQueue, off: u64| {
        q.enqueue(false, Some(boundary - off), p);
        q.enqueue(true, Some(boundary - off + p), p);
        q.enqueue(false, Some(boundary - off + 2 * p), p);
    };
    let mut clean = EyeQueue::default();
    build(&mut clean, 0);
    let mut clean_fired = Vec::new();
    for i in 0..3u64 {
        clean_fired.push(clean.next_eye(boundary + i * p, p));
    }
    assert_eq!(clean_fired, vec![Some(false), Some(true), Some(false)]);
    let mut drifted = EyeQueue::default();
    build(&mut drifted, p / DRIFT_LAG_ALIGN_PERIOD_DIV + 1);
    let mut drifted_fired = Vec::new();
    for i in 0..3u64 {
        drifted_fired.push(drifted.next_eye(boundary + i * p, p));
    }
    assert_eq!(
        drifted_fired, clean_fired,
        "drift re-sync must preserve the eye->slot pairing exactly"
    );
}

#[test]
fn drift_resync_does_not_churn_on_small_lag() {
    let p = 8_333u64;
    let boundary = 100_000u64;
    let mut q = EyeQueue::default();
    q.enqueue(false, Some(boundary), p);
    q.enqueue(true, Some(boundary + p), p);
    let fired = q.next_eye(boundary, p);
    assert_eq!(fired, Some(false));
    let mut q = EyeQueue::default();
    q.enqueue(false, Some(boundary - 5), p);
    q.enqueue(true, Some(boundary - 5 + p), p);
    let fired = q.next_eye(boundary, p);
    assert_eq!(fired, Some(false));
    assert_eq!(
        q.front_boundary(),
        Some(boundary + p - 5),
        "sub-threshold lag leaves the schedule exactly where it is"
    );
}

#[test]
fn stall_overdue_drops_passed_eye_without_rebaseline_or_reanchor() {
    let p = 8_333u64;
    let b = 100_000u64;
    let mut q = EyeQueue::default();
    q.enqueue(true, Some(b), p);
    q.enqueue(false, Some(b + p), p);
    q.enqueue(true, Some(b + 2 * p), p);
    q.enqueue(false, Some(b + 3 * p), p);

    assert_eq!(q.next_eye(b, p), Some(true), "R fires on b");
    assert!(!q.pending_reanchor);

    assert_eq!(
        q.next_eye(b + 2 * p, p),
        Some(true),
        "grid-aligned R fires on b+2p"
    );
    assert_eq!(q.drops.overdue, 1, "only the passed slot is dropped");
    assert!(
        !q.pending_reanchor,
        "an on-grid stall must not flag a re-anchor (phase is authoritative)"
    );
    assert_eq!(
        q.front_boundary(),
        Some(b + 3 * p),
        "the survivor keeps its ORIGINAL on-grid pin; no whole-stream shift"
    );
    assert_eq!(
        q.next_eye(b + 3 * p, p),
        Some(false),
        "L fires on b+3p: the eye->slot pairing is exactly the pre-stall grid"
    );
}

#[test]
fn drift_resync_pulls_front_back_when_leading() {
    let p = 8_333u64;
    let boundary = 100_000u64;
    let mut q = EyeQueue::default();
    let lead = p / DRIFT_LAG_ALIGN_PERIOD_DIV + 1;
    assert!(lead < p / 2, "test lead must stay below the overdue threshold");
    q.enqueue(true, Some(boundary + lead), p);
    q.enqueue(false, Some(boundary + lead + p), p);
    q.enqueue(true, Some(boundary + lead + 2 * p), p);

    let fired = q.next_eye(boundary, p);
    assert_eq!(
        fired,
        Some(true),
        "the re-based front eye fires at the armed boundary, not its stale lead"
    );
    assert!(!q.pending_reanchor, "early re-sync must not set pending_reanchor");
    assert_eq!(q.drops.overdue, 0, "early re-sync must not trigger the overdue path");
    let next_front = q.front_boundary().unwrap_or(boundary + p);
    let align_limit = p / DRIFT_LAG_ALIGN_PERIOD_DIV;
    assert!(
        (next_front as i64 - (boundary + p) as i64).abs() <= align_limit as i64,
        "front {next_front} must sit within period/8 of the next armed boundary {}",
        boundary + p
    );
}

fn drive_stamped_boundary(
    q: &mut EyeQueue,
    p: u64,
    last_vblank: &mut u64,
    guard: bool,
) -> (u64, Option<bool>) {
    let guess = last_vblank.saturating_add(p.saturating_mul(2));
    if guard {
        q.purge_stuck_ahead(guess, p);
    }
    let boundary =
        floored_next_boundary(q.scheduled.back().map(|&(t, _)| t), guess, p);
    let eye = (*last_vblank / p) % 2 != 0;
    q.enqueue(eye, Some(boundary), p);
    let confirmed = *last_vblank + p;
    *last_vblank = confirmed;
    let armed = confirmed + p;
    (armed, q.next_eye(armed, p))
}

fn drive_phase3_boundary(
    q: &mut EyeQueue,
    p: u64,
    last_vblank: &mut u64,
    guard: bool,
    batch: bool,
) -> (u64, Option<bool>) {
    if batch {
        let guess = last_vblank.saturating_add(p.saturating_mul(2));
        if guard {
            q.purge_stuck_ahead(guess, p);
        }
        let boundary = floored_next_boundary(q.scheduled.back().map(|&(t, _)| t), guess, p);
        let eye = (*last_vblank / p) % 2 != 0;
        q.enqueue(eye, Some(boundary), p);
        q.enqueue(!eye, Some(boundary + p), p);
    }
    let confirmed = *last_vblank + p;
    *last_vblank = confirmed;
    let armed = confirmed + p;
    (armed, q.next_eye(armed, p))
}

#[test]
fn stuck_ahead_guard_drops_only_a_front_beyond_the_due_window() {
    let p = 8_333u64;
    let guess = 100_000u64;
    let mut q = EyeQueue::default();
    q.enqueue(false, Some(guess - 100), p);
    q.enqueue(true, Some(guess + p / 2), p);
    q.purge_stuck_ahead(guess, p);
    assert_eq!(
        q.scheduled.len(),
        2,
        "healthy schedule (front within the due window) must survive the guard"
    );
    let mut q = EyeQueue::default();
    q.enqueue(false, Some(guess + p), p);
    q.enqueue(true, Some(guess + 2 * p), p);
    q.purge_stuck_ahead(guess, p);
    assert!(
        q.scheduled.is_empty(),
        "stuck-ahead storm schedule must be purged"
    );
    let mut q = EyeQueue::default();
    q.enqueue(false, Some(guess + 4 * p), p);
    q.enqueue(true, Some(guess + 5 * p), p);
    q.purge_stuck_ahead(guess, p);
    assert!(q.scheduled.is_empty());
    let mut q = EyeQueue::default();
    q.purge_stuck_ahead(guess, p);
    assert!(q.scheduled.is_empty());
}

#[test]
fn stuck_ahead_storm_recovers_to_on_time_real_fires() {
    let p = 8_333u64;
    let mut q = EyeQueue::default();
    let mut last_vblank = 100_000u64;
    let first_arm = last_vblank + 2 * p;
    q.enqueue(false, Some(first_arm + 2 * p), p);
    q.enqueue(true, Some(first_arm + 3 * p), p);

    let mut freeruns = 0u64;
    let mut reals = 0u64;
    for _ in 0..200u64 {
        let (_, fired) = drive_stamped_boundary(&mut q, p, &mut last_vblank, true);
        if let Some(_f) = fired {
            if q.last_was_freerun {
                freeruns += 1;
            } else {
                reals += 1;
            }
        }
    }
    assert!(
        freeruns <= 2,
        "storm must break within ~1 recovery slot, got {freeruns} freeruns"
    );
    assert!(
        reals >= 195,
        "the stream must re-anchor and fire real DLL eyes, got {reals} real fires"
    );
    assert_eq!(
        q.freerun_since, 0,
        "no ongoing freerun once the schedule is on-time"
    );
    assert!(
        !q.pending_reanchor,
        "no pending re-anchor once the schedule is on-time"
    );
    let arm_after = last_vblank + p;
    match q.front_boundary() {
        None => {}
        Some(f) => assert!(
            f <= arm_after + p / 2,
            "front {f} must sit within the due window of armed {arm_after}"
        ),
    }
}

#[test]
fn stuck_ahead_storm_control_storms_without_the_guard() {
    let p = 8_333u64;
    let mut q = EyeQueue::default();
    let mut last_vblank = 100_000u64;
    let first_arm = last_vblank + 2 * p;
    q.enqueue(false, Some(first_arm + 2 * p), p);
    q.enqueue(true, Some(first_arm + 3 * p), p);
    q.first_dll_eye_fired = true;

    let mut freeruns = 0u64;
    let mut reals = 0u64;
    for _ in 0..200u64 {
        let (_, fired) = drive_stamped_boundary(&mut q, p, &mut last_vblank, false);
        if let Some(_f) = fired {
            if q.last_was_freerun {
                freeruns += 1;
            } else {
                reals += 1;
            }
        }
    }
    assert!(
        reals <= 10 && freeruns >= 180,
        "control: without the guard the stream must storm \
         (reals={reals} freeruns={freeruns})"
    );
}

#[test]
fn healthy_pipeline_never_trips_the_stuck_ahead_guard() {
    let p = 8_333u64;
    let mut q = EyeQueue::default();
    let mut last_vblank = 100_000u64;
    let mut freeruns = 0u64;
    for _ in 0..200u64 {
        let (_, fired) = drive_stamped_boundary(&mut q, p, &mut last_vblank, true);
        if let Some(_f) = fired {
            if q.last_was_freerun {
                freeruns += 1;
            }
        }
    }
    assert_eq!(freeruns, 0, "healthy stream must fire real eyes every slot");
    assert!(!q.pending_reanchor, "guard must never trip on a healthy stream");
}

#[test]
fn stuck_ahead_guard_breaks_phase3_due_window_storm() {
    let p = 8_333u64;
    let mut q = EyeQueue::default();
    let mut last_vblank = 100_000u64;
    let first_arm = last_vblank + 2 * p;
    q.enqueue(false, Some(first_arm + (7 * p) / 8), p);
    q.enqueue(true, Some(first_arm + (7 * p) / 8 + p), p);
    q.freerun_since = DIP_RESYNC_AFTER_FREERUN_SLOTS;
    q.pending_reanchor = true;

    let mut freeruns = 0u64;
    let mut reals = 0u64;
    for i in 0..400u64 {
        let (_, fired) = drive_phase3_boundary(&mut q, p, &mut last_vblank, true, i % 2 == 0);
        if let Some(_f) = fired {
            if q.last_was_freerun {
                freeruns += 1;
            } else {
                reals += 1;
            }
        }
    }
    assert!(
        freeruns <= 4,
        "due-window guard must break the phase-3 storm, got {freeruns} freeruns"
    );
    assert!(
        reals >= 390,
        "schedule must re-anchor at the frontier and fire real eyes, got {reals}"
    );
    assert_eq!(q.freerun_since, 0, "no ongoing freerun after recovery");
    assert!(!q.pending_reanchor, "no pending re-anchor after recovery");
}

#[test]
fn stuck_ahead_guard_phase3_control_storms_without_the_guard() {
    let p = 8_333u64;
    let mut q = EyeQueue::default();
    let mut last_vblank = 100_000u64;
    let first_arm = last_vblank + 2 * p;
    q.enqueue(false, Some(first_arm + (7 * p) / 8), p);
    q.enqueue(true, Some(first_arm + (7 * p) / 8 + p), p);
    q.freerun_since = DIP_RESYNC_AFTER_FREERUN_SLOTS;
    q.pending_reanchor = true;
    q.first_dll_eye_fired = true;

    let mut freeruns = 0u64;
    let mut reals = 0u64;
    for i in 0..400u64 {
        let (_, fired) = drive_phase3_boundary(&mut q, p, &mut last_vblank, false, i % 2 == 0);
        if let Some(_f) = fired {
            if q.last_was_freerun {
                freeruns += 1;
            } else {
                reals += 1;
            }
        }
    }
    assert!(
        reals <= 10 && freeruns >= 380,
        "control: without the guard phase 3 must storm (reals={reals} freeruns={freeruns})"
    );
}

#[test]
fn a_drain_fires_one_eye_per_slot_in_its_own_order() {
    let p = 8_333u64;
    let start = 500_000u64;
    let eyes = [EYE_RIGHT, EYE_LEFT, EYE_LEFT, EYE_RIGHT, EYE_LEFT];
    let swaps: Vec<Swap> =
        eyes.iter().map(|&eye| Swap { eye, t_us: None, seq: 0 }).collect();
    let mut q = EyeQueue::default();
    q.ingest(&swaps, None, p, Some(start), None, None);
    for (i, &eye) in eyes.iter().enumerate() {
        assert_eq!(q.front_boundary(), Some(start + i as u64 * p));
        assert_eq!(q.next_eye(start + i as u64 * p, p), Some(eye == EYE_RIGHT));
        assert!(!q.last_was_freerun);
    }
    assert_eq!((q.drops.overdue, q.drops.coalesced, q.drops.freerun), (0, 0, 0));
}
