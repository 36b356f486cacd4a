//! The decisions of the host loop.
//!
//! The loop around a [`Session`] drains the ring, waits for vblanks and writes
//! packets; the session decides what to queue, what to fire and when, and what
//! to tell the renderer.  Clock readings are microseconds of one monotonic
//! clock of the caller.

use crate::host::eye_queue;
use crate::host::eye_queue::{DropDiagnostic, EyeQueue, QueueState};
use crate::host::grid;
use crate::host::inversion::InversionState;
use crate::host::stats::{DrainWindow, StreamState, StreamStats};
use crate::nvstusb::drm;
use crate::nvstusb::drm::{DrmVblank, Prediction, ALARM_DELAY_US, SNAP_MARGIN_US};
use crate::shm::Swap;
use vstd::prelude::*;

verus! {

/// Two packets are never sent closer together than this.
pub const LOCK_MIN_FIRE_GAP_US: u64 = 7900;

/// Lead of the packet before its boundary when nothing else is configured.
pub const DEFAULT_HOST_LEAD_US: u64 = 3100;

/// A game that has not pushed a swap for longer than this is gone.
pub const ALIVE_US: u64 = 300_000;

/// What the host loop remembers between iterations.
#[derive(Debug)]
pub struct Session {
    /// The eyes the game reported.
    pub pending: EyeQueue,
    pub inversion: InversionState,
    pub stats: StreamStats,
    pub window: DrainWindow,
    /// The producer stamps its swaps: eyes are pinned to boundaries.
    pub stamped_mode: bool,
    /// The eyes are swapped on the wire.
    pub manual_invert: bool,
    pub button_was_down: bool,
    pub was_alive: bool,
    /// The prediction has to be put on the grid at the next vblank.
    pub force_grid_resync: bool,
    /// Clock reading of the last swap.
    pub last_swap: Option<u64>,
    /// Last confirmed vblank, in host-epoch time.
    pub last_vblank: Option<u64>,
    /// Clock reading of the last anchored packet.
    pub last_fire: Option<u64>,
}

/// A [`Session`] as plain values.
pub struct SessionState {
    pub queue: QueueState,
    pub inversion: InversionState,
    pub stats: StreamState,
    pub window: DrainWindow,
    pub stamped_mode: bool,
    pub manual_invert: bool,
    pub button_was_down: bool,
    pub was_alive: bool,
    pub force_grid_resync: bool,
    pub last_swap: Option<u64>,
    pub last_vblank: Option<u64>,
    pub last_fire: Option<u64>,
}

impl View for Session {
    type V = SessionState;

    open spec fn view(&self) -> SessionState {
        SessionState {
            queue: self.pending@,
            inversion: self.inversion,
            stats: self.stats@,
            window: self.window,
            stamped_mode: self.stamped_mode,
            manual_invert: self.manual_invert,
            button_was_down: self.button_was_down,
            was_alive: self.was_alive,
            force_grid_resync: self.force_grid_resync,
            last_swap: self.last_swap,
            last_vblank: self.last_vblank,
            last_fire: self.last_fire,
        }
    }
}

/// What a press of the emitter's button asks for.
#[derive(Clone, Copy, Debug, PartialEq, Eq, Structural)]
pub enum ButtonAction {
    /// Nothing: the button was not pressed just now.
    Nothing,
    /// The renderer's swap flag takes this value.
    SetRendererFlag(bool),
    /// The swap on the wire took this value.
    SwappedOnWire(bool),
}

/// A packet to send.
#[derive(Clone, Copy, Debug, PartialEq, Eq, Structural)]
pub struct Fire {
    /// The eye on the wire: `true` is right.
    pub right: bool,
    /// Boundary that the packet is for.
    pub target: u64,
    /// Clock reading to wait for before sending.
    pub not_before: Option<u64>,
}

impl QueueState {
    /// Without any queued eye or held phase.
    pub open spec fn forgotten(self) -> QueueState {
        QueueState {
            fallback: Seq::empty(),
            scheduled: Seq::empty(),
            last_fired: None,
            freerun_since: 0,
            pending_reanchor: false,
            last_was_freerun: false,
            ..self
        }
    }
}

impl SessionState {
    /// The game pushed a swap recently.
    pub open spec fn alive(self, clock: u64) -> bool {
        self.last_swap matches Some(t) && clock.saturating_sub(t) <= ALIVE_US
    }

    /// The boundary that the coming slot will arm, as far as it is known before
    /// the slot's own vblank: two periods after the last confirmed vblank.
    pub open spec fn frontier(self, anchor: Option<&DrmVblank>) -> Option<u64> {
        match (anchor, self.last_vblank) {
            (Some(a), Some(v)) if self.stamped_mode => Some(
                (v + 2 * grid::step(a.period_us)) as u64,
            ),
            _ => None,
        }
    }

    /// After the ring's layout was seen to be `stamped`.
    pub open spec fn with_mode(self, stamped: bool) -> SessionState {
        if stamped == self.stamped_mode {
            self
        } else {
            SessionState {
                stamped_mode: stamped,
                queue: if stamped {
                    QueueState { fallback: Seq::empty(), ..self.queue }
                } else {
                    QueueState { scheduled: Seq::empty(), ..self.queue }
                },
                ..self
            }
        }
    }

    /// After a drain at the top of an iteration.
    pub open spec fn with_drain(self, swaps: Seq<Swap>, anchor: Option<&DrmVblank>, clock: u64) ->
        SessionState {
        if swaps.len() == 0 {
            self
        } else {
            let counted = drained(self.window, swaps.len());
            SessionState {
                queue: self.queue.with_drain(
                    swaps,
                    anchor,
                    grid::step(period_of(anchor)),
                    self.frontier(anchor),
                    self.last_vblank,
                    None,
                ),
                last_swap: Some(clock),
                window: match (anchor, self.last_vblank) {
                    (Some(a), Some(v)) => lead_sampled(
                        counted,
                        clock.saturating_sub(a.epoch_us),
                        v,
                        a.period_us,
                    ),
                    _ => counted,
                },
                ..self
            }
        }
    }

    /// After a drain right after the wait for `vblank`.
    pub open spec fn with_late_drain(
        self,
        swaps: Seq<Swap>,
        anchor: &DrmVblank,
        vblank: u64,
        clock: u64,
    ) -> SessionState {
        if swaps.len() == 0 {
            self
        } else {
            SessionState {
                queue: self.queue.with_drain(
                    swaps,
                    Some(anchor),
                    grid::step(anchor.period_us),
                    Some((vblank + anchor.period_us) as u64),
                    Some(vblank),
                    None,
                ),
                last_swap: Some(clock),
                window: drained(self.window, swaps.len()),
                ..self
            }
        }
    }

    /// After the window moved to another display.
    pub open spec fn moved(self) -> SessionState {
        SessionState {
            last_vblank: None,
            queue: self.queue.forgotten(),
            inversion: InversionState::blank(),
            ..self
        }
    }

    /// After a look at the game's liveness.
    pub open spec fn checked(self, clock: u64) -> SessionState {
        let alive = self.alive(clock);
        SessionState {
            was_alive: alive,
            queue: if self.was_alive && !alive {
                self.queue.forgotten()
            } else {
                self.queue
            },
            inversion: if self.was_alive && !alive {
                InversionState::blank()
            } else {
                self.inversion
            },
            force_grid_resync: self.force_grid_resync || (!self.was_alive && alive),
            ..self
        }
    }

    /// After a reading of the button, and what it asks for.
    pub open spec fn with_button(self, down: bool, renderer_flag: bool) -> (
        SessionState,
        ButtonAction,
    ) {
        if !down || self.button_was_down {
            (SessionState { button_was_down: down, ..self }, ButtonAction::Nothing)
        } else if self.stamped_mode {
            (
                SessionState {
                    button_was_down: true,
                    inversion: InversionState::blank(),
                    ..self
                },
                ButtonAction::SetRendererFlag(!renderer_flag),
            )
        } else {
            (
                SessionState {
                    button_was_down: true,
                    manual_invert: !self.manual_invert,
                    ..self
                },
                ButtonAction::SwappedOnWire(!self.manual_invert),
            )
        }
    }

    /// After a wait confirmed `vblank`.
    pub open spec fn begun(self, vblank: u64) -> SessionState {
        SessionState {
            last_vblank: Some(vblank),
            force_grid_resync: false,
            queue: if self.last_vblank is None && self.stamped_mode {
                QueueState { fallback: Seq::empty(), ..self.queue }
            } else {
                self.queue
            },
            ..self
        }
    }

    /// The prediction after a wait confirmed `vblank`.
    pub open spec fn begun_prediction(self, p: Prediction, vblank: u64, period: u64) -> Prediction {
        if self.last_vblank is None || self.force_grid_resync {
            Prediction { next: vblank.saturating_add(period) as int, ..p }
        } else {
            p
        }
    }

    /// The state after the boundary `target` was armed, and the eye that is
    /// served on it.
    pub open spec fn served(self, target: int, period: int) -> (SessionState, Option<bool>) {
        if self.queue.fallback.len() > 0 || self.queue.scheduled.len() > 0
            || self.queue.last_fired is Some {
            let (queue, eye) = self.queue.next(target, period);
            (SessionState { queue, ..self }, eye)
        } else {
            (self, None)
        }
    }

    /// The eye on the wire.
    pub open spec fn on_wire(self, eye: bool) -> bool {
        eye != self.manual_invert
    }

    /// When a packet with that deadline may go out.
    pub open spec fn spaced(self, deadline: u64) -> u64 {
        match self.last_fire {
            Some(prev) if deadline < prev.saturating_add(LOCK_MIN_FIRE_GAP_US) =>
                prev.saturating_add(LOCK_MIN_FIRE_GAP_US),
            _ => deadline,
        }
    }

    /// The state after an anchored packet went out, and whether it shows that
    /// the view is inverted.
    pub open spec fn with_sent(self, fire: Fire, period: u64, clock: u64) -> (SessionState, bool) {
        let watched = self.stamped_mode && !self.queue.last_was_freerun;
        let (inversion, inverted) = self.inversion.observed(fire.target, period, fire.right);
        (
            SessionState {
                last_fire: Some(clock),
                stats: self.stats.with_packet(fire.right, clock),
                inversion: if watched {
                    inversion
                } else {
                    self.inversion
                },
                ..self
            },
            watched && inverted,
        )
    }

    /// The state after an unpaced fire, and the eye on the wire.
    pub open spec fn served_unpaced(self) -> (SessionState, Option<bool>) {
        let (queue, eye) = self.queue.next_unpaced();
        (
            SessionState { queue, ..self },
            match eye {
                Some(e) => Some(self.on_wire(e)),
                None => None,
            },
        )
    }
}

/// The last boundary that a packet can no longer reach at `clock`.
pub open spec fn reach(anchor: &DrmVblank, lead_us: u32, clock: u64) -> int {
    clock.saturating_sub(anchor.epoch_us) + ALARM_DELAY_US + lead_us + SNAP_MARGIN_US
}

/// The boundary that is armed at `clock`.
pub open spec fn arm_target(anchor: &DrmVblank, lead_us: u32, clock: u64) -> int {
    if !anchor.broken && anchor.period_us > 0 {
        drm::armed(
            anchor.next_present_us as int,
            anchor.period_us as int,
            reach(anchor, lead_us, clock),
        )
    } else {
        anchor.next_present_us as int
    }
}

/// Clock reading at which the packet for `target` is due.
pub open spec fn deadline_of(anchor: &DrmVblank, target: int, lead_us: u32) -> u64 {
    anchor.epoch_us.saturating_add((target - ALARM_DELAY_US - lead_us) as u64)
}

/// The anchor's period, zero without an anchor.
pub open spec fn period_of(anchor: Option<&DrmVblank>) -> u64 {
    match anchor {
        Some(a) => grid::step(a.period_us) as u64,
        None => 0,
    }
}

/// The window after a drain of `n` swaps.
pub open spec fn drained(w: DrainWindow, n: nat) -> DrainWindow {
    DrainWindow {
        swaps: (w.swaps + n) as u64,
        batches_ge2: (w.batches_ge2 + if n >= 2 {
            1int
        } else {
            0
        }) as u64,
        max_batch: if n > w.max_batch {
            n as usize
        } else {
            w.max_batch
        },
        ..w
    }
}

/// The window after a drain that landed at `now`, when the last vblank was at
/// `vblank`.
pub open spec fn lead_sampled(w: DrainWindow, now: u64, vblank: u64, period: u64) -> DrainWindow {
    if now < vblank || period == 0 {
        w
    } else {
        let to_next = (period - (now - vblank) % (period as int)) as u64;
        DrainWindow {
            lead_n: (w.lead_n + 1) as u64,
            lead_sum: (w.lead_sum + to_next) as u64,
            lead_min: if w.lead_min == 0 || to_next < w.lead_min {
                to_next
            } else {
                w.lead_min
            },
            lead_max: if to_next > w.lead_max {
                to_next
            } else {
                w.lead_max
            },
            ..w
        }
    }
}

impl Default for Session {
    fn default() -> (s: Self)
        ensures
            s.pending.wf(),
            s@ == (SessionState {
                queue: QueueState {
                    fallback: Seq::empty(),
                    scheduled: Seq::empty(),
                    last_fired: None,
                    freerun_since: 0,
                    overdue: 0,
                    coalesced: 0,
                    freerun: 0,
                    stall_hold: eye_queue::STALL_HOLD_AFTER_FREERUN_SLOTS,
                    pending_reanchor: false,
                    last_was_freerun: false,
                    first_fired: false,
                },
                inversion: InversionState::blank(),
                stats: StreamState::empty(
                    false,
                    None,
                    (DropDiagnostic { overdue: 0, coalesced: 0, freerun: 0 }),
                ),
                window: DrainWindow::empty(),
                stamped_mode: false,
                manual_invert: false,
                button_was_down: false,
                was_alive: false,
                force_grid_resync: false,
                last_swap: None,
                last_vblank: None,
                last_fire: None,
            }),
            forall|clock: u64| !s@.alive(clock),
    {
        Session {
            pending: EyeQueue::default(),
            inversion: InversionState::default(),
            stats: StreamStats::default(),
            window: DrainWindow::default(),
            stamped_mode: false,
            manual_invert: false,
            button_was_down: false,
            was_alive: false,
            force_grid_resync: false,
            last_swap: None,
            last_vblank: None,
            last_fire: None,
        }
    }
}

impl Session {
    /// Follows a change of the ring's layout.  The queue that belongs to the
    /// other mode is dropped, so no stale eye mixes in.  Returns whether the
    /// mode changed.
    pub fn observe_mode(&mut self, stamped: bool) -> (changed: bool)
        requires
            old(self).pending.wf(),
        ensures
            changed == (stamped != old(self)@.stamped_mode),
            final(self).pending.wf(),
            final(self)@ == old(self)@.with_mode(stamped),
    {
        if stamped == self.stamped_mode {
            return false;
        }
        if stamped {
            self.pending.clear_fallback();
        } else {
            self.pending.clear_scheduled();
        }
        self.stamped_mode = stamped;
        true
    }

    /// Takes in the swaps that were drained at the top of an iteration.
    ///
    /// A pinned eye goes to the boundary this iteration is going to arm, which
    /// lies two periods after the last confirmed vblank.
    pub fn take_drain(&mut self, swaps: &[Swap], anchor: Option<&DrmVblank>, clock: u64)
        requires
            old(self).pending.wf(),
            period_of(anchor) <= grid::MAX_TIME_US,
            old(self).window.swaps + swaps@.len() <= u64::MAX,
            old(self).window.batches_ge2 < u64::MAX,
            old(self).window.lead_n < u64::MAX,
            old(self).window.lead_sum + period_of(anchor) <= u64::MAX,
            eye_queue::bounded(
                old(self).pending.scheduled@,
                (swaps@.len() + 12) * grid::step(period_of(anchor)),
            ),
            old(self).last_vblank matches Some(v) ==> v + 2 * grid::step(period_of(anchor)) + (
            swaps@.len() + 12) * grid::step(period_of(anchor)) <= grid::MAX_TIME_US,
        ensures
            final(self).pending.wf(),
            final(self)@ == old(self)@.with_drain(swaps@, anchor, clock),
    {
        if swaps.len() == 0 {
            return;
        }
        self.window.count_drain(swaps.len());
        self.last_swap = Some(clock);
        let period: u64 = match anchor {
            Some(a) => grid::at_least_one(a.period_us()),
            None => 0,
        };
        proof {
            assert((swaps@.len() + 12) * grid::step(period) >= 0) by (nonlinear_arith)
                requires
                    grid::step(period) > 0,
            ;
        }
        let frontier: Option<u64> = match (anchor, self.last_vblank) {
            (Some(_), Some(v)) => if self.stamped_mode {
                Some(v + 2 * period)
            } else {
                None
            },
            _ => None,
        };
        self.pending.ingest(swaps, anchor, period, frontier, self.last_vblank, None);
        if let (Some(a), Some(v)) = (anchor, self.last_vblank) {
            self.window.sample_lead(a.host_epoch_us(clock), v, a.period_us());
        }
    }

    /// Takes in the swaps that were drained right after the wait for `vblank`.
    /// They go to the slot that follows it.
    pub fn take_late_drain(&mut self, swaps: &[Swap], anchor: &DrmVblank, vblank: u64, clock: u64)
        requires
            old(self).pending.wf(),
            anchor.period_us <= grid::MAX_TIME_US,
            old(self).window.swaps + swaps@.len() <= u64::MAX,
            old(self).window.batches_ge2 < u64::MAX,
            eye_queue::bounded(
                old(self).pending.scheduled@,
                (swaps@.len() + 12) * grid::step(anchor.period_us),
            ),
            vblank + anchor.period_us + (swaps@.len() + 12) * grid::step(anchor.period_us)
                <= grid::MAX_TIME_US,
        ensures
            final(self).pending.wf(),
            final(self)@ == old(self)@.with_late_drain(swaps@, anchor, vblank, clock),
    {
        if swaps.len() == 0 {
            return;
        }
        self.window.count_drain(swaps.len());
        self.last_swap = Some(clock);
        let period: u64 = anchor.period_us();
        proof {
            assert((swaps@.len() + 12) * grid::step(period) >= 0) by (nonlinear_arith)
                requires
                    grid::step(period) > 0,
            ;
        }
        self.pending.ingest(
            swaps,
            Some(anchor),
            grid::at_least_one(period),
            Some(vblank + period),
            Some(vblank),
            None,
        );
    }

    /// The window moved to another display: the schedule, the grid and the
    /// reference belonged to the old one.
    pub fn move_head(&mut self)
        ensures
            final(self).pending.wf(),
            final(self)@ == old(self)@.moved(),
    {
        self.last_vblank = None;
        self.pending.reset();
        self.inversion.clear();
    }

    /// Whether the game is feeding swaps.
    ///
    /// When it stops, the whole eye phase is forgotten, so the next stream
    /// starts clean.  When it resumes, the prediction is to be put back on the
    /// grid, because it stood still meanwhile.
    pub fn observe_liveness(&mut self, clock: u64) -> (alive: bool)
        requires
            old(self).pending.wf(),
        ensures
            alive == old(self)@.alive(clock),
            final(self).pending.wf(),
            final(self)@ == old(self)@.checked(clock),
    {
        let alive: bool = match self.last_swap {
            Some(t) => clock.saturating_sub(t) <= ALIVE_US,
            None => false,
        };
        if self.was_alive && !alive {
            self.pending.reset();
            self.inversion.clear();
        }
        if !self.was_alive && alive {
            self.force_grid_resync = true;
        }
        self.was_alive = alive;
        alive
    }

    /// Follows the emitter's button.
    ///
    /// Only the transition to pressed counts, so neither a held button nor a
    /// repeated reading swaps the eyes again.  With pinned eyes the renderer is
    /// asked to swap, and the reference is taken anew; otherwise the eyes are
    /// swapped on the wire.
    pub fn observe_button(&mut self, down: bool, renderer_flag: bool) -> (action: ButtonAction)
        ensures
            final(self).pending@ == old(self).pending@,
            (final(self)@, action) == old(self)@.with_button(down, renderer_flag),
    {
        let pressed: bool = down && !self.button_was_down;
        self.button_was_down = down;
        if !pressed {
            ButtonAction::Nothing
        } else if self.stamped_mode {
            self.inversion.clear();
            ButtonAction::SetRendererFlag(!renderer_flag)
        } else {
            self.manual_invert = !self.manual_invert;
            ButtonAction::SwappedOnWire(self.manual_invert)
        }
    }

    /// A wait confirmed `vblank`.
    ///
    /// The first one of a grid, and the first one after the game resumed, put
    /// the prediction on the slot after it.  Eyes that came before the first
    /// grid of a pinned stream are dropped.
    pub fn begin_slot(&mut self, anchor: &mut DrmVblank, vblank: u64)
        requires
            old(self).pending.wf(),
        ensures
            final(self).pending.wf(),
            final(anchor).same_binding(old(anchor)),
            final(anchor).prediction() == old(self)@.begun_prediction(
                old(anchor).prediction(),
                vblank,
                old(anchor).period_us,
            ),
            final(self)@ == old(self)@.begun(vblank),
    {
        let first_grid: bool = self.last_vblank.is_none();
        self.last_vblank = Some(vblank);
        if first_grid {
            anchor.resync_to_vblank(vblank);
            if self.stamped_mode {
                self.pending.clear_fallback();
            }
        }
        if self.force_grid_resync {
            anchor.resync_to_vblank(vblank);
            self.force_grid_resync = false;
        }
    }

    /// Arms the next reachable boundary and picks the packet for it.
    ///
    /// The packet waits for the anchor's deadline, and never follows the
    /// previous one by less than [`LOCK_MIN_FIRE_GAP_US`].  Without a known eye
    /// there is no packet, but the prediction moves along all the same.
    pub fn arm(&mut self, anchor: &mut DrmVblank, lead_us: u32, clock: u64) -> (fire: Option<Fire>)
        requires
            old(self).pending.wf(),
            old(anchor).in_range(),
            clock <= 0x3fff_ffff_ffff_ffff,
            old(self)@.queue.can_serve(grid::step(old(anchor).period_us)),
        ensures
            final(self).pending.wf(),
            final(anchor).same_binding(old(anchor)),
            final(anchor).period_us == old(anchor).period_us,
            final(anchor).next_present_us >= old(anchor).next_present_us,
            final(anchor).next_present_us == arm_target(old(anchor), lead_us, clock),
            ({
                let usable = !old(anchor).broken && old(anchor).period_us > 0;
                let target = final(anchor).next_present_us;
                let (after, eye) = old(self)@.served(
                    target as int,
                    grid::step(old(anchor).period_us),
                );
                &&& usable ==> target > reach(old(anchor), lead_us, clock)
                &&& final(anchor).prediction() == (if usable {
                    Prediction { next: target as int, synced: true, ..old(anchor).prediction() }
                } else {
                    old(anchor).prediction()
                })
                &&& final(self)@ == after
                &&& match (fire, eye) {
                    (None, None) => true,
                    (Some(f), Some(e)) => {
                        &&& f.right == old(self)@.on_wire(e)
                        &&& f.target == target
                        &&& f.not_before == (if usable {
                            Some(old(self)@.spaced(deadline_of(old(anchor), target as int, lead_us)))
                        } else {
                            None
                        })
                    },
                    _ => false,
                }
            }),
            fire matches Some(f) ==> (f.not_before matches Some(at) ==> (old(
                self,
            )@.last_fire matches Some(prev) ==> at >= prev.saturating_add(LOCK_MIN_FIRE_GAP_US))),
    {
        let now: u64 = anchor.host_epoch_us(clock);
        let period: u64 = anchor.period_us();
        proof {
            if period > 0 {
                grid::first_after_is_the_next_boundary(
                    anchor.next_present_us as int,
                    period as int,
                    now + ALARM_DELAY_US + lead_us + SNAP_MARGIN_US,
                );
            }
        }
        let deadline: Option<u64> = anchor.frame_start(lead_us, now);
        let target: u64 = anchor.current_present_us();
        if !self.pending.has_eye() {
            return None;
        }
        match self.pending.next_eye(target, period) {
            None => None,
            Some(eye) => {
                let not_before: Option<u64> = match deadline {
                    None => None,
                    Some(d) => {
                        let at: u64 = anchor.instant_of(d);
                        match self.last_fire {
                            Some(prev) => {
                                let floor: u64 = prev.saturating_add(LOCK_MIN_FIRE_GAP_US);
                                if at < floor {
                                    Some(floor)
                                } else {
                                    Some(at)
                                }
                            },
                            None => Some(at),
                        }
                    },
                };
                Some(Fire { right: eye != self.manual_invert, target, not_before })
            },
        }
    }

    /// An anchored packet went out.  Returns the value that the renderer's swap
    /// flag has to take, when the view turned out inverted.
    ///
    /// Only a reported eye of a pinned stream says anything about that.
    pub fn sent(&mut self, fire: Fire, period: u64, clock: u64, renderer_flag: bool) -> (flag:
        Option<bool>)
        requires
            old(self)@.stats.has_room(),
            period * 2 <= u64::MAX,
            old(self).inversion.is_locked() ==> period > 0,
            !old(self).inversion.is_locked() ==> old(self).inversion.cand_count < u32::MAX,
        ensures
            final(self).pending@ == old(self).pending@,
            ({
                let (after, inverted) = old(self)@.with_sent(fire, period, clock);
                &&& final(self)@ == after
                &&& flag == (if inverted {
                    Some(!renderer_flag)
                } else {
                    None
                })
            }),
    {
        self.last_fire = Some(clock);
        self.stats.record(fire.right, clock);
        if self.stamped_mode && !self.pending.last_was_freerun {
            if self.inversion.observe(fire.target, period, fire.right) {
                return Some(!renderer_flag);
            }
        }
        None
    }

    /// The eye to send at once when there is no grid to follow.
    pub fn fire_unpaced(&mut self) -> (right: Option<bool>)
        requires
            old(self).pending.wf(),
        ensures
            final(self).pending.wf(),
            (final(self)@, right) == old(self)@.served_unpaced(),
    {
        match self.pending.next_eye_present_driven() {
            Some(e) => Some(e != self.manual_invert),
            None => None,
        }
    }

    /// An unpaced packet went out.
    pub fn sent_unpaced(&mut self, right: bool, clock: u64)
        requires
            old(self)@.stats.has_room(),
        ensures
            final(self).pending@ == old(self).pending@,
            final(self)@ == (SessionState {
                stats: old(self)@.stats.with_packet(right, clock),
                ..old(self)@
            }),
    {
        self.stats.record(right, clock);
    }

    /// The summary line of the stream when one is due.
    pub fn report(&mut self, clock: u64) -> (line: Option<String>)
        requires
            old(self).window.swaps * 2 <= u64::MAX,
        ensures
            final(self).pending@ == old(self).pending@,
            ({
                let tag = if old(self)@.stamped_mode {
                    "phase-pinned"@
                } else {
                    "fifo"@
                };
                if old(self)@.stats.due(old(self)@.window.swaps, clock) {
                    &&& line is Some
                    &&& line->0@ == old(self)@.stats.line(
                        old(self)@.window,
                        old(self).pending.drops,
                        tag,
                    )
                    &&& final(self)@ == (SessionState {
                        stats: StreamState::empty(
                            old(self)@.stats.last_right,
                            Some(clock),
                            old(self).pending.drops,
                        ),
                        window: DrainWindow::empty(),
                        ..old(self)@
                    })
                } else {
                    line is None && final(self)@ == old(self)@
                }
            }),
    {
        let tag: &str = if self.stamped_mode {
            "phase-pinned"
        } else {
            "fifo"
        };
        self.stats.tick(&mut self.window, self.pending.drops, tag, clock)
    }
}

/// A stream that stopped and starts again inherits nothing: the first eye it
/// fires is one it reported itself.
pub proof fn a_new_stream_inherits_no_phase(q: QueueState, boundary: int, period: int)
    ensures
        q.forgotten().next(boundary, period) == (q.forgotten(), None::<bool>),
        q.forgotten().next_unpaced() == (q.forgotten(), None::<bool>),
        q.forgotten().wf(),
{
}

} // verus!
