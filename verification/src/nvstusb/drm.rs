//! The kernel vblank anchor.
//!
//! [`DrmVblank`] predicts the vblank the next frame presents on.  Each frame
//! asks [`DrmVblank::frame_start`] when to send the eye packet and reports the
//! observed flip to [`DrmVblank::frame_end`], which keeps the prediction on the
//! display's own grid.  All times are host-epoch microseconds: microseconds
//! since the anchor was opened.

use crate::host::grid;
use crate::text;
use vstd::prelude::*;

verus! {

/// Shortest and longest vblank period the emitter can follow.
pub const PERIOD_MIN_US: u64 = 7_600;

pub const PERIOD_MAX_US: u64 = 9_000;

/// The emitter's fixed delay from packet to infrared pulse.
pub const ALARM_DELAY_US: u64 = 3_000;

/// Frames between full re-anchors.
pub const DEFAULT_RESYNC_EVERY: u32 = 150;

/// A boundary must lie this much beyond the packet's lead to be armed.
pub const SNAP_MARGIN_US: u64 = 250;

/// The period lies in the range that the emitter can follow.
pub open spec fn usable_period(p: int) -> bool {
    PERIOD_MIN_US <= p <= PERIOD_MAX_US
}

/// `x` moved by one period towards zero when it is more than half a period away.
pub open spec fn folded(x: int, period: int) -> int {
    if x > period / 2 {
        x - period
    } else if x < -(period / 2) {
        x + period
    } else {
        x
    }
}

/// An eighth, rounded towards zero.
pub open spec fn eighth(x: int) -> int {
    if x >= 0 {
        x / 8
    } else {
        -((-x) / 8)
    }
}

pub open spec fn abs(x: int) -> int {
    if x < 0 {
        -x
    } else {
        x
    }
}

pub open spec fn not_negative(x: int) -> int {
    if x < 0 {
        0
    } else {
        x
    }
}

/// The correction that re-anchors a prediction on a confirmed vblank.
///
/// `current` is the prediction, already advanced to the slot after the
/// confirmed one; `desired` is the confirmed vblank plus one period.  A report
/// that is a whole period early or late is folded away, so only the drift
/// within a slot is corrected.
pub fn phase_preserving_step(current: u64, desired: u64, period: u64) -> (step: i64)
    requires
        current <= grid::MAX_TIME_US,
        desired <= grid::MAX_TIME_US,
        period <= grid::MAX_TIME_US,
    ensures
        step == folded(desired - current, period as int),
{
    let step: i64 = desired as i64 - current as i64;
    let half: i64 = (period / 2) as i64;
    if step > half {
        step - period as i64
    } else if step < -half {
        step + period as i64
    } else {
        step
    }
}

/// A re-anchor keeps the slot: a prediction off by up to one and a half periods
/// is moved by at most half a period, and by the drift within the slot exactly.
pub proof fn a_step_never_crosses_a_slot(current: int, desired: int, period: int)
    requires
        period > 0,
        -(period + period / 2) <= desired - current <= period + period / 2,
    ensures
        -(period / 2) <= folded(desired - current, period) <= period / 2,
        grid::on_grid(current + folded(desired - current, period), period, desired),
{
    let x = desired - current;
    let f = folded(x, period);
    let k: int = if x > period / 2 {
        1
    } else if x < -(period / 2) {
        -1
    } else {
        0
    };
    assert(x - f == period * k) by (nonlinear_arith)
        requires
            k == 1 && x - f == period || k == -1 && x - f == -period || k == 0 && x - f == 0,
    ;
    vstd::arithmetic::div_mod::lemma_mod_multiples_vanish(k, 0, period);
    vstd::arithmetic::div_mod::lemma_small_mod(0, period as nat);
}

/// A report exactly one period early or late is not a correction at all.
pub proof fn a_whole_slot_report_is_no_step(period: int)
    requires
        period > 1,
    ensures
        folded(period, period) == 0,
        folded(-period, period) == 0,
        folded(0, period) == 0,
{
}

/// The boundary that is armed: the predicted one when it lies beyond `reach`,
/// else the first one of its grid that does.
pub open spec fn armed(next: int, period: int, reach: int) -> int {
    if next > reach {
        next
    } else {
        grid::first_after(next, period, reach)
    }
}

/// Arming moves the prediction by whole periods only, never back, and no
/// further than to the first boundary that can still be met.
pub proof fn arming_stays_on_the_grid(next: int, period: int, reach: int)
    requires
        period > 0,
    ensures
        grid::on_grid(next, period, armed(next, period, reach)),
        armed(next, period, reach) >= next,
        armed(next, period, reach) > reach,
        forall|b: int| #[trigger]
            grid::on_grid(next, period, b) && b > reach && b >= next ==> b >= armed(
                next,
                period,
                reach,
            ),
{
    grid::first_after_is_the_next_boundary(next, period, reach);
    vstd::arithmetic::div_mod::lemma_small_mod(0, period as nat);
}

/// The anchor: which display it is bound to, its measured period and its
/// prediction.
#[derive(Debug)]
pub struct DrmVblank {
    /// CRTC index whose vblank clock is waited on.
    pub pipe: u32,
    /// CRTC object id, when the CRTC-sequence ioctls are used.
    pub crtc_id: u32,
    /// Whether the CRTC-sequence ioctls are used.
    pub modern: bool,
    /// Measured vblank period.
    pub period_us: u64,
    /// Vblank at which the current frame presents.
    pub next_present_us: u64,
    /// Last confirmed vblank.
    pub confirmed_us: u64,
    /// Frames since the prediction was re-anchored.
    pub frames_since_resync: u32,
    pub resync_every: u32,
    /// Sample that last re-anchored the prediction.
    pub last_resync_us: u64,
    /// Frames between that re-anchor and the one before it.
    pub last_resync_frames: u32,
    /// The next frame re-anchors the prediction.
    pub resync_forced: bool,
    /// Reading of the caller's clock at host-epoch zero.
    pub epoch_us: u64,
    /// Monotonic clock at host-epoch zero.
    pub real_epoch_offset_us: u64,
    /// The schedule is live.
    pub synced: bool,
    /// A wait failed; the anchor is out of use.
    pub broken: bool,
    /// Connector the pipe was resolved from, `None` when the pipe was probed
    /// blind.
    pub connector: Option<String>,
    pub resync_count: u64,
    pub resync_err_total: i64,
    pub resync_err_max_abs: i64,
}

/// The part of an anchor that frames change.
pub struct Prediction {
    pub period: int,
    pub next: int,
    pub confirmed: int,
    pub frames: int,
    pub last_resync: int,
    pub last_frames: int,
    pub forced: bool,
    pub synced: bool,
    pub count: int,
    pub err_total: int,
    pub err_max: int,
}

/// The period that a re-anchor at `t` leaves, `n` frames after the last one:
/// the average over those frames, or else the time since the last confirmed
/// vblank, where those are usable.
pub open spec fn remeasured(s: Prediction, t: int, n: int) -> int {
    let avg = (t - s.last_resync) / n;
    if n >= 2 && s.last_resync > 0 && t > s.last_resync && usable_period(avg) {
        avg
    } else if t > s.confirmed && usable_period(t - s.confirmed) {
        t - s.confirmed
    } else {
        s.period
    }
}

impl Prediction {
    /// How far the observed flip was from the prediction.
    pub open spec fn error(self, t: int) -> int {
        folded(t - self.next, self.period)
    }

    /// The prediction one period on, nudged by an eighth of the error.
    pub open spec fn advanced(self, t: int) -> int {
        let err = self.error(t);
        if self.synced && abs(err) < self.period / 2 {
            not_negative(self.next + self.period + eighth(err))
        } else {
            self.next + self.period
        }
    }

    /// The next frame re-anchors the prediction.
    pub open spec fn reanchors(self, resync_every: int) -> bool {
        !self.synced || self.forced || self.frames + 1 >= resync_every
    }

    /// The state after a frame whose flip was observed at `t`.
    pub open spec fn after_frame(self, t: int, resync_every: int) -> Prediction {
        let next = self.advanced(t);
        if !self.reanchors(resync_every) {
            Prediction { next, frames: self.frames + 1, ..self }
        } else {
            let period = remeasured(self, t, self.frames + 1);
            Prediction {
                period,
                next: not_negative(next + folded(t + period - next, period)),
                confirmed: t,
                frames: 0,
                last_resync: t,
                last_frames: self.frames + 1,
                forced: false,
                count: self.count + 1,
                err_total: self.err_total + self.error(t),
                err_max: if abs(self.error(t)) > self.err_max {
                    abs(self.error(t))
                } else {
                    self.err_max
                },
                ..self
            }
        }
    }
}

impl DrmVblank {
    /// The changing part as mathematical values.
    pub open spec fn prediction(&self) -> Prediction {
        Prediction {
            period: self.period_us as int,
            next: self.next_present_us as int,
            confirmed: self.confirmed_us as int,
            frames: self.frames_since_resync as int,
            last_resync: self.last_resync_us as int,
            last_frames: self.last_resync_frames as int,
            forced: self.resync_forced,
            synced: self.synced,
            count: self.resync_count as int,
            err_total: self.resync_err_total as int,
            err_max: self.resync_err_max_abs as int,
        }
    }

    /// Everything that frames do not change.
    pub open spec fn same_binding(&self, other: &DrmVblank) -> bool {
        &&& self.pipe == other.pipe
        &&& self.crtc_id == other.crtc_id
        &&& self.modern == other.modern
        &&& self.resync_every == other.resync_every
        &&& self.epoch_us == other.epoch_us
        &&& self.real_epoch_offset_us == other.real_epoch_offset_us
        &&& self.broken == other.broken
        &&& self.connector == other.connector
    }

    /// The prediction can be moved by a few periods without leaving the time
    /// range.
    pub open spec fn in_range(&self) -> bool {
        &&& self.period_us <= 0x1000_0000_0000
        &&& self.next_present_us <= 0x3fff_ffff_ffff_ffff
        &&& self.confirmed_us <= 0x3fff_ffff_ffff_ffff
        &&& self.last_resync_us <= 0x3fff_ffff_ffff_ffff
        &&& self.resync_err_max_abs >= 0
    }

    /// A frame whose flip was observed at `t` can be taken in: times are in
    /// range, and the counters of re-anchors have room where it re-anchors.  An
    /// anchor out of use takes in nothing.
    pub open spec fn can_end_frame(&self, t: u64) -> bool {
        !self.broken ==> {
            &&& self.in_range()
            &&& t <= 0x3fff_ffff_ffff_ffff
            &&& self.frames_since_resync < u32::MAX
            &&& self.prediction().reanchors(self.resync_every as int) ==> {
                &&& self.resync_count < u64::MAX
                &&& i64::MIN <= self.resync_err_total + self.prediction().error(t as int)
                    <= i64::MAX
            }
        }
    }

    /// When the eye packet has to go out for the predicted vblank, or `None`
    /// without a usable anchor.
    ///
    /// A prediction that can no longer be met is first moved forward by whole
    /// periods, to the first one that lies beyond the packet's lead and a
    /// margin.
    pub fn frame_start(&mut self, lead_us: u32, now: u64) -> (deadline: Option<u64>)
        requires
            old(self).in_range(),
            now <= 0x3fff_ffff_ffff_ffff,
        ensures
            final(self).same_binding(old(self)),
            ({
                let reach = now + ALARM_DELAY_US + lead_us + SNAP_MARGIN_US;
                let next = armed(
                    old(self).next_present_us as int,
                    old(self).period_us as int,
                    reach,
                );
                if old(self).broken || old(self).period_us == 0 {
                    deadline is None && final(self).prediction() == old(self).prediction()
                } else {
                    &&& deadline == Some((next - ALARM_DELAY_US - lead_us) as u64)
                    &&& deadline->0 > now
                    &&& final(self).prediction() == (Prediction {
                        next,
                        synced: true,
                        ..old(self).prediction()
                    })
                }
            }),
    {
        if self.broken || self.period_us == 0 {
            return None;
        }
        let lead: u64 = ALARM_DELAY_US + lead_us as u64;
        let reach: u64 = now + lead + SNAP_MARGIN_US;
        if self.next_present_us <= reach {
            self.next_present_us = grid::boundary_after(
                self.next_present_us,
                self.period_us,
                reach,
            );
        }
        self.synced = true;
        Some(self.next_present_us - lead)
    }

    /// Advances the prediction past a presented frame.
    ///
    /// `precise_us` is the flip's own vblank time; without it `now` stands in.
    /// Every frame folds an eighth of the observed error into the prediction.
    /// Every `resync_every` frames, and on every frame until the schedule is
    /// live, the period is measured anew and the prediction is re-anchored on
    /// the observed vblank within its slot.
    pub fn frame_end(&mut self, precise_us: Option<u64>, now: u64)
        requires
            old(self).can_end_frame(
                match precise_us {
                    Some(t) => t,
                    None => now,
                },
            ),
        ensures
            final(self).same_binding(old(self)),
            final(self).prediction() == (if old(self).broken {
                old(self).prediction()
            } else {
                let t = match precise_us {
                    Some(t) => t,
                    None => now,
                };
                old(self).prediction().after_frame(t as int, old(self).resync_every as int)
            }),
    {
        if self.broken {
            return;
        }
        let t: u64 = match precise_us {
            Some(t) => t,
            None => now,
        };
        let err: i64 = self.advance(t);
        if self.synced && !self.resync_forced && self.frames_since_resync < self.resync_every {
            return;
        }
        self.resync(t, err);
    }

    /// Moves the prediction one period on and returns how far the flip at `t`
    /// was from it.
    fn advance(&mut self, t: u64) -> (err: i64)
        requires
            old(self).in_range(),
            t <= 0x3fff_ffff_ffff_ffff,
            old(self).frames_since_resync < u32::MAX,
        ensures
            final(self).same_binding(old(self)),
            err == old(self).prediction().error(t as int),
            final(self).prediction() == (Prediction {
                next: old(self).prediction().advanced(t as int),
                frames: old(self).prediction().frames + 1,
                ..old(self).prediction()
            }),
            final(self).next_present_us <= old(self).next_present_us + 2 * old(self).period_us,
    {
        let this_present: u64 = self.next_present_us;
        self.next_present_us = this_present + self.period_us;
        self.frames_since_resync += 1;

        let err: i64 = phase_preserving_step(this_present, t, self.period_us);
        let half: i64 = (self.period_us / 2) as i64;
        let size: i64 = if err < 0 {
            -err
        } else {
            err
        };
        if self.synced && size < half {
            let nudge: u64 = (size / 8) as u64;
            if err >= 0 {
                self.next_present_us = self.next_present_us + nudge;
            } else {
                self.next_present_us = self.next_present_us.saturating_sub(nudge);
            }
        }
        err
    }

    /// Measures the period anew and re-anchors the prediction on the flip at
    /// `t`.
    fn resync(&mut self, t: u64, err: i64)
        requires
            old(self).period_us <= 0x1000_0000_0000,
            old(self).next_present_us <= 0x4fff_ffff_ffff_ffff,
            old(self).resync_err_max_abs >= 0,
            old(self).confirmed_us <= 0x3fff_ffff_ffff_ffff,
            old(self).last_resync_us <= 0x3fff_ffff_ffff_ffff,
            t <= 0x3fff_ffff_ffff_ffff,
            err > i64::MIN,
            old(self).resync_count < u64::MAX,
            i64::MIN <= old(self).resync_err_total + err <= i64::MAX,
        ensures
            final(self).same_binding(old(self)),
            ({
                let s = old(self).prediction();
                let period = remeasured(s, t as int, s.frames);
                final(self).prediction() == (Prediction {
                    period,
                    next: not_negative(s.next + folded(t + period - s.next, period)),
                    confirmed: t as int,
                    frames: 0,
                    last_resync: t as int,
                    last_frames: s.frames,
                    forced: false,
                    count: s.count + 1,
                    err_total: s.err_total + err,
                    err_max: if abs(err as int) > s.err_max {
                        abs(err as int)
                    } else {
                        s.err_max
                    },
                    ..s
                })
            }),
    {
        let frames_elapsed: u32 = self.frames_since_resync;
        let size: i64 = if err < 0 {
            -err
        } else {
            err
        };
        self.frames_since_resync = 0;
        self.resync_count += 1;
        self.resync_err_total += err;
        if size > self.resync_err_max_abs {
            self.resync_err_max_abs = size;
        }
        self.period_us = self.remeasure(t, frames_elapsed);
        self.confirmed_us = t;
        self.last_resync_us = t;
        self.last_resync_frames = frames_elapsed;
        self.resync_forced = false;
        let desired: u64 = t + self.period_us;
        let step: i64 = phase_preserving_step(self.next_present_us, desired, self.period_us);
        let moved: i64 = self.next_present_us as i64 + step;
        self.next_present_us = if moved < 0 {
            0
        } else {
            moved as u64
        };
    }

    /// The period that a re-anchor at `t` leaves, `n` frames after the last one.
    fn remeasure(&self, t: u64, n: u32) -> (p: u64)
        ensures
            p == remeasured(self.prediction(), t as int, n as int),
            p == self.period_us || usable_period(p as int),
    {
        if n >= 2 && self.last_resync_us > 0 && t > self.last_resync_us {
            let p: u64 = (t - self.last_resync_us) / n as u64;
            if PERIOD_MIN_US <= p && p <= PERIOD_MAX_US {
                return p;
            }
        }
        if t > self.confirmed_us {
            let p: u64 = t - self.confirmed_us;
            if PERIOD_MIN_US <= p && p <= PERIOD_MAX_US {
                return p;
            }
        }
        self.period_us
    }
}

// ---------------------------------------------------------------------------
// Opening and reading an anchor
// ---------------------------------------------------------------------------

/// The clock an anchor reads: the CRTC-sequence ioctls on a CRTC object, or the
/// legacy vblank wait on a pipe.
#[derive(Clone, Copy, Debug, PartialEq, Eq, Structural)]
pub struct VblankClock {
    pub modern: bool,
    pub crtc_id: u32,
}

/// Picks the vblank clock of a pipe.
///
/// The CRTC-sequence query serves every client on every driver, so it is taken
/// wherever the CRTC object is known, provided that its counter runs.  Only
/// where no CRTC object is known does the legacy wait stand in, if it ticks.
/// `modern_sequence` is the counter, `None` when the query failed.
pub fn choose_clock(
    crtc_id: Option<u32>,
    legacy_ticks: bool,
    modern_sequence: Option<u64>,
) -> (c: Option<VblankClock>)
    ensures
        c == (match crtc_id {
            Some(id) => match modern_sequence {
                Some(n) if n != 0 => Some(VblankClock { modern: true, crtc_id: id }),
                _ => None,
            },
            None => if legacy_ticks {
                Some(VblankClock { modern: false, crtc_id: 0 })
            } else {
                None
            },
        }),
{
    match (crtc_id, modern_sequence) {
        (Some(id), Some(n)) => if n != 0 {
            Some(VblankClock { modern: true, crtc_id: id })
        } else {
            None
        },
        (Some(_), None) => None,
        (None, _) => if legacy_ticks {
            Some(VblankClock { modern: false, crtc_id: 0 })
        } else {
            None
        },
    }
}

/// A monotonic nanosecond timestamp in host-epoch microseconds.
pub fn mono_to_host_us(mono_ns: u64, offset_us: u64) -> (us: u64)
    ensures
        us == (mono_ns / 1000).saturating_sub(offset_us),
{
    (mono_ns / 1000).saturating_sub(offset_us)
}

/// Decides from one sample whether the next vblank has come: the time of the
/// sample when the counter is no longer `prev_seq`.
///
/// Any change counts, so a counter that wraps around is seen too.
pub fn next_vblank_on_advance(prev_seq: u64, sample: (u64, u64)) -> (t: Option<u64>)
    ensures
        t == (if sample.0 != prev_seq {
            Some(sample.1)
        } else {
            None
        }),
{
    if sample.0 != prev_seq {
        Some(sample.1)
    } else {
        None
    }
}

/// Seconds and microseconds as microseconds; negative parts count as zero.
pub open spec fn timeval_us(sec: i64, usec: i64) -> int {
    let us = not_negative(sec as int) * 1_000_000;
    let whole = if us > u64::MAX {
        u64::MAX as int
    } else {
        us
    };
    let total = whole + not_negative(usec as int);
    if total > u64::MAX {
        u64::MAX as int
    } else {
        total
    }
}

/// Executable form of [`timeval_us`].
pub fn timeval_to_us(sec: i64, usec: i64) -> (us: u64)
    ensures
        us == timeval_us(sec, usec),
{
    let s: u64 = if sec < 0 {
        0
    } else {
        sec as u64
    };
    let u: u64 = if usec < 0 {
        0
    } else {
        usec as u64
    };
    let whole: u64 = match s.checked_mul(1_000_000) {
        Some(w) => w,
        None => u64::MAX,
    };
    whole.saturating_add(u)
}

/// A reply to the CRTC-sequence query.
#[derive(Clone, Copy, Debug, PartialEq, Eq, Structural)]
pub struct DrmCrtcGetSequence {
    pub crtc_id: u32,
    pub active: u32,
    /// Counter of the last vblank.
    pub sequence: u64,
    /// Monotonic nanoseconds of the last vblank.
    pub sequence_ns: i64,
}

/// A request to be told of a CRTC sequence.
#[derive(Clone, Copy, Debug, PartialEq, Eq, Structural)]
pub struct DrmCrtcQueueSequence {
    pub crtc_id: u32,
    pub flags: u32,
    pub sequence: u64,
    pub user_data: u64,
}

/// Header of a DRM event.
#[derive(Clone, Copy, Debug, PartialEq, Eq, Structural)]
pub struct DrmEventBase {
    pub length: u32,
    pub kind: u32,
}

/// The event that answers a [`DrmCrtcQueueSequence`].
#[derive(Clone, Copy, Debug, PartialEq, Eq, Structural)]
pub struct DrmEventCrtcSequence {
    pub base: DrmEventBase,
    pub user_data: u64,
    /// Monotonic nanoseconds of the vblank that matched.
    pub time_ns: i64,
    pub sequence: u64,
}

/// `DrmCrtcQueueSequence::sequence` counts from the current vblank.
pub const DRM_CRTC_SEQUENCE_RELATIVE: u32 = 0x0000_0001;

/// Type code of a [`DrmEventCrtcSequence`].
pub const DRM_EVENT_CRTC_SEQUENCE: u32 = 0x03;

pub const DRM_IOCTL_WAIT_VBLANK: u64 = 0xc018_643a;

pub const DRM_IOCTL_CRTC_GET_SEQUENCE: u64 = 0xc018_643b;

pub const DRM_IOCTL_CRTC_QUEUE_SEQUENCE: u64 = 0xc018_643c;

pub const DRM_IOCTL_MODE_GETRESOURCES: u64 = 0xc040_64a0;

pub const DRM_IOCTL_MODE_GETENCODER: u64 = 0xc014_64a6;

pub const DRM_IOCTL_MODE_GETCONNECTOR: u64 = 0xc050_64a7;

/// Encodes an ioctl request: direction, argument size, type and number.
pub fn ioc(dir: u32, ty: u8, nr: u8, size: u32) -> (r: u64)
    requires
        dir < 4,
        size < 0x4000,
    ensures
        r == dir * 0x4000_0000 + size * 0x1_0000 + ty * 0x100 + nr,
{
    let d: u64 = dir as u64;
    let s: u64 = size as u64;
    let t: u64 = ty as u64;
    let n: u64 = nr as u64;
    assert((d << 30) | (s << 16) | (t << 8) | n == d * 0x4000_0000 + s * 0x1_0000 + t * 0x100 + n)
        by (bit_vector)
        requires
            d < 4,
            s < 0x4000,
            t < 0x100,
            n < 0x100,
    ;
    (d << 30) | (s << 16) | (t << 8) | n
}

/// The bits of a vblank request's type that select a pipe.
pub const DRM_VBLANK_HIGH_CRTC_MASK: u32 = 0x0000_003e;

/// The request counts from the current vblank.
pub const DRM_VBLANK_RELATIVE: i32 = 0x1;

/// The request moves on to the next vblank when its own has passed.
pub const DRM_VBLANK_NEXTONMISS: i32 = 0x1000_0000;

/// Encodes a pipe into the type of a vblank request.
pub fn vblank_pipe_bits(pipe: u32) -> (bits: i32)
    ensures
        bits == (pipe % 32) * 2,
{
    assert(((pipe << 1u32) & 0x3eu32) == (pipe % 32) * 2) by (bit_vector);
    ((pipe << 1) & DRM_VBLANK_HIGH_CRTC_MASK) as i32
}

/// What the kernel decodes from the encoded bits is the pipe again, for every
/// pipe that the field can hold, and no other bit is set.
pub proof fn pipe_bits_survive_the_kernel_decoder(pipe: u32)
    requires
        pipe < 32,
    ensures
        ((((pipe % 32) * 2) as u32) & DRM_VBLANK_HIGH_CRTC_MASK) >> 1u32 == pipe,
        (((pipe % 32) * 2) as u32) & !DRM_VBLANK_HIGH_CRTC_MASK == 0,
{
    assert(((((pipe % 32) * 2) as u32) & 0x3eu32) >> 1u32 == pipe) by (bit_vector)
        requires
            pipe < 32,
    ;
    assert((((pipe % 32) * 2) as u32) & !0x3eu32 == 0) by (bit_vector)
        requires
            pipe < 32,
    ;
}

impl DrmVblank {
    /// An anchor that has not measured its period yet.
    pub fn new(pipe: u32, clock: VblankClock, epoch_us: u64, real_epoch_offset_us: u64) -> (d:
        DrmVblank)
        ensures
            d.pipe == pipe,
            d.modern == clock.modern,
            d.crtc_id == clock.crtc_id,
            d.epoch_us == epoch_us,
            d.real_epoch_offset_us == real_epoch_offset_us,
            d.resync_every == DEFAULT_RESYNC_EVERY,
            !d.broken,
            d.connector is None,
            d.in_range(),
            d.prediction() == (Prediction {
                period: 0,
                next: 0,
                confirmed: 0,
                frames: 0,
                last_resync: 0,
                last_frames: 0,
                forced: false,
                synced: false,
                count: 0,
                err_total: 0,
                err_max: 0,
            }),
    {
        DrmVblank {
            pipe,
            crtc_id: clock.crtc_id,
            modern: clock.modern,
            period_us: 0,
            next_present_us: 0,
            confirmed_us: 0,
            frames_since_resync: 0,
            resync_every: DEFAULT_RESYNC_EVERY,
            last_resync_us: 0,
            last_resync_frames: 0,
            resync_forced: false,
            epoch_us,
            real_epoch_offset_us,
            synced: false,
            broken: false,
            connector: None,
            resync_count: 0,
            resync_err_total: 0,
            resync_err_max_abs: 0,
        }
    }

    /// Takes the period from two vblanks in a row, binds the anchor to
    /// `connector` when that period is usable, and says whether it is.
    pub fn bind(&mut self, t0: u64, t1: u64, connector: Option<String>) -> (usable: bool)
        ensures
            usable == usable_period(t1.saturating_sub(t0) as int),
            final(self).prediction() == (Prediction {
                period: t1.saturating_sub(t0) as int,
                confirmed: t1 as int,
                next: t1.saturating_add(t1.saturating_sub(t0)) as int,
                ..old(self).prediction()
            }),
            final(self).connector == (if usable {
                connector
            } else {
                old(self).connector
            }),
            final(self).same_binding(&(DrmVblank { connector: final(self).connector, ..*old(self) })),
    {
        let p: u64 = t1.saturating_sub(t0);
        self.period_us = p;
        self.confirmed_us = t1;
        self.next_present_us = t1.saturating_add(p);
        if PERIOD_MIN_US <= p && p <= PERIOD_MAX_US {
            self.connector = connector;
            true
        } else {
            false
        }
    }

    /// A vblank time from a legacy reply, or `None` when the reply carries none.
    pub fn legacy_sample(&self, sec: i64, usec: i64) -> (us: Option<u64>)
        ensures
            us == (if sec == 0 && usec == 0 {
                None
            } else {
                Some((timeval_us(sec, usec) as u64).saturating_sub(self.real_epoch_offset_us))
            }),
    {
        if sec == 0 && usec == 0 {
            return None;
        }
        Some(self.host_us_from_mono(timeval_to_us(sec, usec)))
    }

    /// Counter and vblank time from a CRTC-sequence reply, or `None` when the
    /// reply carries no time.
    pub fn sequence_sample(&self, g: DrmCrtcGetSequence) -> (s: Option<(u64, u64)>)
        ensures
            s == (if g.sequence_ns == 0 {
                None
            } else {
                Some(
                    (
                        g.sequence,
                        ((g.sequence_ns as u64) / 1000).saturating_sub(self.real_epoch_offset_us),
                    ),
                )
            }),
    {
        if g.sequence_ns == 0 {
            return None;
        }
        Some((g.sequence, mono_to_host_us(g.sequence_ns as u64, self.real_epoch_offset_us)))
    }

    /// Vblank the frame being sent presents on.
    pub fn current_present_us(&self) -> (us: u64)
        ensures
            us == self.next_present_us,
    {
        self.next_present_us
    }

    /// Measured vblank period.
    pub fn period_us(&self) -> (us: u64)
        ensures
            us == self.period_us,
    {
        self.period_us
    }

    /// How the anchored display is called.
    pub open spec fn called(&self) -> Seq<char> {
        match self.connector {
            Some(c) => c@ + "/pipe"@ + text::decimal(self.pipe as nat),
            None => "pipe"@ + text::decimal(self.pipe as nat),
        }
    }

    /// Identity of the anchored display, such as `DP-1/pipe1`, or `pipe1` alone
    /// when its connector is not known.
    pub fn label(&self) -> (l: String)
        ensures
            l@ == self.called(),
    {
        let mut l: String = String::new();
        match &self.connector {
            Some(c) => {
                l.append(c.as_str());
                l.append("/pipe");
            },
            None => {
                l.append("pipe");
            },
        }
        text::push_decimal(&mut l, self.pipe as u64);
        assert(l@ =~= self.called());
        l
    }

    /// Connector the pipe was resolved from.
    pub fn connector_name(&self) -> (c: Option<&str>)
        ensures
            match (c, self.connector) {
                (Some(a), Some(b)) => a@ == b@,
                (None, None) => true,
                _ => false,
            },
    {
        match &self.connector {
            Some(c) => Some(c.as_str()),
            None => None,
        }
    }

    /// A host-epoch time on the caller's clock.
    pub fn instant_of(&self, host_epoch_us: u64) -> (t: u64)
        ensures
            t == self.epoch_us.saturating_add(host_epoch_us),
    {
        self.epoch_us.saturating_add(host_epoch_us)
    }

    /// A reading of the caller's clock as a host-epoch time.
    pub fn host_epoch_us(&self, clock_us: u64) -> (t: u64)
        ensures
            t == clock_us.saturating_sub(self.epoch_us),
    {
        clock_us.saturating_sub(self.epoch_us)
    }

    /// A monotonic microsecond timestamp as a host-epoch time.
    pub fn host_us_from_mono(&self, mono_us: u64) -> (t: u64)
        ensures
            t == mono_us.saturating_sub(self.real_epoch_offset_us),
    {
        mono_us.saturating_sub(self.real_epoch_offset_us)
    }

    /// Re-anchors so far: how many, the sum of the prediction errors and the
    /// largest of them.
    pub fn resync_stats(&self) -> (s: (u64, i64, i64))
        ensures
            s == (self.resync_count, self.resync_err_total, self.resync_err_max_abs),
    {
        (self.resync_count, self.resync_err_total, self.resync_err_max_abs)
    }

    /// Starts counting re-anchors from zero.
    pub fn reset_resync_stats(&mut self)
        ensures
            final(self).same_binding(old(self)),
            final(self).prediction() == (Prediction {
                count: 0,
                err_total: 0,
                err_max: 0,
                ..old(self).prediction()
            }),
    {
        self.resync_count = 0;
        self.resync_err_total = 0;
        self.resync_err_max_abs = 0;
    }

    /// Makes the next frame a re-anchoring one.
    pub fn force_resync(&mut self)
        ensures
            final(self).same_binding(old(self)),
            final(self).prediction() == (Prediction {
                forced: true,
                ..old(self).prediction()
            }),
    {
        self.resync_forced = true;
    }

    /// Puts the prediction on the slot after a confirmed vblank.
    pub fn resync_to_vblank(&mut self, vblank_us: u64)
        ensures
            final(self).same_binding(old(self)),
            final(self).prediction() == (Prediction {
                next: vblank_us.saturating_add(old(self).period_us) as int,
                ..old(self).prediction()
            }),
    {
        self.next_present_us = vblank_us.saturating_add(self.period_us);
    }
}

/// In the steady state, where each wait confirms the vblank one period before
/// the predicted one, every frame advances the prediction by exactly one
/// period: nothing is nudged, and a re-anchor that measures the same period
/// moves nothing either.
pub proof fn steady_state_advances_one_slot(s: Prediction, resync_every: int)
    requires
        s.period > 1,
        s.next >= 0,
        remeasured(s, s.next - s.period, s.frames + 1) == s.period,
    ensures
        s.after_frame(s.next - s.period, resync_every).next == s.next + s.period,
        s.after_frame(s.next - s.period, resync_every).period == s.period,
{
}

/// Between re-anchors every frame takes an eighth off the prediction's error:
/// a flip one period after the observed one is off by what is left.
pub proof fn every_frame_shrinks_the_error(s: Prediction, t: int, resync_every: int)
    requires
        !s.reanchors(resync_every),
        s.period > 1,
        s.next >= 0,
        -(s.period + s.period / 2) <= t - s.next <= s.period + s.period / 2,
        abs(s.error(t)) < s.period / 2,
    ensures
        ({
            let left = s.error(t) - eighth(s.error(t));
            &&& s.after_frame(t, resync_every).error(t + s.period) == left
            &&& abs(left) <= abs(s.error(t))
            &&& abs(s.error(t)) >= 8 ==> abs(left) < abs(s.error(t))
        }),
{
}

/// A re-anchor measures the period over the frames since the last one: when `n`
/// frames took `n` periods of a usable length, that length is the period.
pub proof fn a_steady_interval_gives_its_period(s: Prediction, n: int, period: int)
    requires
        n >= 2,
        usable_period(period),
        s.last_resync > 0,
    ensures
        remeasured(s, s.last_resync + n * period, n) == period,
        s.frames + 1 == n && s.reanchors(n) ==> s.after_frame(
            s.last_resync + n * period,
            n,
        ).period == period,
{
    vstd::arithmetic::mul::lemma_mul_strictly_positive(n, period);
    vstd::arithmetic::div_mod::lemma_div_multiples_vanish(period, n);
    assert(n * period == period * n) by (nonlinear_arith);
}

/// A forced re-anchor happens on the very next frame.
pub proof fn forced_resync_confirms_the_next_flip(s: Prediction, t: int, resync_every: int)
    requires
        s.forced,
    ensures
        !s.after_frame(t, resync_every).forced,
        s.after_frame(t, resync_every).confirmed == t,
        s.after_frame(t, resync_every).count == s.count + 1,
{
}

/// A re-anchor puts the prediction on the grid of the observed flip: the next
/// prediction lies whole periods from it, and a flip one period after it is no
/// error at all.  A prediction off by up to one and a half periods is moved by no
/// more than half a period.
pub proof fn a_reanchor_lands_on_the_observed_grid(s: Prediction, t: int, resync_every: int)
    requires
        s.reanchors(resync_every),
        s.next >= 0,
        s.period >= 0,
        t >= 0,
        s.after_frame(t, resync_every).period > 0,
    ensures
        ({
            let after = s.after_frame(t, resync_every);
            let p = after.period;
            &&& grid::on_grid(t, p, after.next)
            &&& after.error(t + p) == 0
            &&& t <= after.next <= t + 2 * p
            &&& -(p + p / 2) <= t + p - s.advanced(t) <= p + p / 2 ==> -(p / 2) <= after.next
                - s.advanced(t) <= p / 2
            &&& after.confirmed == t
            &&& after.last_resync == t
            &&& after.frames == 0
            &&& after.last_frames == s.frames + 1
            &&& after.count == s.count + 1
            &&& after.synced == s.synced
        }),
{
    let after = s.after_frame(t, resync_every);
    let p = after.period;
    let k: int = if after.next == t {
        0
    } else if after.next == t + p {
        1
    } else {
        2
    };
    assert(after.next - t == p * k + 0) by (nonlinear_arith)
        requires
            after.next == t && k == 0 || after.next == t + p && k == 1 || after.next == t + p + p
                && k == 2,
    ;
    vstd::arithmetic::div_mod::lemma_mod_multiples_vanish(k, 0, p);
    vstd::arithmetic::div_mod::lemma_small_mod(0, p as nat);
}

/// A live schedule whose flip comes less than half a period off re-anchors on
/// the slot right behind that flip: exactly one period after it.
pub proof fn a_reanchor_predicts_the_next_flip(s: Prediction, t: int, resync_every: int)
    requires
        s.reanchors(resync_every),
        s.synced,
        s.period > 1,
        s.next >= 0,
        t >= 0,
        abs(t - s.next) < s.period / 2,
        s.after_frame(t, resync_every).period == s.period,
    ensures
        s.after_frame(t, resync_every).next == t + s.period,
        s.after_frame(t, resync_every).error(t + s.period) == 0,
        grid::on_grid(t, s.period, s.after_frame(t, resync_every).next),
{
    vstd::arithmetic::div_mod::lemma_mod_multiples_vanish(1, 0, s.period);
    vstd::arithmetic::div_mod::lemma_small_mod(0, s.period as nat);
}

/// Re-anchoring twice on flips one period apart moves nothing the second time:
/// the prediction is one period on.
pub proof fn a_second_reanchor_moves_nothing(s: Prediction, t: int, resync_every: int)
    requires
        s.reanchors(resync_every),
        s.synced,
        s.period > 1,
        s.next >= 0,
        t >= 0,
        abs(t - s.next) < s.period / 2,
        s.after_frame(t, resync_every).period == s.period,
        ({
            let once = s.after_frame(t, resync_every);
            remeasured(once, t + s.period, once.frames + 1) == s.period
        }),
    ensures
        ({
            let once = s.after_frame(t, resync_every);
            let twice = once.after_frame(t + s.period, resync_every);
            &&& twice.next == once.next + s.period
            &&& twice.next == t + 2 * s.period
        }),
{
    a_reanchor_predicts_the_next_flip(s, t, resync_every);
}

/// The period after a re-anchor is one that the emitter can follow, or the one
/// it was; between re-anchors it stays.
pub proof fn a_period_is_usable_or_kept(s: Prediction, t: int, resync_every: int)
    requires
        s.frames >= 0,
    ensures
        ({
            let after = s.after_frame(t, resync_every);
            &&& after.period == s.period || 7_600 <= after.period <= 9_000
            &&& !s.reanchors(resync_every) ==> {
                &&& after.period == s.period
                &&& after.frames == s.frames + 1
                &&& after.confirmed == s.confirmed
                &&& after.last_resync == s.last_resync
                &&& after.count == s.count
                &&& after.err_total == s.err_total
                &&& after.err_max == s.err_max
            }
        }),
{
}

/// Without frames to average over, the period is the time since the last
/// confirmed vblank, when the emitter can follow it.
pub proof fn a_first_interval_gives_its_period(s: Prediction, period: int)
    requires
        usable_period(period),
    ensures
        remeasured(s, s.confirmed + period, 1) == period,
        s.last_resync <= 0 ==> forall|n: int| #[trigger]
            remeasured(s, s.confirmed + period, n) == period,
{
}

/// The errors of re-anchors add up, and the largest of them is remembered.
pub proof fn errors_of_reanchors_are_kept(s: Prediction, t: int, resync_every: int)
    requires
        s.reanchors(resync_every),
    ensures
        ({
            let after = s.after_frame(t, resync_every);
            &&& after.err_total - s.err_total == s.error(t)
            &&& after.err_max >= s.err_max
            &&& after.err_max >= s.error(t)
            &&& after.err_max >= -s.error(t)
            &&& after.err_max == s.err_max || after.err_max == s.error(t) || after.err_max
                == -s.error(t)
        }),
{
}

/// The state after the first `n` flips.
pub open spec fn after_flips(s: Prediction, flips: Seq<int>, resync_every: int, n: nat) -> Prediction
    decreases n,
{
    if n == 0 {
        s
    } else {
        after_flips(s, flips, resync_every, (n - 1) as nat).after_frame(
            flips[n - 1],
            resync_every,
        )
    }
}

/// A live schedule is re-anchored every `resync_every` frames: not on any frame
/// before, and then on that frame's own flip.
pub proof fn a_live_schedule_reanchors_on_time(
    s: Prediction,
    flips: Seq<int>,
    resync_every: int,
    n: nat,
)
    requires
        s.synced,
        !s.forced,
        s.frames == 0,
        resync_every > 0,
        n <= resync_every,
        n <= flips.len(),
    ensures
        ({
            let after = after_flips(s, flips, resync_every, n);
            &&& after.synced
            &&& n < resync_every ==> {
                &&& after.frames == n
                &&& !after.forced
                &&& after.count == s.count
                &&& after.last_resync == s.last_resync
                &&& after.period == s.period
            }
            &&& n == resync_every ==> {
                &&& after.frames == 0
                &&& after.count == s.count + 1
                &&& after.last_resync == flips[n - 1]
                &&& after.last_frames == resync_every
            }
        }),
    decreases n,
{
    if n > 0 {
        a_live_schedule_reanchors_on_time(s, flips, resync_every, (n - 1) as nat);
    }
}

/// Until the schedule is live every frame re-anchors.
pub proof fn a_schedule_that_is_not_live_always_reanchors(
    s: Prediction,
    t: int,
    resync_every: int,
)
    requires
        !s.synced,
    ensures
        s.after_frame(t, resync_every).count == s.count + 1,
        s.after_frame(t, resync_every).confirmed == t,
        !s.after_frame(t, resync_every).synced,
{
}

/// A wild flip, half a period off or more, never nudges the prediction: it
/// goes on by one period.
pub proof fn a_wild_flip_is_not_followed(s: Prediction, t: int, resync_every: int)
    requires
        !s.reanchors(resync_every),
        s.period > 0,
        abs(s.error(t)) >= s.period / 2,
    ensures
        s.after_frame(t, resync_every).next == s.next + s.period,
{
}

/// Whole seconds and microseconds add up to microseconds, and a time that is
/// later by some microseconds is so here too.
pub proof fn timeval_parts_add_up(sec: i64, usec: i64)
    requires
        0 <= sec <= 0xfff_ffff_ffff,
        0 <= usec <= 0x7fff_ffff,
    ensures
        timeval_us(sec, 0) == sec * 1_000_000,
        timeval_us(sec, usec) == timeval_us(sec, 0) + usec,
        timeval_us((sec + 1) as i64, usec) == timeval_us(sec, usec) + 1_000_000,
        timeval_us((-1) as i64, usec) == usec,
        timeval_us(sec, (-1) as i64) == timeval_us(sec, 0),
{
}

/// Two displays are called the same only when their pipes are the same.
pub proof fn blind_anchors_are_told_apart_by_their_pipe(a: &DrmVblank, b: &DrmVblank)
    requires
        a.connector is None,
        b.connector is None,
        a.called() == b.called(),
    ensures
        a.pipe == b.pipe,
{
    let k = "pipe"@.len() as int;
    assert(a.called().skip(k) =~= text::decimal(a.pipe as nat));
    assert(b.called().skip(k) =~= text::decimal(b.pipe as nat));
    text::decimal_is_injective(a.pipe as nat, b.pipe as nat);
}

/// Between re-anchors a frame moves the prediction by one period and an eighth
/// of the error, to the microsecond and towards zero, early and late alike.
pub proof fn a_frame_follows_an_eighth_of_the_error(s: Prediction, t: int, resync_every: int)
    requires
        !s.reanchors(resync_every),
        s.period > 1,
        s.next >= 0,
        abs(t - s.next) < s.period / 2,
    ensures
        ({
            let nudge = s.after_frame(t, resync_every).next - s.next - s.period;
            &&& t >= s.next ==> 8 * nudge <= t - s.next < 8 * nudge + 8
            &&& t <= s.next ==> 8 * nudge >= t - s.next > 8 * nudge - 8
        }),
{
}

} // verus!
