//! Driver of the NVIDIA 3D Vision infrared emitter.
//!
//! The packets go out in step with the display: each one is paced to the
//! vertical blank that its frame appears on (see [`drm`]).

use crate::nvstusb::drm::{DrmVblank, Prediction, ALARM_DELAY_US, SNAP_MARGIN_US};
use crate::nvstusb::heads::{needs_anchor_retarget, normalize_connector_name};
use crate::text;
use vstd::prelude::*;

pub mod backend_laws;
pub mod drm;
pub mod firmware;
pub mod heads;
pub mod heads_laws;
pub mod ini;
pub mod kms;
pub mod kms_laws;
pub mod search;
pub mod usb;
pub mod usb_laws;
pub mod wayland;
pub mod x11glx;

verus! {

/// Delay of the emitter from packet to infrared.
pub const IR_ALARM_DELAY_US: u64 = 3_000;

/// How many swaps to wait for the window's output to become known.
pub const ARM_GRACE_SWAPS: u64 = 240;

/// Lead of a packet before its vertical blank, when nothing else is set.
pub const DEFAULT_SWAP_PHASE_US: u32 = 3100;

/// A packet that took longer than this to write is slow.
pub const SLOW_WRITE_US: u64 = 5000;

/// Which eye's shutter is open.
#[derive(Clone, Copy, Debug, PartialEq, Eq, Structural)]
pub enum Eye {
    Left,
    Right,
    /// Both, one after the other.
    Quad,
}

impl Eye {
    /// The eye of the frame counter's parity: one is left, zero right.
    pub fn from_u8(v: u8) -> (e: Eye)
        ensures
            e == (if v == 0 {
                Eye::Right
            } else {
                Eye::Left
            }),
    {
        if v == 0 {
            Eye::Right
        } else {
            Eye::Left
        }
    }
}

/// State of the emitter's button and wheel.
#[derive(Clone, Copy, Debug, PartialEq, Eq, Structural)]
pub struct Keys {
    /// How far the wheel was turned with the button up.
    pub delta_wheel: i8,
    /// How far the wheel was turned with the button down.
    pub pressed_delta_wheel: i8,
    /// Whether the button was pressed since the last reading.
    pub toggled_3d: bool,
}

/// The signed value of a byte.
pub open spec fn signed_byte(b: u8) -> int {
    if b >= 128 {
        b - 256
    } else {
        b as int
    }
}

fn to_signed(b: u8) -> (v: i8)
    ensures
        v == signed_byte(b),
{
    if b >= 128 {
        (b as i16 - 256) as i8
    } else {
        b as i8
    }
}

impl Keys {
    /// Nothing turned, nothing pressed.
    pub open spec fn idle() -> Keys {
        Keys { delta_wheel: 0, pressed_delta_wheel: 0, toggled_3d: false }
    }

    /// Decodes the emitter's answer: four bytes of head, the two wheel
    /// readings, and the button in the lowest bit.
    pub fn decode(answer: &[u8; 7]) -> (k: Keys)
        ensures
            k.delta_wheel == signed_byte(answer@[4]),
            k.pressed_delta_wheel == signed_byte(answer@[5]),
            k.toggled_3d == (answer@[6] % 2 == 1),
    {
        Keys {
            delta_wheel: to_signed(answer[4]),
            pressed_delta_wheel: to_signed(answer[5]),
            toggled_3d: answer[6] % 2 == 1,
        }
    }
}

impl Default for Keys {
    fn default() -> (k: Self)
        ensures
            k == Keys::idle(),
    {
        Keys { delta_wheel: 0, pressed_delta_wheel: 0, toggled_3d: false }
    }
}

/// How long packet writes took.
#[derive(Clone, Copy, Debug, PartialEq, Eq, Structural)]
pub struct WriteStats {
    pub count: u64,
    pub total_us: u64,
    pub max_us: u64,
    /// Writes that took longer than [`SLOW_WRITE_US`].
    pub slow: u64,
}

/// How long the waits for a vertical blank took.
#[derive(Clone, Copy, Debug, PartialEq, Eq, Structural)]
pub struct WaitStats {
    pub count: u64,
    pub total_us: u64,
    pub max_us: u64,
}

/// How far flips were from their prediction.
#[derive(Clone, Copy, Debug, PartialEq, Eq, Structural)]
pub struct PresentStats {
    pub count: u64,
    pub total_us: i64,
    pub max_abs_us: i64,
}

impl PresentStats {
    /// Nothing counted yet.
    pub open spec fn zero() -> PresentStats {
        PresentStats { count: 0, total_us: 0, max_abs_us: 0 }
    }

    /// With an error counted, if it is within two periods.
    pub open spec fn with_error(self, err: int, period: int) -> PresentStats {
        let abs = drm::abs(err);
        if abs < 2 * period {
            PresentStats {
                count: self.count.wrapping_add(1),
                total_us: self.total_us.wrapping_add(err as i64),
                max_abs_us: if abs > self.max_abs_us {
                    abs as i64
                } else {
                    self.max_abs_us
                },
            }
        } else {
            self
        }
    }
}

/// What setting the target asks for.
#[derive(Debug)]
pub enum Retarget {
    /// Nothing: the target is the same, or the anchor is on it already.
    Keep,
    /// The anchor has to be opened anew, on that output.
    Reopen(String),
}

/// When to send a packet, and the vertical blank that was predicted for it.
#[derive(Clone, Copy, Debug, PartialEq, Eq, Structural)]
pub struct SwapStart {
    /// Clock reading to wait for before sending.
    pub not_before: Option<u64>,
    /// Predicted vertical blank, in host-epoch time.
    pub predicted: Option<u64>,
    /// The anchor's period.
    pub period_us: u64,
}

/// The period to reckon with when there is no anchor.
pub const NOMINAL_PERIOD_US: u64 = 8333;

/// What the driver remembers about the emitter and its anchor.
#[derive(Debug)]
pub struct NvstusbContext {
    /// The state of the emitter's 3D switch.
    pub toggled_3d: bool,
    /// The only pacing mechanism.
    pub drm_vblank: Option<DrmVblank>,
    /// The output the window is on, in normalised spelling.
    pub target_connector: Option<String>,
    /// Whether left and right are swapped.
    pub invert_eyes: bool,
    /// Lead of a packet before its vertical blank.
    pub swap_phase_us: u32,
    /// Whether the emitter was seen to store its shutter timings.
    pub timings_live: Option<bool>,
    pub writes: WriteStats,
    pub waits: WaitStats,
    pub presents: PresentStats,
}

/// The anchor's connector in normalised spelling.
pub open spec fn anchored_on(d: Option<DrmVblank>) -> Option<Seq<char>> {
    match d {
        Some(d) => match d.connector {
            Some(c) => Some(heads::normalized(c@)),
            None => None,
        },
        None => None,
    }
}

pub open spec fn normalized_if_any(name: Option<&str>) -> Option<Seq<char>> {
    match name {
        Some(n) => Some(heads::normalized(n@)),
        None => None,
    }
}

impl NvstusbContext {
    /// Everything but the target.
    pub open spec fn same_but_target(&self, other: &NvstusbContext) -> bool {
        &&& self.toggled_3d == other.toggled_3d
        &&& self.drm_vblank == other.drm_vblank
        &&& self.invert_eyes == other.invert_eyes
        &&& self.swap_phase_us == other.swap_phase_us
        &&& self.timings_live == other.timings_live
        &&& self.writes == other.writes
        &&& self.waits == other.waits
        &&& self.presents == other.presents
    }

    /// A fresh emitter with its anchor.
    pub fn new(drm_vblank: Option<DrmVblank>) -> (c: NvstusbContext)
        ensures
            c.drm_vblank == drm_vblank,
            !c.toggled_3d,
            c.target_connector is None,
            !c.invert_eyes,
            c.swap_phase_us == DEFAULT_SWAP_PHASE_US,
            c.timings_live is None,
            c.writes == (WriteStats { count: 0, total_us: 0, max_us: 0, slow: 0 }),
            c.waits == (WaitStats { count: 0, total_us: 0, max_us: 0 }),
            c.presents == PresentStats::zero(),
    {
        NvstusbContext {
            toggled_3d: false,
            drm_vblank,
            target_connector: None,
            invert_eyes: false,
            swap_phase_us: DEFAULT_SWAP_PHASE_US,
            timings_live: None,
            writes: WriteStats { count: 0, total_us: 0, max_us: 0, slow: 0 },
            waits: WaitStats { count: 0, total_us: 0, max_us: 0 },
            presents: PresentStats { count: 0, total_us: 0, max_abs_us: 0 },
        }
    }

    /// Whether the emitter was seen to store its shutter timings.
    pub fn timings_live(&self) -> (live: Option<bool>)
        ensures
            live == self.timings_live,
    {
        self.timings_live
    }

    /// Notes the result of the first probe of the timing registers.
    pub fn probed_timings(&mut self, verified: bool)
        ensures
            *final(self) == (NvstusbContext {
                timings_live: match old(self).timings_live {
                    Some(v) => Some(v),
                    None => Some(verified),
                },
                ..*old(self)
            }),
    {
        if self.timings_live.is_none() {
            self.timings_live = Some(verified);
        }
    }

    /// Lead of a packet before its vertical blank.
    pub fn swap_phase_us(&self) -> (us: u32)
        ensures
            us == self.swap_phase_us,
    {
        self.swap_phase_us
    }

    /// Sets the lead of a packet before its vertical blank.
    pub fn set_swap_phase_us(&mut self, us: u32)
        ensures
            *final(self) == (NvstusbContext { swap_phase_us: us, ..*old(self) }),
    {
        self.swap_phase_us = us;
    }

    /// Follows the output that the window is on.
    ///
    /// The grids of two displays have no common phase, so an anchor on another
    /// output has to be opened anew.  One that is on the right output is left
    /// alone, and so is everything while the output is unchanged.
    pub fn set_target_connector(&mut self, name: Option<&str>) -> (action: Retarget)
        ensures
            final(self).same_but_target(old(self)),
            text::string_if_any(final(self).target_connector) == normalized_if_any(name),
            ({
                let want = normalized_if_any(name);
                let move_on = want != text::string_if_any(old(self).target_connector) && want is Some
                    && anchored_on(old(self).drm_vblank) != want;
                match action {
                    Retarget::Keep => !move_on,
                    Retarget::Reopen(output) => move_on && Some(output@) == want,
                }
            }),
    {
        let want: Option<String> = match name {
            Some(n) => Some(normalize_connector_name(n)),
            None => None,
        };
        let same: bool = match (&want, &self.target_connector) {
            (Some(a), Some(b)) => text::same_str(a.as_str(), b.as_str()),
            (None, None) => true,
            _ => false,
        };
        if same {
            return Retarget::Keep;
        }
        let here: Option<String> = match &self.drm_vblank {
            Some(d) => match d.connector_name() {
                Some(c) => Some(normalize_connector_name(c)),
                None => None,
            },
            None => None,
        };
        let moved: bool = needs_anchor_retarget(
            match &here {
                Some(h) => Some(h.as_str()),
                None => None,
            },
            match &want {
                Some(w) => Some(w.as_str()),
                None => None,
            },
        );
        let action: Retarget = match &want {
            Some(w) => if moved {
                Retarget::Reopen(w.clone())
            } else {
                Retarget::Keep
            },
            None => Retarget::Keep,
        };
        self.target_connector = want;
        action
    }

    /// Names the anchor, with the display it is on.
    pub fn anchor_name(&self) -> (n: String)
        ensures
            n@ == (match self.drm_vblank {
                Some(d) => "drm-vblank["@ + d.called() + "]"@,
                None => "no-anchor"@,
            }),
    {
        match &self.drm_vblank {
            Some(d) => {
                let mut n: String = "drm-vblank[".to_owned();
                n.append(d.label().as_str());
                n.append("]");
                n
            },
            None => "no-anchor".to_owned(),
        }
    }

    /// Number of the pacing method.
    pub fn vblank_method(&self) -> (m: u8)
        ensures
            m == 4,
    {
        4
    }

    /// Notes how long a packet took to write.  Returns whether that was slow.
    pub fn wrote_packet(&mut self, us: u64) -> (slow: bool)
        ensures
            slow == (us > SLOW_WRITE_US),
            *final(self) == (NvstusbContext {
                writes: WriteStats {
                    count: old(self).writes.count.wrapping_add(1),
                    total_us: old(self).writes.total_us.wrapping_add(us),
                    max_us: if us > old(self).writes.max_us {
                        us
                    } else {
                        old(self).writes.max_us
                    },
                    slow: if slow {
                        old(self).writes.slow.wrapping_add(1)
                    } else {
                        old(self).writes.slow
                    },
                },
                ..*old(self)
            }),
    {
        let slow: bool = us > SLOW_WRITE_US;
        self.writes.count = self.writes.count.wrapping_add(1);
        self.writes.total_us = self.writes.total_us.wrapping_add(us);
        if us > self.writes.max_us {
            self.writes.max_us = us;
        }
        if slow {
            self.writes.slow = self.writes.slow.wrapping_add(1);
        }
        slow
    }

    /// Packet writes: how many, their time together, the longest, and how many
    /// were slow.
    pub fn dbg_write_stats(&self) -> (s: (u64, u64, u64, u64))
        ensures
            s == (
                self.writes.count,
                self.writes.total_us,
                self.writes.max_us,
                self.writes.slow,
            ),
    {
        (self.writes.count, self.writes.total_us, self.writes.max_us, self.writes.slow)
    }

    /// Notes how long a swap waited for its vertical blank.
    pub fn waited(&mut self, us: u64)
        ensures
            *final(self) == (NvstusbContext {
                waits: WaitStats {
                    count: old(self).waits.count.wrapping_add(1),
                    total_us: old(self).waits.total_us.wrapping_add(us),
                    max_us: if us > old(self).waits.max_us {
                        us
                    } else {
                        old(self).waits.max_us
                    },
                },
                ..*old(self)
            }),
    {
        self.waits.count = self.waits.count.wrapping_add(1);
        self.waits.total_us = self.waits.total_us.wrapping_add(us);
        if us > self.waits.max_us {
            self.waits.max_us = us;
        }
    }

    /// Waits: how many, their time together, and the longest.
    pub fn dbg_wait_stats(&self) -> (s: (u64, u64, u64))
        ensures
            s == (self.waits.count, self.waits.total_us, self.waits.max_us),
    {
        (self.waits.count, self.waits.total_us, self.waits.max_us)
    }

    /// Flips: how many, the sum of their errors, and the largest.
    pub fn drm_present_stats(&self) -> (s: (u64, i64, i64))
        ensures
            s == (self.presents.count, self.presents.total_us, self.presents.max_abs_us),
    {
        (self.presents.count, self.presents.total_us, self.presents.max_abs_us)
    }

    /// Starts counting flips from zero.
    pub fn reset_drm_present_stats(&mut self)
        ensures
            *final(self) == (NvstusbContext { presents: PresentStats::zero(), ..*old(self) }),
    {
        self.presents = PresentStats { count: 0, total_us: 0, max_abs_us: 0 };
    }

    /// Re-anchors: how many, the sum of the errors, and the largest.
    pub fn drm_resync_stats(&self) -> (s: (u64, i64, i64))
        ensures
            s == (match self.drm_vblank {
                Some(d) => (d.resync_count, d.resync_err_total, d.resync_err_max_abs),
                None => (0u64, 0i64, 0i64),
            }),
    {
        match &self.drm_vblank {
            Some(d) => d.resync_stats(),
            None => (0, 0, 0),
        }
    }

    /// Takes the anchor out, and leaves everything else.
    fn take_anchor(&mut self) -> (d: Option<DrmVblank>)
        ensures
            d == old(self).drm_vblank,
            *final(self) == (NvstusbContext { drm_vblank: None, ..*old(self) }),
    {
        self.drm_vblank.take()
    }

    /// Starts counting re-anchors from zero.
    pub fn reset_drm_resync_stats(&mut self)
        ensures
            final(self).same_but_anchor(old(self)),
            match (final(self).drm_vblank, old(self).drm_vblank) {
                (Some(n), Some(o)) => n.same_binding(&o) && n.prediction() == (Prediction {
                    count: 0,
                    err_total: 0,
                    err_max: 0,
                    ..o.prediction()
                }),
                (None, None) => true,
                _ => false,
            },
    {
        if let Some(d) = self.take_anchor() {
            let mut d: DrmVblank = d;
            d.reset_resync_stats();
            self.drm_vblank = Some(d);
        }
    }

    /// Makes the next frame a re-anchoring one, as after a change of mode.
    pub fn force_resync(&mut self)
        ensures
            final(self).same_but_anchor(old(self)),
            match (final(self).drm_vblank, old(self).drm_vblank) {
                (Some(n), Some(o)) => n.same_binding(&o) && n.prediction() == (Prediction {
                    forced: true,
                    ..o.prediction()
                }),
                (None, None) => true,
                _ => false,
            },
    {
        if let Some(d) = self.take_anchor() {
            let mut d: DrmVblank = d;
            d.force_resync();
            self.drm_vblank = Some(d);
        }
    }

    /// Everything but the anchor.
    pub open spec fn same_but_anchor(&self, other: &NvstusbContext) -> bool {
        &&& self.toggled_3d == other.toggled_3d
        &&& self.target_connector == other.target_connector
        &&& self.invert_eyes == other.invert_eyes
        &&& self.swap_phase_us == other.swap_phase_us
        &&& self.timings_live == other.timings_live
        &&& self.writes == other.writes
        &&& self.waits == other.waits
        &&& self.presents == other.presents
    }

    /// Swaps left and right from now on, or no longer.
    pub fn invert_eyes(&mut self)
        ensures
            *final(self) == (NvstusbContext {
                invert_eyes: !old(self).invert_eyes,
                ..*old(self)
            }),
    {
        self.invert_eyes = !self.invert_eyes;
    }

    /// Whether left and right are swapped.
    pub fn is_inverted(&self) -> (b: bool)
        ensures
            b == self.invert_eyes,
    {
        self.invert_eyes
    }

    /// The packets that open an eye, in order.  `count` is the reload of the
    /// frame timer.
    pub fn set_eye(&self, eye: Eye, count: u32) -> (packets: Vec<[u8; 8]>)
        ensures
            ({
                let select = |right: bool|
                    seq![
                        0xAAu8,
                        if right != self.invert_eyes {
                            0xFEu8
                        } else {
                            0xFFu8
                        },
                        0x00,
                        0x00,
                    ] + usb::le4(count as int);
                match eye {
                    Eye::Left => packets@.len() == 1 && packets@[0]@ == select(false),
                    Eye::Right => packets@.len() == 1 && packets@[0]@ == select(true),
                    Eye::Quad => packets@.len() == 2 && packets@[0]@ == select(true)
                        && packets@[1]@ == select(false),
                }
            }),
    {
        let mut packets: Vec<[u8; 8]> = Vec::new();
        if eye != Eye::Left {
            packets.push(usb::eye_packet(true != self.invert_eyes, count));
        }
        if eye != Eye::Right {
            packets.push(usb::eye_packet(false != self.invert_eyes, count));
        }
        packets
    }

    /// Begins a swap: when its packet may go out.
    ///
    /// `clock` is a reading of the caller's clock.  A prediction that can no
    /// longer be met moves to the first vertical blank that can.
    pub fn begin_swap(&mut self, clock: u64) -> (start: SwapStart)
        requires
            old(self).drm_vblank matches Some(d) ==> d.in_range(),
            clock <= 0x3fff_ffff_ffff_ffff,
        ensures
            final(self).same_but_anchor(old(self)),
            match (final(self).drm_vblank, old(self).drm_vblank) {
                (None, None) => start == (SwapStart {
                    not_before: None,
                    predicted: None,
                    period_us: NOMINAL_PERIOD_US,
                }),
                (Some(n), Some(o)) => {
                    let lead = old(self).swap_phase_us;
                    let now = clock.saturating_sub(o.epoch_us);
                    let reach = now + ALARM_DELAY_US + lead + SNAP_MARGIN_US;
                    let next = drm::armed(o.next_present_us as int, o.period_us as int, reach);
                    &&& n.same_binding(&o)
                    &&& start.predicted == Some(o.next_present_us)
                    &&& start.period_us == o.period_us
                    &&& if o.broken || o.period_us == 0 {
                        start.not_before is None && n.prediction() == o.prediction()
                    } else {
                        &&& start.not_before == Some(
                            o.epoch_us.saturating_add((next - ALARM_DELAY_US - lead) as u64),
                        )
                        &&& n.prediction() == (Prediction { next, synced: true, ..o.prediction() })
                    }
                },
                _ => false,
            },
    {
        match self.take_anchor() {
            None => SwapStart {
                not_before: None,
                predicted: None,
                period_us: NOMINAL_PERIOD_US,
            },
            Some(d) => {
                let mut d: DrmVblank = d;
                let predicted: u64 = d.current_present_us();
                let period_us: u64 = d.period_us();
                let now: u64 = d.host_epoch_us(clock);
                let not_before: Option<u64> = match d.frame_start(self.swap_phase_us, now) {
                    Some(t) => Some(d.instant_of(t)),
                    None => None,
                };
                self.drm_vblank = Some(d);
                SwapStart { not_before, predicted: Some(predicted), period_us }
            },
        }
    }

    /// The flip's own time, where the backend tells it.
    pub fn flip_time(&self, flip_mono_us: Option<u64>) -> (t: Option<u64>)
        ensures
            t == (match (flip_mono_us, self.drm_vblank) {
                (Some(m), Some(d)) => Some(m.saturating_sub(d.real_epoch_offset_us)),
                _ => None,
            }),
    {
        match (flip_mono_us, &self.drm_vblank) {
            (Some(m), Some(d)) => Some(d.host_us_from_mono(m)),
            _ => None,
        }
    }

    /// Ends a swap.
    ///
    /// `precise_us` is the vertical blank that the flip was seen on; without it
    /// `clock` stands in.  Flips within two periods of their prediction are
    /// counted, and the prediction moves on.
    pub fn end_swap(&mut self, start: SwapStart, precise_us: Option<u64>, clock: u64)
        requires
            clock <= 0x3fff_ffff_ffff_ffff,
            precise_us matches Some(t) ==> t <= 0x3fff_ffff_ffff_ffff,
            start.predicted matches Some(p) ==> p <= 0x3fff_ffff_ffff_ffff,
            start.period_us <= 0x1000_0000_0000,
            old(self).drm_vblank matches Some(d) ==> d.can_end_frame(
                flip_or_now(precise_us, clock, d),
            ),
        ensures
            final(self).toggled_3d == old(self).toggled_3d,
            final(self).target_connector == old(self).target_connector,
            final(self).invert_eyes == old(self).invert_eyes,
            final(self).swap_phase_us == old(self).swap_phase_us,
            final(self).timings_live == old(self).timings_live,
            final(self).writes == old(self).writes,
            final(self).waits == old(self).waits,
            match (final(self).drm_vblank, old(self).drm_vblank) {
                (None, None) => final(self).presents == old(self).presents,
                (Some(n), Some(o)) => {
                    let t = flip_or_now(precise_us, clock, o);
                    &&& n.same_binding(&o)
                    &&& n.prediction() == (if o.broken {
                        o.prediction()
                    } else {
                        o.prediction().after_frame(t as int, o.resync_every as int)
                    })
                    &&& final(self).presents == (match start.predicted {
                        Some(p) => old(self).presents.with_error(
                            p - t,
                            start.period_us as int,
                        ),
                        None => old(self).presents,
                    })
                },
                _ => false,
            },
    {
        if let Some(d) = self.take_anchor() {
            let mut d: DrmVblank = d;
            let now: u64 = d.host_epoch_us(clock);
            let t: u64 = match precise_us {
                Some(t) => t,
                None => now,
            };
            if let Some(p) = start.predicted {
                let err: i64 = p as i64 - t as i64;
                let abs: i64 = if err < 0 {
                    -err
                } else {
                    err
                };
                if abs < start.period_us as i64 * 2 {
                    self.presents.count = self.presents.count.wrapping_add(1);
                    self.presents.total_us = self.presents.total_us.wrapping_add(err);
                    if abs > self.presents.max_abs_us {
                        self.presents.max_abs_us = abs;
                    }
                }
            }
            d.frame_end(precise_us, now);
            self.drm_vblank = Some(d);
        }
    }

    /// Takes in the emitter's answer about its button and wheel.
    pub fn take_keys(&mut self, answer: &[u8; 7]) -> (k: Keys)
        ensures
            k.delta_wheel == signed_byte(answer@[4]),
            k.pressed_delta_wheel == signed_byte(answer@[5]),
            k.toggled_3d == (answer@[6] % 2 == 1),
            *final(self) == (NvstusbContext {
                toggled_3d: old(self).toggled_3d != k.toggled_3d,
                ..*old(self)
            }),
    {
        let k: Keys = Keys::decode(answer);
        if k.toggled_3d {
            self.toggled_3d = !self.toggled_3d;
        }
        k
    }
}

/// The vertical blank that a flip was seen on, else the host-epoch time.
pub open spec fn flip_or_now(precise_us: Option<u64>, clock: u64, d: DrmVblank) -> u64 {
    match precise_us {
        Some(t) => t,
        None => clock.saturating_sub(d.epoch_us),
    }
}

} // verus!
