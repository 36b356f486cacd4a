//! What a compositor reports about the frames of a surface, and about its
//! output and keyboard.

use crate::host::grid;
use vstd::prelude::*;

verus! {

/// Rates that a reported refresh period has to lie between, in microseconds.
pub const REFRESH_MIN_US: u64 = 4000;
pub const REFRESH_MAX_US: u64 = 40000;

/// The frames that the compositor reported.
#[derive(Debug)]
pub struct WaylandPresent {
    /// Reading of the caller's clock, in microseconds, ...
    pub base_us: u64,
    /// ... and of the monotonic clock, in nanoseconds, at the same time.
    pub base_mono_ns: i128,
    /// Time of the last shown frame, in microseconds since then; -1 for none.
    pub last_us: i64,
    /// The last reported frame was not shown.
    pub last_discarded: bool,
    /// Refresh period, zero until one is known.
    pub period_us: u64,
    /// Number of reports.
    pub generation: u64,
}

/// What came of a wait for the next report.
#[derive(Clone, Copy, Debug, PartialEq, Eq, Structural)]
pub enum Waited {
    /// There is none yet.
    Pending,
    /// The frame was not shown.
    Discarded,
    /// The frame was shown at that reading of the caller's clock.
    Presented(u64),
}

/// Nanoseconds of a reported time.
pub open spec fn reported_ns(sec_hi: u32, sec_lo: u32, nsec: u32) -> int {
    (sec_hi * 0x1_0000_0000 + sec_lo) * 1_000_000_000 + nsec
}

impl WaylandPresent {
    /// Both clocks are within their range.
    pub open spec fn wf(&self) -> bool {
        &&& self.base_us <= grid::MAX_TIME_US
        &&& 0 <= self.base_mono_ns <= 0x3fff_ffff_ffff_ffff
        &&& self.last_us >= -1
    }

    /// The time of the last shown frame on the caller's clock.
    pub open spec fn shown_at(&self) -> Option<u64> {
        if self.last_us < 0 {
            None
        } else {
            Some((self.base_us + self.last_us) as u64)
        }
    }

    /// What a wait finds that has seen the reports up to `seen`.
    pub open spec fn waited(&self, seen: u64) -> Waited {
        if self.generation == seen {
            Waited::Pending
        } else {
            match self.shown_at() {
                Some(t) if !self.last_discarded => Waited::Presented(t),
                _ => Waited::Discarded,
            }
        }
    }

    /// Nothing reported yet.
    pub fn new(base_us: u64, base_mono_ns: i128) -> (p: WaylandPresent)
        requires
            base_us <= grid::MAX_TIME_US,
            0 <= base_mono_ns <= 0x3fff_ffff_ffff_ffff,
        ensures
            p == (WaylandPresent {
                base_us,
                base_mono_ns,
                last_us: (-1) as i64,
                last_discarded: false,
                period_us: 0,
                generation: 0,
            }),
            p.wf(),
            p.shown_at() is None,
    {
        WaylandPresent {
            base_us,
            base_mono_ns,
            last_us: -1,
            last_discarded: false,
            period_us: 0,
            generation: 0,
        }
    }

    /// A frame was shown.  A time before the base counts as the base, and a
    /// refresh period out of range is not taken over.
    pub fn presented(&mut self, sec_hi: u32, sec_lo: u32, nsec: u32, refresh_ns: u32)
        requires
            old(self).wf(),
            old(self).generation < u64::MAX,
            reported_ns(sec_hi, sec_lo, nsec) - old(self).base_mono_ns <= i64::MAX * 1000,
        ensures
            final(self).wf(),
            ({
                let since = reported_ns(sec_hi, sec_lo, nsec) - old(self).base_mono_ns;
                let period = refresh_ns / 1000;
                *final(self) == (WaylandPresent {
                    last_us: if since < 0 {
                        0
                    } else {
                        (since / 1000) as i64
                    },
                    last_discarded: false,
                    period_us: if REFRESH_MIN_US <= period <= REFRESH_MAX_US {
                        period as u64
                    } else {
                        old(self).period_us
                    },
                    generation: (old(self).generation + 1) as u64,
                    ..*old(self)
                })
            }),
    {
        let secs: u64 = sec_hi as u64 * 0x1_0000_0000 + sec_lo as u64;
        let ns: i128 = secs as i128 * 1_000_000_000 + nsec as i128;
        let since: i128 = ns - self.base_mono_ns;
        self.last_us = if since < 0 {
            0
        } else {
            (since as u128 / 1000) as i64
        };
        self.last_discarded = false;
        let period: u64 = refresh_ns as u64 / 1000;
        if period >= REFRESH_MIN_US && period <= REFRESH_MAX_US {
            self.period_us = period;
        }
        self.generation = self.generation + 1;
    }

    /// A frame was not shown.
    pub fn discarded(&mut self)
        requires
            old(self).generation < u64::MAX,
        ensures
            *final(self) == (WaylandPresent {
                last_discarded: true,
                generation: (old(self).generation + 1) as u64,
                ..*old(self)
            }),
    {
        self.last_discarded = true;
        self.generation = self.generation + 1;
    }

    /// The time of the last shown frame on the caller's clock, if any.
    pub fn last_present(&self) -> (t: Option<u64>)
        requires
            self.wf(),
        ensures
            t == self.shown_at(),
    {
        if self.last_us < 0 {
            None
        } else {
            Some(self.base_us + self.last_us as u64)
        }
    }

    /// The refresh period, zero until one is known.
    pub fn period_us(&self) -> (us: u64)
        ensures
            us == self.period_us,
    {
        self.period_us
    }

    /// The number of reports.
    pub fn generation(&self) -> (g: u64)
        ensures
            g == self.generation,
    {
        self.generation
    }

    /// The report after the `last_gen`-th, which is brought up to date.
    pub fn wait_next(&self, last_gen: &mut u64) -> (w: Waited)
        requires
            self.wf(),
        ensures
            *final(last_gen) == self.generation,
            w == self.waited(*old(last_gen)),
    {
        if self.generation == *last_gen {
            return Waited::Pending;
        }
        *last_gen = self.generation;
        if self.last_discarded {
            return Waited::Discarded;
        }
        match self.last_present() {
            Some(t) => Waited::Presented(t),
            None => Waited::Discarded,
        }
    }
}

/// A shown frame is found by the next wait, and by that one alone.
pub proof fn a_shown_frame_is_found_once(p: WaylandPresent, seen: u64)
    requires
        p.wf(),
        seen != p.generation,
        p.last_us >= 0,
        !p.last_discarded,
    ensures
        p.waited(seen) == Waited::Presented((p.base_us + p.last_us) as u64),
        p.waited(p.generation) is Pending,
{
}

/// The character of a key of a US keyboard, for the keys that mean something.
pub open spec fn key_char_of(keycode: u32) -> Option<char> {
    match keycode {
        16 => Some('q'),
        23 => Some('i'),
        25 => Some('p'),
        26 => Some('['),
        27 => Some(']'),
        31 => Some('s'),
        33 => Some('f'),
        34 => Some('g'),
        39 => Some(';'),
        46 => Some('c'),
        51 => Some(','),
        52 => Some('.'),
        _ => None,
    }
}

/// The keys that were pressed on the surface, the oldest first.
#[derive(Debug)]
pub struct KeyQueue {
    pub keys: Vec<char>,
}

impl KeyQueue {
    pub fn new() -> (q: KeyQueue)
        ensures
            q.keys@.len() == 0,
    {
        KeyQueue { keys: Vec::new() }
    }

    /// A key was pressed.  One without a meaning is dropped.
    pub fn push_key(&mut self, keycode: u32)
        ensures
            final(self).keys@ == (match key_char_of(keycode) {
                Some(c) => old(self).keys@.push(c),
                None => old(self).keys@,
            }),
    {
        let c: char = match keycode {
            16 => 'q',
            23 => 'i',
            25 => 'p',
            26 => '[',
            27 => ']',
            31 => 's',
            33 => 'f',
            34 => 'g',
            39 => ';',
            46 => 'c',
            51 => ',',
            52 => '.',
            _ => {
                return ;
            },
        };
        self.keys.push(c);
    }

    /// Takes the next key, if there is one: they come in the order in which
    /// they were pressed.
    pub fn take_key(&mut self) -> (k: Option<char>)
        ensures
            old(self).keys@.len() == 0 ==> k is None && final(self).keys@ == old(self).keys@,
            old(self).keys@.len() > 0 ==> k == Some(old(self).keys@[0]) && final(self).keys@
                == old(self).keys@.skip(1),
    {
        if self.keys.len() == 0 {
            return None;
        }
        let k: char = self.keys.remove(0);
        assert(self.keys@ =~= old(self).keys@.skip(1));
        Some(k)
    }
}

/// The output that the surface is on.
#[derive(Clone, Copy, Debug, PartialEq, Eq, Structural)]
pub struct Output {
    /// Width and height in pixels, zero until known.
    pub width: u32,
    pub height: u32,
    /// Refresh rate in millihertz, zero until known.
    pub refresh_mhz: u32,
}

impl Output {
    pub fn new() -> (o: Output)
        ensures
            o == (Output { width: 0, height: 0, refresh_mhz: 0 }),
    {
        Output { width: 0, height: 0, refresh_mhz: 0 }
    }

    /// The output has such a mode.  Its size is taken over if it has one, and
    /// its rate if it has one and is the current one.
    pub fn mode(&mut self, width: i32, height: i32, refresh: i32, current: bool)
        ensures
            *final(self) == (Output {
                width: if width > 0 && height > 0 {
                    width as u32
                } else {
                    old(self).width
                },
                height: if width > 0 && height > 0 {
                    height as u32
                } else {
                    old(self).height
                },
                refresh_mhz: if refresh > 0 && current {
                    refresh as u32
                } else {
                    old(self).refresh_mhz
                },
            }),
    {
        if width > 0 && height > 0 {
            self.width = width as u32;
            self.height = height as u32;
        }
        if refresh > 0 && current {
            self.refresh_mhz = refresh as u32;
        }
    }

    /// The size to give the surface, `None` while it is not known.
    pub fn known_size(&self) -> (s: Option<(u32, u32)>)
        ensures
            s == (if self.width > 0 && self.height > 0 {
                Some((self.width, self.height))
            } else {
                None
            }),
    {
        if self.width > 0 && self.height > 0 {
            Some((self.width, self.height))
        } else {
            None
        }
    }

    /// The size to give the surface, 1920 by 1080 while it is not known.
    pub fn surface_size(&self) -> (s: (u32, u32))
        ensures
            s == (if self.width > 0 && self.height > 0 {
                (self.width, self.height)
            } else {
                (1920u32, 1080u32)
            }),
    {
        match self.known_size() {
            Some(s) => s,
            None => (1920, 1080),
        }
    }
}

/// Number of the monotonic clock.
pub const CLOCK_MONOTONIC: u32 = 1;

/// Whether the compositor reports times of another clock than the monotonic
/// one.  Zero stands for a clock that is not known.
pub fn foreign_clock(clock_id: u32) -> (b: bool)
    ensures
        b == (clock_id != 0 && clock_id != CLOCK_MONOTONIC),
{
    clock_id != 0 && clock_id != CLOCK_MONOTONIC
}

/// Whether a line about shown frames is due: the first one, and then one each
/// second.
pub fn log_due(last: Option<u64>, clock: u64) -> (b: bool)
    ensures
        b == (match last {
            Some(t) => clock.saturating_sub(t) >= 1_000_000,
            None => true,
        }),
{
    match last {
        Some(t) => clock.saturating_sub(t) >= 1_000_000,
        None => true,
    }
}

} // verus!
