//! The screen's frame counter, as the window system reports it.

use crate::host::grid;
use crate::nvstusb::drm::{PERIOD_MAX_US, PERIOD_MIN_US};
use vstd::prelude::*;

verus! {

/// A frame counter with the time of its last step, and the period measured from
/// it.
#[derive(Clone, Copy, Debug, PartialEq, Eq, Structural)]
pub struct MscAnchor {
    /// Reading of the caller's clock, in nanoseconds, ...
    pub base_ns: u64,
    /// ... and of the counter's clock at the same time.
    pub base_ust: i64,
    pub last_msc: i64,
    pub last_ust: i64,
    /// Period in microseconds, zero until measured.
    pub period_us: u64,
}

/// A reading of the counter, if it is one: the call succeeded, and not both
/// values are zero.
pub fn sync_values(ok: i32, ust: i64, msc: i64) -> (v: Option<(i64, i64)>)
    ensures
        v == (if ok == 0 || (ust == 0 && msc == 0) {
            None
        } else {
            Some((ust, msc))
        }),
{
    if ok == 0 || (ust == 0 && msc == 0) {
        None
    } else {
        Some((ust, msc))
    }
}

/// Both values of a reading are far from the ends of their range.
pub open spec fn is_moderate(ust: i64, msc: i64) -> bool {
    &&& -0x4000_0000_0000_0000 <= ust <= 0x3fff_ffff_ffff_ffff
    &&& -0x4000_0000_0000_0000 <= msc <= 0x3fff_ffff_ffff_ffff
}

impl MscAnchor {
    /// The values are far from the ends of their range.
    pub open spec fn wf(&self) -> bool {
        &&& self.base_ns <= grid::MAX_TIME_US
        &&& is_moderate(self.last_ust, self.last_msc)
    }

    /// The period that a reading gives.
    pub open spec fn measured(&self, ust: i64, msc: i64) -> int {
        (ust - self.last_ust) / (msc - self.last_msc) / 1000
    }

    /// After a reading.
    pub open spec fn observed(&self, ust: i64, msc: i64) -> MscAnchor {
        MscAnchor {
            last_msc: msc,
            last_ust: ust,
            period_us: if msc > self.last_msc && ust > self.last_ust && PERIOD_MIN_US
                <= self.measured(ust, msc) <= PERIOD_MAX_US {
                self.measured(ust, msc) as u64
            } else {
                self.period_us
            },
            ..*self
        }
    }

    /// A counter's time on the caller's clock.  A time before the base counts
    /// as the base.
    pub open spec fn time_of(&self, ust: i64) -> u64 {
        let since = ust - self.base_ust;
        if since <= 0 {
            self.base_ns
        } else if since > i64::MAX {
            (self.base_ns + i64::MAX) as u64
        } else {
            (self.base_ns + since) as u64
        }
    }

    /// Starts from a reading.
    pub fn capture(base_ns: u64, ust: i64, msc: i64) -> (a: MscAnchor)
        requires
            base_ns <= grid::MAX_TIME_US,
            is_moderate(ust, msc),
        ensures
            a == (MscAnchor {
                base_ns,
                base_ust: ust,
                last_msc: msc,
                last_ust: ust,
                period_us: 0,
            }),
            a.wf(),
    {
        MscAnchor { base_ns, base_ust: ust, last_msc: msc, last_ust: ust, period_us: 0 }
    }

    /// The period in microseconds, zero until measured.
    pub fn period_us(&self) -> (us: u64)
        ensures
            us == self.period_us,
    {
        self.period_us
    }

    /// A counter's time on the caller's clock.
    pub fn instant_of(&self, ust: i64) -> (t: u64)
        requires
            self.base_ns <= grid::MAX_TIME_US,
        ensures
            t == self.time_of(ust),
    {
        let since: i128 = ust as i128 - self.base_ust as i128;
        if since <= 0 {
            self.base_ns
        } else if since > i64::MAX as i128 {
            self.base_ns + i64::MAX as u64
        } else {
            self.base_ns + since as u64
        }
    }

    /// Takes in a reading.
    ///
    /// Where both the counter and its time advanced, the period is the time
    /// over the number of frames; a period out of range is not taken over.
    pub fn observe(&mut self, ust: i64, msc: i64)
        requires
            old(self).wf(),
            is_moderate(ust, msc),
        ensures
            final(self).wf(),
            *final(self) == old(self).observed(ust, msc),
    {
        if msc > self.last_msc && ust > self.last_ust {
            let elapsed: u64 = (ust - self.last_ust) as u64;
            let frames: u64 = (msc - self.last_msc) as u64;
            let p: u64 = elapsed / frames / 1000;
            if p >= PERIOD_MIN_US && p <= PERIOD_MAX_US {
                self.period_us = p;
            }
        }
        self.last_msc = msc;
        self.last_ust = ust;
    }

    /// The time of the frame that a reading is of, unless it is still the last
    /// one.
    pub fn wait_vblank(&mut self, ust: i64, msc: i64) -> (t: Option<u64>)
        requires
            old(self).wf(),
            is_moderate(ust, msc),
        ensures
            final(self).wf(),
            msc == old(self).last_msc ==> t is None && *final(self) == *old(self),
            msc != old(self).last_msc ==> t == Some(old(self).time_of(ust)) && *final(self)
                == old(self).observed(ust, msc),
    {
        if msc == self.last_msc {
            return None;
        }
        self.observe(ust, msc);
        Some(self.instant_of(ust))
    }
}

/// Readings of a steady counter give its period, however many frames lie
/// between them.
pub proof fn a_steady_counter_gives_its_period(a: MscAnchor, frames: int, period_ns: int)
    requires
        a.wf(),
        frames > 0,
        PERIOD_MIN_US * 1000 <= period_ns <= PERIOD_MAX_US * 1000,
        a.last_ust + frames * period_ns <= i64::MAX,
        a.last_msc + frames <= i64::MAX,
    ensures
        a.observed(
            (a.last_ust + frames * period_ns) as i64,
            (a.last_msc + frames) as i64,
        ).period_us == period_ns / 1000,
{
    let ust = a.last_ust + frames * period_ns;
    vstd::arithmetic::mul::lemma_mul_strictly_positive(frames, period_ns);
    vstd::arithmetic::div_mod::lemma_div_multiples_vanish(period_ns, frames);
    assert(frames * period_ns == period_ns * frames) by (nonlinear_arith);
    assert((ust as i64) - a.last_ust == frames * period_ns);
}

} // verus!
