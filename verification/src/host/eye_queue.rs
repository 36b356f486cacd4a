//! The eye source: what the game reported, pinned to display boundaries.
//!
//! Every drained swap is pinned to the next unassigned boundary of the
//! anchored grid, in drain order.  [`EyeQueue::next_eye`] then hands out the
//! eye that belongs to the boundary being armed.  When none is due it keeps
//! the glasses alternating for a short stretch, then holds.  Nothing is ever
//! fired before the first eye the game reported.

use crate::host::grid;
use crate::nvstusb::drm;
use crate::nvstusb::drm::DrmVblank;
use crate::shm::{Swap, EYE_RIGHT};
use std::collections::VecDeque;
use vstd::prelude::*;

verus! {

/// Longest schedule (and longest fallback queue) that is kept; beyond it only
/// the newest entry survives.
pub const MAX_QUEUE: usize = 8;

/// Invented fires in a row after which the held phase is taken anew from the
/// next reported eye.
pub const DIP_RESYNC_AFTER_FREERUN_SLOTS: u32 = 2;

/// The schedule is moved back onto the grid when its front is more than this
/// fraction of a period away from the boundary being armed.
pub const DRIFT_LAG_ALIGN_PERIOD_DIV: u64 = 8;

/// Invented fires in a row after which the last eye is held: about a tenth of a
/// second at 120 Hz, well inside the time after which a silent game counts as
/// gone.
pub const STALL_HOLD_AFTER_FREERUN_SLOTS: u32 = 12;

/// A scheduled eye: its boundary, and whether it is the right eye.
pub type Slot = (u64, bool);

/// Counters for the ways a slot can go by without its own reported eye.
#[derive(Clone, Copy, Debug, PartialEq, Eq, Structural)]
pub struct DropDiagnostic {
    /// Eyes dropped because their slot had already been on screen.
    pub overdue: u64,
    /// Eyes dropped because a later eye fell on the same slot.
    pub coalesced: u64,
    /// Slots served with an invented eye.
    pub freerun: u64,
}

impl Default for DropDiagnostic {
    fn default() -> (d: Self)
        ensures
            d == (DropDiagnostic { overdue: 0, coalesced: 0, freerun: 0 }),
    {
        DropDiagnostic { overdue: 0, coalesced: 0, freerun: 0 }
    }
}

/// The two queues of reported eyes and the phase that was fired last.
#[derive(Debug)]
pub struct EyeQueue {
    /// Eyes without a boundary, in arrival order (`true` is right).
    pub fallback: VecDeque<bool>,
    /// Eyes with a boundary, in ascending order of it.
    pub scheduled: VecDeque<Slot>,
    /// The eye fired last.
    pub last_fired: Option<bool>,
    /// Invented fires since the last reported eye.
    pub freerun_since: u32,
    /// Running counts of eyes that were not fired on their own slot.
    pub drops: DropDiagnostic,
    /// Invented fires in a row after which the last eye is held.
    pub stall_hold_after_freerun: u32,
    /// The fired phase is no longer the game's: the next pinned eye resets it.
    pub pending_reanchor: bool,
    /// The eye handed out last was invented.
    pub last_was_freerun: bool,
    /// A reported eye has been fired.
    pub first_dll_eye_fired: bool,
}

/// The state of an [`EyeQueue`] as plain values.
#[verifier::ext_equal]
pub struct QueueState {
    pub fallback: Seq<bool>,
    pub scheduled: Seq<Slot>,
    pub last_fired: Option<bool>,
    pub freerun_since: u32,
    pub overdue: int,
    pub coalesced: int,
    pub freerun: int,
    pub stall_hold: u32,
    pub pending_reanchor: bool,
    pub last_was_freerun: bool,
    pub first_fired: bool,
}

impl View for EyeQueue {
    type V = QueueState;

    open spec fn view(&self) -> QueueState {
        QueueState {
            fallback: self.fallback@,
            scheduled: self.scheduled@,
            last_fired: self.last_fired,
            freerun_since: self.freerun_since,
            overdue: self.drops.overdue as int,
            coalesced: self.drops.coalesced as int,
            freerun: self.drops.freerun as int,
            stall_hold: self.stall_hold_after_freerun,
            pending_reanchor: self.pending_reanchor,
            last_was_freerun: self.last_was_freerun,
            first_fired: self.first_dll_eye_fired,
        }
    }
}

/// Boundaries ascend strictly.
pub open spec fn ascending(s: Seq<Slot>) -> bool {
    forall|i: int, j: int| 0 <= i < j < s.len() ==> (#[trigger] s[i]).0 < (#[trigger] s[j]).0
}

/// Every boundary leaves room for a step of `room` microseconds.
pub open spec fn bounded(s: Seq<Slot>, room: int) -> bool {
    forall|i: int| 0 <= i < s.len() ==> (#[trigger] s[i]).0 + room <= grid::MAX_TIME_US
}

impl QueueState {
    /// What every operation keeps: short queues, and one eye per boundary in
    /// ascending order.
    pub open spec fn wf(self) -> bool {
        &&& ascending(self.scheduled)
        &&& self.scheduled.len() <= MAX_QUEUE
        &&& self.fallback.len() <= MAX_QUEUE
    }

    /// The next slot may have to do without a reported eye of its own.
    pub open spec fn may_freerun(self) -> bool {
        self.first_fired && (self.scheduled.len() > 0 || (self.fallback.len() == 0
            && self.last_fired is Some))
    }

    /// The schedule and the counters have room for the next slot.  A slot that
    /// stays silent needs none.
    pub open spec fn can_serve(self, period: int) -> bool {
        &&& self.scheduled.len() > 0 ==> {
            &&& bounded(self.scheduled, period)
            &&& self.overdue + self.scheduled.len() <= u64::MAX
            &&& self.coalesced + self.scheduled.len() <= u64::MAX
        }
        &&& self.may_freerun() ==> self.freerun + 1 <= u64::MAX
    }
}

/// Length of the longest prefix of `s` whose entries all satisfy `f`.
pub open spec fn prefix_len(s: Seq<Slot>, f: spec_fn(Slot) -> bool) -> nat
    decreases s.len(),
{
    if s.len() == 0 || !f(s[0]) {
        0
    } else {
        1 + prefix_len(s.skip(1), f)
    }
}

pub proof fn lemma_prefix_len(s: Seq<Slot>, f: spec_fn(Slot) -> bool, n: int)
    requires
        0 <= n <= s.len(),
        forall|i: int| 0 <= i < n ==> f(#[trigger] s[i]),
        n < s.len() ==> !f(s[n]),
    ensures
        prefix_len(s, f) == n,
    decreases n,
{
    if n > 0 {
        assert(f(s[0]));
        let t = s.skip(1);
        assert forall|i: int| 0 <= i < n - 1 implies f(#[trigger] t[i]) by {
            assert(t[i] == s[i + 1]);
        }
        lemma_prefix_len(t, f, n - 1);
    }
}

// ---------------------------------------------------------------------------
// Moving the schedule back onto the grid
// ---------------------------------------------------------------------------

/// How far `b` lies off the grid through `origin`, as the signed distance of at
/// most half a period to the nearest boundary.
pub open spec fn drift(b: int, origin: int, period: int) -> int {
    let d = (b - origin) % period;
    if d > period / 2 {
        d - period
    } else {
        d
    }
}

pub open spec fn not_before(limit: int) -> spec_fn(Slot) -> bool {
    |e: Slot| e.0 >= limit
}

pub open spec fn moved_back(d: int) -> spec_fn(Slot) -> Slot {
    |e: Slot| ((e.0 - d) as u64, e.1)
}

/// The schedule with every boundary shifted by the drift of the front, without
/// the entries that then lie before `origin`.
pub open spec fn rebased(s: Seq<Slot>, origin: int, period: int) -> Seq<Slot> {
    if s.len() == 0 {
        s
    } else {
        let d = drift(s[0].0 as int, origin, period);
        s.filter(not_before(origin + d)).map_values(moved_back(d))
    }
}

// ---------------------------------------------------------------------------
// Queueing an eye
// ---------------------------------------------------------------------------

/// Some scheduled eye already owns boundary `t`.
pub open spec fn claimed(s: Seq<Slot>, t: int) -> bool {
    exists|i: int| 0 <= i < s.len() && (#[trigger] s[i]).0 == t
}

/// `t + k * period` is the first of `t`, `t + period`, ... that nobody owns.
pub open spec fn first_free(s: Seq<Slot>, t: int, period: int, k: int) -> bool {
    &&& 0 <= k
    &&& !claimed(s, t + k * period)
    &&& forall|j: int| 0 <= j < k ==> claimed(s, #[trigger] (t + j * period))
}

/// The first unowned boundary at or after `t`, in steps of one period.
pub open spec fn free_slot(s: Seq<Slot>, t: int, period: int) -> int {
    t + (choose|k: int| first_free(s, t, period, k)) * period
}

pub open spec fn not_after(t: int) -> spec_fn(Slot) -> bool {
    |e: Slot| e.0 <= t
}

pub open spec fn other_than(t: int) -> spec_fn(Slot) -> bool {
    |e: Slot| e.0 != t
}

/// `s` with `e` put before the first entry that has a later boundary.
pub open spec fn inserted(s: Seq<Slot>, e: Slot) -> Seq<Slot> {
    s.insert(prefix_len(s, not_after(e.0 as int)) as int, e)
}

/// Only the newest entry of a schedule that has grown too long.
pub open spec fn backlog_cut(s: Seq<Slot>) -> Seq<Slot> {
    if s.len() > MAX_QUEUE {
        seq![s.last()]
    } else {
        s
    }
}

impl QueueState {
    /// The next pinned eye defines the phase.
    pub open spec fn reanchors(self) -> bool {
        self.freerun_since >= DIP_RESYNC_AFTER_FREERUN_SLOTS || self.pending_reanchor
    }

    /// The state after an eye pinned to `target` was queued.
    pub open spec fn with_pinned(self, right: bool, target: int, period: int) -> QueueState {
        let t = free_slot(self.scheduled, target, period);
        let e: Slot = (t as u64, right);
        if self.reanchors() {
            QueueState {
                freerun_since: 0,
                pending_reanchor: false,
                last_fired: Some(right),
                scheduled: backlog_cut(
                    inserted(rebased(self.scheduled, t, period).filter(other_than(t)), e),
                ),
                ..self
            }
        } else {
            QueueState { scheduled: backlog_cut(inserted(self.scheduled, e)), ..self }
        }
    }

    /// The state after an eye without a boundary was queued.
    pub open spec fn with_unpinned(self, right: bool) -> QueueState {
        if self.fallback.len() < MAX_QUEUE {
            QueueState { fallback: self.fallback.push(right), ..self }
        } else {
            QueueState {
                fallback: seq![right],
                last_fired: Some(right),
                freerun_since: 0,
                ..self
            }
        }
    }

    pub open spec fn with_eye(self, right: bool, target: Option<u64>, period: u64) -> QueueState {
        match target {
            Some(t) => self.with_pinned(right, t as int, grid::step(period)),
            None => self.with_unpinned(right),
        }
    }
}

// ---------------------------------------------------------------------------
// Facts about the schedule
// ---------------------------------------------------------------------------

pub proof fn lemma_first_free_is_unique(s: Seq<Slot>, t: int, period: int, k: int)
    requires
        first_free(s, t, period, k),
    ensures
        free_slot(s, t, period) == t + k * period,
{
    let c = choose|c: int| first_free(s, t, period, c);
    assert(first_free(s, t, period, c));
    if c < k {
        assert(claimed(s, t + c * period));
    } else if k < c {
        assert(claimed(s, t + k * period));
    }
}

/// What a filter leaves of an ascending schedule ascends.
pub proof fn lemma_filter_ascends(s: Seq<Slot>, f: spec_fn(Slot) -> bool)
    requires
        ascending(s),
    ensures
        ascending(s.filter(f)),
        s.filter(f).len() <= s.len(),
        forall|i: int|
            0 <= i < s.filter(f).len() ==> f(#[trigger] s.filter(f)[i]) && s.contains(
                s.filter(f)[i],
            ),
    decreases s.len(),
{
    broadcast use vstd::seq_lib::group_filter_ensures;

    reveal(Seq::filter);
    if s.len() > 0 {
        let rest = s.drop_last();
        let kept = rest.filter(f);
        lemma_filter_ascends(rest, f);
        assert forall|i: int| 0 <= i < kept.len() implies (#[trigger] kept[i]).0 < s.last().0 by {
            assert(rest.contains(kept[i]));
            let j = choose|j: int| 0 <= j < rest.len() && rest[j] == kept[i];
            assert(s[j].0 < s[s.len() - 1].0);
        }
        assert forall|i: int| 0 <= i < s.filter(f).len() implies s.contains(
            #[trigger] s.filter(f)[i],
        ) by {
            if i < kept.len() {
                assert(s.filter(f)[i] == kept[i]);
                let j = choose|j: int| 0 <= j < rest.len() && rest[j] == kept[i];
                assert(s[j] == kept[i]);
            } else {
                assert(s.filter(f)[i] == s[s.len() - 1]);
            }
        }
    }
}

/// The drift is at most half a period, and taking it off puts the boundary on
/// the grid.
pub proof fn drift_is_at_most_half_a_period(b: int, origin: int, period: int)
    requires
        period > 0,
    ensures
        -(period / 2) <= drift(b, origin, period) <= period / 2,
        grid::on_grid(origin, period, b - drift(b, origin, period)),
{
    let d = (b - origin) % period;
    vstd::arithmetic::div_mod::lemma_fundamental_div_mod(b - origin, period);
    let q = (b - origin) / period;
    vstd::arithmetic::div_mod::lemma_mod_multiples_vanish(q, 0, period);
    vstd::arithmetic::div_mod::lemma_mod_multiples_vanish(q + 1, 0, period);
    assert(period * (q + 1) == period * q + period) by (nonlinear_arith);
    assert(0int % period == 0) by {
        vstd::arithmetic::div_mod::lemma_small_mod(0, period as nat);
    }
    if d > period / 2 {
        assert(b - (d - period) - origin == period * (q + 1) + 0);
    } else {
        assert(b - d - origin == period * q + 0);
    }
}

/// Moving a schedule keeps its order, and moves no boundary by more than half
/// a period.
pub proof fn lemma_rebased(s: Seq<Slot>, origin: int, period: int, room: int)
    requires
        period > 0,
        origin >= 0,
        ascending(s),
        bounded(s, room),
        room >= period,
    ensures
        ascending(rebased(s, origin, period)),
        rebased(s, origin, period).len() <= s.len(),
        bounded(rebased(s, origin, period), room - period / 2),
{
    if s.len() > 0 {
        let d = drift(s[0].0 as int, origin, period);
        let kept = s.filter(not_before(origin + d));
        drift_is_at_most_half_a_period(s[0].0 as int, origin, period);
        lemma_filter_ascends(s, not_before(origin + d));
        let r = rebased(s, origin, period);
        assert forall|i: int| 0 <= i < r.len() implies (#[trigger] r[i]).0 == kept[i].0 - d
            && r[i].0 + (room - period / 2) <= grid::MAX_TIME_US by {
            let j = choose|j: int| 0 <= j < s.len() && s[j] == kept[i];
            assert(s[j].0 + room <= grid::MAX_TIME_US);
        }
        assert forall|i: int, j: int| 0 <= i < j < r.len() implies (#[trigger] r[i]).0 < (
        #[trigger] r[j]).0 by {
            assert(kept[i].0 < kept[j].0);
        }
    }
}

/// Inserting an eye at an unowned boundary keeps the order.
pub proof fn lemma_inserted(s: Seq<Slot>, e: Slot)
    requires
        ascending(s),
        !claimed(s, e.0 as int),
    ensures
        ascending(inserted(s, e)),
        inserted(s, e).len() == s.len() + 1,
        forall|i: int| 0 <= i < inserted(s, e).len() ==> #[trigger] inserted(s, e)[i] == e
            || s.contains(inserted(s, e)[i]),
{
    let f = not_after(e.0 as int);
    let n = prefix_len(s, f) as int;
    lemma_prefix_bounds(s, f);
    let r = inserted(s, e);
    assert forall|i: int| 0 <= i < s.len() implies (i < n ==> (#[trigger] s[i]).0 < e.0) && (i >= n
        ==> s[i].0 > e.0) by {
        if i < n {
            assert(f(s[i]));
        } else {
            assert(!f(s[n]));
            if i > n {
                assert(s[n].0 < s[i].0);
            }
        }
    }
    assert forall|i: int| 0 <= i < r.len() implies #[trigger] r[i] == e || s.contains(r[i]) by {
        if i < n {
            assert(r[i] == s[i]);
        } else if i > n {
            assert(r[i] == s[i - 1]);
        }
    }
}

pub proof fn lemma_prefix_bounds(s: Seq<Slot>, f: spec_fn(Slot) -> bool)
    ensures
        prefix_len(s, f) <= s.len(),
        forall|i: int| 0 <= i < prefix_len(s, f) ==> f(#[trigger] s[i]),
        prefix_len(s, f) < s.len() ==> !f(s[prefix_len(s, f) as int]),
    decreases s.len(),
{
    if s.len() > 0 && f(s[0]) {
        let t = s.skip(1);
        lemma_prefix_bounds(t, f);
        assert forall|i: int| 0 <= i < prefix_len(s, f) implies f(#[trigger] s[i]) by {
            if i > 0 {
                assert(t[i - 1] == s[i]);
            }
        }
    }
}

impl EyeQueue {
    /// See [`QueueState::wf`].
    pub open spec fn wf(&self) -> bool {
        self@.wf()
    }

    /// Whether a scheduled eye owns boundary `t`.
    fn is_claimed(&self, t: u64) -> (c: bool)
        ensures
            c == claimed(self.scheduled@, t as int),
    {
        let mut i: usize = 0;
        while i < self.scheduled.len()
            invariant
                i <= self.scheduled@.len(),
                forall|j: int| 0 <= j < i ==> (#[trigger] self.scheduled@[j]).0 != t,
            decreases self.scheduled@.len() - i,
        {
            if self.scheduled[i].0 == t {
                assert(self.scheduled@[i as int].0 == t);
                return true;
            }
            i += 1;
        }
        false
    }

    /// Moves the schedule back onto the grid through `grid_origin`.
    ///
    /// Corrects only the drift within a slot, never a whole slot, and keeps
    /// the order of the eyes.  Entries whose slot has passed are dropped.
    pub fn rebaseline(&mut self, grid_origin: u64, period: u64)
        requires
            old(self).wf(),
            grid_origin + grid::step(period) <= grid::MAX_TIME_US,
            bounded(old(self).scheduled@, grid::step(period)),
        ensures
            final(self)@ == (QueueState {
                scheduled: rebased(
                    old(self).scheduled@,
                    grid_origin as int,
                    grid::step(period),
                ),
                ..old(self)@
            }),
            final(self).wf(),
    {
        let p: u64 = grid::at_least_one(period);
        if self.scheduled.len() == 0 {
            return;
        }
        let front: u64 = self.scheduled[0].0;
        // The front's distance behind the next boundary of the grid, in [0, p).
        let off: u64 = if front >= grid_origin {
            (front - grid_origin) % p
        } else {
            let back: u64 = (grid_origin - front) % p;
            if back == 0 {
                0
            } else {
                p - back
            }
        };
        let ghost s = self.scheduled@;
        let ghost d = drift(front as int, grid_origin as int, p as int);
        proof {
            lemma_offset(front as int, grid_origin as int, p as int);
            drift_is_at_most_half_a_period(front as int, grid_origin as int, p as int);
            lemma_rebased(s, grid_origin as int, p as int, p as int);
        }
        let late: bool = off > p / 2;
        let shift: u64 = if late {
            p - off
        } else {
            off
        };
        assert(d == if late {
            -(shift as int)
        } else {
            shift as int
        });
        let ghost keep = not_before(grid_origin + d);
        let ghost put = moved_back(d);
        let mut kept: VecDeque<Slot> = VecDeque::new();
        let mut i: usize = 0;
        assert(s.take(0) =~= Seq::<Slot>::empty());
        reveal(Seq::filter);
        assert(s.take(0).filter(keep).map_values(put) =~= Seq::<Slot>::empty());
        while i < self.scheduled.len()
            invariant
                i <= s.len(),
                self.scheduled@ == s,
                kept@ == s.take(i as int).filter(keep).map_values(put),
                keep == not_before(grid_origin + d),
                put == moved_back(d),
                d == if late {
                    -(shift as int)
                } else {
                    shift as int
                },
                shift <= p,
                grid_origin + p <= grid::MAX_TIME_US,
                bounded(s, p as int),
                self@ == (QueueState { scheduled: s, ..old(self)@ }),
            decreases s.len() - i,
        {
            let (b, right) = self.scheduled[i];
            proof {
                assert(b + p <= grid::MAX_TIME_US);
                assert(s.take(i + 1) =~= s.take(i as int).push(s[i as int]));
                s.take(i as int).lemma_filter_push(s[i as int], keep);
                if keep(s[i as int]) {
                    s.take(i as int).filter(keep).lemma_push_map_commute(put, s[i as int]);
                }
            }
            if late {
                if b + shift >= grid_origin {
                    kept.push_back((b + shift, right));
                }
            } else if b >= grid_origin + shift {
                kept.push_back((b - shift, right));
            }
            i += 1;
        }
        assert(s.take(s.len() as int) =~= s);
        self.scheduled = kept;
    }
}

impl EyeQueue {
    /// Queues one drained swap: on the schedule when it has a boundary, in the
    /// fallback queue otherwise.
    ///
    /// An eye whose boundary is owned moves on, a period at a time, to the
    /// first free one.  When the fired phase is no longer the game's, this eye
    /// defines it anew and the schedule moves onto this eye's grid.
    pub fn enqueue(&mut self, right: bool, target: Option<u64>, period: u64)
        requires
            old(self).wf(),
            target matches Some(t) ==> {
                &&& t + 10 * grid::step(period) <= grid::MAX_TIME_US
                &&& bounded(old(self).scheduled@, grid::step(period))
            },
        ensures
            final(self)@ == old(self)@.with_eye(right, target, period),
            final(self).wf(),
    {
        match target {
            Some(t0) => {
                let p: u64 = grid::at_least_one(period);
                let ghost s = self.scheduled@;
                let mut t: u64 = t0;
                let ghost mut k: int = 0;
                assert(t0 + 0 * p == t0);
                while self.is_claimed(t)
                    invariant
                        self@ == old(self)@,
                        s == self.scheduled@,
                        s.len() <= MAX_QUEUE,
                        ascending(s),
                        0 <= k <= s.len(),
                        t == t0 + k * p,
                        k > 0 ==> exists|w: int|
                            k - 1 <= w < s.len() && (#[trigger] s[w]).0 == t0 + (k - 1) * p,
                        forall|j: int| 0 <= j < k ==> claimed(s, #[trigger] (t0 + j * p)),
                        p > 0,
                        t0 + 10 * p <= grid::MAX_TIME_US,
                    decreases s.len() - k,
                {
                    proof {
                        let w = choose|w: int| 0 <= w < s.len() && (#[trigger] s[w]).0 == t;
                        assert(s[w].0 == t);
                        if k > 0 {
                            let v = choose|v: int|
                                k - 1 <= v < s.len() && (#[trigger] s[v]).0 == t0 + (k - 1) * p;
                            assert(t0 + (k - 1) * p < t0 + k * p) by (nonlinear_arith)
                                requires
                                    p > 0,
                            ;
                            if w < v {
                                assert(s[w].0 < s[v].0);
                            }
                        }
                        assert(k <= w < s.len());
                        assert(t0 + (k + 1) * p == t0 + k * p + p) by (nonlinear_arith);
                        assert(k * p <= 8 * p) by (nonlinear_arith)
                            requires
                                0 <= k <= 8,
                                p > 0,
                        ;
                        k = k + 1;
                    }
                    t = t.saturating_add(p);
                }
                proof {
                    assert(first_free(s, t0 as int, p as int, k));
                    lemma_first_free_is_unique(s, t0 as int, p as int, k);
                    assert(k * p <= 8 * p) by (nonlinear_arith)
                        requires
                            0 <= k <= 8,
                            p > 0,
                    ;
                }
                if self.freerun_since >= DIP_RESYNC_AFTER_FREERUN_SLOTS || self.pending_reanchor {
                    self.freerun_since = 0;
                    self.pending_reanchor = false;
                    self.last_fired = Some(right);
                    self.rebaseline(t, period);
                    self.drop_boundary(t);
                    assert(!claimed(self.scheduled@, t as int));
                }
                self.insert_sorted(t, right);
                if self.scheduled.len() > MAX_QUEUE {
                    let newest: Slot = self.scheduled[self.scheduled.len() - 1];
                    self.scheduled.clear();
                    self.scheduled.push_back(newest);
                    assert(self.scheduled@ =~= seq![newest]);
                }
            },
            None => {
                self.fallback.push_back(right);
                if self.fallback.len() > MAX_QUEUE {
                    self.fallback.clear();
                    self.fallback.push_back(right);
                    self.last_fired = Some(right);
                    self.freerun_since = 0;
                    assert(self.fallback@ =~= seq![right]);
                }
            },
        }
    }

    /// Drops the scheduled eye that owns boundary `t`, if any.
    fn drop_boundary(&mut self, t: u64)
        requires
            old(self).wf(),
        ensures
            final(self)@ == (QueueState {
                scheduled: old(self).scheduled@.filter(other_than(t as int)),
                ..old(self)@
            }),
            final(self).wf(),
            !claimed(final(self).scheduled@, t as int),
    {
        let ghost s = self.scheduled@;
        let ghost f = other_than(t as int);
        let mut kept: VecDeque<Slot> = VecDeque::new();
        let mut i: usize = 0;
        proof {
            reveal(Seq::filter);
            assert(s.take(0) =~= Seq::<Slot>::empty());
            assert(s.take(0).filter(f) =~= Seq::<Slot>::empty());
        }
        while i < self.scheduled.len()
            invariant
                i <= s.len(),
                self.scheduled@ == s,
                self@ == old(self)@,
                f == other_than(t as int),
                kept@ == s.take(i as int).filter(f),
            decreases s.len() - i,
        {
            let e: Slot = self.scheduled[i];
            proof {
                assert(s.take(i + 1) =~= s.take(i as int).push(s[i as int]));
                s.take(i as int).lemma_filter_push(s[i as int], f);
            }
            if e.0 != t {
                kept.push_back(e);
            }
            i += 1;
        }
        proof {
            assert(s.take(s.len() as int) =~= s);
            lemma_filter_ascends(s, f);
        }
        self.scheduled = kept;
    }

    /// Puts an eye on the schedule, before the first later boundary.
    fn insert_sorted(&mut self, t: u64, right: bool)
        requires
            old(self).wf(),
            !claimed(old(self).scheduled@, t as int),
        ensures
            final(self)@ == (QueueState {
                scheduled: inserted(old(self).scheduled@, (t, right)),
                ..old(self)@
            }),
            ascending(final(self).scheduled@),
            final(self).scheduled@.len() == old(self).scheduled@.len() + 1,
    {
        let ghost s = self.scheduled@;
        let mut i: usize = 0;
        while i < self.scheduled.len() && self.scheduled[i].0 <= t
            invariant
                i <= s.len(),
                self.scheduled@ == s,
                self@ == old(self)@,
                forall|j: int| 0 <= j < i ==> (#[trigger] s[j]).0 <= t,
            decreases s.len() - i,
        {
            i += 1;
        }
        proof {
            lemma_prefix_len(s, not_after(t as int), i as int);
            lemma_inserted(s, (t, right));
        }
        self.scheduled.insert(i, (t, right));
    }
}

// ---------------------------------------------------------------------------
// Handing out the eye for a boundary
// ---------------------------------------------------------------------------

/// The slot of the eye went by before `boundary`.
pub open spec fn overdue_at(boundary: int, half: int) -> spec_fn(Slot) -> bool {
    |e: Slot| e.0 + half < boundary
}

/// The eye belongs to the slot of `boundary`.
pub open spec fn due_at(boundary: int, half: int) -> spec_fn(Slot) -> bool {
    |e: Slot| e.0 <= boundary + half && e.0 + half >= boundary
}

/// `b` lies a whole number of periods from `boundary`, to within a quarter of a
/// period: a stall skipped slots, and the pins are still right.
pub open spec fn whole_slots_apart(b: int, boundary: int, period: int) -> bool {
    let d = (boundary - b) % period;
    d <= period / 4 || period - d <= period / 4
}

impl QueueState {
    /// A reported eye went out.
    pub open spec fn fired(self, e: bool) -> QueueState {
        QueueState {
            last_fired: Some(e),
            freerun_since: 0,
            last_was_freerun: false,
            first_fired: true,
            ..self
        }
    }

    /// No reported eye belongs to the slot: silence before the first one, then
    /// alternation, then a hold.
    pub open spec fn freerun_fire(self) -> (QueueState, Option<bool>) {
        if !self.first_fired {
            (self, None)
        } else {
            let n = self.freerun_since.saturating_add(1);
            let q = QueueState {
                freerun_since: n,
                freerun: self.freerun + 1,
                pending_reanchor: self.pending_reanchor || n >= DIP_RESYNC_AFTER_FREERUN_SLOTS,
                last_was_freerun: true,
                ..self
            };
            if n > self.stall_hold {
                (q, self.last_fired)
            } else {
                match self.last_fired {
                    Some(r) => (QueueState { last_fired: Some(!r), ..q }, Some(!r)),
                    None => (q, None),
                }
            }
        }
    }

    /// The overdue eyes are gone; when the rest lies off the grid it is moved
    /// onto it and the phase is to be taken anew.
    pub open spec fn without_overdue(self, boundary: int, period: int) -> QueueState {
        let n = prefix_len(self.scheduled, overdue_at(boundary, period / 2));
        let rest = self.scheduled.skip(n as int);
        let q = QueueState { scheduled: rest, overdue: self.overdue + n, ..self };
        if n == 0 || rest.len() == 0 || whole_slots_apart(rest[0].0 as int, boundary, period) {
            q
        } else {
            QueueState {
                scheduled: rebased(rest, boundary, period),
                pending_reanchor: true,
                ..q
            }
        }
    }

    /// A front more than a fraction of a period off the armed boundary is
    /// moved onto the grid, with everything behind it.
    pub open spec fn realigned(self, boundary: int, period: int) -> QueueState {
        let limit = period / DRIFT_LAG_ALIGN_PERIOD_DIV as int;
        if self.pending_reanchor || self.scheduled.len() == 0 || -limit <= boundary
            - self.scheduled[0].0 <= limit {
            self
        } else {
            QueueState { scheduled: rebased(self.scheduled, boundary, period), ..self }
        }
    }

    /// The last of the eyes due on the slot is fired, the others are dropped.
    pub open spec fn due_fire(self, boundary: int, period: int) -> (QueueState, Option<bool>) {
        let n = prefix_len(self.scheduled, due_at(boundary, period / 2)) as int;
        if n > 0 {
            let e = self.scheduled[n - 1].1;
            let q = QueueState {
                scheduled: self.scheduled.skip(n),
                coalesced: self.coalesced + n - 1,
                ..self
            };
            (q.fired(e), Some(e))
        } else {
            self.freerun_fire()
        }
    }

    /// The state after, and the eye for, the slot of `boundary`.
    pub open spec fn next(self, boundary: int, period: int) -> (QueueState, Option<bool>) {
        if self.scheduled.len() > 0 {
            self.without_overdue(boundary, period).realigned(boundary, period).due_fire(
                boundary,
                period,
            )
        } else if self.fallback.len() > 0 {
            let e = self.fallback[0];
            (QueueState { fallback: self.fallback.skip(1), ..self }.fired(e), Some(e))
        } else if self.last_fired is Some {
            self.freerun_fire()
        } else {
            (self, None)
        }
    }

    /// The state after, and the eye for, a fire that follows no boundary.
    pub open spec fn next_unpaced(self) -> (QueueState, Option<bool>) {
        if self.scheduled.len() > 0 {
            let e = self.scheduled[0].1;
            (QueueState { scheduled: self.scheduled.skip(1), ..self }.fired(e), Some(e))
        } else if self.fallback.len() > 0 {
            let e = self.fallback[0];
            (QueueState { fallback: self.fallback.skip(1), ..self }.fired(e), Some(e))
        } else if self.first_fired && self.last_fired is Some {
            (QueueState { last_was_freerun: true, ..self }, self.last_fired)
        } else {
            (self, None)
        }
    }
}

/// An invented fire: the opposite of the held eye, which becomes the held eye.
fn freerun(held: &mut Option<bool>, r: bool) -> (e: bool)
    ensures
        e == !r,
        *final(held) == Some(!r),
{
    *held = Some(!r);
    !r
}

pub proof fn lemma_skip_keeps_order(s: Seq<Slot>, n: int, room: int)
    requires
        0 <= n <= s.len(),
        ascending(s),
        bounded(s, room),
    ensures
        ascending(s.skip(n)),
        bounded(s.skip(n), room),
{
    let r = s.skip(n);
    assert forall|i: int| 0 <= i < r.len() implies (#[trigger] r[i]).0 + room
        <= grid::MAX_TIME_US by {
        assert(r[i] == s[i + n]);
    }
    assert forall|i: int, j: int| 0 <= i < j < r.len() implies (#[trigger] r[i]).0 < (
    #[trigger] r[j]).0 by {
        assert(s[i + n].0 < s[j + n].0);
    }
}

impl EyeQueue {
    /// The eye to fire for the boundary being armed.
    ///
    /// Eyes whose slot has passed are dropped.  The eye due on this boundary is
    /// popped and fired; if several are, the newest wins.  With none due the
    /// fire is invented: alternating at first, holding after
    /// `stall_hold_after_freerun` slots, and nothing at all before the first
    /// reported eye.
    pub fn next_eye(&mut self, boundary: u64, period: u64) -> (eye: Option<bool>)
        requires
            old(self).wf(),
            old(self).scheduled@.len() > 0 ==> boundary + grid::step(period) <= grid::MAX_TIME_US,
            old(self)@.can_serve(grid::step(period)),
        ensures
            (final(self)@, eye) == old(self)@.next(boundary as int, grid::step(period)),
            final(self).wf(),
            !old(self).first_dll_eye_fired && old(self).scheduled@.len() == 0
                && old(self).fallback@.len() == 0 ==> eye is None && final(self)@ == old(self)@,
    {
        if self.scheduled.len() > 0 {
            let p: u64 = grid::at_least_one(period);
            self.drop_overdue(boundary, period);
            let ghost q1 = self@;
            self.realign(boundary, period);
            let ghost q2 = self@;
            let half: u64 = p / 2;
            let ghost f = due_at(boundary as int, half as int);
            let ghost s = self.scheduled@;
            let mut due: Option<bool> = None;
            let mut n: usize = 0;
            while self.scheduled.len() > 0 && self.scheduled[0].0 <= boundary + half
                && self.scheduled[0].0 + half >= boundary
                invariant
                    n <= s.len() <= MAX_QUEUE,
                    self.scheduled@ == s.skip(n as int),
                    f == due_at(boundary as int, half as int),
                    half == p / 2,
                    boundary + p <= grid::MAX_TIME_US,
                    bounded(s, half as int),
                    forall|i: int| 0 <= i < n ==> f(#[trigger] s[i]),
                    n == 0 ==> due is None,
                    n > 0 ==> due == Some(s[n - 1].1),
                    self@ == (QueueState {
                        scheduled: s.skip(n as int),
                        coalesced: q2.coalesced + n,
                        ..q2
                    }),
                    q2.coalesced + s.len() <= u64::MAX,
                decreases s.len() - n,
            {
                assert(s.skip(n as int)[0] == s[n as int]);
                assert(s[n as int].0 + half <= grid::MAX_TIME_US);
                match self.scheduled.pop_front() {
                    Some((_, right)) => {
                        due = Some(right);
                    },
                    None => {},
                }
                self.drops.coalesced += 1;
                n += 1;
                assert(s.skip(n - 1).subrange(1, s.skip(n - 1).len() as int) =~= s.skip(n as int));
            }
            proof {
                if n < s.len() {
                    assert(s.skip(n as int)[0] == s[n as int]);
                }
                lemma_prefix_len(s, f, n as int);
                lemma_skip_keeps_order(s, n as int, half as int);
            }
            if let Some(e) = due {
                self.drops.coalesced = self.drops.coalesced.saturating_sub(1);
                self.last_fired = Some(e);
                self.freerun_since = 0;
                self.last_was_freerun = false;
                self.first_dll_eye_fired = true;
                return Some(e);
            }
            assert(s.skip(0) =~= s);
            self.freerun_or_hold()
        } else if let Some(e) = self.fallback.pop_front() {
            assert(self.fallback@ =~= old(self).fallback@.skip(1));
            self.last_fired = Some(e);
            self.freerun_since = 0;
            self.last_was_freerun = false;
            self.first_dll_eye_fired = true;
            Some(e)
        } else if self.last_fired.is_some() {
            self.freerun_or_hold()
        } else {
            None
        }
    }

    /// Drops the eyes whose slot has passed.  What is left is moved onto the
    /// grid unless it lies whole slots away from `boundary`.
    fn drop_overdue(&mut self, boundary: u64, period: u64)
        requires
            old(self).wf(),
            boundary + grid::step(period) <= grid::MAX_TIME_US,
            bounded(old(self).scheduled@, grid::step(period)),
            old(self)@.overdue + old(self).scheduled@.len() <= u64::MAX,
        ensures
            final(self)@ == old(self)@.without_overdue(boundary as int, grid::step(period)),
            final(self).wf(),
            bounded(final(self).scheduled@, grid::step(period) - grid::step(period) / 2),
            !final(self).pending_reanchor ==> bounded(
                final(self).scheduled@,
                grid::step(period),
            ),
            final(self).scheduled@.len() <= old(self).scheduled@.len(),
    {
        let p: u64 = grid::at_least_one(period);
        let half: u64 = p / 2;
        let ghost s = self.scheduled@;
        let ghost f = overdue_at(boundary as int, half as int);
        let mut n: usize = 0;
        assert(s.skip(0) =~= s);
        while self.scheduled.len() > 0 && self.scheduled[0].0 + half < boundary
            invariant
                n <= s.len() <= MAX_QUEUE,
                self.scheduled@ == s.skip(n as int),
                f == overdue_at(boundary as int, half as int),
                half == p / 2,
                bounded(s, p as int),
                forall|i: int| 0 <= i < n ==> f(#[trigger] s[i]),
                self@ == (QueueState {
                    scheduled: s.skip(n as int),
                    overdue: old(self)@.overdue + n,
                    ..old(self)@
                }),
                old(self)@.overdue + s.len() <= u64::MAX,
            decreases s.len() - n,
        {
            assert(s.skip(n as int)[0] == s[n as int]);
            let _ = self.scheduled.pop_front();
            self.drops.overdue += 1;
            n += 1;
            assert(s.skip(n - 1).subrange(1, s.skip(n - 1).len() as int) =~= s.skip(n as int));
        }
        proof {
            if n < s.len() {
                assert(s.skip(n as int)[0] == s[n as int]);
            }
            lemma_prefix_len(s, f, n as int);
            lemma_skip_keeps_order(s, n as int, p as int);
        }
        if n > 0 && self.scheduled.len() > 0 {
            let b: u64 = self.scheduled[0].0;
            let d: u64 = if boundary >= b {
                (boundary - b) % p
            } else {
                let back: u64 = (b - boundary) % p;
                if back == 0 {
                    0
                } else {
                    p - back
                }
            };
            proof {
                lemma_offset(boundary as int, b as int, p as int);
                vstd::arithmetic::div_mod::lemma_mod_bound(boundary - b, p as int);
            }
            assert(d == (boundary - b) % p as int);
            if !(d <= p / 4 || p - d <= p / 4) {
                proof {
                    lemma_rebased(self.scheduled@, boundary as int, p as int, p as int);
                }
                self.rebaseline(boundary, period);
                self.pending_reanchor = true;
            }
        }
    }

    /// Moves a front that lies too far off `boundary` onto the grid.
    fn realign(&mut self, boundary: u64, period: u64)
        requires
            old(self).wf(),
            boundary + grid::step(period) <= grid::MAX_TIME_US,
            bounded(old(self).scheduled@, grid::step(period) - grid::step(period) / 2),
            !old(self).pending_reanchor ==> bounded(old(self).scheduled@, grid::step(period)),
        ensures
            final(self)@ == old(self)@.realigned(boundary as int, grid::step(period)),
            final(self).wf(),
            bounded(final(self).scheduled@, grid::step(period) - grid::step(period) / 2),
            final(self).scheduled@.len() <= old(self).scheduled@.len(),
    {
        let p: u64 = grid::at_least_one(period);
        if !self.pending_reanchor && self.scheduled.len() > 0 {
            let limit: u64 = p / DRIFT_LAG_ALIGN_PERIOD_DIV;
            let front: u64 = self.scheduled[0].0;
            let apart: u64 = if boundary >= front {
                boundary - front
            } else {
                front - boundary
            };
            if apart > limit {
                proof {
                    lemma_rebased(self.scheduled@, boundary as int, p as int, p as int);
                }
                self.rebaseline(boundary, period);
            }
        }
    }

    /// Serves a slot that has no reported eye.
    fn freerun_or_hold(&mut self) -> (eye: Option<bool>)
        requires
            old(self)@.first_fired ==> old(self)@.freerun + 1 <= u64::MAX,
        ensures
            (final(self)@, eye) == old(self)@.freerun_fire(),
    {
        if !self.first_dll_eye_fired {
            return None;
        }
        self.freerun_since = self.freerun_since.saturating_add(1);
        self.drops.freerun += 1;
        if self.freerun_since >= DIP_RESYNC_AFTER_FREERUN_SLOTS {
            self.pending_reanchor = true;
        }
        self.last_was_freerun = true;
        if self.freerun_since > self.stall_hold_after_freerun {
            return self.last_fired;
        }
        match self.last_fired {
            Some(r) => Some(freerun(&mut self.last_fired, r)),
            None => None,
        }
    }

    /// Fires without a boundary: the oldest known eye, else the held one.
    pub fn next_eye_present_driven(&mut self) -> (eye: Option<bool>)
        requires
            old(self).wf(),
        ensures
            (final(self)@, eye) == old(self)@.next_unpaced(),
            final(self).wf(),
    {
        proof {
            if self.scheduled@.len() > 0 {
                let s = self.scheduled@;
                assert(s.subrange(1, s.len() as int) =~= s.skip(1));
                assert forall|i: int, j: int| 0 <= i < j < s.skip(1).len() implies (
                #[trigger] s.skip(1)[i]).0 < (#[trigger] s.skip(1)[j]).0 by {
                    assert(s[i + 1].0 < s[j + 1].0);
                }
            }
            if self.fallback@.len() > 0 {
                let s = self.fallback@;
                assert(s.subrange(1, s.len() as int) =~= s.skip(1));
            }
        }
        if let Some((_, r)) = self.scheduled.pop_front() {
            self.last_fired = Some(r);
            self.freerun_since = 0;
            self.last_was_freerun = false;
            self.first_dll_eye_fired = true;
            Some(r)
        } else if let Some(e) = self.fallback.pop_front() {
            self.last_fired = Some(e);
            self.freerun_since = 0;
            self.last_was_freerun = false;
            self.first_dll_eye_fired = true;
            Some(e)
        } else {
            let held: Option<bool> = if self.first_dll_eye_fired {
                self.last_fired
            } else {
                None
            };
            if held.is_some() {
                self.last_was_freerun = true;
            }
            held
        }
    }
}

// ---------------------------------------------------------------------------
// Upkeep
// ---------------------------------------------------------------------------

pub open spec fn shifted(delta: int) -> spec_fn(Slot) -> Slot {
    |e: Slot|
        (
            if e.0 + delta < 0 {
                0
            } else {
                (e.0 + delta) as u64
            },
            e.1,
        )
}

impl QueueState {
    /// The schedule is gone when its front lies past the window in which a fire
    /// at `guess` would take it.
    pub open spec fn purged(self, guess: u64, period: u64) -> QueueState {
        if self.scheduled.len() > 0 && self.scheduled[0].0 > guess.saturating_add(period / 2) {
            QueueState { scheduled: Seq::empty(), ..self }
        } else {
            self
        }
    }
}

impl Default for EyeQueue {
    fn default() -> (q: Self)
        ensures
            q@ == (QueueState {
                fallback: Seq::empty(),
                scheduled: Seq::empty(),
                last_fired: None,
                freerun_since: 0,
                overdue: 0,
                coalesced: 0,
                freerun: 0,
                stall_hold: STALL_HOLD_AFTER_FREERUN_SLOTS,
                pending_reanchor: false,
                last_was_freerun: false,
                first_fired: false,
            }),
            q.wf(),
    {
        EyeQueue {
            fallback: VecDeque::new(),
            scheduled: VecDeque::new(),
            last_fired: None,
            freerun_since: 0,
            drops: DropDiagnostic::default(),
            stall_hold_after_freerun: STALL_HOLD_AFTER_FREERUN_SLOTS,
            pending_reanchor: false,
            last_was_freerun: false,
            first_dll_eye_fired: false,
        }
    }
}

impl EyeQueue {
    /// Drops the whole schedule when its front is more than half a period past
    /// `guess`, the frontier being armed: such a front cannot fire there, and
    /// as long as the schedule grows from its tail it never comes within reach.
    pub fn purge_stuck_ahead(&mut self, guess: u64, period: u64)
        ensures
            final(self)@ == old(self)@.purged(guess, period),
            old(self).wf() ==> final(self).wf(),
    {
        let limit: u64 = guess.saturating_add(period / 2);
        if self.scheduled.len() > 0 && self.scheduled[0].0 > limit {
            self.scheduled.clear();
        }
    }

    /// Re-pins every scheduled eye by `delta` microseconds, not below zero.
    pub fn shift_schedule(&mut self, delta: i64)
        requires
            bounded(old(self).scheduled@, 0),
            delta > 0 ==> bounded(old(self).scheduled@, delta as int),
        ensures
            final(self)@ == (QueueState {
                scheduled: old(self).scheduled@.map_values(shifted(delta as int)),
                ..old(self)@
            }),
    {
        let ghost s = self.scheduled@;
        let ghost f = shifted(delta as int);
        let mut moved: VecDeque<Slot> = VecDeque::new();
        let mut i: usize = 0;
        while i < self.scheduled.len()
            invariant
                i <= s.len(),
                self.scheduled@ == s,
                self@ == old(self)@,
                f == shifted(delta as int),
                bounded(s, 0),
                delta > 0 ==> bounded(s, delta as int),
                moved@ =~= s.take(i as int).map_values(f),
            decreases s.len() - i,
        {
            let (b, right) = self.scheduled[i];
            assert(b + 0 <= grid::MAX_TIME_US);
            let sum: i64 = b as i64 + delta;
            let t: u64 = if sum < 0 {
                0
            } else {
                sum as u64
            };
            moved.push_back((t, right));
            i += 1;
        }
        assert(s.take(s.len() as int) =~= s);
        self.scheduled = moved;
    }

    /// Drops the schedule only.
    pub fn clear_scheduled(&mut self)
        ensures
            final(self)@ == (QueueState { scheduled: Seq::empty(), ..old(self)@ }),
            old(self).wf() ==> final(self).wf(),
    {
        self.scheduled.clear();
    }

    /// Drops the fallback queue only.
    pub fn clear_fallback(&mut self)
        ensures
            final(self)@ == (QueueState { fallback: Seq::empty(), ..old(self)@ }),
            old(self).wf() ==> final(self).wf(),
    {
        self.fallback.clear();
    }

    /// Whether the ring has told of any eye: queued, scheduled or fired.
    pub fn has_eye(&self) -> (h: bool)
        ensures
            h == (self.fallback@.len() > 0 || self.scheduled@.len() > 0
                || self.last_fired is Some),
    {
        self.fallback.len() > 0 || self.scheduled.len() > 0 || self.last_fired.is_some()
    }

    /// Boundary of the oldest scheduled eye.
    pub fn front_boundary(&self) -> (b: Option<u64>)
        ensures
            b == (if self.scheduled@.len() > 0 {
                Some(self.scheduled@[0].0)
            } else {
                None
            }),
    {
        if self.scheduled.len() > 0 {
            Some(self.scheduled[0].0)
        } else {
            None
        }
    }

    /// Boundary of the newest scheduled eye.
    pub fn tail_boundary(&self) -> (b: Option<u64>)
        ensures
            b == (if self.scheduled@.len() > 0 {
                Some(self.scheduled@.last().0)
            } else {
                None
            }),
    {
        if self.scheduled.len() > 0 {
            Some(self.scheduled[self.scheduled.len() - 1].0)
        } else {
            None
        }
    }

    /// Forgets every queued eye and the held phase.  The counters stay, and so
    /// does the knowledge that a reported eye has been fired.
    pub fn reset(&mut self)
        ensures
            final(self)@ == (QueueState {
                fallback: Seq::empty(),
                scheduled: Seq::empty(),
                last_fired: None,
                freerun_since: 0,
                pending_reanchor: false,
                last_was_freerun: false,
                ..old(self)@
            }),
            final(self).wf(),
    {
        self.fallback.clear();
        self.scheduled.clear();
        self.last_fired = None;
        self.freerun_since = 0;
        self.pending_reanchor = false;
        self.last_was_freerun = false;
    }
}

// ---------------------------------------------------------------------------
// Taking in a drain
// ---------------------------------------------------------------------------

/// A producer stamp on the host's clock.
pub open spec fn stamp_time(anchor: Option<&DrmVblank>, offset: i64, t_us: u64) -> int {
    let naive: u64 = match anchor {
        Some(a) => t_us.saturating_sub(a.real_epoch_offset_us),
        None => 0,
    };
    drm::not_negative(naive + offset)
}

/// The swap is pinned by its own stamp.
pub open spec fn by_stamp(s: Swap, ref_vb: Option<u64>, offset: Option<i64>) -> bool {
    ref_vb is Some && offset is Some && s.t_us is Some
}

/// How many of the first `n` swaps are pinned in arrival order.
pub open spec fn in_order(
    swaps: Seq<Swap>,
    n: nat,
    ref_vb: Option<u64>,
    offset: Option<i64>,
) -> nat
    decreases n,
{
    if n == 0 {
        0
    } else if by_stamp(swaps[n - 1], ref_vb, offset) {
        in_order(swaps, (n - 1) as nat, ref_vb, offset)
    } else {
        in_order(swaps, (n - 1) as nat, ref_vb, offset) + 1
    }
}

/// The boundary of the `i`-th swap: from its stamp where stamps are in use,
/// else the next one from `start` on.
pub open spec fn pin(
    swaps: Seq<Swap>,
    i: nat,
    anchor: Option<&DrmVblank>,
    period: int,
    start: Option<u64>,
    ref_vb: Option<u64>,
    offset: Option<i64>,
) -> Option<u64> {
    if by_stamp(swaps[i as int], ref_vb, offset) {
        let t = stamp_time(anchor, offset->0, swaps[i as int].t_us->0);
        Some((grid::first_after(ref_vb->0 as int, period, t) + period) as u64)
    } else {
        match start {
            Some(b) => Some((b + in_order(swaps, i, ref_vb, offset) * period) as u64),
            None => None,
        }
    }
}

impl QueueState {
    /// Boundary of the newest scheduled eye.
    pub open spec fn tail(self) -> Option<u64> {
        if self.scheduled.len() > 0 {
            Some(self.scheduled.last().0)
        } else {
            None
        }
    }

    /// The state after the first `n` swaps of a drain that starts at `start`.
    pub open spec fn with_swaps(
        self,
        swaps: Seq<Swap>,
        n: nat,
        anchor: Option<&DrmVblank>,
        period: int,
        start: Option<u64>,
        ref_vb: Option<u64>,
        offset: Option<i64>,
    ) -> QueueState
        decreases n,
    {
        if n == 0 {
            self
        } else {
            let i = (n - 1) as nat;
            self.with_swaps(swaps, i, anchor, period, start, ref_vb, offset).with_eye(
                swaps[i as int].eye == EYE_RIGHT,
                pin(swaps, i, anchor, period, start, ref_vb, offset),
                period as u64,
            )
        }
    }

    /// The boundary a drain starts at: the caller's guess, but not behind the
    /// schedule's tail.
    pub open spec fn drain_start(self, next_boundary: Option<u64>, period: int) -> Option<u64> {
        match next_boundary {
            Some(b) => Some(grid::floored(self.tail(), b, period as u64)),
            None => None,
        }
    }

    /// The state after a drain.
    pub open spec fn with_drain(
        self,
        swaps: Seq<Swap>,
        anchor: Option<&DrmVblank>,
        period: int,
        next_boundary: Option<u64>,
        ref_vb: Option<u64>,
        offset: Option<i64>,
    ) -> QueueState {
        let q = match next_boundary {
            Some(b) => self.purged(b, period as u64),
            None => self,
        };
        q.with_swaps(
            swaps,
            swaps.len(),
            anchor,
            period,
            q.drain_start(next_boundary, period),
            ref_vb,
            offset,
        )
    }
}

/// The free slot lies at most as many periods on as there are scheduled eyes.
pub proof fn lemma_free_slot_is_near(s: Seq<Slot>, t: int, period: int)
    requires
        period > 0,
        ascending(s),
    ensures
        t <= free_slot(s, t, period) <= t + s.len() * period,
        !claimed(s, free_slot(s, t, period)),
{
    assert(t + 0 * period == t);
    let k = lemma_walk(s, t, period, 0, 0);
    lemma_first_free_is_unique(s, t, period, k);
    assert(0 <= k * period <= s.len() * period) by (nonlinear_arith)
        requires
            0 <= k <= s.len(),
            period > 0,
    ;
}

proof fn lemma_walk(s: Seq<Slot>, t: int, period: int, k: int, w: int) -> (m: int)
    requires
        period > 0,
        ascending(s),
        0 <= k <= s.len(),
        k > 0 ==> k - 1 <= w < s.len() && s[w].0 == t + (k - 1) * period,
        forall|j: int| 0 <= j < k ==> claimed(s, #[trigger] (t + j * period)),
    ensures
        k <= m <= s.len(),
        first_free(s, t, period, m),
    decreases s.len() - k,
{
    if claimed(s, t + k * period) {
        let v = choose|v: int| 0 <= v < s.len() && (#[trigger] s[v]).0 == t + k * period;
        if k > 0 {
            assert(t + (k - 1) * period < t + k * period) by (nonlinear_arith)
                requires
                    period > 0,
            ;
            if v < w {
                assert(s[v].0 < s[w].0);
            }
        }
        assert(k <= v < s.len());
        assert forall|j: int| 0 <= j < k + 1 implies claimed(s, #[trigger] (t + j * period)) by {
        }
        lemma_walk(s, t, period, k + 1, v)
    } else {
        k
    }
}

/// Queueing a pinned eye keeps the schedule within the time range.
pub proof fn lemma_with_pinned_is_bounded(
    q: QueueState,
    right: bool,
    t: int,
    period: int,
    room: int,
)
    requires
        q.wf(),
        period > 0,
        room >= 0,
        t >= 0,
        t + 8 * period + room <= grid::MAX_TIME_US,
        bounded(q.scheduled, room + period),
    ensures
        bounded(q.with_pinned(right, t, period).scheduled, room),
{
    let s = q.scheduled;
    let u = free_slot(s, t, period);
    lemma_free_slot_is_near(s, t, period);
    assert(s.len() * period <= 8 * period) by (nonlinear_arith)
        requires
            s.len() <= 8,
            period > 0,
    ;
    let e: Slot = (u as u64, right);
    let base = if q.reanchors() {
        lemma_rebased(s, u, period, room + period);
        lemma_filter_ascends(rebased(s, u, period), other_than(u));
        let kept = rebased(s, u, period).filter(other_than(u));
        assert forall|i: int| 0 <= i < kept.len() implies (#[trigger] kept[i]).0 + room
            <= grid::MAX_TIME_US && kept[i].0 != u by {
            let r = rebased(s, u, period);
            let j = choose|j: int| 0 <= j < r.len() && r[j] == kept[i];
            assert(r[j].0 + (room + period - period / 2) <= grid::MAX_TIME_US);
            assert(other_than(u)(kept[i]));
        }
        kept
    } else {
        assert forall|i: int| 0 <= i < s.len() implies (#[trigger] s[i]).0 + room
            <= grid::MAX_TIME_US by {
        }
        s
    };
    lemma_inserted(base, e);
    let r = inserted(base, e);
    assert forall|i: int| 0 <= i < r.len() implies (#[trigger] r[i]).0 + room
        <= grid::MAX_TIME_US by {
        if r[i] != e {
            let j = choose|j: int| 0 <= j < base.len() && base[j] == r[i];
            assert(base[j].0 + room <= grid::MAX_TIME_US);
        }
    }
}

proof fn lemma_in_order(swaps: Seq<Swap>, n: nat, ref_vb: Option<u64>, offset: Option<i64>)
    ensures
        in_order(swaps, n, ref_vb, offset) <= n,
    decreases n,
{
    if n > 0 {
        lemma_in_order(swaps, (n - 1) as nat, ref_vb, offset);
    }
}

impl EyeQueue {
    /// Queues every swap of a drain.
    ///
    /// `next_boundary` is the frontier being armed.  A schedule stuck beyond it
    /// is dropped first; the swaps then take the boundaries from there on, or
    /// from the schedule's tail when that lies further, one period each.  With
    /// a confirmed vblank and a measured clock offset, a stamped swap takes the
    /// boundary of its stamp instead.  Without a frontier the unstamped swaps
    /// go to the fallback queue.
    pub fn ingest(
        &mut self,
        swaps: &[Swap],
        anchor: Option<&DrmVblank>,
        period: u64,
        next_boundary: Option<u64>,
        ref_vb: Option<u64>,
        stamp_offset: Option<i64>,
    )
        requires
            old(self).wf(),
            period <= grid::MAX_TIME_US,
            bounded(old(self).scheduled@, (swaps@.len() + 12) * grid::step(period)),
            next_boundary matches Some(b) ==> b + (swaps@.len() + 12) * grid::step(period)
                <= grid::MAX_TIME_US,
            ref_vb matches Some(b) ==> b <= grid::MAX_TIME_US,
            forall|i: int|
                0 <= i < swaps@.len() && by_stamp(#[trigger] swaps@[i], ref_vb, stamp_offset) ==> {
                    &&& swaps@[i].t_us->0 <= grid::MAX_TIME_US
                    &&& stamp_time(anchor, stamp_offset->0, swaps@[i].t_us->0) + (swaps@.len() + 12)
                        * grid::step(period) <= grid::MAX_TIME_US
                },
        ensures
            final(self)@ == old(self)@.with_drain(
                swaps@,
                anchor,
                grid::step(period),
                next_boundary,
                ref_vb,
                stamp_offset,
            ),
            final(self).wf(),
    {
        let p: u64 = grid::at_least_one(period);
        if let Some(guess) = next_boundary {
            self.purge_stuck_ahead(guess, p);
        }
        let ghost q = self@;
        let ghost n = swaps@.len();
        proof {
            assert((n + 12) * p == (n + 11) * p + p) by (nonlinear_arith);
            assert((n + 11) * p >= p) by (nonlinear_arith)
                requires
                    n >= 0,
                    p > 0,
            ;
        }
        let mut boundary: Option<u64> = match next_boundary {
            Some(b) => Some(grid::floored_next_boundary(self.tail_boundary(), b, p)),
            None => None,
        };
        let ghost start = boundary;
        proof {
            if q.scheduled.len() > 0 {
                assert(q.scheduled.last().0 + (n + 12) * p <= grid::MAX_TIME_US);
            }
            assert((n - 0 + 3) * p <= (n + 12) * p) by (nonlinear_arith)
                requires
                    p > 0,
            ;
            assert forall|i: int| 0 <= i < q.scheduled.len() implies (#[trigger] q.scheduled[i]).0
                + (n - 0 + 3) * p <= grid::MAX_TIME_US by {
            }
            let none = in_order(swaps@, 0, ref_vb, stamp_offset);
            assert(none * p == 0) by (nonlinear_arith)
                requires
                    none == 0,
            ;
            if let Some(b) = next_boundary {
                assert(b + (n + 12) * p <= grid::MAX_TIME_US);
                assert(start->0 + (n + 11) * p <= grid::MAX_TIME_US);
            }
        }
        let mut i: usize = 0;
        while i < swaps.len()
            invariant
                i <= swaps@.len(),
                n == swaps@.len(),
                p == grid::step(period),
                p > 0,
                self.wf(),
                self@ == q.with_swaps(
                    swaps@,
                    i as nat,
                    anchor,
                    p as int,
                    start,
                    ref_vb,
                    stamp_offset,
                ),
                bounded(self.scheduled@, (n - i + 3) * p),
                start matches Some(b) ==> {
                    &&& b + (n + 11) * p <= grid::MAX_TIME_US
                    &&& boundary == Some(
                        (b + in_order(swaps@, i as nat, ref_vb, stamp_offset) * p) as u64,
                    )
                },
                start is None ==> boundary is None,
                ref_vb matches Some(b) ==> b <= grid::MAX_TIME_US,
                forall|j: int|
                    0 <= j < swaps@.len() && by_stamp(#[trigger] swaps@[j], ref_vb, stamp_offset)
                        ==> {
                        &&& swaps@[j].t_us->0 <= grid::MAX_TIME_US
                        &&& stamp_time(anchor, stamp_offset->0, swaps@[j].t_us->0) + (
                        swaps@.len() + 12) * p <= grid::MAX_TIME_US
                    },
            decreases swaps@.len() - i,
        {
            let s: Swap = swaps[i];
            let ghost used = in_order(swaps@, i as nat, ref_vb, stamp_offset);
            proof {
                lemma_in_order(swaps@, i as nat, ref_vb, stamp_offset);
                assert(used * p <= i * p) by (nonlinear_arith)
                    requires
                        used <= i,
                        p > 0,
                ;
                assert((used + 1) * p == used * p + p) by (nonlinear_arith);
                assert((n + 11) * p == (n - i - 1 + 3) * p + 9 * p + i * p) by (nonlinear_arith);
                assert((n + 12) * p >= (n - i - 1 + 3) * p + 10 * p) by (nonlinear_arith)
                    requires
                        p > 0,
                        0 <= i < n,
                ;
                assert((n - i + 3) * p == (n - i - 1 + 3) * p + p) by (nonlinear_arith);
                assert((n - i - 1 + 3) * p >= 3 * p) by (nonlinear_arith)
                    requires
                        p > 0,
                        i < n,
                ;
            }
            let assigned: Option<u64> = match (ref_vb, stamp_offset, s.t_us) {
                (Some(rv), Some(off), Some(t_us)) => {
                    assert(by_stamp(swaps@[i as int], ref_vb, stamp_offset));
                    let naive: u64 = match anchor {
                        Some(a) => a.host_us_from_mono(t_us),
                        None => 0,
                    };
                    let sum: i64 = naive as i64 + off;
                    let converted: u64 = if sum < 0 {
                        0
                    } else {
                        sum as u64
                    };
                    proof {
                        grid::first_after_is_the_next_boundary(rv as int, p as int, converted as int);
                    }
                    Some(grid::stamped_pin(rv, p, converted))
                },
                _ => {
                    let b: Option<u64> = boundary;
                    boundary = match boundary {
                        Some(x) => Some(x.saturating_add(p)),
                        None => None,
                    };
                    b
                },
            };
            assert(assigned == pin(
                swaps@,
                i as nat,
                anchor,
                p as int,
                start,
                ref_vb,
                stamp_offset,
            ));
            proof {
                assert forall|j: int| 0 <= j < self.scheduled@.len() implies (
                #[trigger] self.scheduled@[j]).0 + grid::step(p) <= grid::MAX_TIME_US by {
                }
                if let Some(t) = assigned {
                    lemma_with_pinned_is_bounded(
                        self@,
                        s.eye == EYE_RIGHT,
                        t as int,
                        p as int,
                        (n - i - 1 + 3) * p,
                    );
                }
            }
            self.enqueue(s.eye == EYE_RIGHT, assigned, p);
            i += 1;
        }
    }
}

proof fn lemma_offset(front: int, origin: int, p: int)
    requires
        p > 0,
    ensures
        front < origin ==> (front - origin) % p == (if (origin - front) % p == 0 {
            0
        } else {
            p - (origin - front) % p
        }),
{
    if front < origin {
        let r = (origin - front) % p;
        let q = (origin - front) / p;
        vstd::arithmetic::div_mod::lemma_fundamental_div_mod(origin - front, p);
        if r == 0 {
            assert(front - origin == (-q) * p + 0) by (nonlinear_arith)
                requires
                    origin - front == p * q,
            ;
            vstd::arithmetic::div_mod::lemma_fundamental_div_mod_converse(front - origin, p, -q, 0);
        } else {
            assert(front - origin == (-q - 1) * p + (p - r)) by (nonlinear_arith)
                requires
                    origin - front == p * q + r,
            ;
            vstd::arithmetic::div_mod::lemma_fundamental_div_mod_converse(
                front - origin,
                p,
                -q - 1,
                p - r,
            );
        }
    }
}

} // verus!
