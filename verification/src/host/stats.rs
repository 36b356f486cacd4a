//! Telemetry of the fired eye stream.
//!
//! The glasses lock only when the packets alternate and their period stays
//! inside the lock window.  Once a second the stream is summed up in one line.

use crate::host::eye_queue::DropDiagnostic;
use crate::text;
use crate::text_laws;
use vstd::prelude::*;

verus! {

/// Shortest and longest packet period inside the lock window.
pub const MASTER_LOCK_MIN_US: u64 = 7600;

pub const MASTER_LOCK_MAX_US: u64 = 9000;

/// Repeated eyes in a window that the glasses still tolerate.
pub const MASTER_LOCK_MAX_SAME_EYE: u64 = 10;

/// Microseconds between two reports.
pub const REPORT_EVERY_US: u64 = 1_000_000;

/// What arrived from the ring in the current window.
#[derive(Clone, Copy, Debug, PartialEq, Eq, Structural)]
pub struct DrainWindow {
    pub swaps: u64,
    /// Drains that carried two swaps or more.
    pub batches_ge2: u64,
    pub max_batch: usize,
    /// Samples of the time from a drain to the next vblank.
    pub lead_n: u64,
    pub lead_sum: u64,
    pub lead_min: u64,
    pub lead_max: u64,
}

impl DrainWindow {
    pub open spec fn empty() -> DrainWindow {
        DrainWindow {
            swaps: 0,
            batches_ge2: 0,
            max_batch: 0,
            lead_n: 0,
            lead_sum: 0,
            lead_min: 0,
            lead_max: 0,
        }
    }

    /// Counts a drain of `n` swaps; an empty one is not counted.
    pub fn count_drain(&mut self, n: usize)
        requires
            old(self).swaps + n <= u64::MAX,
            old(self).batches_ge2 < u64::MAX,
        ensures
            *final(self) == (if n == 0 {
                *old(self)
            } else {
                DrainWindow {
                    swaps: (old(self).swaps + n) as u64,
                    batches_ge2: (old(self).batches_ge2 + if n >= 2 {
                        1int
                    } else {
                        0
                    }) as u64,
                    max_batch: if n > old(self).max_batch {
                        n
                    } else {
                        old(self).max_batch
                    },
                    ..*old(self)
                }
            }),
    {
        if n == 0 {
            return;
        }
        if n >= 2 {
            self.batches_ge2 += 1;
        }
        if n > self.max_batch {
            self.max_batch = n;
        }
        self.swaps += n as u64;
    }

    /// Samples how long before the next vblank a drain landed: `vblank` is the
    /// last confirmed one, `now` the time of the drain.
    pub fn sample_lead(&mut self, now: u64, vblank: u64, period: u64)
        requires
            old(self).lead_n < u64::MAX,
            old(self).lead_sum + period <= u64::MAX,
        ensures
            *final(self) == (if now < vblank || period == 0 {
                *old(self)
            } else {
                let to_next = (period - (now - vblank) % (period as int)) as u64;
                DrainWindow {
                    lead_n: (old(self).lead_n + 1) as u64,
                    lead_sum: (old(self).lead_sum + to_next) as u64,
                    lead_min: if old(self).lead_min == 0 || to_next < old(self).lead_min {
                        to_next
                    } else {
                        old(self).lead_min
                    },
                    lead_max: if to_next > old(self).lead_max {
                        to_next
                    } else {
                        old(self).lead_max
                    },
                    ..*old(self)
                }
            }),
    {
        if now >= vblank && period > 0 {
            let to_next: u64 = period - (now - vblank) % period;
            self.lead_n += 1;
            self.lead_sum += to_next;
            if self.lead_min == 0 || to_next < self.lead_min {
                self.lead_min = to_next;
            }
            if to_next > self.lead_max {
                self.lead_max = to_next;
            }
        }
    }
}

impl Default for DrainWindow {
    fn default() -> (w: Self)
        ensures
            w == DrainWindow::empty(),
    {
        DrainWindow {
            swaps: 0,
            batches_ge2: 0,
            max_batch: 0,
            lead_n: 0,
            lead_sum: 0,
            lead_min: 0,
            lead_max: 0,
        }
    }
}

/// Counts of the fired stream since the last report.
#[derive(Clone, Debug, PartialEq, Eq)]
pub struct StreamStats {
    /// Time of the last packet in this window.
    pub last_dt: Option<u64>,
    pub last_right: bool,
    pub count: u64,
    pub alternating: u64,
    pub same_eye: u64,
    pub min_period: u64,
    pub max_period: u64,
    /// Times between two packets, in the order in which they passed.
    pub periods: Vec<u64>,
    pub last_report: Option<u64>,
    /// The queue's counters at the last report.
    pub last_reported_drops: DropDiagnostic,
}

/// A [`StreamStats`] as plain values.
#[verifier::ext_equal]
pub struct StreamState {
    pub last_dt: Option<u64>,
    pub last_right: bool,
    pub count: u64,
    pub alternating: u64,
    pub same_eye: u64,
    pub min_period: u64,
    pub max_period: u64,
    pub periods: Seq<u64>,
    pub last_report: Option<u64>,
    pub last_reported_drops: DropDiagnostic,
}

impl View for StreamStats {
    type V = StreamState;

    open spec fn view(&self) -> StreamState {
        StreamState {
            last_dt: self.last_dt,
            last_right: self.last_right,
            count: self.count,
            alternating: self.alternating,
            same_eye: self.same_eye,
            min_period: self.min_period,
            max_period: self.max_period,
            periods: self.periods@,
            last_report: self.last_report,
            last_reported_drops: self.last_reported_drops,
        }
    }
}

/// What the stream of a window amounts to.
#[derive(Clone, Copy, Debug, PartialEq, Eq, Structural)]
pub enum Verdict {
    /// Far fewer swaps than packets.
    Starved,
    /// Alternating, and inside the lock window.
    InLockWindow,
    /// Fewer swaps than a full-rate stream needs.
    ContentLimited,
    /// The glasses cannot lock.
    WillNotLock,
}

impl StreamState {
    /// Nothing was fired since the last report.
    pub open spec fn empty(last_right: bool, last_report: Option<u64>, drops: DropDiagnostic) ->
        StreamState {
        StreamState {
            last_dt: None,
            last_right,
            count: 0,
            alternating: 0,
            same_eye: 0,
            min_period: 0,
            max_period: 0,
            periods: Seq::empty(),
            last_report,
            last_reported_drops: drops,
        }
    }

    /// The counts after a packet for `right` at time `now`.
    pub open spec fn with_packet(self, right: bool, now: u64) -> StreamState {
        let base = StreamState {
            count: (self.count + 1) as u64,
            last_dt: Some(now),
            last_right: right,
            ..self
        };
        match self.last_dt {
            None => base,
            Some(t) => {
                let period = now.saturating_sub(t);
                StreamState {
                    min_period: if self.periods.len() == 0 || period < self.min_period {
                        period
                    } else {
                        self.min_period
                    },
                    max_period: if period > self.max_period {
                        period
                    } else {
                        self.max_period
                    },
                    periods: self.periods.push(period),
                    alternating: (self.alternating + if right != self.last_right {
                        1int
                    } else {
                        0
                    }) as u64,
                    same_eye: (self.same_eye + if right == self.last_right {
                        1int
                    } else {
                        0
                    }) as u64,
                    ..base
                }
            },
        }
    }

    /// The counters can take another packet.
    pub open spec fn has_room(self) -> bool {
        &&& self.count < u64::MAX
        &&& self.alternating < u64::MAX
        &&& self.same_eye < u64::MAX
    }

    /// What the window's stream amounts to.
    pub open spec fn verdict(self, swaps: u64) -> Verdict {
        if self.count >= 60 && swaps * 2 < self.count {
            Verdict::Starved
        } else if self.count > 0 && self.min_period >= MASTER_LOCK_MIN_US && self.max_period
            <= MASTER_LOCK_MAX_US && self.same_eye <= MASTER_LOCK_MAX_SAME_EYE {
            Verdict::InLockWindow
        } else if self.count >= 60 && swaps * 2 < full_rate(self.count) {
            Verdict::ContentLimited
        } else {
            Verdict::WillNotLock
        }
    }

    /// A report is due and there is something to report.
    pub open spec fn due(self, swaps: u64, now: u64) -> bool {
        &&& self.last_report matches Some(t) ==> now.saturating_sub(t) >= REPORT_EVERY_US
        &&& self.count > 0 || swaps > 0
    }
}

/// One and a half times the packets: below this many half-swaps a stream is
/// limited by its content.
pub open spec fn full_rate(count: u64) -> int {
    let tripled = if count * 3 > u64::MAX {
        u64::MAX as int
    } else {
        count * 3
    };
    tripled / 2
}

/// The verdict in words.
pub open spec fn verdict_text(v: Verdict, swaps: u64, count: u64) -> Seq<char> {
    match v {
        Verdict::Starved => "*** SWAP STARVATION: "@ + text::decimal(swaps as nat)
            + " swaps/s vs "@ + text::decimal(count as nat)
            + " packets/s -- Nvidia3DOutput is presenting far below display rate (game paused/menu? stereo disengaged -> mono fallback? presents coalescing?). Glasses are locked but content cannot follow ***"@,
        Verdict::InLockWindow => "IN-LOCK-WINDOW"@,
        Verdict::ContentLimited => "CONTENT-LIMITED (~"@ + text::decimal((swaps / 2) as nat)
            + "fps): glasses locked, stream alternating in the lock window but the game is presenting below 60fps, so the eye cadence cannot be truly perfect -- raise the game's stereo framerate for a spotless lock"@,
        Verdict::WillNotLock => "*** glasses will NOT lock ***"@,
    }
}

/// `a`, separated from what follows when there is anything to separate.
pub open spec fn separated(a: Seq<char>) -> Seq<char> {
    if a.len() == 0 {
        a
    } else {
        a + " | "@
    }
}

/// The note on drains that carried several swaps.
pub open spec fn burst_text(w: DrainWindow) -> Seq<char> {
    "bursty-swaps "@ + text::decimal(w.batches_ge2 as nat) + "x>=2 (max batch "@ + text::decimal(
        w.max_batch as nat,
    ) + ")"@
}

/// The note on how early swaps arrive.
pub open spec fn lead_text(w: DrainWindow) -> Seq<char> {
    "swap-lead "@ + text::decimal((w.lead_sum / w.lead_n) as nat) + "us (min "@ + text::decimal(
        w.lead_min as nat,
    ) + ", max "@ + text::decimal(w.lead_max as nat) + ")"@
}

/// The counters' growth since the last report.
pub open spec fn drops_since(now: DropDiagnostic, before: DropDiagnostic) -> DropDiagnostic {
    DropDiagnostic {
        overdue: now.overdue.saturating_sub(before.overdue),
        coalesced: now.coalesced.saturating_sub(before.coalesced),
        freerun: now.freerun.saturating_sub(before.freerun),
    }
}

/// The note on eyes that did not fire on their own slot.
pub open spec fn drops_text(d: DropDiagnostic) -> Seq<char> {
    "drops overdue="@ + text::decimal(d.overdue as nat) + " coalesced="@ + text::decimal(
        d.coalesced as nat,
    ) + " freerun="@ + text::decimal(d.freerun as nat)
}

/// The notes and the verdict, separated.
pub open spec fn suffix_text(w: DrainWindow, drops: DropDiagnostic, verdict: Seq<char>) -> Seq<
    char,
> {
    let a = if w.batches_ge2 > 0 {
        burst_text(w)
    } else {
        Seq::empty()
    };
    let b = if w.lead_n > 0 {
        separated(a) + lead_text(w)
    } else {
        a
    };
    let c = if drops.overdue > 0 || drops.coalesced > 0 || drops.freerun > 0 {
        separated(b) + drops_text(drops)
    } else {
        b
    };
    separated(c) + verdict
}

/// `x` put in its place among ascending numbers.
pub open spec fn placed(s: Seq<u64>, x: u64) -> Seq<u64>
    decreases s.len(),
{
    if s.len() == 0 || s.last() <= x {
        s.push(x)
    } else {
        placed(s.drop_last(), x).push(s.last())
    }
}

/// The numbers in ascending order.
pub open spec fn ascending(s: Seq<u64>) -> Seq<u64>
    decreases s.len(),
{
    if s.len() == 0 {
        Seq::empty()
    } else {
        placed(ascending(s.drop_last()), s.last())
    }
}

/// The middle one of the numbers in ascending order, of two in the middle the
/// greater; zero when there are none.
pub open spec fn median(s: Seq<u64>) -> u64 {
    if s.len() == 0 {
        0
    } else {
        ascending(s)[s.len() as int / 2]
    }
}

proof fn lemma_placed(s: Seq<u64>, x: u64)
    requires
        forall|i: int, j: int| 0 <= i <= j < s.len() ==> s[i] <= s[j],
    ensures
        placed(s, x).len() == s.len() + 1,
        placed(s, x).to_multiset() == s.to_multiset().insert(x),
        forall|i: int, j: int|
            0 <= i <= j < placed(s, x).len() ==> placed(s, x)[i] <= placed(s, x)[j],
        forall|i: int|
            0 <= i < placed(s, x).len() ==> #[trigger] placed(s, x)[i] <= x || (s.len() > 0
                && placed(s, x)[i] <= s.last()),
    decreases s.len(),
{
    broadcast use vstd::seq_lib::group_to_multiset_ensures;

    if s.len() > 0 && s.last() > x {
        let rest = s.drop_last();
        lemma_placed(rest, x);
        assert(s =~= rest.push(s.last()));
        assert(placed(s, x) == placed(rest, x).push(s.last()));
        assert(placed(s, x).to_multiset() =~= s.to_multiset().insert(x));
        assert forall|i: int| 0 <= i < placed(rest, x).len() implies #[trigger] placed(rest, x)[i]
            <= s.last() by {
            if rest.len() > 0 {
                assert(rest.last() == s[s.len() - 2]);
            }
        }
    }
}

/// [`ascending`] holds the same numbers, each no greater than the next; so the
/// median is one of the numbers, with no more than half of them below it and no
/// more than half of them above.
pub proof fn the_median_is_in_the_middle(s: Seq<u64>)
    ensures
        ascending(s).len() == s.len(),
        ascending(s).to_multiset() == s.to_multiset(),
        forall|i: int, j: int|
            0 <= i <= j < s.len() ==> #[trigger] ascending(s)[i] <= #[trigger] ascending(s)[j],
        s.len() > 0 ==> s.contains(median(s)),
        forall|i: int|
            0 <= i <= s.len() / 2 && i < s.len() ==> #[trigger] ascending(s)[i] <= median(s),
        forall|i: int| s.len() / 2 <= i < s.len() ==> #[trigger] ascending(s)[i] >= median(s),
    decreases s.len(),
{
    broadcast use vstd::seq_lib::group_to_multiset_ensures;

    if s.len() > 0 {
        the_median_is_in_the_middle(s.drop_last());
        lemma_placed(ascending(s.drop_last()), s.last());
        assert(s =~= s.drop_last().push(s.last()));
        let a = ascending(s);
        assert(a[s.len() as int / 2] == median(s));
        assert(a.contains(median(s)));
        assert(a.to_multiset().count(median(s)) > 0);
        assert(s.to_multiset().count(median(s)) > 0);
    } else {
        assert(s =~= Seq::empty());
    }
}

impl StreamState {
    /// Median packet period of the window; zero without samples.
    pub open spec fn median_period(self) -> u64 {
        median(self.periods)
    }

    /// The line that sums up the window.
    pub open spec fn line(self, w: DrainWindow, drops: DropDiagnostic, tag: Seq<char>) -> Seq<
        char,
    > {
        let verdict = verdict_text(self.verdict(w.swaps), w.swaps, self.count);
        if self.periods.len() > 0 {
            "nvstusb-host: ["@ + tag + "] "@ + text::decimal(self.count as nat) + "/s packets | "@
                + text::decimal(w.swaps as nat) + "/s swaps (content~"@ + text::decimal(
                (w.swaps / 2) as nat,
            ) + "fps) | period "@ + text::decimal(self.min_period as nat) + "-"@ + text::decimal(
                self.max_period as nat,
            ) + "us (avg "@ + text::decimal(self.median_period() as nat) + ") | alternating "@
                + text::decimal(self.alternating as nat) + "/"@ + text::decimal(self.count as nat)
                + " | "@ + suffix_text(
                w,
                drops_since(drops, self.last_reported_drops),
                verdict,
            )
        } else if w.batches_ge2 > 0 {
            "nvstusb-host: ["@ + tag + "] 0 packets | "@ + text::decimal(w.swaps as nat)
                + "/s swaps"@ + " | "@ + burst_text(w) + " | "@ + verdict
        } else {
            "nvstusb-host: ["@ + tag + "] 0 packets | "@ + text::decimal(w.swaps as nat)
                + "/s swaps"@ + " | "@ + verdict
        }
    }
}

fn push_separator(out: &mut String)
    ensures
        final(out)@ == separated(old(out)@),
{
    if !out.as_str().is_empty() {
        out.append(" | ");
    }
}

fn burst_note(w: &DrainWindow) -> (s: String)
    ensures
        s@ == burst_text(*w),
{
    let mut s: String = "bursty-swaps ".to_owned();
    text::push_decimal(&mut s, w.batches_ge2);
    s.append("x>=2 (max batch ");
    text::push_decimal(&mut s, w.max_batch as u64);
    s.append(")");
    s
}

fn lead_note(w: &DrainWindow) -> (s: String)
    requires
        w.lead_n > 0,
    ensures
        s@ == lead_text(*w),
{
    let mut s: String = "swap-lead ".to_owned();
    text::push_decimal(&mut s, w.lead_sum / w.lead_n);
    s.append("us (min ");
    text::push_decimal(&mut s, w.lead_min);
    s.append(", max ");
    text::push_decimal(&mut s, w.lead_max);
    s.append(")");
    s
}

fn drops_note(d: &DropDiagnostic) -> (s: String)
    ensures
        s@ == drops_text(*d),
{
    let mut s: String = "drops overdue=".to_owned();
    text::push_decimal(&mut s, d.overdue);
    s.append(" coalesced=");
    text::push_decimal(&mut s, d.coalesced);
    s.append(" freerun=");
    text::push_decimal(&mut s, d.freerun);
    s
}

fn verdict_note(v: Verdict, swaps: u64, count: u64) -> (s: String)
    ensures
        s@ == verdict_text(v, swaps, count),
{
    match v {
        Verdict::Starved => {
            let mut s: String = "*** SWAP STARVATION: ".to_owned();
            text::push_decimal(&mut s, swaps);
            s.append(" swaps/s vs ");
            text::push_decimal(&mut s, count);
            s.append(
                " packets/s -- Nvidia3DOutput is presenting far below display rate (game paused/menu? stereo disengaged -> mono fallback? presents coalescing?). Glasses are locked but content cannot follow ***",
            );
            s
        },
        Verdict::InLockWindow => "IN-LOCK-WINDOW".to_owned(),
        Verdict::ContentLimited => {
            let mut s: String = "CONTENT-LIMITED (~".to_owned();
            text::push_decimal(&mut s, swaps / 2);
            s.append(
                "fps): glasses locked, stream alternating in the lock window but the game is presenting below 60fps, so the eye cadence cannot be truly perfect -- raise the game's stereo framerate for a spotless lock",
            );
            s
        },
        Verdict::WillNotLock => "*** glasses will NOT lock ***".to_owned(),
    }
}

/// Puts `x` in its place among ascending numbers.
fn place(sorted: &mut Vec<u64>, x: u64)
    ensures
        final(sorted)@ == placed(old(sorted)@, x),
{
    let ghost s = sorted@;
    let mut at: usize = sorted.len();
    assert(s.take(at as int) =~= s);
    assert(s.skip(at as int) =~= Seq::empty());
    assert(placed(s, x) =~= placed(s.take(at as int), x) + s.skip(at as int));
    while at > 0 && sorted[at - 1] > x
        invariant
            sorted@ == s,
            at <= s.len(),
            placed(s, x) == placed(s.take(at as int), x) + s.skip(at as int),
        decreases at,
    {
        at -= 1;
        proof {
            let longer = s.take(at + 1);
            assert(longer.drop_last() =~= s.take(at as int));
            assert(longer.last() == s[at as int]);
            assert(placed(longer, x) == placed(s.take(at as int), x).push(s[at as int]));
            assert(placed(longer, x) + s.skip(at + 1) =~= placed(s.take(at as int), x) + s.skip(
                at as int,
            ));
        }
    }
    sorted.insert(at, x);
    proof {
        if at > 0 {
            assert(s.take(at as int).last() == s[at - 1]);
        }
        assert(sorted@ =~= s.take(at as int).push(x) + s.skip(at as int));
    }
}

impl Default for StreamStats {
    fn default() -> (s: Self)
        ensures
            s@ == StreamState::empty(
                false,
                None,
                (DropDiagnostic { overdue: 0, coalesced: 0, freerun: 0 }),
            ),
    {
        StreamStats {
            last_dt: None,
            last_right: false,
            count: 0,
            alternating: 0,
            same_eye: 0,
            min_period: 0,
            max_period: 0,
            periods: Vec::new(),
            last_report: None,
            last_reported_drops: DropDiagnostic::default(),
        }
    }
}

impl StreamStats {
    /// Counts a packet that went out at time `now`.
    pub fn record(&mut self, right: bool, now: u64)
        requires
            old(self)@.has_room(),
        ensures
            final(self)@ == old(self)@.with_packet(right, now),
    {
        if let Some(t) = self.last_dt {
            let period: u64 = now.saturating_sub(t);
            if self.periods.len() == 0 || period < self.min_period {
                self.min_period = period;
            }
            if period > self.max_period {
                self.max_period = period;
            }
            self.periods.push(period);
            if right != self.last_right {
                self.alternating += 1;
            } else {
                self.same_eye += 1;
            }
        }
        self.count += 1;
        self.last_dt = Some(now);
        self.last_right = right;
    }

    /// Median packet period of the window (us); zero without samples.
    pub fn median_period_us(&self) -> (p: u64)
        ensures
            p == self@.median_period(),
    {
        let n: usize = self.periods.len();
        if n == 0 {
            return 0;
        }
        let mut sorted: Vec<u64> = Vec::new();
        let mut i: usize = 0;
        while i < n
            invariant
                n == self.periods@.len(),
                i <= n,
                sorted@ == ascending(self.periods@.take(i as int)),
            decreases n - i,
        {
            let x: u64 = self.periods[i];
            proof {
                let seen = self.periods@.take(i + 1);
                assert(seen.drop_last() =~= self.periods@.take(i as int));
                assert(seen.last() == x);
            }
            place(&mut sorted, x);
            i += 1;
        }
        proof {
            assert(self.periods@.take(n as int) =~= self.periods@);
            the_median_is_in_the_middle(self.periods@);
        }
        sorted[n / 2]
    }

    /// Executable form of [`StreamState::verdict`].
    pub fn judge(&self, swaps: u64) -> (v: Verdict)
        requires
            swaps * 2 <= u64::MAX,
        ensures
            v == self@.verdict(swaps),
    {
        let in_window: bool = self.count > 0 && self.min_period >= MASTER_LOCK_MIN_US
            && self.max_period <= MASTER_LOCK_MAX_US && self.same_eye <= MASTER_LOCK_MAX_SAME_EYE;
        let tripled: u64 = match self.count.checked_mul(3) {
            Some(t) => t,
            None => u64::MAX,
        };
        if self.count >= 60 && swaps * 2 < self.count {
            Verdict::Starved
        } else if in_window {
            Verdict::InLockWindow
        } else if self.count >= 60 && swaps * 2 < tripled / 2 {
            Verdict::ContentLimited
        } else {
            Verdict::WillNotLock
        }
    }

    /// The summary line when a report is due, which starts a new window.
    pub fn tick(
        &mut self,
        window: &mut DrainWindow,
        drops_now: DropDiagnostic,
        mode_tag: &str,
        now: u64,
    ) -> (line: Option<String>)
        requires
            old(window).swaps * 2 <= u64::MAX,
        ensures
            old(self)@.due(old(window).swaps, now) ==> {
                &&& line is Some
                &&& line->0@ == old(self)@.line(*old(window), drops_now, mode_tag@)
                &&& final(self)@ == StreamState::empty(old(self).last_right, Some(now), drops_now)
                &&& *final(window) == DrainWindow::empty()
            },
            !old(self)@.due(old(window).swaps, now) ==> line is None && *final(self) == *old(self)
                && *final(window) == *old(window),
    {
        let report: bool = match self.last_report {
            None => true,
            Some(t) => now.saturating_sub(t) >= REPORT_EVERY_US,
        };
        if !report || (self.count == 0 && window.swaps == 0) {
            return None;
        }
        let line: String = self.summary(window, drops_now, mode_tag);
        *self = StreamStats {
            last_dt: None,
            last_right: self.last_right,
            count: 0,
            alternating: 0,
            same_eye: 0,
            min_period: 0,
            max_period: 0,
            periods: Vec::new(),
            last_report: Some(now),
            last_reported_drops: drops_now,
        };
        *window = DrainWindow::default();
        Some(line)
    }

    /// Executable form of [`StreamState::line`].
    fn summary(&self, w: &DrainWindow, drops_now: DropDiagnostic, tag: &str) -> (l: String)
        requires
            w.swaps * 2 <= u64::MAX,
        ensures
            l@ == self@.line(*w, drops_now, tag@),
    {
        let verdict: String = verdict_note(self.judge(w.swaps), w.swaps, self.count);
        let mut l: String = "nvstusb-host: [".to_owned();
        l.append(tag);
        if self.periods.len() > 0 {
            let mut suffix: String = String::new();
            if w.batches_ge2 > 0 {
                suffix = burst_note(w);
            }
            if w.lead_n > 0 {
                push_separator(&mut suffix);
                suffix.append(lead_note(w).as_str());
            }
            let d: DropDiagnostic = DropDiagnostic {
                overdue: drops_now.overdue.saturating_sub(self.last_reported_drops.overdue),
                coalesced: drops_now.coalesced.saturating_sub(self.last_reported_drops.coalesced),
                freerun: drops_now.freerun.saturating_sub(self.last_reported_drops.freerun),
            };
            if d.overdue > 0 || d.coalesced > 0 || d.freerun > 0 {
                push_separator(&mut suffix);
                suffix.append(drops_note(&d).as_str());
            }
            push_separator(&mut suffix);
            suffix.append(verdict.as_str());
            l.append("] ");
            text::push_decimal(&mut l, self.count);
            l.append("/s packets | ");
            text::push_decimal(&mut l, w.swaps);
            l.append("/s swaps (content~");
            text::push_decimal(&mut l, w.swaps / 2);
            l.append("fps) | period ");
            text::push_decimal(&mut l, self.min_period);
            l.append("-");
            text::push_decimal(&mut l, self.max_period);
            l.append("us (avg ");
            text::push_decimal(&mut l, self.median_period_us());
            l.append(") | alternating ");
            text::push_decimal(&mut l, self.alternating);
            l.append("/");
            text::push_decimal(&mut l, self.count);
            l.append(" | ");
            l.append(suffix.as_str());
        } else {
            l.append("] 0 packets | ");
            text::push_decimal(&mut l, w.swaps);
            l.append("/s swaps");
            if w.batches_ge2 > 0 {
                l.append(" | ");
                l.append(burst_note(w).as_str());
            }
            l.append(" | ");
            l.append(verdict.as_str());
        }
        l
    }
}

/// A window whose packets alternate at one of the periods of the lock window is
/// reported as lockable, unless the game starves it.
pub proof fn a_steady_stream_is_in_the_lock_window(s: StreamState, swaps: u64)
    requires
        s.count > 0,
        s.same_eye == 0,
        MASTER_LOCK_MIN_US <= s.min_period,
        s.max_period <= MASTER_LOCK_MAX_US,
        swaps * 2 >= s.count,
    ensures
        s.verdict(swaps) == Verdict::InLockWindow,
{
}

/// Every packet after the first is counted once, as alternating or as repeated.
pub proof fn packets_are_alternating_or_repeated(s: StreamState, right: bool, now: u64)
    requires
        s.has_room(),
        s.alternating + s.same_eye == s.periods.len(),
    ensures
        s.with_packet(right, now).alternating + s.with_packet(right, now).same_eye
            == s.with_packet(right, now).periods.len(),
{
}

/// A window is called in the lock window only when something was fired, every
/// period lay inside the window and hardly an eye was repeated; and then it is
/// called so unless the swaps were starved.
pub proof fn the_lock_window_is_met_or_denied(s: StreamState, swaps: u64)
    ensures
        s.verdict(swaps) == Verdict::InLockWindow ==> {
            &&& s.count > 0
            &&& 7600 <= s.min_period
            &&& s.max_period <= 9000
            &&& s.same_eye <= 10
            &&& s.count < 60 || s.count <= swaps * 2
        },
        s.count > 0 && 7600 <= s.min_period && s.max_period <= 9000 && s.same_eye <= 10 && (
        s.count < 60 || s.count <= swaps * 2) ==> s.verdict(swaps) == Verdict::InLockWindow,
{
}

/// Outside the lock window a stream that carries three swaps or more for every
/// four packets, or that fired too little to tell, will not lock; with fewer
/// swaps it is the content that falls short.
pub proof fn a_full_rate_stream_outside_the_window_will_not_lock(s: StreamState, swaps: u64)
    requires
        s.min_period < 7600 || s.max_period > 9000 || s.same_eye > 10,
        s.count <= u64::MAX / 3,
    ensures
        swaps * 4 >= s.count * 3 || s.count < 60 ==> s.verdict(swaps) == Verdict::WillNotLock,
        s.count >= 60 && s.count <= swaps * 2 && swaps * 4 + 2 <= s.count * 3 ==> s.verdict(swaps)
            == Verdict::ContentLimited,
{
}

/// Fewer than one swap for every two packets is starvation, whatever the
/// stream looks like, and nothing else is.
pub proof fn starvation_is_a_matter_of_swaps(s: StreamState, swaps: u64)
    ensures
        s.verdict(swaps) == Verdict::Starved <==> s.count >= 60 && swaps * 2 < s.count,
        s.verdict(swaps) == Verdict::ContentLimited ==> s.count >= 60 && s.count <= swaps * 2
            && swaps * 4 < s.count * 3,
{
}

impl StreamState {
    /// The extremes are those of the periods seen.
    pub open spec fn extremes_fit(self) -> bool {
        &&& forall|i: int|
            0 <= i < self.periods.len() ==> self.min_period <= #[trigger] self.periods[i]
                <= self.max_period
        &&& self.periods.len() > 0 ==> self.periods.contains(self.min_period)
            && self.periods.contains(self.max_period)
        &&& self.periods.len() == 0 ==> self.max_period == 0
    }
}

/// The extremes of a window are the shortest and the longest time between two
/// of its packets: they hold before the first packet, and every packet keeps
/// them so.
pub proof fn the_extremes_are_those_of_the_periods(s: StreamState, right: bool, now: u64)
    ensures
        s.periods.len() == 0 && s.max_period == 0 ==> s.extremes_fit(),
        s.extremes_fit() ==> s.with_packet(right, now).extremes_fit(),
        s.last_dt is None ==> s.with_packet(right, now).periods == s.periods,
        s.last_dt matches Some(t) ==> s.with_packet(right, now).periods == s.periods.push(
            now.saturating_sub(t),
        ),
        s.with_packet(right, now).last_dt == Some(now),
        s.with_packet(right, now).last_right == right,
        s.count < u64::MAX ==> s.with_packet(right, now).count == s.count + 1,
{
    if s.extremes_fit() && s.last_dt is Some {
        let t = s.with_packet(right, now);
        let p = now.saturating_sub(s.last_dt->0);
        assert(t.periods.last() == p);
        assert forall|x: u64| s.periods.contains(x) implies #[trigger] t.periods.contains(x) by {
            let i = choose|i: int| 0 <= i < s.periods.len() && s.periods[i] == x;
            assert(t.periods[i] == x);
        }
        assert(t.periods.contains(p)) by {
            assert(t.periods[s.periods.len() as int] == p);
        }
        assert forall|i: int| 0 <= i < t.periods.len() implies t.min_period
            <= #[trigger] t.periods[i] <= t.max_period by {
            if i < s.periods.len() {
                assert(t.periods[i] == s.periods[i]);
            }
        }
    }
}

/// One gap outside the lock window spoils it until the next report: neither
/// that packet nor any later one brings the window back.
pub proof fn one_bad_gap_spoils_the_window(
    s: StreamState,
    right: bool,
    now: u64,
    later: u64,
    swaps: u64,
)
    requires
        s.last_dt is Some,
        now >= s.last_dt->0,
        s.periods.len() < u64::MAX,
        !(7600 <= now - s.last_dt->0 <= 9000),
    ensures
        s.with_packet(right, now).verdict(swaps) != Verdict::InLockWindow,
        s.with_packet(right, now).with_packet(!right, later).verdict(swaps)
            != Verdict::InLockWindow,
{
}

/// An eye that follows the other one counts as alternating, one that follows
/// itself as repeated.
pub proof fn eyes_are_compared_with_the_one_before(s: StreamState, right: bool, now: u64)
    requires
        s.has_room(),
    ensures
        ({
            let t = s.with_packet(right, now);
            &&& s.last_dt is Some && right != s.last_right ==> t.alternating == s.alternating + 1
                && t.same_eye == s.same_eye
            &&& s.last_dt is Some && right == s.last_right ==> t.alternating == s.alternating
                && t.same_eye == s.same_eye + 1
            &&& s.last_dt is None ==> t.alternating == s.alternating && t.same_eye == s.same_eye
            &&& t.last_report == s.last_report
            &&& t.last_reported_drops == s.last_reported_drops
        }),
{
}

/// A report comes once a second, the first one at once, and none without
/// anything to say.
pub proof fn a_report_comes_once_a_second(
    s: StreamState,
    last_right: bool,
    drops: DropDiagnostic,
    at: u64,
    swaps: u64,
    now: u64,
)
    requires
        at <= now,
    ensures
        s.count == 0 && swaps == 0 ==> !s.due(swaps, now),
        s.last_report is None && (s.count > 0 || swaps > 0) ==> s.due(swaps, now),
        !StreamState::empty(last_right, Some(at), drops).due(0, now),
        swaps > 0 ==> (StreamState::empty(last_right, Some(at), drops).due(swaps, now) <==> now - at
            >= 1_000_000),
        s.last_report == Some(at) && s.count > 0 ==> (s.due(swaps, now) <==> now - at
            >= 1_000_000),
{
}

/// What a report counts as dropped, and what was counted before, add up to the
/// queue's own counters.
pub proof fn reported_drops_add_up(now: DropDiagnostic, before: DropDiagnostic)
    requires
        before.overdue <= now.overdue,
        before.coalesced <= now.coalesced,
        before.freerun <= now.freerun,
    ensures
        drops_since(now, before).overdue + before.overdue == now.overdue,
        drops_since(now, before).coalesced + before.coalesced == now.coalesced,
        drops_since(now, before).freerun + before.freerun == now.freerun,
{
}

/// Every line ends with its verdict; without notes the verdict is all there is.
pub proof fn a_line_ends_with_its_verdict(
    s: StreamState,
    w: DrainWindow,
    drops: DropDiagnostic,
    tag: Seq<char>,
)
    ensures
        ({
            let line = s.line(w, drops, tag);
            let v = verdict_text(s.verdict(w.swaps), w.swaps, s.count);
            &&& line.len() >= v.len()
            &&& line.skip(line.len() - v.len()) == v
        }),
        w.batches_ge2 == 0 && w.lead_n == 0 && drops.overdue == 0 && drops.coalesced == 0
            && drops.freerun == 0 ==> suffix_text(w, drops, tag) == tag,
{
    let line = s.line(w, drops, tag);
    let v = verdict_text(s.verdict(w.swaps), w.swaps, s.count);
    assert(separated(Seq::empty()) + tag =~= tag);
    assert(line.skip(line.len() - v.len()) =~= v);
}

/// The note on how early swaps arrive gives their mean, their least and their
/// greatest lead: notes that differ in one of these alone are different notes.
pub proof fn a_lead_note_tells_its_figures(v: DrainWindow, w: DrainWindow)
    requires
        lead_text(v) == lead_text(w),
    ensures
        v.lead_min == w.lead_min && v.lead_max == w.lead_max ==> v.lead_sum / v.lead_n == w.lead_sum
            / w.lead_n,
        v.lead_sum / v.lead_n == w.lead_sum / w.lead_n && v.lead_max == w.lead_max ==> v.lead_min
            == w.lead_min,
        v.lead_sum / v.lead_n == w.lead_sum / w.lead_n && v.lead_min == w.lead_min ==> v.lead_max
            == w.lead_max,
{
    let a = "swap-lead "@;
    let b = "us (min "@;
    let c = ", max "@;
    let d = ")"@;
    let m = text::decimal((v.lead_sum / v.lead_n) as nat);
    let lo = text::decimal(v.lead_min as nat);
    let hi = text::decimal(v.lead_max as nat);
    let n = text::decimal((w.lead_sum / w.lead_n) as nat);
    let lo2 = text::decimal(w.lead_min as nat);
    let hi2 = text::decimal(w.lead_max as nat);
    assert(lead_text(v) =~= a + m + (b + lo + c + hi + d));
    assert(lead_text(w) =~= a + n + (b + lo2 + c + hi2 + d));
    assert(lead_text(v) =~= (a + m + b) + lo + (c + hi + d));
    assert(lead_text(w) =~= (a + n + b) + lo2 + (c + hi2 + d));
    assert(lead_text(v) =~= (a + m + b + lo + c) + hi + d);
    assert(lead_text(w) =~= (a + n + b + lo2 + c) + hi2 + d);
    if v.lead_min == w.lead_min && v.lead_max == w.lead_max {
        text_laws::a_figure_can_be_read(
            a,
            (v.lead_sum / v.lead_n) as nat,
            (w.lead_sum / w.lead_n) as nat,
            b + lo + c + hi + d,
        );
    }
    if v.lead_sum / v.lead_n == w.lead_sum / w.lead_n && v.lead_max == w.lead_max {
        text_laws::a_figure_can_be_read(
            a + m + b,
            v.lead_min as nat,
            w.lead_min as nat,
            c + hi + d,
        );
    }
    if v.lead_sum / v.lead_n == w.lead_sum / w.lead_n && v.lead_min == w.lead_min {
        text_laws::a_figure_can_be_read(
            a + m + b + lo + c,
            v.lead_max as nat,
            w.lead_max as nat,
            d,
        );
    }
}

/// The note on drops gives each of its three counts.
pub proof fn a_drop_note_tells_its_figures(v: DropDiagnostic, w: DropDiagnostic)
    requires
        drops_text(v) == drops_text(w),
    ensures
        v.coalesced == w.coalesced && v.freerun == w.freerun ==> v.overdue == w.overdue,
        v.overdue == w.overdue && v.freerun == w.freerun ==> v.coalesced == w.coalesced,
        v.overdue == w.overdue && v.coalesced == w.coalesced ==> v.freerun == w.freerun,
{
    let a = "drops overdue="@;
    let b = " coalesced="@;
    let c = " freerun="@;
    let x = text::decimal(v.overdue as nat);
    let y = text::decimal(v.coalesced as nat);
    let z = text::decimal(v.freerun as nat);
    let x2 = text::decimal(w.overdue as nat);
    let y2 = text::decimal(w.coalesced as nat);
    let z2 = text::decimal(w.freerun as nat);
    assert(drops_text(v) =~= a + x + (b + y + c + z));
    assert(drops_text(w) =~= a + x2 + (b + y2 + c + z2));
    assert(drops_text(v) =~= (a + x + b) + y + (c + z));
    assert(drops_text(w) =~= (a + x2 + b) + y2 + (c + z2));
    assert(drops_text(v) =~= (a + x + b + y + c) + z + Seq::<char>::empty());
    assert(drops_text(w) =~= (a + x2 + b + y2 + c) + z2 + Seq::<char>::empty());
    if v.coalesced == w.coalesced && v.freerun == w.freerun {
        text_laws::a_figure_can_be_read(a, v.overdue as nat, w.overdue as nat, b + y + c + z);
    }
    if v.overdue == w.overdue && v.freerun == w.freerun {
        text_laws::a_figure_can_be_read(
            a + x + b,
            v.coalesced as nat,
            w.coalesced as nat,
            c + z,
        );
    }
    if v.overdue == w.overdue && v.coalesced == w.coalesced {
        text_laws::a_figure_can_be_read(
            a + x + b + y + c,
            v.freerun as nat,
            w.freerun as nat,
            Seq::empty(),
        );
    }
}

/// A line with packets gives the median, the extremes and the number of
/// alternations: two windows whose lines are the same, and that agree in the
/// others, agree in each of these.
pub proof fn a_line_tells_its_figures(
    s: StreamState,
    t: StreamState,
    w: DrainWindow,
    drops: DropDiagnostic,
    tag: Seq<char>,
)
    requires
        s.periods.len() > 0,
        t.periods.len() > 0,
        s.count == t.count,
        s.verdict(w.swaps) == t.verdict(w.swaps),
        s.last_reported_drops == t.last_reported_drops,
        s.line(w, drops, tag) == t.line(w, drops, tag),
    ensures
        s.min_period == t.min_period && s.max_period == t.max_period && s.alternating
            == t.alternating ==> s.median_period() == t.median_period(),
        s.max_period == t.max_period && s.alternating == t.alternating && s.median_period()
            == t.median_period() ==> s.min_period == t.min_period,
        s.min_period == t.min_period && s.alternating == t.alternating && s.median_period()
            == t.median_period() ==> s.max_period == t.max_period,
        s.min_period == t.min_period && s.max_period == t.max_period && s.median_period()
            == t.median_period() ==> s.alternating == t.alternating,
{
    let verdict = verdict_text(s.verdict(w.swaps), w.swaps, s.count);
    let a = "nvstusb-host: ["@ + tag + "] "@ + text::decimal(s.count as nat) + "/s packets | "@
        + text::decimal(w.swaps as nat) + "/s swaps (content~"@ + text::decimal(
        (w.swaps / 2) as nat,
    ) + "fps) | period "@;
    let e = "/"@ + text::decimal(s.count as nat) + " | "@ + suffix_text(
        w,
        drops_since(drops, s.last_reported_drops),
        verdict,
    );
    lemma_line_is_its_figures(s, w, drops, tag, a, e);
    lemma_line_is_its_figures(t, w, drops, tag, a, e);
    let b = "-"@;
    let c = "us (avg "@;
    let d = ") | alternating "@;
    let lo = text::decimal(s.min_period as nat);
    let hi = text::decimal(s.max_period as nat);
    let m = text::decimal(s.median_period() as nat);
    let n = text::decimal(s.alternating as nat);
    if s.min_period == t.min_period && s.max_period == t.max_period && s.alternating
        == t.alternating {
        text_laws::a_figure_can_be_read(
            a + lo + b + hi + c,
            s.median_period() as nat,
            t.median_period() as nat,
            d + n + e,
        );
    }
    if s.max_period == t.max_period && s.alternating == t.alternating && s.median_period()
        == t.median_period() {
        text_laws::a_figure_can_be_read(
            a,
            s.min_period as nat,
            t.min_period as nat,
            b + hi + c + m + d + n + e,
        );
    }
    if s.min_period == t.min_period && s.alternating == t.alternating && s.median_period()
        == t.median_period() {
        text_laws::a_figure_can_be_read(
            a + lo + b,
            s.max_period as nat,
            t.max_period as nat,
            c + m + d + n + e,
        );
    }
    if s.min_period == t.min_period && s.max_period == t.max_period && s.median_period()
        == t.median_period() {
        text_laws::a_figure_can_be_read(
            a + lo + b + hi + c + m + d,
            s.alternating as nat,
            t.alternating as nat,
            e,
        );
    }
}

/// The line, split at each of its figures.
proof fn lemma_line_is_its_figures(
    s: StreamState,
    w: DrainWindow,
    drops: DropDiagnostic,
    tag: Seq<char>,
    a: Seq<char>,
    e: Seq<char>,
)
    requires
        s.periods.len() > 0,
        a == "nvstusb-host: ["@ + tag + "] "@ + text::decimal(s.count as nat) + "/s packets | "@
            + text::decimal(w.swaps as nat) + "/s swaps (content~"@ + text::decimal(
            (w.swaps / 2) as nat,
        ) + "fps) | period "@,
        e == "/"@ + text::decimal(s.count as nat) + " | "@ + suffix_text(
            w,
            drops_since(drops, s.last_reported_drops),
            verdict_text(s.verdict(w.swaps), w.swaps, s.count),
        ),
    ensures
        ({
            let line = s.line(w, drops, tag);
            let b = "-"@;
            let c = "us (avg "@;
            let d = ") | alternating "@;
            let lo = text::decimal(s.min_period as nat);
            let hi = text::decimal(s.max_period as nat);
            let m = text::decimal(s.median_period() as nat);
            let n = text::decimal(s.alternating as nat);
            &&& line == a + lo + (b + hi + c + m + d + n + e)
            &&& line == (a + lo + b) + hi + (c + m + d + n + e)
            &&& line == (a + lo + b + hi + c) + m + (d + n + e)
            &&& line == (a + lo + b + hi + c + m + d) + n + e
        }),
{
    let b = "-"@;
    let c = "us (avg "@;
    let d = ") | alternating "@;
    let lo = text::decimal(s.min_period as nat);
    let hi = text::decimal(s.max_period as nat);
    let m = text::decimal(s.median_period() as nat);
    let n = text::decimal(s.alternating as nat);
    let front = a + lo + b + hi + c + m + d + n;
    let slash = "/"@;
    let count = text::decimal(s.count as nat);
    let bar = " | "@;
    let suffix = suffix_text(
        w,
        drops_since(drops, s.last_reported_drops),
        verdict_text(s.verdict(w.swaps), w.swaps, s.count),
    );
    assert(front + slash + count + bar + suffix =~= front + (slash + count + bar + suffix));
    assert(front + e =~= (a + lo + b + hi + c) + m + (d + n + e));
    assert(front + e =~= (a + lo + b) + hi + (c + m + d + n + e));
    assert(front + e =~= a + lo + (b + hi + c + m + d + n + e));
}

/// The note on bursts gives their number and the largest of them.
pub proof fn a_burst_note_tells_its_figures(v: DrainWindow, w: DrainWindow)
    requires
        burst_text(v) == burst_text(w),
    ensures
        v.max_batch == w.max_batch ==> v.batches_ge2 == w.batches_ge2,
        v.batches_ge2 == w.batches_ge2 ==> v.max_batch == w.max_batch,
{
    let a = "bursty-swaps "@;
    let b = "x>=2 (max batch "@;
    let c = ")"@;
    let x = text::decimal(v.batches_ge2 as nat);
    let y = text::decimal(v.max_batch as nat);
    let x2 = text::decimal(w.batches_ge2 as nat);
    let y2 = text::decimal(w.max_batch as nat);
    assert(burst_text(v) =~= a + x + (b + y + c));
    assert(burst_text(w) =~= a + x2 + (b + y2 + c));
    assert(burst_text(v) =~= (a + x + b) + y + c);
    assert(burst_text(w) =~= (a + x2 + b) + y2 + c);
    if v.max_batch == w.max_batch {
        text_laws::a_figure_can_be_read(
            a,
            v.batches_ge2 as nat,
            w.batches_ge2 as nat,
            b + y + c,
        );
    }
    if v.batches_ge2 == w.batches_ge2 {
        text_laws::a_figure_can_be_read(
            a + x + b,
            v.max_batch as nat,
            w.max_batch as nat,
            c,
        );
    }
}

/// The verdict on a stream that its content limits gives frames, two swaps each;
/// the one on a starved stream gives swaps and packets.
pub proof fn a_verdict_tells_its_figures(a: u64, b: u64, m: u64, n: u64)
    ensures
        verdict_text(Verdict::ContentLimited, a, m) == verdict_text(
            Verdict::ContentLimited,
            b,
            n,
        ) <==> a / 2 == b / 2,
        verdict_text(Verdict::Starved, a, m) == verdict_text(Verdict::Starved, b, m) ==> a == b,
        verdict_text(Verdict::Starved, a, m) == verdict_text(Verdict::Starved, a, n) ==> m == n,
        verdict_text(Verdict::InLockWindow, a, m) == verdict_text(Verdict::InLockWindow, b, n),
        verdict_text(Verdict::WillNotLock, a, m) == verdict_text(Verdict::WillNotLock, b, n),
{
    let p = "CONTENT-LIMITED (~"@;
    let q = "fps): glasses locked, stream alternating in the lock window but the game is presenting below 60fps, so the eye cadence cannot be truly perfect -- raise the game's stereo framerate for a spotless lock"@;
    if verdict_text(Verdict::ContentLimited, a, m) == verdict_text(Verdict::ContentLimited, b, n) {
        text_laws::a_figure_can_be_read(p, (a / 2) as nat, (b / 2) as nat, q);
    }
    let r = "*** SWAP STARVATION: "@;
    let s = " swaps/s vs "@;
    let t = " packets/s -- Nvidia3DOutput is presenting far below display rate (game paused/menu? stereo disengaged -> mono fallback? presents coalescing?). Glasses are locked but content cannot follow ***"@;
    let da = text::decimal(a as nat);
    let db = text::decimal(b as nat);
    let dm = text::decimal(m as nat);
    if verdict_text(Verdict::Starved, a, m) == verdict_text(Verdict::Starved, b, m) {
        assert(verdict_text(Verdict::Starved, a, m) =~= r + da + (s + dm + t));
        assert(verdict_text(Verdict::Starved, b, m) =~= r + db + (s + dm + t));
        text_laws::a_figure_can_be_read(r, a as nat, b as nat, s + dm + t);
    }
    if verdict_text(Verdict::Starved, a, m) == verdict_text(Verdict::Starved, a, n) {
        text_laws::a_figure_can_be_read(r + da + s, m as nat, n as nat, t);
    }
}

} // verus!
