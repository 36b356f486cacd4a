//! Detection of a swapped-eye view.
//!
//! The glasses keep the phase they locked to.  Once a phase has proven stable
//! it is the reference; a reported eye that later fires opposite to it, on a
//! boundary of the same parity, shows that eyes and slots have come apart.

use vstd::prelude::*;

verus! {

/// Consistent fires of one parity before their phase becomes the reference.
pub const INVERSION_REF_STABLE_FIRES: u32 = 120;

/// The reference phase, or the candidate for it.
#[derive(Clone, Copy, Debug, PartialEq, Eq, Structural)]
pub struct InversionState {
    /// Boundary that the reference was taken at.
    pub ref_boundary: Option<u64>,
    /// Eye that fires on boundaries of that parity.
    pub ref_phase: Option<bool>,
    /// Boundary that the candidate was taken at.
    pub cand_boundary: Option<u64>,
    /// Eye of the candidate.
    pub cand_phase: Option<bool>,
    /// Fires that agreed with the candidate.
    pub cand_count: u32,
}

/// The two boundaries lie a whole number of cycles (of two periods) apart.
pub open spec fn same_parity(a: int, b: int, cycle: int) -> bool {
    a % cycle == b % cycle
}

impl InversionState {
    /// Neither a reference nor a candidate.
    pub open spec fn blank() -> InversionState {
        InversionState {
            ref_boundary: None,
            ref_phase: None,
            cand_boundary: None,
            cand_phase: None,
            cand_count: 0,
        }
    }

    /// A candidate seen `count` times.
    pub open spec fn candidate(boundary: u64, phase: bool, count: u32) -> InversionState {
        InversionState {
            ref_boundary: None,
            ref_phase: None,
            cand_boundary: Some(boundary),
            cand_phase: Some(phase),
            cand_count: count,
        }
    }

    /// A settled reference.
    pub open spec fn locked(boundary: u64, phase: bool) -> InversionState {
        InversionState {
            ref_boundary: Some(boundary),
            ref_phase: Some(phase),
            cand_boundary: None,
            cand_phase: None,
            cand_count: 0,
        }
    }

    /// A reference is set.
    pub open spec fn is_locked(self) -> bool {
        self.ref_boundary is Some && self.ref_phase is Some
    }

    /// The state after a reported eye fired, and whether the view is inverted.
    ///
    /// Fires of the other parity are the normal alternation and say nothing.
    pub open spec fn observed(self, target: u64, period: u64, fired: bool) -> (
        InversionState,
        bool,
    ) {
        if self.is_locked() {
            let inverted = same_parity(
                target as int,
                self.ref_boundary->0 as int,
                period as int * 2,
            ) && fired != self.ref_phase->0;
            (self, inverted)
        } else {
            let cycle = if period == 0 {
                1
            } else {
                period as int * 2
            };
            let restarted = InversionState {
                cand_boundary: Some(target),
                cand_phase: Some(fired),
                cand_count: 1,
                ..self
            };
            let next = match (self.cand_boundary, self.cand_phase) {
                (None, _) => restarted,
                (Some(b), Some(phase)) => if !same_parity(target as int, b as int, cycle) {
                    self
                } else if fired != phase {
                    restarted
                } else if self.cand_count + 1 >= INVERSION_REF_STABLE_FIRES {
                    InversionState::locked(b, phase)
                } else {
                    InversionState { cand_count: (self.cand_count + 1) as u32, ..self }
                },
                _ => self,
            };
            (next, false)
        }
    }
}

impl Default for InversionState {
    fn default() -> (s: Self)
        ensures
            s == InversionState::blank(),
    {
        InversionState {
            ref_boundary: None,
            ref_phase: None,
            cand_boundary: None,
            cand_phase: None,
            cand_count: 0,
        }
    }
}

impl InversionState {
    /// Takes note of a reported eye that fired at boundary `target`.  Returns
    /// `true` when the view is inverted and the renderer has to swap the eyes.
    pub fn observe(&mut self, target: u64, period: u64, fired: bool) -> (inverted: bool)
        requires
            period * 2 <= u64::MAX,
            old(self).is_locked() ==> period > 0,
            !old(self).is_locked() ==> old(self).cand_count < u32::MAX,
        ensures
            (*final(self), inverted) == old(self).observed(target, period, fired),
    {
        if let (Some(rb), Some(rp)) = (self.ref_boundary, self.ref_phase) {
            return target % (period * 2) == rb % (period * 2) && fired != rp;
        }
        let cycle: u64 = if period == 0 {
            1
        } else {
            period * 2
        };
        match (self.cand_boundary, self.cand_phase) {
            (None, _) => {
                self.cand_boundary = Some(target);
                self.cand_phase = Some(fired);
                self.cand_count = 1;
            },
            (Some(cb), Some(cp)) => if cb % cycle == target % cycle {
                if fired == cp {
                    self.cand_count += 1;
                    if self.cand_count >= INVERSION_REF_STABLE_FIRES {
                        self.ref_boundary = self.cand_boundary;
                        self.ref_phase = self.cand_phase;
                        self.cand_boundary = None;
                        self.cand_phase = None;
                        self.cand_count = 0;
                    }
                } else {
                    self.cand_boundary = Some(target);
                    self.cand_phase = Some(fired);
                    self.cand_count = 1;
                }
            },
            _ => {},
        }
        false
    }

    /// Drops the reference and the candidate.
    pub fn clear(&mut self)
        ensures
            *final(self) == InversionState::blank(),
    {
        self.ref_boundary = None;
        self.ref_phase = None;
        self.cand_boundary = None;
        self.cand_phase = None;
        self.cand_count = 0;
    }
}

/// The eye that fires in slot `i` of a stream that alternates, starting with
/// `r`.
pub open spec fn alternating(r: bool, i: nat) -> bool {
    if i % 2 == 0 {
        r
    } else {
        !r
    }
}

/// The state after `n` slots of an alternating stream that starts at boundary
/// `b`.
pub open spec fn after_stream(s: InversionState, b: u64, period: u64, r: bool, n: nat) ->
    InversionState
    decreases n,
{
    if n == 0 {
        s
    } else {
        let i = (n - 1) as nat;
        after_stream(s, b, period, r, i).observed(
            (b + i * period) as u64,
            period,
            alternating(r, i),
        ).0
    }
}

/// Slots an even number of periods apart share their parity, the others do
/// not.
pub proof fn parity_alternates(b: int, period: int, i: nat)
    requires
        period > 0,
    ensures
        same_parity(b + i * period, b, period * 2) == (i % 2 == 0),
{
    let c = period * 2;
    let r = b % c;
    let q = b / c;
    vstd::arithmetic::div_mod::lemma_fundamental_div_mod(b, c);
    let h = (i / 2) as int;
    if i % 2 == 0 {
        assert(b + i * period == (q + h) * c + r) by (nonlinear_arith)
            requires
                b == c * q + r,
                i == 2 * h,
                c == period * 2,
        ;
        vstd::arithmetic::div_mod::lemma_fundamental_div_mod_converse(b + i * period, c, q + h, r);
    } else {
        assert(b + i * period == (q + h) * c + r + period) by (nonlinear_arith)
            requires
                b == c * q + r,
                i == 2 * h + 1,
                c == period * 2,
        ;
        if r + period < c {
            vstd::arithmetic::div_mod::lemma_fundamental_div_mod_converse(
                b + i * period,
                c,
                q + h,
                r + period,
            );
        } else {
            assert((q + h) * c + r + period == (q + h + 1) * c + (r - period)) by (nonlinear_arith)
                requires
                    c == period * 2,
            ;
            vstd::arithmetic::div_mod::lemma_fundamental_div_mod_converse(
                b + i * period,
                c,
                q + h + 1,
                r - period,
            );
        }
    }
}

/// A stable stream locks its own phase, and only after enough consistent fires:
/// until then there is a candidate, from then on the reference.
pub proof fn a_stable_stream_locks_its_phase(b: u64, period: u64, r: bool, n: nat)
    requires
        period > 0,
        period * 2 <= u64::MAX,
        b + n * period <= u64::MAX,
        n > 0,
    ensures
        ({
            let seen = (n + 1) / 2;
            let s = after_stream(InversionState::blank(), b, period, r, n);
            if seen < INVERSION_REF_STABLE_FIRES {
                s == InversionState::candidate(b, r, seen as u32)
            } else {
                s == InversionState::locked(b, r)
            }
        }),
    decreases n,
{
    let i = (n - 1) as nat;
    assert(b + i * period <= b + n * period) by (nonlinear_arith)
        requires
            i <= n,
            period > 0,
    ;
    assert(0 <= i * period) by (nonlinear_arith)
        requires
            i >= 0,
            period > 0,
    ;
    parity_alternates(b as int, period as int, i);
    if i > 0 {
        a_stable_stream_locks_its_phase(b, period, r, i);
    } else {
        assert(after_stream(InversionState::blank(), b, period, r, 0) == InversionState::blank());
        assert(0 * period == 0);
    }
}

/// A stream that keeps the locked phase is never called inverted, and leaves
/// the reference as it is.
pub proof fn a_stable_stream_never_toggles(b: u64, period: u64, r: bool, i: nat)
    requires
        period > 0,
        b + i * period <= u64::MAX,
    ensures
        InversionState::locked(b, r).observed(
            (b + i * period) as u64,
            period,
            alternating(r, i),
        ) == (InversionState::locked(b, r), false),
{
    assert(0 <= i * period) by (nonlinear_arith)
        requires
            i >= 0,
            period > 0,
    ;
    parity_alternates(b as int, period as int, i);
}

/// Once the eyes have slipped by one slot, every fire on the reference's parity
/// is called inverted until the renderer has swapped the eyes.
pub proof fn a_slipped_stream_is_called_inverted(b: u64, period: u64, r: bool, i: nat)
    requires
        period > 0,
        b + i * period <= u64::MAX,
    ensures
        InversionState::locked(b, r).observed(
            (b + i * period) as u64,
            period,
            alternating(!r, i),
        ) == (InversionState::locked(b, r), i % 2 == 0),
{
    assert(0 <= i * period) by (nonlinear_arith)
        requires
            i >= 0,
            period > 0,
    ;
    parity_alternates(b as int, period as int, i);
}

/// Without a reference nothing is called inverted, and a fire that contradicts
/// the candidate starts the count again.
pub proof fn an_unsettled_phase_restarts_the_count(
    s: InversionState,
    target: u64,
    period: u64,
    fired: bool,
)
    requires
        !s.is_locked(),
    ensures
        !s.observed(target, period, fired).1,
        s.cand_boundary is Some && s.cand_phase == Some(!fired) && period > 0 && same_parity(
            target as int,
            s.cand_boundary->0 as int,
            period as int * 2,
        ) ==> s.observed(target, period, fired).0.cand_count == 1 && !s.observed(
            target,
            period,
            fired,
        ).0.is_locked(),
{
}

/// A fire that contradicts the candidate on its parity becomes the candidate,
/// boundary and eye, seen once; so does the first fire of all.  Without a period
/// there is only one parity.
pub proof fn a_contradiction_becomes_the_candidate(
    s: InversionState,
    target: u64,
    period: u64,
    fired: bool,
)
    requires
        !s.is_locked(),
        s.cand_boundary is Some ==> s.cand_phase == Some(!fired) && (period == 0 || same_parity(
            target as int,
            s.cand_boundary->0 as int,
            period as int * 2,
        )),
    ensures
        ({
            let t = s.observed(target, period, fired).0;
            &&& t.cand_boundary == Some(target)
            &&& t.cand_phase == Some(fired)
            &&& t.cand_count == 1
            &&& !t.is_locked()
        }),
{
}

/// The state after the first `n` of the boundaries, each with a fire of the
/// same eye.
pub open spec fn after_fires(
    s: InversionState,
    targets: Seq<u64>,
    period: u64,
    fired: bool,
    n: nat,
) -> InversionState
    decreases n,
{
    if n == 0 {
        s
    } else {
        let i = (n - 1) as nat;
        after_fires(s, targets, period, fired, i).observed(targets[i as int], period, fired).0
    }
}

/// All boundaries share the parity of the first.
pub open spec fn one_parity(targets: Seq<u64>, period: u64) -> bool {
    forall|i: int|
        0 <= i < targets.len() ==> same_parity(
            #[trigger] targets[i] as int,
            targets[0] as int,
            period as int * 2,
        )
}

/// Whatever the candidate was, if it was of their parity, enough fires of one
/// eye on boundaries of one parity make that eye the reference of that parity.
/// From the first fire on, and after a contradiction, it takes exactly so many,
/// and the boundary of the first of them is the one that is remembered.
pub proof fn enough_fires_of_one_eye_lock_it(
    s: InversionState,
    targets: Seq<u64>,
    period: u64,
    fired: bool,
    n: nat,
)
    requires
        !s.is_locked(),
        period > 0,
        s.cand_boundary is Some <==> s.cand_phase is Some,
        s.cand_boundary is Some ==> same_parity(
            targets[0] as int,
            s.cand_boundary->0 as int,
            period as int * 2,
        ),
        one_parity(targets, period),
        0 < n <= targets.len(),
    ensures
        ({
            let t = after_fires(s, targets, period, fired, n);
            &&& n >= 120 ==> {
                &&& t.is_locked()
                &&& t.ref_phase == Some(fired)
                &&& same_parity(t.ref_boundary->0 as int, targets[0] as int, period as int * 2)
            }
            &&& s.cand_phase != Some(fired) ==> (if n < 120 {
                &&& !t.is_locked()
                &&& t.cand_boundary == Some(targets[0])
                &&& t.cand_phase == Some(fired)
                &&& t.cand_count == n
            } else {
                t.ref_boundary == Some(targets[0])
            })
        }),
{
    lemma_fires_add_up(s, targets, period, fired, n);
}

/// What the fires leave: a candidate or a reference with their eye and parity.
proof fn lemma_fires_add_up(
    s: InversionState,
    targets: Seq<u64>,
    period: u64,
    fired: bool,
    n: nat,
)
    requires
        !s.is_locked(),
        period > 0,
        s.cand_boundary is Some <==> s.cand_phase is Some,
        s.cand_boundary is Some ==> same_parity(
            targets[0] as int,
            s.cand_boundary->0 as int,
            period as int * 2,
        ),
        one_parity(targets, period),
        0 < n <= targets.len(),
    ensures
        ({
            let t = after_fires(s, targets, period, fired, n);
            let b = if s.cand_phase == Some(fired) {
                s.cand_boundary->0
            } else {
                targets[0]
            };
            let before = if s.cand_phase == Some(fired) {
                s.cand_count as int
            } else {
                0
            };
            if before + n < INVERSION_REF_STABLE_FIRES {
                &&& !t.is_locked()
                &&& t.cand_boundary == Some(b)
                &&& t.cand_phase == Some(fired)
                &&& t.cand_count == before + n
            } else {
                t == InversionState::locked(b, fired)
            }
        }),
    decreases n,
{
    let i = (n - 1) as nat;
    assert(same_parity(targets[i as int] as int, targets[0] as int, period as int * 2));
    if i > 0 {
        lemma_fires_add_up(s, targets, period, fired, i);
    } else {
        assert(after_fires(s, targets, period, fired, 0) == s);
    }
}

/// Fires of the other parity say nothing, neither for nor against a candidate
/// or a reference.
pub proof fn the_other_parity_says_nothing(
    s: InversionState,
    target: u64,
    period: u64,
    fired: bool,
)
    requires
        period > 0,
        s.is_locked() || s.cand_boundary is Some,
        !same_parity(
            target as int,
            if s.is_locked() {
                s.ref_boundary->0 as int
            } else {
                s.cand_boundary->0 as int
            },
            period as int * 2,
        ),
    ensures
        s.observed(target, period, fired) == (s, false),
{
}

/// A settled reference never moves, and calls exactly the fires of its parity
/// with the other eye inverted.
pub proof fn a_settled_reference_stays(s: InversionState, target: u64, period: u64, fired: bool)
    requires
        period > 0,
        s.is_locked(),
        same_parity(target as int, s.ref_boundary->0 as int, period as int * 2),
    ensures
        s.observed(target, period, fired).0 == s,
        s.observed(target, period, s.ref_phase->0).1 == false,
        s.observed(target, period, !s.ref_phase->0).1 == true,
{
}

} // verus!
