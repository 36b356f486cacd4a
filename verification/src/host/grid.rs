//! Arithmetic on the display's vblank grid.
//!
//! A grid is the set of boundaries `origin + n * period`; every boundary of it
//! can serve as its origin.  All times are host-epoch microseconds.

use vstd::prelude::*;

verus! {

/// The largest time a signed microsecond difference can be taken of.
pub const MAX_TIME_US: u64 = 0x7fff_ffff_ffff_ffff;

/// A period as the grid uses it: a missing (zero) period counts as one
/// microsecond.
pub open spec fn step(period: u64) -> int {
    if period == 0 {
        1
    } else {
        period as int
    }
}

/// Executable form of [`step`].
pub fn at_least_one(period: u64) -> (p: u64)
    ensures
        p == step(period),
{
    if period == 0 {
        1
    } else {
        period
    }
}

/// Whether `b` is a boundary of the grid through `origin`.
pub open spec fn on_grid(origin: int, period: int, b: int) -> bool {
    (b - origin) % period == 0
}

/// The first boundary of the grid through `origin` that lies strictly after `t`.
pub open spec fn first_after(origin: int, period: int, t: int) -> int {
    origin + ((t - origin) / period + 1) * period
}

/// `first_after` is what its name says: a grid boundary, after `t`, and no
/// boundary lies between the two.
pub proof fn first_after_is_the_next_boundary(origin: int, period: int, t: int)
    requires
        period > 0,
    ensures
        on_grid(origin, period, first_after(origin, period, t)),
        t < first_after(origin, period, t) <= t + period,
        forall|b: int| #[trigger]
            on_grid(origin, period, b) && b > t ==> b >= first_after(origin, period, t),
{
    let d = t - origin;
    let q = d / period;
    let r = first_after(origin, period, t);
    vstd::arithmetic::div_mod::lemma_fundamental_div_mod(d, period);
    assert((q + 1) * period == period * q + period) by (nonlinear_arith);
    assert(r - origin == (q + 1) * period);
    assert(r == t - d % period + period);
    vstd::arithmetic::div_mod::lemma_mod_multiples_vanish(q + 1, 0, period);
    assert((q + 1) * period == period * (q + 1) + 0) by (nonlinear_arith);
    assert forall|b: int| #[trigger] on_grid(origin, period, b) && b > t implies b >= r by {
        vstd::arithmetic::div_mod::lemma_fundamental_div_mod(b - origin, period);
        let k = (b - origin) / period;
        assert(b - origin == period * k);
        assert(k >= q + 1) by (nonlinear_arith)
            requires
                period * k > d,
                d >= period * q,
                period > 0,
        ;
        assert(period * k >= (q + 1) * period) by (nonlinear_arith)
            requires
                k >= q + 1,
                period > 0,
        ;
    }
}

/// Any boundary of a grid serves as its origin: two origins on one grid give
/// the same next boundary for every time, before or after either origin.
pub proof fn first_after_is_independent_of_the_origin(a: int, b: int, period: int, t: int)
    requires
        period > 0,
        on_grid(a, period, b),
    ensures
        first_after(a, period, t) == first_after(b, period, t),
{
    vstd::arithmetic::div_mod::lemma_fundamental_div_mod(b - a, period);
    let k = (b - a) / period;
    vstd::arithmetic::div_mod::lemma_fundamental_div_mod(t - b, period);
    let q = (t - b) / period;
    assert(t - a == (q + k) * period + (t - b) % period) by (nonlinear_arith)
        requires
            b - a == period * k,
            t - b == period * q + (t - b) % period,
    ;
    vstd::arithmetic::div_mod::lemma_fundamental_div_mod_converse(t - a, period, q + k, (t - b) % period);
    assert(b + (q + 1) * period == a + (q + k + 1) * period) by (nonlinear_arith)
        requires
            b - a == period * k,
    ;
}

/// Smallest boundary on the grid through `ref_boundary` that lies strictly
/// after `t`.
///
/// The grid is uniform, so `ref_boundary` is only its origin: a `t` earlier
/// than it resolves to the slot that time really belongs to, which lies in the
/// past, and not to the first slot after the origin.
pub fn boundary_after(ref_boundary: u64, period: u64, t: u64) -> (b: u64)
    requires
        ref_boundary <= MAX_TIME_US,
        t + step(period) <= MAX_TIME_US,
    ensures
        b == first_after(ref_boundary as int, step(period), t as int),
        t < b <= t + step(period),
{
    let p: u64 = at_least_one(period);
    proof {
        first_after_is_the_next_boundary(ref_boundary as int, p as int, t as int);
    }
    if t >= ref_boundary {
        let past: u64 = (t - ref_boundary) % p;
        proof {
            vstd::arithmetic::div_mod::lemma_fundamental_div_mod(t - ref_boundary, p as int);
            let q = (t - ref_boundary) / (p as int);
            assert((q + 1) * p == p * q + p) by (nonlinear_arith);
        }
        t - past + p
    } else {
        let ahead: u64 = (ref_boundary - t) % p;
        proof {
            let d = ref_boundary - t;
            vstd::arithmetic::div_mod::lemma_fundamental_div_mod(d, p as int);
            let q = d / (p as int);
            if ahead == 0 {
                assert(t - ref_boundary == (-q) * p + 0) by (nonlinear_arith)
                    requires
                        ref_boundary - t == p * q,
                ;
                vstd::arithmetic::div_mod::lemma_fundamental_div_mod_converse(t - ref_boundary, p as int, -q, 0);
                assert((-q + 1) * p == -(p * q) + p) by (nonlinear_arith);
            } else {
                assert(t - ref_boundary == (-q - 1) * p + (p - ahead)) by (nonlinear_arith)
                    requires
                        ref_boundary - t == p * q + ahead,
                ;
                vstd::arithmetic::div_mod::lemma_fundamental_div_mod_converse(t - ref_boundary, p as int, -q - 1, p - ahead);
                assert((-q - 1 + 1) * p == -(p * q)) by (nonlinear_arith);
            }
        }
        if ahead == 0 {
            t + p
        } else {
            t + ahead
        }
    }
}

/// The boundary the armed grid serves a stamped swap on: one period after the
/// slot its present blocks to, because every eye is fired one slot ahead of
/// the boundary just confirmed.
pub fn stamped_pin(ref_boundary: u64, period: u64, converted: u64) -> (b: u64)
    requires
        ref_boundary <= MAX_TIME_US,
        converted + step(period) <= MAX_TIME_US,
    ensures
        b == first_after(ref_boundary as int, step(period), converted as int) + step(period),
{
    let first: u64 = boundary_after(ref_boundary, period, converted);
    first.saturating_add(at_least_one(period))
}

/// The boundary a batch of swaps starts at: the caller's guess, or the slot
/// after the schedule's tail when the guess lies before that.  A period of zero
/// means that there is no grid, and the guess stands.
pub open spec fn floored(tail: Option<u64>, guess: u64, period: u64) -> u64 {
    match tail {
        Some(t) if period > 0 && t.saturating_add(period) > guess => t.saturating_add(period),
        _ => guess,
    }
}

/// Floors a guessed starting boundary at the schedule's own tail, so a batch
/// never probes slots an earlier batch already claimed.
pub fn floored_next_boundary(tail: Option<u64>, guess: u64, period: u64) -> (b: u64)
    ensures
        b == floored(tail, guess, period),
{
    match tail {
        Some(t) => {
            let next: u64 = t.saturating_add(period);
            if period > 0 && next > guess {
                next
            } else {
                guess
            }
        },
        None => guess,
    }
}

/// A floored start lies behind neither the guess nor the slot after the tail.
pub proof fn floored_start_is_past_the_tail(tail: u64, guess: u64, period: u64)
    ensures
        floored(Some(tail), guess, period) >= guess,
        period > 0 ==> floored(Some(tail), guess, period) >= tail.saturating_add(period),
        period == 0 ==> floored(Some(tail), guess, period) == guess,
        floored(None, guess, period) == guess,
{
}

/// A step is never zero, and a period that there is counts as itself.
pub proof fn a_step_is_the_period(period: u64)
    ensures
        step(period) >= 1,
        period > 0 ==> step(period) == period,
        step(0) == 1,
{
}

} // verus!
