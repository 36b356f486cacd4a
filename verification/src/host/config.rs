//! The host's settings, from the texts that the user gave.
//!
//! A setting that was not given, or that does not read as a number, takes its
//! default.

use crate::host::eye_queue::STALL_HOLD_AFTER_FREERUN_SLOTS;
use crate::host::session::DEFAULT_HOST_LEAD_US;
use crate::text;
use vstd::prelude::*;

verus! {

/// The number that a setting stands for.
pub open spec fn setting(given: Option<Seq<char>>, max: int, default: int) -> int {
    match given {
        Some(s) => match text::unsigned(s, max) {
            Some(n) => n,
            None => default,
        },
        None => default,
    }
}

/// Lead of a packet before its boundary, in microseconds.
pub fn fire_lead_us(given: Option<&str>) -> (us: u64)
    ensures
        us == setting(text::chars_if_any(given), u64::MAX as int, DEFAULT_HOST_LEAD_US as int),
{
    if let Some(s) = given {
        if let Some(n) = text::read_unsigned(s, u64::MAX) {
            return n;
        }
    }
    DEFAULT_HOST_LEAD_US
}

/// Number of empty slots after which the eyes are held instead of toggled.
pub fn stall_hold_after_freerun_slots(given: Option<&str>) -> (slots: u32)
    ensures
        slots == setting(
            text::chars_if_any(given),
            u32::MAX as int,
            STALL_HOLD_AFTER_FREERUN_SLOTS as int,
        ),
{
    if let Some(s) = given {
        if let Some(n) = text::read_unsigned(s, u32::MAX as u64) {
            return n as u32;
        }
    }
    STALL_HOLD_AFTER_FREERUN_SLOTS
}

/// The lead to use with a display's stored profile: the user's, else the
/// stored one.
pub fn profile_lead_us(given: Option<&str>, stored_us: u64) -> (us: u64)
    ensures
        us == setting(text::chars_if_any(given), u64::MAX as int, stored_us as int),
{
    if let Some(s) = given {
        if let Some(n) = text::read_unsigned(s, u64::MAX) {
            return n;
        }
    }
    stored_us
}

/// The display that the user named, if any.
pub fn requested_connector(given: Option<&str>) -> (name: Option<String>)
    ensures
        match (name, text::chars_if_any(given)) {
            (Some(n), Some(g)) => n@ == text::trimmed(g) && n@.len() > 0,
            (None, Some(g)) => text::trimmed(g).len() == 0,
            (Some(_), None) => false,
            (None, None) => true,
        },
{
    match given {
        None => None,
        Some(g) => {
            let t: Vec<char> = text::trim(&text::chars_of(g));
            if t.len() == 0 {
                None
            } else {
                Some(text::string_of(&t))
            }
        },
    }
}

/// The upper-case form of a string that is not ASCII, as `str::to_uppercase`
/// gives it.
pub uninterp spec fn uppercased(s: Seq<char>) -> Seq<char>;

/// The upper-case form of a string.
pub open spec fn upper_case_of(s: Seq<char>) -> Seq<char> {
    if text::all_ascii(s) {
        text::raised(s)
    } else {
        uppercased(s)
    }
}

/// `str::to_uppercase`: the upper-case form after the Unicode tables, which is
/// a function of the string alone.  Of ASCII characters those tables change
/// `a` to `z` into `A` to `Z`, and keep the rest.
#[verifier::external_body]
fn to_uppercase(s: &str) -> (u: String)
    ensures
        u@ == (if text::all_ascii(s@) {
            text::raised(s@)
        } else {
            uppercased(s@)
        }),
{
    s.to_uppercase()
}

/// The output that the anchor is to prefer: the display that the user named,
/// in upper case.
pub fn preferred_output(given: Option<&str>) -> (name: Option<String>)
    ensures
        match (name, text::chars_if_any(given)) {
            (Some(n), Some(g)) => n@ == upper_case_of(text::trimmed(g)) && n@.len() > 0,
            (None, Some(g)) => upper_case_of(text::trimmed(g)).len() == 0,
            (Some(_), None) => false,
            (None, None) => true,
        },
{
    match given {
        None => None,
        Some(g) => {
            let t: String = text::string_of(&text::trim(&text::chars_of(g)));
            unless_empty(to_uppercase(t.as_str()))
        },
    }
}

/// A name, unless it is empty.
pub fn unless_empty(name: String) -> (n: Option<String>)
    ensures
        n == (if name@.len() == 0 {
            None
        } else {
            Some(name)
        }),
{
    if text::chars_of(name.as_str()).len() == 0 {
        None
    } else {
        Some(name)
    }
}

/// The emitter's delay register takes a new value when the published one
/// changes to something other than zero.
pub fn delay_to_write(last: u32, published: u32) -> (write: Option<u32>)
    ensures
        write == (if published != last && published > 0 {
            Some(published)
        } else {
            None
        }),
{
    if published != last && published > 0 {
        Some(published)
    } else {
        None
    }
}

} // verus!
