//! Which display the demo's window is on, and the shutter timings that go with
//! it.

use crate::demo::{plausible_rate, poll_output};
use crate::edid;
use crate::edid::Connector;
use crate::nvstusb::ARM_GRACE_SWAPS;
use crate::nvtimings;
use crate::nvtimings::TimingsDb;
use crate::text;
use vstd::prelude::*;

verus! {

// ---------------------------------------------------------------------------
// The display
// ---------------------------------------------------------------------------

/// `base` is the key of the display on an output, where the output has a name
/// and its display can be read.
pub open spec fn is_base_of(
    name: Option<Seq<char>>,
    entries: Seq<Connector>,
    base: Option<Seq<char>>,
) -> bool {
    match name {
        Some(n) if n.len() > 0 => match base {
            Some(b) => exists|i: int|
                #![trigger edid::first_answer(entries, n, None, i)]
                edid::first_answer(entries, n, None, i) && entries[i].edid->0@.len() >= 128 && b
                    == edid::block_key(entries[i].edid->0@),
            None => forall|i: int|
                edid::first_answer(entries, n, None, i) ==> entries[i].edid->0@.len() < 128,
        },
        _ => base is None,
    }
}

/// The key of the display on an output.
pub fn output_base(name: Option<&str>, entries: &Vec<Connector>) -> (base: Option<String>)
    ensures
        is_base_of(text::chars_if_any(name), entries@, text::string_if_any(base)),
{
    match name {
        None => None,
        Some(n) => if text::chars_of(n).len() == 0 {
            None
        } else {
            edid::resolve_base(n, None, entries)
        },
    }
}

/// An output has one display, so it has one key.
pub proof fn an_output_has_one_key(
    name: Option<Seq<char>>,
    entries: Seq<Connector>,
    a: Option<Seq<char>>,
    b: Option<Seq<char>>,
)
    requires
        is_base_of(name, entries, a),
        is_base_of(name, entries, b),
    ensures
        a == b,
{
    if name is Some && name->0.len() > 0 {
        let n = name->0;
        assert forall|i: int, j: int|
            edid::first_answer(entries, n, None, i) && edid::first_answer(
                entries,
                n,
                None,
                j,
            ) implies i == j by {
            assert(edid::answers(entries[i], n, None));
            assert(edid::answers(entries[j], n, None));
        }
    }
}

/// The output that the window was last seen on.
#[derive(Debug)]
pub struct OutputWatch {
    pub name: Option<String>,
    /// Key of its display.
    pub base: Option<String>,
    /// The timings were given by the user, and no stored ones replace them.
    pub pinned: bool,
}

/// What follows from a change of the output, besides that the emitter goes
/// after it.
#[derive(Debug)]
pub struct OutputMove {
    /// The rate to configure, in millihertz.
    pub rate_mhz: Option<u32>,
    /// The display whose stored timings to use.
    pub profile: Option<String>,
}

impl OutputWatch {
    /// No output is known.
    pub fn new() -> (w: OutputWatch)
        ensures
            w.name is None,
            w.base is None,
            !w.pinned,
    {
        OutputWatch { name: None, base: None, pinned: false }
    }

    /// Whether to ask for the output in this frame.
    pub fn is_due(&self, frames: u64) -> (b: bool)
        ensures
            b == ((self.name is None && frames < ARM_GRACE_SWAPS) || frames % 120 == 0),
    {
        poll_output(self.name.is_some(), frames)
    }

    /// Whether the window is on another output than before.
    pub fn is_news(&self, name: Option<&str>) -> (b: bool)
        ensures
            b == (text::chars_if_any(name) != text::string_if_any(self.name)),
    {
        match (name, &self.name) {
            (Some(a), Some(b)) => !text::same_str(a, b.as_str()),
            (None, None) => false,
            _ => true,
        }
    }

    /// The window went to another output.
    ///
    /// A rate that the output cannot have is not configured, and timings that
    /// the user gave stay.
    pub fn moved_to(&mut self, name: Option<String>, mhz: Option<u32>, entries: &Vec<Connector>) -> (m:
        OutputMove)
        ensures
            final(self).name == name,
            is_base_of(
                text::string_if_any(name),
                entries@,
                text::string_if_any(final(self).base),
            ),
            final(self).pinned == old(self).pinned,
            m.rate_mhz == (match mhz {
                Some(r) if r >= 60_000 => Some(r),
                _ => None,
            }),
            text::string_if_any(m.profile) == (if old(self).pinned {
                None
            } else {
                text::string_if_any(final(self).base)
            }),
    {
        let base: Option<String> = match &name {
            Some(n) => output_base(Some(n.as_str()), entries),
            None => output_base(None, entries),
        };
        let profile: Option<String> = if self.pinned {
            None
        } else {
            match &base {
                Some(b) => Some(b.clone()),
                None => None,
            }
        };
        self.name = name;
        self.base = base;
        OutputMove { rate_mhz: plausible_rate(mhz), profile }
    }
}

// ---------------------------------------------------------------------------
// The timings
// ---------------------------------------------------------------------------

/// The stored timings of a display, with their key.  Without a usable rate
/// there are none.
pub fn stored_timings<'a, E>(db: &'a TimingsDb<E>, base: Option<&str>, refresh: Option<i64>) -> (found:
    Option<(String, &'a E)>)
    requires
        db.wf(),
    ensures
        match (text::chars_if_any(base), refresh) {
            (Some(b), Some(r)) => match found {
                Some((key, e)) => nvtimings::resolves_to(
                    db.profiles().dom(),
                    b,
                    r as int,
                    key@,
                ) && *e == db.profiles()[key@],
                None => !db.profiles().dom().contains(nvtimings::key_of(b, r as int)) && forall|
                    k: Seq<char>,
                | #[trigger]
                    db.profiles().dom().contains(k) ==> nvtimings::rate_in(k, b) is None,
            },
            _ => found is None,
        },
{
    match (base, refresh) {
        (Some(b), Some(r)) => nvtimings::resolve(db, b, r),
        _ => None,
    }
}

/// The three shutter timings of a display.
#[derive(Clone, Copy, Debug)]
pub struct Shutter<V> {
    /// Delay from the refresh to the opening of the shutter.
    pub x: V,
    /// How long the shutter stays open.
    pub y: V,
    /// The second timer counter.
    pub w: V,
}

pub open spec fn or_else<V>(a: Option<V>, b: V) -> V {
    match a {
        Some(v) => v,
        None => b,
    }
}

/// The timings to start with: each the one that was given for it, else the
/// stored one, else that of the file, else the reference.
pub open spec fn started<V>(
    reference: Shutter<V>,
    file: Option<Shutter<V>>,
    stored: Option<Shutter<V>>,
    given: Shutter<Option<V>>,
) -> Shutter<V> {
    let profile = or_else(stored, or_else(file, reference));
    Shutter {
        x: or_else(given.x, profile.x),
        y: or_else(given.y, profile.y),
        w: or_else(given.w, profile.w),
    }
}

/// The timings to start with, and whether any of them was given.  Without a
/// usable rate these are the reference.
pub fn start_timings<V: Copy>(
    rated: bool,
    reference: Shutter<V>,
    file: Option<Shutter<V>>,
    stored: Option<Shutter<V>>,
    given: Shutter<Option<V>>,
) -> (t: (Shutter<V>, bool))
    ensures
        !rated ==> t == (reference, false),
        rated ==> t.0 == started(reference, file, stored, given),
        rated ==> t.1 == (given.x is Some || given.y is Some || given.w is Some),
{
    if !rated {
        return (reference, false);
    }
    let mut t: Shutter<V> = match stored {
        Some(s) => s,
        None => match file {
            Some(f) => f,
            None => reference,
        },
    };
    if let Some(x) = given.x {
        t.x = x;
    }
    if let Some(y) = given.y {
        t.y = y;
    }
    if let Some(w) = given.w {
        t.w = w;
    }
    (t, given.x.is_some() || given.y.is_some() || given.w.is_some())
}

/// A timing that was given wins over every other source, and when all three
/// were given the other sources do not matter.
pub proof fn given_timings_always_win<V>(
    reference: Shutter<V>,
    file: Option<Shutter<V>>,
    stored: Option<Shutter<V>>,
    given: Shutter<Option<V>>,
)
    ensures
        given.x matches Some(x) ==> started(reference, file, stored, given).x == x,
        given.y matches Some(y) ==> started(reference, file, stored, given).y == y,
        given.w matches Some(w) ==> started(reference, file, stored, given).w == w,
        given.x is Some && given.y is Some && given.w is Some ==> started(
            reference,
            file,
            stored,
            given,
        ) == started(reference, None, None, given),
{
}

} // verus!
