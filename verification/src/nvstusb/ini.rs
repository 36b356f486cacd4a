//! Monitor profiles in the text format of `MonitorTimings.ini`.
//!
//! A profile starts at a `[n]`, `Monitor:` or `EDID_ID:` line.  The lines after
//! it give its values, each behind its name.

use crate::text;
use vstd::prelude::*;

verus! {

/// A value of a profile.
#[derive(Clone, Copy, Debug, PartialEq, Eq, Structural)]
pub enum IniField {
    Rate,
    X,
    Y,
    Z,
    W,
}

/// A value as it stands in the text.
#[derive(Debug)]
pub struct IniValue {
    pub field: IniField,
    pub text: String,
}

/// The values of a profile, in the order in which they were given.
#[derive(Debug)]
pub struct IniEntry {
    pub values: Vec<IniValue>,
}

/// A value as plain data.
pub type ValueView = (IniField, Seq<char>);

pub open spec fn value_view() -> spec_fn(IniValue) -> ValueView {
    |v: IniValue| (v.field, v.text@)
}

pub open spec fn entry_view() -> spec_fn(IniEntry) -> Seq<ValueView> {
    |e: IniEntry| e.values@.map_values(value_view())
}

/// What a line means.
pub enum Line {
    Blank,
    Header,
    Value(IniField, Seq<char>),
    Other,
}

/// What a line means, without its surrounding white space.
pub open spec fn line_of(t: Seq<char>) -> Line {
    if t.len() == 0 {
        Line::Blank
    } else if text::has_prefix(t, "Monitor:"@) || text::has_prefix(t, "EDID_ID:"@)
        || text::has_prefix(t, "["@) {
        Line::Header
    } else if text::has_prefix(t, "RefreshRateHz:"@) {
        Line::Value(IniField::Rate, text::trimmed(t.skip(14)))
    } else if text::has_prefix(t, "X_us:"@) {
        Line::Value(IniField::X, text::trimmed(t.skip(5)))
    } else if text::has_prefix(t, "Y_us:"@) {
        Line::Value(IniField::Y, text::trimmed(t.skip(5)))
    } else if text::has_prefix(t, "Z_us:"@) {
        Line::Value(IniField::Z, text::trimmed(t.skip(5)))
    } else if text::has_prefix(t, "W_us:"@) {
        Line::Value(IniField::W, text::trimmed(t.skip(5)))
    } else {
        Line::Other
    }
}

/// The profiles after one more line.
pub open spec fn with_line(entries: Seq<Seq<ValueView>>, raw: Seq<char>) -> Seq<Seq<ValueView>> {
    match line_of(text::trimmed(raw)) {
        Line::Header => entries.push(Seq::empty()),
        Line::Value(field, value) => if entries.len() == 0 {
            entries
        } else {
            entries.drop_last().push(entries.last().push((field, value)))
        },
        _ => entries,
    }
}

/// The end of the line that starts at `from`.
pub open spec fn line_end(s: Seq<char>, from: int) -> int
    decreases s.len() - from,
{
    if from < 0 || from >= s.len() || s[from] == '\n' {
        from
    } else {
        line_end(s, from + 1)
    }
}

/// The profiles that the lines from `from` on add.
pub open spec fn profiles(s: Seq<char>, from: int, entries: Seq<Seq<ValueView>>) -> Seq<
    Seq<ValueView>,
>
    decreases s.len() + 1 - from,
    when 0 <= from
    via profiles_shrinks
{
    if from >= s.len() {
        entries
    } else {
        let end = line_end(s, from);
        profiles(s, end + 1, with_line(entries, s.subrange(from, end)))
    }
}

#[via_fn]
proof fn profiles_shrinks(s: Seq<char>, from: int, entries: Seq<Seq<ValueView>>) {
    lemma_line_end(s, from);
}

proof fn lemma_line_end(s: Seq<char>, from: int)
    requires
        0 <= from,
    ensures
        from <= line_end(s, from),
        from <= s.len() ==> line_end(s, from) <= s.len(),
    decreases s.len() - from,
{
    if from < s.len() && s[from] != '\n' {
        lemma_line_end(s, from + 1);
    }
}

fn value_after(t: &Vec<char>, skip: usize, field: IniField) -> (v: IniValue)
    requires
        skip <= t@.len(),
    ensures
        value_view()(v) == (field, text::trimmed(t@.skip(skip as int))),
{
    let rest: Vec<char> = text::slice_of(t, skip, t.len());
    assert(rest@ =~= t@.skip(skip as int));
    IniValue { field, text: text::string_of(&text::trim(&rest)) }
}

/// What a line without surrounding white space gives.
enum Found {
    Nothing,
    Header,
    Value(IniValue),
}

fn classify(t: &Vec<char>) -> (f: Found)
    ensures
        match f {
            Found::Header => line_of(t@) is Header,
            Found::Value(v) => line_of(t@) == Line::Value(v.field, v.text@),
            Found::Nothing => line_of(t@) is Blank || line_of(t@) is Other,
        },
{
    proof {
        reveal_strlit("RefreshRateHz:");
        reveal_strlit("X_us:");
        reveal_strlit("Y_us:");
        reveal_strlit("Z_us:");
        reveal_strlit("W_us:");
    }
    if t.len() == 0 {
        Found::Nothing
    } else if text::starts_with(t, "Monitor:") || text::starts_with(t, "EDID_ID:")
        || text::starts_with(t, "[") {
        Found::Header
    } else if text::starts_with(t, "RefreshRateHz:") {
        Found::Value(value_after(t, 14, IniField::Rate))
    } else if text::starts_with(t, "X_us:") {
        Found::Value(value_after(t, 5, IniField::X))
    } else if text::starts_with(t, "Y_us:") {
        Found::Value(value_after(t, 5, IniField::Y))
    } else if text::starts_with(t, "Z_us:") {
        Found::Value(value_after(t, 5, IniField::Z))
    } else if text::starts_with(t, "W_us:") {
        Found::Value(value_after(t, 5, IniField::W))
    } else {
        Found::Nothing
    }
}

fn take_line(entries: &mut Vec<IniEntry>, raw: &Vec<char>)
    ensures
        final(entries)@.map_values(entry_view()) == with_line(
            old(entries)@.map_values(entry_view()),
            raw@,
        ),
{
    let ghost before = entries@.map_values(entry_view());
    match classify(&text::trim(raw)) {
        Found::Nothing => {},
        Found::Header => {
            entries.push(IniEntry { values: Vec::new() });
            proof {
                assert(entry_view()(entries@.last()) =~= Seq::<ValueView>::empty());
                assert(entries@.map_values(entry_view()) =~= before.push(Seq::empty()));
            }
        },
        Found::Value(v) => {
            let ghost view = value_view()(v);
            if let Some(e) = entries.pop() {
                let mut e: IniEntry = e;
                let ghost was = entry_view()(e);
                e.values.push(v);
                assert(entry_view()(e) =~= was.push(view));
                entries.push(e);
                proof {
                    assert(before.last() == was);
                    assert(entries@.map_values(entry_view()) =~= before.drop_last().push(
                        was.push(view),
                    ));
                }
            }
        },
    }
}

/// Reads the profiles of a text.
pub fn read_profiles(source: &str) -> (entries: Vec<IniEntry>)
    ensures
        entries@.map_values(entry_view()) == profiles(source@, 0, Seq::empty()),
{
    let s: Vec<char> = text::chars_of(source);
    let n: usize = s.len();
    let mut entries: Vec<IniEntry> = Vec::new();
    let mut from: usize = 0;
    assert(entries@.map_values(entry_view()) =~= Seq::empty());
    while from < n
        invariant
            s@ == source@,
            n == s@.len(),
            profiles(s@, from as int, entries@.map_values(entry_view())) == profiles(
                s@,
                0,
                Seq::empty(),
            ),
        decreases n - from,
    {
        let mut end: usize = from;
        while end < n && s[end] != '\n'
            invariant
                from <= end <= n,
                n == s@.len(),
                line_end(s@, from as int) == line_end(s@, end as int),
            decreases n - end,
        {
            end += 1;
        }
        take_line(&mut entries, &text::slice_of(&s, from, end));
        if end == n {
            assert(profiles(s@, n + 1, entries@.map_values(entry_view())) == entries@.map_values(
                entry_view(),
            ));
            return entries;
        }
        from = end + 1;
    }
    entries
}

// ---------------------------------------------------------------------------
// Choosing a profile
// ---------------------------------------------------------------------------

/// A value after it was read as a number, `None` where it is none.
#[derive(Clone, Copy, Debug)]
pub struct ReadValue<V> {
    pub field: IniField,
    pub number: Option<V>,
}

/// The last number given for a field, among the first `n` values.
pub open spec fn last_number<V>(values: Seq<ReadValue<V>>, field: IniField, n: nat) -> Option<V>
    decreases n,
{
    if n == 0 {
        None
    } else if values[n - 1].field == field && values[n - 1].number is Some {
        values[n - 1].number
    } else {
        last_number(values, field, (n - 1) as nat)
    }
}

/// The last number given for a field.  What does not read as a number does not
/// count.
pub fn latest<V: Copy>(values: &Vec<ReadValue<V>>, field: IniField) -> (v: Option<V>)
    ensures
        v == last_number(values@, field, values@.len()),
{
    let mut i: usize = values.len();
    while i > 0
        invariant
            i <= values@.len(),
            last_number(values@, field, i as nat) == last_number(values@, field, values@.len()),
        decreases i,
    {
        i -= 1;
        if values[i].field == field {
            if let Some(v) = values[i].number {
                return Some(v);
            }
        }
    }
    None
}

/// A profile's numbers, and whether its refresh rate is the wanted one.
#[derive(Clone, Copy, Debug)]
pub struct Candidate<V> {
    pub fits: bool,
    pub x: Option<V>,
    pub y: Option<V>,
    pub z: Option<V>,
    pub w: Option<V>,
}

impl<V> Candidate<V> {
    /// The rate is the wanted one and no number is missing.
    pub open spec fn usable(self) -> bool {
        self.fits && self.x is Some && self.y is Some && self.z is Some && self.w is Some
    }
}

/// The first usable profile, as its `x`, `y`, `z` and `w`.
pub fn pick_profile<V: Copy>(profiles: &Vec<Candidate<V>>) -> (p: Option<(V, V, V, V)>)
    ensures
        match p {
            Some(v) => exists|i: int|
                0 <= i < profiles@.len() && (#[trigger] profiles@[i]).usable() && (forall|j: int|
                    0 <= j < i ==> !(#[trigger] profiles@[j]).usable()) && v == (
                    profiles@[i].x->0,
                    profiles@[i].y->0,
                    profiles@[i].z->0,
                    profiles@[i].w->0,
                ),
            None => forall|i: int|
                0 <= i < profiles@.len() ==> !(#[trigger] profiles@[i]).usable(),
        },
{
    let mut i: usize = 0;
    while i < profiles.len()
        invariant
            i <= profiles@.len(),
            forall|j: int| 0 <= j < i ==> !(#[trigger] profiles@[j]).usable(),
        decreases profiles@.len() - i,
    {
        let c: Candidate<V> = profiles[i];
        if c.fits {
            if let (Some(x), Some(y), Some(z), Some(w)) = (c.x, c.y, c.z, c.w) {
                assert(profiles@[i as int].usable());
                return Some((x, y, z, w));
            }
        }
        i += 1;
    }
    None
}

} // verus!
