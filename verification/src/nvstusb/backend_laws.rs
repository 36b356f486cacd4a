//! What firmware images, profile texts and the display backends promise.

use crate::nvstusb::firmware;
use crate::nvstusb::firmware::{FirmwareError, RecordView};
use crate::nvstusb::ini;
use crate::nvstusb::ini::{Candidate, IniField, Line, ReadValue, ValueView};
use crate::nvstusb::wayland;
use crate::nvstusb::wayland::WaylandPresent;
use crate::nvstusb::x11glx::MscAnchor;
use crate::text;
use vstd::prelude::*;

verus! {

/// Whatever follows some records, those records come out first, and then what
/// the rest holds, with its fault.
pub proof fn records_come_out_before_what_follows(records: Seq<RecordView>, tail: Seq<u8>)
    requires
        forall|i: int| 0 <= i < records.len() ==> (#[trigger] records[i]).1.len() <= u16::MAX,
    ensures
        firmware::image(firmware::image_of(records) + tail) == (
            records + firmware::image(tail).0,
            firmware::image(tail).1,
        ),
    decreases records.len(),
{
    let fw = firmware::image_of(records) + tail;
    if records.len() == 0 {
        assert(fw =~= tail);
        assert(records + firmware::image(tail).0 =~= firmware::image(tail).0);
    } else {
        let r = records[0];
        let more = records.skip(1);
        assert forall|i: int| 0 <= i < more.len() implies (#[trigger] more[i]).1.len()
            <= u16::MAX by {
            assert(more[i] == records[i + 1]);
        }
        records_come_out_before_what_follows(more, tail);
        assert(fw[0] == (r.1.len() / 256) as u8);
        assert(fw[1] == (r.1.len() % 256) as u8);
        assert(fw[2] == (r.0 / 256) as u8);
        assert(fw[3] == (r.0 % 256) as u8);
        assert(firmware::be16(fw, 0) == r.1.len());
        assert(firmware::be16(fw, 2) == r.0);
        assert(fw.skip(4).take(r.1.len() as int) =~= r.1);
        assert(fw.skip(4).skip(r.1.len() as int) =~= firmware::image_of(more) + tail);
        assert(seq![r] + (more + firmware::image(tail).0) =~= records + firmware::image(tail).0);
    }
}

/// A tail too short for a record's head is a fault of its own, and so is a
/// record that promises more than there is; neither yields a record.
pub proof fn a_cut_image_is_faulty(tail: Seq<u8>)
    ensures
        0 < tail.len() < 4 ==> firmware::image(tail) == (
            Seq::<RecordView>::empty(),
            Some(FirmwareError::MidRecord),
        ),
        tail.len() >= 4 && tail[0] * 256 + tail[1] > tail.len() - 4 ==> firmware::image(tail) == (
            Seq::<RecordView>::empty(),
            Some(FirmwareError::Truncated),
        ),
        tail.len() == 0 ==> firmware::image(tail).1 is None,
{
}

/// A timing's line gives that timing, whatever white space surrounds its number,
/// and the five kinds are told apart.
pub proof fn a_timing_line_gives_its_timing(v: Seq<char>)
    ensures
        ini::line_of("RefreshRateHz:"@ + v) == Line::Value(IniField::Rate, text::trimmed(v)),
        ini::line_of("X_us:"@ + v) == Line::Value(IniField::X, text::trimmed(v)),
        ini::line_of("Y_us:"@ + v) == Line::Value(IniField::Y, text::trimmed(v)),
        ini::line_of("Z_us:"@ + v) == Line::Value(IniField::Z, text::trimmed(v)),
        ini::line_of("W_us:"@ + v) == Line::Value(IniField::W, text::trimmed(v)),
        ini::line_of("Monitor:"@ + v) is Header,
        ini::line_of("EDID_ID:"@ + v) is Header,
        ini::line_of("["@ + v) is Header,
        ini::line_of("#"@ + v) is Other,
        ini::line_of(Seq::empty()) is Blank,
{
    reveal_strlit("RefreshRateHz:");
    reveal_strlit("X_us:");
    reveal_strlit("Y_us:");
    reveal_strlit("Z_us:");
    reveal_strlit("W_us:");
    reveal_strlit("Monitor:");
    reveal_strlit("EDID_ID:");
    reveal_strlit("[");
    reveal_strlit("#");
    lemma_kind("RefreshRateHz:"@, v);
    lemma_kind("X_us:"@, v);
    lemma_kind("Y_us:"@, v);
    lemma_kind("Z_us:"@, v);
    lemma_kind("W_us:"@, v);
    lemma_kind("Monitor:"@, v);
    lemma_kind("EDID_ID:"@, v);
    lemma_kind("["@, v);
    lemma_kind("#"@, v);
}

proof fn lemma_kind(p: Seq<char>, v: Seq<char>)
    requires
        p.len() > 0,
    ensures
        text::has_prefix(p + v, p),
        (p + v).skip(p.len() as int) == v,
        forall|q: Seq<char>|
            q.len() > 0 && q[0] != p[0] ==> !#[trigger] text::has_prefix(p + v, q),
{
    assert((p + v).take(p.len() as int) =~= p);
    assert((p + v).skip(p.len() as int) =~= v);
    assert forall|q: Seq<char>| q.len() > 0 && q[0] != p[0] implies !#[trigger] text::has_prefix(
        p + v,
        q,
    ) by {
        if text::has_prefix(p + v, q) {
            assert((p + v).take(q.len() as int)[0] == p[0]);
        }
    }
}

/// A heading starts a profile of its own; a value goes to the last profile and
/// leaves the others alone; before the first heading it is dropped, and a line
/// that is neither changes nothing.
pub proof fn a_value_belongs_to_the_last_profile(entries: Seq<Seq<ValueView>>, raw: Seq<char>)
    ensures
        ({
            let after = ini::with_line(entries, raw);
            let line = ini::line_of(text::trimmed(raw));
            &&& line is Header ==> after.len() == entries.len() + 1 && after.drop_last() == entries
                && after.last().len() == 0
            &&& line is Value && entries.len() > 0 ==> {
                &&& after.len() == entries.len()
                &&& after.drop_last() == entries.drop_last()
                &&& after.last().drop_last() == entries.last()
                &&& after.last().last() == (line->Value_0, line->Value_1)
            }
            &&& entries.len() == 0 && !(line is Header) ==> after == entries
            &&& line is Blank || line is Other ==> after == entries
        }),
{
    let after = ini::with_line(entries, raw);
    let line = ini::line_of(text::trimmed(raw));
    if line is Header {
        assert(after.drop_last() =~= entries);
    }
    if line is Value && entries.len() > 0 {
        assert(after.drop_last() =~= entries.drop_last());
        assert(after.last().drop_last() =~= entries.last());
    }
}

/// A text is read line by line: its first line, and then what follows the
/// line's end.
pub proof fn a_text_is_read_line_by_line(
    line: Seq<char>,
    rest: Seq<char>,
    entries: Seq<Seq<ValueView>>,
)
    requires
        !line.contains('\n'),
    ensures
        ini::profiles(line.push('\n') + rest, 0, entries) == ini::profiles(
            rest,
            0,
            ini::with_line(entries, line),
        ),
        line.len() > 0 ==> ini::profiles(line, 0, entries) == ini::with_line(entries, line),
        ini::profiles(Seq::empty(), 0, entries) == entries,
{
    let s = line.push('\n') + rest;
    let n = line.len() as int;
    assert forall|i: int| 0 <= i < n implies #[trigger] s[i] != '\n' by {
        assert(s[i] == line[i]);
        assert(line.contains(line[i]));
    }
    lemma_line_ends_at(s, 0, n);
    assert(s.subrange(0, n) =~= line);
    lemma_profiles_of_the_rest(s, n + 1, ini::with_line(entries, line));
    assert(s.skip(n + 1) =~= rest);
    if n > 0 {
        assert forall|i: int| 0 <= i < n implies #[trigger] line[i] != '\n' by {
            assert(line.contains(line[i]));
        }
        lemma_line_ends_at(line, 0, n);
        assert(line.subrange(0, n) =~= line);
        assert(ini::profiles(line, n + 1, ini::with_line(entries, line)) == ini::with_line(
            entries,
            line,
        ));
    }
}

proof fn lemma_line_ends_at(s: Seq<char>, from: int, end: int)
    requires
        0 <= from <= end <= s.len(),
        forall|i: int| from <= i < end ==> #[trigger] s[i] != '\n',
        end < s.len() ==> s[end] == '\n',
    ensures
        ini::line_end(s, from) == end,
    decreases end - from,
{
    if from < end {
        lemma_line_ends_at(s, from + 1, end);
    }
}

proof fn lemma_line_end_shifts(s: Seq<char>, from: int, k: int)
    requires
        0 <= k <= from <= s.len(),
    ensures
        ini::line_end(s, from) == ini::line_end(s.skip(k), from - k) + k,
        from <= ini::line_end(s, from) <= s.len(),
    decreases s.len() - from,
{
    if from < s.len() {
        assert(s.skip(k)[from - k] == s[from]);
        if s[from] != '\n' {
            lemma_line_end_shifts(s, from + 1, k);
        }
    }
}

proof fn lemma_profiles_of_the_rest(s: Seq<char>, k: int, entries: Seq<Seq<ValueView>>)
    requires
        0 <= k <= s.len(),
    ensures
        ini::profiles(s, k, entries) == ini::profiles(s.skip(k), 0, entries),
{
    lemma_profiles_shift(s, k, k, entries);
}

proof fn lemma_profiles_shift(s: Seq<char>, from: int, k: int, entries: Seq<Seq<ValueView>>)
    requires
        0 <= k <= from,
        k <= s.len(),
    ensures
        ini::profiles(s, from, entries) == ini::profiles(s.skip(k), from - k, entries),
    decreases s.len() + 1 - from,
{
    if from < s.len() {
        let t = s.skip(k);
        lemma_line_end_shifts(s, from, k);
        let end = ini::line_end(s, from);
        assert(s.subrange(from, end) =~= t.subrange(from - k, end - k));
        lemma_profiles_shift(
            s,
            end + 1,
            k,
            ini::with_line(entries, s.subrange(from, end)),
        );
    }
}

/// The last number given for a field counts: a later one replaces it, a value
/// that is no number does not, and values of other fields make no difference.
pub proof fn a_later_number_replaces_an_earlier_one<V>(
    values: Seq<ReadValue<V>>,
    v: ReadValue<V>,
    field: IniField,
)
    ensures
        ({
            let n = values.len();
            let before = ini::last_number(values, field, n);
            let after = ini::last_number(values.push(v), field, n + 1);
            &&& v.field == field && v.number is Some ==> after == v.number
            &&& v.field != field || v.number is None ==> after == before
        }),
        ini::last_number(Seq::<ReadValue<V>>::empty(), field, 0) is None,
{
    lemma_last_number_of_a_prefix(values, v, field, values.len());
}

proof fn lemma_last_number_of_a_prefix<V>(
    values: Seq<ReadValue<V>>,
    v: ReadValue<V>,
    field: IniField,
    n: nat,
)
    requires
        n <= values.len(),
    ensures
        ini::last_number(values.push(v), field, n) == ini::last_number(values, field, n),
    decreases n,
{
    if n > 0 {
        lemma_last_number_of_a_prefix(values, v, field, (n - 1) as nat);
    }
}

/// A profile with a number missing, or of another rate, is never used.
pub proof fn an_incomplete_profile_is_not_usable<V>(c: Candidate<V>)
    ensures
        c.usable() ==> c.fits && c.x is Some && c.y is Some && c.z is Some && c.w is Some,
        c.x is None || c.y is None || c.z is None || c.w is None || !c.fits ==> !c.usable(),
        c.fits && c.x is Some && c.y is Some && c.z is Some && c.w is Some ==> c.usable(),
{
}

/// The rows of a US keyboard, as far as their keys mean something.
pub open spec fn keyboard_rows() -> Seq<(u32, Seq<char>)> {
    seq![(16u32, "qwertyuiop[]"@), (30u32, "asdfghjkl;"@), (44u32, "zxcvbnm,."@)]
}

/// A key that means something means the letter at its place in its row of the
/// keyboard.
pub proof fn a_key_means_its_letter(keycode: u32)
    ensures
        wayland::key_char_of(keycode) matches Some(c) ==> exists|r: int|
            {
                &&& 0 <= r < 3
                &&& 0 <= keycode - (#[trigger] keyboard_rows()[r]).0
                    < keyboard_rows()[r].1.len()
                &&& c == keyboard_rows()[r].1[keycode - keyboard_rows()[r].0]
            },
{
    reveal_strlit("qwertyuiop[]");
    reveal_strlit("asdfghjkl;");
    reveal_strlit("zxcvbnm,.");
    let rows = keyboard_rows();
    assert(rows[0] == (16u32, "qwertyuiop[]"@));
    assert(rows[1] == (30u32, "asdfghjkl;"@));
    assert(rows[2] == (44u32, "zxcvbnm,."@));
}

/// No two keys mean the same.
pub proof fn keys_mean_different_things(a: u32, b: u32)
    requires
        wayland::key_char_of(a) is Some,
        wayland::key_char_of(a) == wayland::key_char_of(b),
    ensures
        a == b,
{
}

/// Every letter that means something has a key.
pub proof fn every_meaning_has_a_key(c: char)
    requires
        "qip[]sfg;c,."@.contains(c),
    ensures
        exists|k: u32| #[trigger] wayland::key_char_of(k) == Some(c),
{
    reveal_strlit("qip[]sfg;c,.");
    assert(wayland::key_char_of(16) == Some('q') && wayland::key_char_of(23) == Some('i'));
    assert(wayland::key_char_of(25) == Some('p') && wayland::key_char_of(26) == Some('['));
    assert(wayland::key_char_of(27) == Some(']') && wayland::key_char_of(31) == Some('s'));
    assert(wayland::key_char_of(33) == Some('f') && wayland::key_char_of(34) == Some('g'));
    assert(wayland::key_char_of(39) == Some(';') && wayland::key_char_of(46) == Some('c'));
    assert(wayland::key_char_of(51) == Some(',') && wayland::key_char_of(52) == Some('.'));
}

/// A wait finds a time only when a new report is there, the frame was shown and
/// the report carried a time; a frame that was thrown away is found as such.
pub proof fn a_wait_finds_only_shown_frames(p: WaylandPresent, seen: u64)
    ensures
        p.waited(seen) is Pending <==> p.generation == seen,
        p.waited(seen) is Presented ==> !p.last_discarded && p.last_us >= 0 && p.generation != seen,
        p.last_discarded && p.generation != seen ==> p.waited(seen) is Discarded,
        p.last_us < 0 && p.generation != seen ==> p.waited(seen) is Discarded,
{
}

/// Reported times count nanoseconds: a second more is a thousand million more,
/// also where the low word of the seconds runs over.
pub proof fn reported_times_run_over(hi: u32, lo: u32, nsec: u32)
    requires
        hi < u32::MAX,
    ensures
        lo < u32::MAX ==> wayland::reported_ns(hi, (lo + 1) as u32, nsec) == wayland::reported_ns(
            hi,
            lo,
            nsec,
        ) + 1_000_000_000,
        wayland::reported_ns((hi + 1) as u32, 0, nsec) == wayland::reported_ns(
            hi,
            u32::MAX,
            nsec,
        ) + 1_000_000_000,
        nsec < u32::MAX ==> wayland::reported_ns(hi, lo, (nsec + 1) as u32)
            == wayland::reported_ns(hi, lo, nsec) + 1,
        wayland::reported_ns(0, 0, nsec) == nsec,
{
}

/// On the caller's clock two counter times lie as far apart as on their own, and
/// none comes before the base.
pub proof fn counter_times_keep_their_distance(a: MscAnchor, s: i64, t: i64)
    requires
        a.wf(),
        a.base_ust <= s <= t,
        t - a.base_ust <= i64::MAX,
    ensures
        a.time_of(t) - a.time_of(s) == t - s,
        a.time_of(a.base_ust) == a.base_ns,
        forall|before: i64| before <= a.base_ust ==> #[trigger] a.time_of(before) == a.base_ns,
{
}

/// A reading that did not move on, or that gives no usable period, keeps the
/// period; either way it is the reading that the next one is measured from.
pub proof fn a_reading_keeps_or_measures_the_period(a: MscAnchor, ust: i64, msc: i64)
    ensures
        ({
            let b = a.observed(ust, msc);
            &&& b.last_ust == ust
            &&& b.last_msc == msc
            &&& b.base_ust == a.base_ust
            &&& b.base_ns == a.base_ns
            &&& msc <= a.last_msc || ust <= a.last_ust ==> b.period_us == a.period_us
            &&& b.period_us == a.period_us || 7_600 <= b.period_us <= 9_000
        }),
{
}

} // verus!
