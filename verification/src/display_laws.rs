//! How displays are told apart, found and remembered.

use crate::edid;
use crate::edid::Connector;
use crate::host::config;
use crate::host::target;
use crate::nvtimings;
use crate::text;
use crate::text_laws;
use vstd::prelude::*;

verus! {

/// The vendor's three letters are packed high byte first, five bits each, with
/// `A` as one; the product's low byte comes first.
pub proof fn an_identity_is_unpacked_as_it_was_packed(edid: Seq<u8>, a: int, b: int, c: int)
    requires
        edid.len() >= 128,
        1 <= a <= 26,
        1 <= b <= 26,
        1 <= c <= 26,
        edid[8] * 256 + edid[9] == a * 1024 + b * 32 + c,
    ensures
        edid::vendor_of(edid).len() == 3,
        edid::vendor_of(edid)[0] as int == 'A' as int + a - 1,
        edid::vendor_of(edid)[1] as int == 'A' as int + b - 1,
        edid::vendor_of(edid)[2] as int == 'A' as int + c - 1,
        edid::product_of(edid) % 256 == edid[10],
        edid::product_of(edid) / 256 == edid[11],
{
    let id = a * 1024 + b * 32 + c;
    assert(id / 1024 % 32 == a);
    assert(id / 32 % 32 == b);
    assert(id % 32 == c);
}

/// Displays of different make or model have different keys.
pub proof fn keys_tell_models_apart(v: Seq<char>, p: u16, w: Seq<char>, q: u16)
    requires
        edid::key_of(v, p) == edid::key_of(w, q),
    ensures
        v == w,
        p == q,
        edid::key_of(v, p).len() == v.len() + 5,
{
    reveal_strlit("_");
    let k = edid::key_of(v, p);
    let l = edid::key_of(w, q);
    text_laws::four_hex_digits_read_back(p);
    text_laws::four_hex_digits_read_back(q);
    assert(k.len() == v.len() + 5 && l.len() == w.len() + 5);
    assert(k.take(v.len() as int) =~= v);
    assert(l.take(v.len() as int) =~= w);
    assert(k.skip(v.len() as int + 1) =~= text::hex4(p));
    assert(l.skip(v.len() as int + 1) =~= text::hex4(q));
}

/// A connector's entry is its card, a dash and its name, and what follows the
/// first dash is that name again, dashes and all.
pub proof fn an_entry_is_card_and_name(number: Seq<char>, name: Seq<char>)
    requires
        !number.contains('-'),
    ensures
        ({
            let entry = "card"@ + number + "-"@ + name;
            &&& edid::is_connector(entry)
            &&& text::after_first(entry, '-') == name
            &&& edid::on_card(entry, None)
        }),
        !edid::is_connector("card"@ + number),
{
    reveal_strlit("card");
    reveal_strlit("-");
    let card = "card"@ + number;
    let entry = card + "-"@ + name;
    assert(entry =~= "card"@ + (number + "-"@ + name));
    text_laws::a_prefix_is_a_beginning("card"@, number + "-"@ + name, entry);
    assert(entry[card.len() as int] == '-');
    assert(entry.contains('-'));
    assert forall|i: int| 0 <= i < card.len() implies #[trigger] card[i] != '-' by {
        if i >= 4 {
            assert(card[i] == number[i - 4]);
            assert(number.contains(number[i - 4]));
        }
    }
    assert(entry =~= card.push('-') + name);
    text_laws::the_first_mark_splits(card, name, '-');
}

/// A card may be given by its path, by its name or by its number alone: all mean
/// the same, and an entry on a card is a connector.
pub proof fn a_card_has_three_spellings(entry: Seq<char>, number: Seq<char>)
    requires
        number.len() > 0,
        text::is_digit(number[0]),
    ensures
        edid::on_card(entry, Some("card"@ + number)) == edid::on_card(entry, Some(number)),
        edid::on_card(entry, Some("/dev/dri/"@ + ("card"@ + number))) == edid::on_card(
            entry,
            Some(number),
        ),
        edid::on_card(entry, Some(number)) <==> text::has_prefix(
            entry,
            "card"@ + number + "-"@,
        ),
        edid::on_card(entry, Some(number)) ==> edid::is_connector(entry),
{
    reveal_strlit("card");
    reveal_strlit("/dev/dri/");
    reveal_strlit("-");
    let card = "card"@ + number;
    let path = "/dev/dri/"@ + card;
    assert(!text::has_prefix(number, "card"@)) by {
        if text::has_prefix(number, "card"@) {
            assert(number.take(4)[0] == number[0]);
            assert("card"@[0] == 'c');
        }
    }
    assert(!text::has_prefix(number, "/dev/dri/"@)) by {
        if text::has_prefix(number, "/dev/dri/"@) {
            assert(number.take(9)[0] == number[0]);
            assert("/dev/dri/"@[0] == '/');
        }
    }
    assert(!text::has_prefix(card, "/dev/dri/"@)) by {
        if text::has_prefix(card, "/dev/dri/"@) {
            assert(card.take(9)[0] == card[0]);
            assert(card[0] == 'c');
            assert("/dev/dri/"@[0] == '/');
        }
    }
    text_laws::stripping_takes_every_repetition(number, "card"@);
    text_laws::stripping_takes_every_repetition(number, "/dev/dri/"@);
    text_laws::stripping_takes_every_repetition(card, "/dev/dri/"@);
    let want = "card"@ + number + "-"@;
    if text::has_prefix(entry, want) {
        text_laws::a_prefix_is_a_beginning(want, entry, entry);
        assert(entry[want.len() - 1] == want[want.len() - 1]);
        assert(want[want.len() - 1] == '-');
        assert(entry.contains('-'));
        assert(entry.take(4) =~= "card"@);
    }
}

/// An entry belongs to one card only.
pub proof fn an_entry_is_on_one_card(entry: Seq<char>, a: nat, b: nat)
    requires
        edid::on_card(entry, Some(text::decimal(a))),
        edid::on_card(entry, Some(text::decimal(b))),
    ensures
        a == b,
{
    reveal_strlit("card");
    reveal_strlit("-");
    text::decimal_reads_back(a);
    text::decimal_reads_back(b);
    let da = text::decimal(a);
    let db = text::decimal(b);
    assert(text::is_digit(da[0]) && text::is_digit(db[0]));
    a_card_has_three_spellings(entry, da);
    a_card_has_three_spellings(entry, db);
    let wa = "card"@ + da + "-"@;
    let wb = "card"@ + db + "-"@;
    text_laws::a_prefix_is_a_beginning(wa, entry, entry);
    text_laws::a_prefix_is_a_beginning(wb, entry, entry);
    assert forall|i: int| 0 <= i < da.len() && i < db.len() implies da[i] == db[i] by {
        assert(wa[4 + i] == da[i]);
        assert(wb[4 + i] == db[i]);
        assert(entry[4 + i] == wa[4 + i]);
        assert(entry[4 + i] == wb[4 + i]);
    }
    if da.len() < db.len() {
        let i = da.len() as int;
        assert(wa[4 + i] == '-');
        assert(entry[4 + i] == wa[4 + i]);
        assert(entry[4 + i] == wb[4 + i]);
        assert(text::is_digit(db[i]));
    }
    if db.len() < da.len() {
        let i = db.len() as int;
        assert(wb[4 + i] == '-');
        assert(entry[4 + i] == wb[4 + i]);
        assert(entry[4 + i] == wa[4 + i]);
        assert(text::is_digit(da[i]));
    }
    assert(da =~= db);
}

/// A connector is plugged in exactly when its status says so, with or without
/// the line's end.
pub proof fn a_status_is_read_whole(e: Connector)
    requires
        e.status is Some,
    ensures
        e.status->0@ == "connected"@ ==> edid::is_connected(e),
        e.status->0@ == "connected"@.push('\n') ==> edid::is_connected(e),
        e.status->0@ == "disconnected"@ ==> !edid::is_connected(e),
        e.status->0@ == "disconnected"@.push('\n') ==> !edid::is_connected(e),
{
    reveal_strlit("connected");
    reveal_strlit("disconnected");
    text::trimming_keeps_solid_text("connected"@);
    text::trimming_keeps_solid_text("disconnected"@);
    text_laws::space_around_makes_no_difference("connected"@, '\n');
    text_laws::space_around_makes_no_difference("disconnected"@, '\n');
    assert("connected"@.len() != "disconnected"@.len());
}

/// A plugged-in display of that key is preferred over one that is not, and the
/// entry that is found has the key.
pub proof fn a_plugged_in_display_is_preferred(
    entries: Seq<Connector>,
    want: Seq<char>,
    name: Seq<char>,
    k: int,
)
    requires
        edid::found_as(entries, want, name),
        0 <= k < entries.len(),
        edid::has_base(entries[k], want),
        edid::is_connected(entries[k]),
    ensures
        exists|i: int|
            0 <= i <= k && edid::has_base(#[trigger] entries[i], want) && edid::is_connected(
                entries[i],
            ) && name == edid::bare_name(entries[i]),
{
    let (i, plugged) = choose|i: int, plugged: bool|
        #![trigger edid::first_base(entries, want, plugged, i)]
        edid::first_base(entries, want, plugged, i) && name == edid::bare_name(entries[i]) && (
        !plugged ==> forall|j: int|
            0 <= j < entries.len() && edid::has_base(#[trigger] entries[j], want)
                ==> !edid::is_connected(entries[j]));
    assert(plugged);
    if k < i {
        assert(!(edid::has_base(entries[k], want) && edid::is_connected(entries[k])));
    }
    assert(edid::has_base(entries[i], want));
}

/// Only one name answers to a key.
pub proof fn a_key_is_found_under_one_name(
    entries: Seq<Connector>,
    want: Seq<char>,
    a: Seq<char>,
    b: Seq<char>,
)
    requires
        edid::found_as(entries, want, a),
        edid::found_as(entries, want, b),
    ensures
        a == b,
{
    let (i, p) = choose|i: int, p: bool|
        #![trigger edid::first_base(entries, want, p, i)]
        edid::first_base(entries, want, p, i) && a == edid::bare_name(entries[i]) && (!p
            ==> forall|j: int|
            0 <= j < entries.len() && edid::has_base(#[trigger] entries[j], want)
                ==> !edid::is_connected(entries[j]));
    let (k, q) = choose|k: int, q: bool|
        #![trigger edid::first_base(entries, want, q, k)]
        edid::first_base(entries, want, q, k) && b == edid::bare_name(entries[k]) && (!q
            ==> forall|j: int|
            0 <= j < entries.len() && edid::has_base(#[trigger] entries[j], want)
                ==> !edid::is_connected(entries[j]));
    assert(edid::has_base(entries[i], want) && edid::has_base(entries[k], want));
    assert(p == q);
    if i < k {
        assert(!(edid::has_base(entries[i], want) && (q ==> edid::is_connected(entries[i]))));
    }
    if k < i {
        assert(!(edid::has_base(entries[k], want) && (p ==> edid::is_connected(entries[k]))));
    }
}

/// A published value stands for one thing; white space around it makes no
/// difference, and the name of a connector stands for itself even where some
/// display has it as its key.
pub proof fn a_published_value_stands_for_one_thing(
    value: Seq<char>,
    entries: Seq<Connector>,
    a: Option<Seq<char>>,
    b: Option<Seq<char>>,
    space: char,
)
    requires
        text::is_space(space),
    ensures
        target::stands_for(value, entries, a) && target::stands_for(value, entries, b) ==> a == b,
        target::stands_for(value.push(space), entries, a) == target::stands_for(value, entries, a),
        text::trimmed(value).len() > 0 && target::names_one(entries, text::trimmed(value)) ==> (
        target::stands_for(value, entries, a) <==> a == Some(text::trimmed(value))),
        text::trimmed(value).len() == 0 ==> (target::stands_for(value, entries, a) <==> a is None),
{
    text_laws::space_around_makes_no_difference(value, space);
    let v = text::trimmed(value);
    if target::stands_for(value, entries, a) && target::stands_for(value, entries, b) && v.len() > 0
        && !target::names_one(entries, v) {
        text_laws::trimmed_text_has_no_space_around_it(value);
        let want = edid::wanted(v);
        if a is Some && b is Some {
            a_key_is_found_under_one_name(entries, want, a->0, b->0);
        } else if a is Some {
            lemma_found_is_shown(entries, want, a->0);
        } else if b is Some {
            lemma_found_is_shown(entries, want, b->0);
        }
    }
}

proof fn lemma_found_is_shown(entries: Seq<Connector>, want: Seq<char>, name: Seq<char>)
    requires
        edid::found_as(entries, want, name),
    ensures
        target::shows_one(entries, want),
{
    let (i, p) = choose|i: int, p: bool|
        #![trigger edid::first_base(entries, want, p, i)]
        edid::first_base(entries, want, p, i) && name == edid::bare_name(entries[i]) && (!p
            ==> forall|j: int|
            0 <= j < entries.len() && edid::has_base(#[trigger] entries[j], want)
                ==> !edid::is_connected(entries[j]));
    assert(edid::has_base(entries[i], want));
}

/// A path beneath a directory begins with the directory and ends with the name,
/// with one slash between them.
pub proof fn a_path_lies_beneath_its_directory(dir: Seq<char>, name: Seq<char>)
    requires
        dir.len() > 0,
    ensures
        ({
            let p = nvtimings::beneath(dir, name);
            &&& text::has_prefix(p, dir)
            &&& p.skip(p.len() - name.len()) == name
            &&& p[p.len() - name.len() - 1] == '/'
            &&& dir.last() == '/' ==> p.len() == dir.len() + name.len()
            &&& dir.last() != '/' ==> p.len() == dir.len() + name.len() + 1
        }),
{
    reveal_strlit("/");
    let p = nvtimings::beneath(dir, name);
    assert(p.take(dir.len() as int) =~= dir);
    assert(p.skip(p.len() - name.len()) =~= name);
}

/// The desktop's settings come first, then the home directory; an empty setting
/// counts as none.
pub proof fn the_desktop_settings_come_first(xdg: Seq<char>, home: Option<Seq<char>>)
    ensures
        xdg.len() > 0 ==> nvtimings::settings_base(Some(xdg), home) == Some(xdg),
        xdg.len() == 0 ==> nvtimings::settings_base(Some(xdg), home) == nvtimings::settings_base(
            None,
            home,
        ),
        nvtimings::settings_base(None, None) is None,
        home matches Some(h) && h.len() == 0 ==> nvtimings::settings_base(None, home) is None,
        home matches Some(h) ==> h.len() > 0 ==> nvtimings::settings_base(None, home) == Some(
            nvtimings::beneath(h, ".config"@),
        ),
        nvtimings::settings_dir(Some(xdg), home) is Some <==> nvtimings::settings_base(
            Some(xdg),
            home,
        ) is Some,
{
}

/// Profiles of one display at two rates have two keys.
pub proof fn rates_have_keys_of_their_own(base: Seq<char>, a: int, b: int)
    requires
        0 <= a <= i64::MAX,
        0 <= b <= i64::MAX,
        nvtimings::key_of(base, a) == nvtimings::key_of(base, b),
    ensures
        a == b,
{
    nvtimings::a_key_holds_its_rate(base, a);
    nvtimings::a_key_holds_its_rate(base, b);
}

/// Where there is no profile of the rate itself, the highest rate serves: a
/// profile of a lower rate changes nothing, and one of a higher rate takes over.
pub proof fn the_highest_rate_serves(
    keys: Set<Seq<char>>,
    base: Seq<char>,
    key: Seq<char>,
    rate: int,
    asked: int,
)
    requires
        0 <= rate <= i64::MAX,
        nvtimings::is_highest(keys, base, key),
        !keys.contains(nvtimings::key_of(base, asked)),
        asked != rate,
        0 <= asked <= i64::MAX,
    ensures
        ({
            let more = keys.insert(nvtimings::key_of(base, rate));
            let top = nvtimings::rate_in(key, base)->0;
            &&& rate < top ==> nvtimings::resolves_to(more, base, asked, key)
            &&& rate > top ==> nvtimings::resolves_to(
                more,
                base,
                asked,
                nvtimings::key_of(base, rate),
            )
            &&& nvtimings::resolves_to(more, base, rate, nvtimings::key_of(base, rate))
        }),
{
    nvtimings::a_key_holds_its_rate(base, rate);
    nvtimings::a_key_holds_its_rate(base, asked);
    let more = keys.insert(nvtimings::key_of(base, rate));
    assert(!more.contains(nvtimings::key_of(base, asked)));
}

/// A setting that reads as a number is that number; one that does not, and one
/// that was not given, is the default.
pub proof fn a_setting_is_its_number_or_the_default(n: nat, max: int, default: int, s: Seq<char>)
    ensures
        n <= max ==> config::setting(Some(text::decimal(n)), max, default) == n,
        n > max ==> config::setting(Some(text::decimal(n)), max, default) == default,
        config::setting(None, max, default) == default,
        config::setting(Some(Seq::<char>::empty()), max, default) == default,
        s.len() > 0 && s[0] == '-' ==> config::setting(Some(s), max, default) == default,
{
    text_laws::a_number_reads_back(n, max);
    text_laws::leading_zeros_make_no_difference(s, max);
}

/// This program's settings lie in a directory of their own beneath the user's.
pub proof fn settings_have_a_directory_of_their_own(
    xdg: Option<Seq<char>>,
    home: Option<Seq<char>>,
)
    ensures
        nvtimings::settings_base(xdg, home) matches Some(b) ==> {
            let d = nvtimings::settings_dir(xdg, home)->0;
            &&& nvtimings::settings_dir(xdg, home) is Some
            &&& text::has_prefix(d, b)
            &&& d.len() > "nvstereo3d"@.len()
            &&& d.skip(d.len() - "nvstereo3d"@.len()) == "nvstereo3d"@
        },
{
    if let Some(b) = nvtimings::settings_base(xdg, home) {
        assert(b.len() > 0);
        a_path_lies_beneath_its_directory(b, "nvstereo3d"@);
    }
}

/// Keys are ordered by their first difference, the smaller character first, and
/// a key comes before its continuations; nothing comes before itself.
pub proof fn keys_are_ordered_by_their_first_difference(
    common: Seq<char>,
    a: Seq<char>,
    b: Seq<char>,
)
    ensures
        a.len() > 0 && b.len() > 0 && a[0] < b[0] ==> nvtimings::before(common + a, common + b)
            && !nvtimings::before(common + b, common + a),
        b.len() > 0 ==> nvtimings::before(common, common + b) && !nvtimings::before(
            common + b,
            common,
        ),
        !nvtimings::before(common, common),
    decreases common.len(),
{
    if common.len() > 0 {
        let rest = common.skip(1);
        keys_are_ordered_by_their_first_difference(rest, a, b);
        assert((common + a).skip(1) =~= rest + a);
        assert((common + b).skip(1) =~= rest + b);
    } else {
        assert(common + a =~= a);
        assert(common + b =~= b);
    }
}

} // verus!
