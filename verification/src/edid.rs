//! Monitor identity from EDID base blocks.
//!
//! A monitor is known by its `VENDOR_PRODUCT` key: the three-letter vendor
//! code and the product code of its EDID.  The kernel lists the connectors of
//! all cards in one directory, such as `card0-DP-1`, each with the EDID and
//! the connection status of what is plugged in; [`Connector`] is one entry of
//! that listing.

use crate::text;
use vstd::prelude::*;

verus! {

/// Decoded identity words of an EDID base block.
#[derive(Clone, Debug, PartialEq, Eq)]
pub struct MonitorIdentity {
    /// Three-letter vendor code.
    pub vendor: String,
    /// Product code.
    pub product: u16,
}

/// The `VENDOR_PRODUCT` key of a monitor.
pub open spec fn key_of(vendor: Seq<char>, product: u16) -> Seq<char> {
    vendor + "_"@ + text::hex4(product)
}

impl MonitorIdentity {
    /// The `VENDOR_PRODUCT` key, such as `ACI_23F7`.
    pub fn base_key(&self) -> (k: String)
        ensures
            k@ == key_of(self.vendor@, self.product),
    {
        let mut k: String = self.vendor.clone();
        k.append("_");
        text::push_hex4(&mut k, self.product);
        k
    }
}

/// A vendor letter from its five-bit code.
pub open spec fn letter(code: int) -> char {
    (64 + code) as char
}

/// The vendor code of an EDID block: three letters of five bits each.
pub open spec fn vendor_of(edid: Seq<u8>) -> Seq<char> {
    let id = edid[8] * 256 + edid[9];
    seq![letter(id / 1024 % 32), letter(id / 32 % 32), letter(id % 32)]
}

/// The product code of an EDID block, least significant byte first.
pub open spec fn product_of(edid: Seq<u8>) -> int {
    edid[11] * 256 + edid[10]
}

fn letter_of(code: u16) -> (c: char)
    requires
        code < 32,
    ensures
        c == letter(code as int),
{
    let b: u8 = code as u8;
    (64 + b) as char
}

/// Decodes an EDID base block; `None` when it is too short to be one.
pub fn parse(edid: &[u8]) -> (id: Option<MonitorIdentity>)
    ensures
        id is Some <==> edid@.len() >= 128,
        id matches Some(m) ==> m.vendor@ == vendor_of(edid@) && m.product == product_of(edid@),
{
    if edid.len() < 128 {
        return None;
    }
    let id: u16 = edid[8] as u16 * 256 + edid[9] as u16;
    let mut vendor: String = String::new();
    vendor.push(letter_of(id / 1024 % 32));
    vendor.push(letter_of(id / 32 % 32));
    vendor.push(letter_of(id % 32));
    assert(vendor@ =~= vendor_of(edid@));
    let product: u16 = edid[11] as u16 * 256 + edid[10] as u16;
    Some(MonitorIdentity { vendor, product })
}

/// The lower-case form of a string that is not ASCII, as `str::to_lowercase`
/// gives it.
pub uninterp spec fn lowercased(s: Seq<char>) -> Seq<char>;

/// The lower-case form of a string.
pub open spec fn lower_case_of(s: Seq<char>) -> Seq<char> {
    if text::all_ascii(s) {
        text::lowered(s)
    } else {
        lowercased(s)
    }
}

/// `str::to_lowercase`: the lower-case form after the Unicode tables, which is
/// a function of the string alone.  Of ASCII characters those tables change
/// `A` to `Z` into `a` to `z`, and keep the rest.
#[verifier::external_body]
fn to_lowercase(s: &str) -> (l: String)
    ensures
        l@ == (if text::all_ascii(s@) {
            text::lowered(s@)
        } else {
            lowercased(s@)
        }),
{
    s.to_lowercase()
}

/// One entry of the kernel's connector directory.
#[derive(Debug)]
pub struct Connector {
    /// Name of the entry, such as `card0-DP-1`.
    pub name: String,
    /// Its EDID, where it could be read.
    pub edid: Option<Vec<u8>>,
    /// Its connection status, where it could be read.
    pub status: Option<String>,
}

/// The entry is a connector, and not a card or a render node.
pub open spec fn is_connector(name: Seq<char>) -> bool {
    text::has_prefix(name, "card"@) && name.contains('-')
}

/// The entry belongs to the card that the caller asked for, which may be given
/// as `/dev/dri/card0`, `card0` or `0`.
pub open spec fn on_card(name: Seq<char>, card: Option<Seq<char>>) -> bool {
    match card {
        Some(c) => text::has_prefix(
            name,
            "card"@ + text::stripped(text::stripped(c, "/dev/dri/"@), "card"@) + "-"@,
        ),
        None => is_connector(name),
    }
}

/// The entry without its card, in lower case, is the connector's name, in lower
/// case.
pub open spec fn named(lower_name: Seq<char>, lower_connector: Seq<char>) -> bool {
    text::after_first(lower_name, '-') == lower_connector
}

/// The entry holds an EDID.
pub open spec fn has_edid(e: Connector) -> bool {
    e.edid matches Some(b) && b@.len() > 0
}

/// The entry answers a query for `connector` on `card`.
pub open spec fn answers(e: Connector, connector: Seq<char>, card: Option<Seq<char>>) -> bool {
    on_card(e.name@, card) && named(lower_case_of(e.name@), lower_case_of(connector)) && has_edid(e)
}

/// `i` is the first entry that answers the query.
pub open spec fn first_answer(
    entries: Seq<Connector>,
    connector: Seq<char>,
    card: Option<Seq<char>>,
    i: int,
) -> bool {
    &&& 0 <= i < entries.len()
    &&& answers(entries[i], connector, card)
    &&& forall|j: int| 0 <= j < i ==> !answers(#[trigger] entries[j], connector, card)
}

/// Executable form of [`is_connector`].
pub fn is_connector_dir(name: &str) -> (b: bool)
    ensures
        b == is_connector(name@),
{
    let n: Vec<char> = text::chars_of(name);
    text::starts_with(&n, "card") && text::contains_char(&n, '-')
}

/// Executable form of [`on_card`].
pub fn is_on_card(name: &str, card: Option<&str>) -> (b: bool)
    ensures
        b == on_card(name@, text::chars_if_any(card)),
{
    match card {
        Some(c) => {
            let c: Vec<char> = text::chars_of(c);
            let c: Vec<char> = text::strip_all(&c, "/dev/dri/");
            let short: Vec<char> = text::strip_all(&c, "card");
            let mut prefix: String = "card".to_owned();
            prefix.append(text::string_of(&short).as_str());
            prefix.append("-");
            let n: Vec<char> = text::chars_of(name);
            text::starts_with(&n, prefix.as_str())
        },
        None => is_connector_dir(name),
    }
}

/// Whether an entry without its card is a connector name, both in lower case.
pub fn names_connector(lower_name: &str, lower_connector: &str) -> (b: bool)
    ensures
        b == named(lower_name@, lower_connector@),
{
    let n: Vec<char> = text::split_after(&text::chars_of(lower_name), '-');
    text::same(&n, &text::chars_of(lower_connector))
}

/// The raw EDID of a connector: that of the first entry that carries its name
/// (in any case), lies on the card, and holds one.
pub fn read_connector_bytes<'a>(
    connector: &str,
    card: Option<&str>,
    entries: &'a Vec<Connector>,
) -> (bytes: Option<&'a Vec<u8>>)
    ensures
        match bytes {
            Some(b) => exists|i: int| #[trigger]
                first_answer(entries@, connector@, text::chars_if_any(card), i) && entries@[i].edid == Some(*b),
            None => forall|i: int|
                0 <= i < entries@.len() ==> !answers(#[trigger] entries@[i], connector@, text::chars_if_any(card)),
        },
{
    let ghost c = match card {
        Some(c) => Some(c@),
        None => None,
    };
    let want: String = to_lowercase(connector);
    let mut i: usize = 0;
    while i < entries.len()
        invariant
            i <= entries@.len(),
            want@ == lower_case_of(connector@),
            c == text::chars_if_any(card),
            forall|j: int| 0 <= j < i ==> !answers(#[trigger] entries@[j], connector@, c),
        decreases entries@.len() - i,
    {
        let e: &Connector = &entries[i];
        if is_on_card(e.name.as_str(), card) {
            let name: String = to_lowercase(e.name.as_str());
            if names_connector(name.as_str(), want.as_str()) {
                if let Some(b) = &e.edid {
                    if b.len() > 0 {
                        assert(first_answer(entries@, connector@, c, i as int));
                        return Some(b);
                    }
                }
            }
        }
        i += 1;
    }
    None
}

/// The identity of what is plugged into a connector.
pub fn read_connector(connector: &str, card: Option<&str>, entries: &Vec<Connector>) -> (id: Option<
    MonitorIdentity,
>)
    ensures
        match id {
            Some(m) => exists|i: int| #[trigger]
                first_answer(entries@, connector@, text::chars_if_any(card), i) && entries@[i].edid->0@.len() >= 128
                    && m.vendor@ == vendor_of(entries@[i].edid->0@) && m.product == product_of(
                    entries@[i].edid->0@,
                ),
            None => forall|i: int| #[trigger]
                first_answer(entries@, connector@, text::chars_if_any(card), i) ==> entries@[i].edid->0@.len() < 128,
        },
{
    match read_connector_bytes(connector, card, entries) {
        Some(b) => {
            let id: Option<MonitorIdentity> = parse(b.as_slice());
            proof {
                let c = text::chars_if_any(card);
                let i = choose|i: int| #[trigger]
                    first_answer(entries@, connector@, c, i) && entries@[i].edid == Some(*b);
                assert forall|j: int| #[trigger] first_answer(entries@, connector@, c, j) implies j
                    == i by {
                    assert(answers(entries@[i], connector@, c));
                    assert(answers(entries@[j], connector@, c));
                }
            }
            id
        },
        None => None,
    }
}

/// The key that an EDID block decodes to.
pub open spec fn block_key(edid: Seq<u8>) -> Seq<char> {
    key_of(vendor_of(edid), product_of(edid) as u16)
}

/// The `VENDOR_PRODUCT` key of what is plugged into a connector.
pub fn resolve_base(connector: &str, card: Option<&str>, entries: &Vec<Connector>) -> (key: Option<
    String,
>)
    ensures
        match key {
            Some(k) => exists|i: int| #[trigger]
                first_answer(entries@, connector@, text::chars_if_any(card), i) && entries@[i].edid->0@.len() >= 128
                    && k@ == block_key(entries@[i].edid->0@),
            None => forall|i: int| #[trigger]
                first_answer(entries@, connector@, text::chars_if_any(card), i) ==> entries@[i].edid->0@.len() < 128,
        },
{
    match read_connector(connector, card, entries) {
        Some(id) => Some(id.base_key()),
        None => None,
    }
}

/// Whether an entry is named after the connector.
pub open spec fn is_named(e: Connector, connector: Seq<char>) -> bool {
    is_connector(e.name@) && named(lower_case_of(e.name@), lower_case_of(connector))
}

/// Whether there is a connector of that name, in any case.
pub fn connector_exists(connector: &str, entries: &Vec<Connector>) -> (found: bool)
    ensures
        found == exists|i: int|
            0 <= i < entries@.len() && is_named(#[trigger] entries@[i], connector@),
{
    let want: String = to_lowercase(connector);
    let mut i: usize = 0;
    while i < entries.len()
        invariant
            i <= entries@.len(),
            want@ == lower_case_of(connector@),
            forall|j: int| 0 <= j < i ==> !is_named(#[trigger] entries@[j], connector@),
        decreases entries@.len() - i,
    {
        let e: &Connector = &entries[i];
        if is_connector_dir(e.name.as_str()) {
            let name: String = to_lowercase(e.name.as_str());
            if names_connector(name.as_str(), want.as_str()) {
                assert(is_named(entries@[i as int], connector@));
                return true;
            }
        }
        i += 1;
    }
    false
}

/// The entry's EDID decodes to the key `want`, in lower case.
pub open spec fn has_base(e: Connector, want: Seq<char>) -> bool {
    &&& is_connector(e.name@)
    &&& has_edid(e)
    &&& e.edid->0@.len() >= 128
    &&& lower_case_of(block_key(e.edid->0@)) == want
}

/// The entry reports a plugged-in display.
pub open spec fn is_connected(e: Connector) -> bool {
    e.status matches Some(s) && text::trimmed(s@) == "connected"@
}

/// The entry's name without the card.
pub open spec fn bare_name(e: Connector) -> Seq<char> {
    text::after_first(e.name@, '-')
}

/// `i` is the first entry with the key `want`, among the plugged-in ones when
/// `plugged` is set.
pub open spec fn first_base(entries: Seq<Connector>, want: Seq<char>, plugged: bool, i: int) -> bool {
    &&& 0 <= i < entries.len()
    &&& has_base(entries[i], want)
    &&& plugged ==> is_connected(entries[i])
    &&& forall|j: int|
        0 <= j < i ==> !(has_base(#[trigger] entries[j], want) && (plugged ==> is_connected(
            entries[j],
        )))
}

/// The lower-case key that a caller's base stands for.
pub open spec fn wanted(base: Seq<char>) -> Seq<char> {
    lower_case_of(text::trimmed(base))
}

/// `name` is that of the first plugged-in entry with the key `want`, or of the
/// first entry with it when none is plugged in.
pub open spec fn found_as(entries: Seq<Connector>, want: Seq<char>, name: Seq<char>) -> bool {
    exists|i: int, plugged: bool|
        #![trigger first_base(entries, want, plugged, i)]
        first_base(entries, want, plugged, i) && name == bare_name(entries[i]) && (!plugged
            ==> forall|j: int|
            0 <= j < entries.len() && has_base(#[trigger] entries[j], want) ==> !is_connected(
                entries[j],
            ))
}

/// The connector whose EDID decodes to a `VENDOR_PRODUCT` key, in any case:
/// the first plugged-in one, else the first one.
pub fn find_connector_by_base(base: &str, entries: &Vec<Connector>) -> (name: Option<String>)
    ensures
        match name {
            Some(n) => text::trimmed(base@).len() > 0 && found_as(entries@, wanted(base@), n@),
            None => text::trimmed(base@).len() == 0 || forall|j: int|
                0 <= j < entries@.len() ==> !has_base(#[trigger] entries@[j], wanted(base@)),
        },
{
    let b: Vec<char> = text::chars_of(base);
    let b: Vec<char> = text::trim(&b);
    if b.len() == 0 {
        return None;
    }
    let want: String = to_lowercase(text::string_of(&b).as_str());
    find_by_key(want.as_str(), entries)
}

/// [`find_connector_by_base`] for a key that is in lower case already.
pub fn find_by_key(want: &str, entries: &Vec<Connector>) -> (name: Option<String>)
    ensures
        match name {
            Some(n) => found_as(entries@, want@, n@),
            None => forall|j: int|
                0 <= j < entries@.len() ==> !has_base(#[trigger] entries@[j], want@),
        },
{
    let mut first: Option<usize> = None;
    let mut i: usize = 0;
    while i < entries.len()
        invariant
            i <= entries@.len(),
            forall|j: int|
                0 <= j < i && has_base(#[trigger] entries@[j], want@) ==> !is_connected(entries@[j]),
            match first {
                Some(k) => k < i && first_base(entries@, want@, false, k as int),
                None => forall|j: int| 0 <= j < i ==> !has_base(#[trigger] entries@[j], want@),
            },
        decreases entries@.len() - i,
    {
        let e: &Connector = &entries[i];
        if carries_base(e, want) {
            if plugged_in(e) {
                assert(first_base(entries@, want@, true, i as int));
                return Some(bare(e));
            }
            if first.is_none() {
                assert(first_base(entries@, want@, false, i as int));
                first = Some(i);
            }
        }
        i += 1;
    }
    match first {
        Some(k) => {
            assert(first_base(entries@, want@, false, k as int));
            Some(bare(&entries[k]))
        },
        None => None,
    }
}

fn carries_base(e: &Connector, want: &str) -> (b: bool)
    ensures
        b == has_base(*e, want@),
{
    if !is_connector_dir(e.name.as_str()) {
        return false;
    }
    match &e.edid {
        Some(bytes) => {
            if bytes.len() == 0 {
                return false;
            }
            match parse(bytes.as_slice()) {
                Some(id) => {
                    let key: String = to_lowercase(id.base_key().as_str());
                    text::same_str(key.as_str(), want)
                },
                None => false,
            }
        },
        None => false,
    }
}

fn plugged_in(e: &Connector) -> (b: bool)
    ensures
        b == is_connected(*e),
{
    match &e.status {
        Some(s) => {
            let s: Vec<char> = text::chars_of(s.as_str());
            let s: Vec<char> = text::trim(&s);
            let c: Vec<char> = text::chars_of("connected");
            text::same(&s, &c)
        },
        None => false,
    }
}

fn bare(e: &Connector) -> (n: String)
    ensures
        n@ == bare_name(*e),
{
    let name: Vec<char> = text::chars_of(e.name.as_str());
    text::string_of(&text::split_after(&name, '-'))
}

/// The key of a monitor leads back to a connector: whenever a connector's own
/// key can be resolved, some entry carries that key.
pub proof fn a_resolved_key_leads_back_to_a_connector(
    entries: Seq<Connector>,
    connector: Seq<char>,
    i: int,
)
    requires
        first_answer(entries, connector, None, i),
        entries[i].edid->0@.len() >= 128,
    ensures
        has_base(entries[i], wanted(block_key(entries[i].edid->0@))),
        text::trimmed(block_key(entries[i].edid->0@)).len() > 0,
{
    let edid = entries[i].edid->0@;
    let k = block_key(edid);
    reveal_strlit("_");
    assert forall|j: int| 0 <= j < k.len() implies !text::is_space(#[trigger] k[j]) by {
        if j < 3 {
            assert(k[j] == vendor_of(edid)[j]);
        } else if j == 3 {
            assert(k[j] == '_');
        } else {
            assert(k[j] == text::hex4(product_of(edid) as u16)[j - 4]);
        }
    }
    text::trimming_keeps_solid_text(k);
    assert(k.len() == 8);
}

proof fn lemma_lowered_after_the_card(s: Seq<char>)
    ensures
        text::lowered(s).contains('-') == s.contains('-'),
        text::after_first(text::lowered(s), '-') == text::lowered(text::after_first(s, '-')),
{
    let l = text::lowered(s);
    assert forall|i: int| 0 <= i < s.len() implies (l[i] == '-') == (#[trigger] s[i] == '-') by {
        assert(l[i] == text::ascii_lower(s[i]));
    }
    if s.contains('-') {
        let i = choose|i: int| 0 <= i < s.len() && s[i] == '-';
        assert(l[i] == '-');
    }
    if l.contains('-') {
        let i = choose|i: int| 0 <= i < l.len() && l[i] == '-';
        assert(s[i] == '-');
    }
    lemma_lowered_after_a_dash(s);
}

proof fn lemma_lowered_after_a_dash(s: Seq<char>)
    ensures
        text::after_present(text::lowered(s), '-') == text::lowered(text::after_present(s, '-')),
    decreases s.len(),
{
    if s.len() > 0 {
        let l = text::lowered(s);
        assert(l[0] == text::ascii_lower(s[0]));
        assert(l.skip(1) =~= text::lowered(s.skip(1)));
        lemma_lowered_after_a_dash(s.skip(1));
    }
}

/// Connectors are found in any case: an entry has the name of a connector
/// exactly when the part after its card is that name but for the case of its
/// letters.
pub proof fn names_match_in_any_case(e: Connector, connector: Seq<char>)
    requires
        text::all_ascii(e.name@),
        text::all_ascii(connector),
    ensures
        is_named(e, connector) == (is_connector(e.name@) && text::same_letters(
            bare_name(e),
            connector,
        )),
        answers(e, connector, None) == (is_named(e, connector) && has_edid(e)),
{
    let bare = text::after_first(e.name@, '-');
    lemma_lowered_after_the_card(e.name@);
    let a = text::lowered(bare);
    let b = text::lowered(connector);
    if a == b {
        assert(a.len() == b.len());
        assert forall|i: int| 0 <= i < bare.len() implies text::ascii_lower(#[trigger] bare[i])
            == text::ascii_lower(connector[i]) by {
            assert(a[i] == b[i]);
        }
    }
    if text::same_letters(bare, connector) {
        assert(a =~= b);
    }
}

/// A display's key is found in any case.
pub proof fn keys_match_in_any_case(e: Connector, base: Seq<char>)
    requires
        is_connector(e.name@),
        has_edid(e),
        e.edid->0@.len() >= 128,
        text::all_ascii(text::trimmed(base)),
    ensures
        has_base(e, wanted(base)) == text::same_letters(
            block_key(e.edid->0@),
            text::trimmed(base),
        ),
{
    let edid = e.edid->0@;
    let k = block_key(edid);
    let t = text::trimmed(base);
    reveal_strlit("_");
    assert forall|j: int| 0 <= j < k.len() implies #[trigger] k[j] <= '\u{7f}' by {
        if j < 3 {
            assert(k[j] == vendor_of(edid)[j]);
        } else if j == 3 {
            assert(k[j] == '_');
        } else {
            assert(k[j] == text::hex4(product_of(edid) as u16)[j - 4]);
        }
    }
    let a = text::lowered(k);
    let b = text::lowered(t);
    if a == b {
        assert(a.len() == b.len());
        assert forall|i: int| 0 <= i < k.len() implies text::ascii_lower(#[trigger] k[i])
            == text::ascii_lower(t[i]) by {
            assert(a[i] == b[i]);
        }
    }
    if text::same_letters(k, t) {
        assert(a =~= b);
    }
}

} // verus!
