//! Which display to anchor on: connector names, and the order in which cards
//! and pipes are probed.

use crate::text;
use vstd::prelude::*;

verus! {

/// The kernel's name for a connector type.
pub open spec fn kernel_name(ty: u32) -> Seq<char> {
    match ty {
        1 => "VGA"@,
        2 => "DVI-I"@,
        3 => "DVI-D"@,
        4 => "DVI-A"@,
        5 => "Composite"@,
        6 => "SVIDEO"@,
        7 => "LVDS"@,
        8 => "Component"@,
        9 => "DIN"@,
        10 => "DP"@,
        11 => "HDMI-A"@,
        12 => "HDMI-B"@,
        13 => "TV"@,
        14 => "eDP"@,
        15 => "Virtual"@,
        16 => "DSI"@,
        17 => "DPI"@,
        _ => "Unknown"@,
    }
}

/// The kernel's name for a connector type.
pub fn connector_type_name(ty: u32) -> (n: &'static str)
    ensures
        n@ == kernel_name(ty),
{
    match ty {
        1 => "VGA",
        2 => "DVI-I",
        3 => "DVI-D",
        4 => "DVI-A",
        5 => "Composite",
        6 => "SVIDEO",
        7 => "LVDS",
        8 => "Component",
        9 => "DIN",
        10 => "DP",
        11 => "HDMI-A",
        12 => "HDMI-B",
        13 => "TV",
        14 => "eDP",
        15 => "Virtual",
        16 => "DSI",
        17 => "DPI",
        _ => "Unknown",
    }
}

// ---------------------------------------------------------------------------
// Names
// ---------------------------------------------------------------------------

/// A character that a normalised name may hold.
pub open spec fn name_char(c: char) -> bool {
    text::is_digit(c) || 'a' <= c <= 'z' || c == '-'
}

pub open spec fn kept_in_names() -> spec_fn(char) -> bool {
    |c: char| name_char(c)
}

pub open spec fn lower_case() -> spec_fn(char) -> char {
    |c: char| text::ascii_lower(c)
}

/// Lower case, with only letters, digits and dashes.
pub open spec fn cleaned(s: Seq<char>) -> Seq<char> {
    s.map_values(lower_case()).filter(kept_in_names())
}

/// The first place at or after `from` where `p` occurs in `s`.
pub open spec fn find_from(s: Seq<char>, p: Seq<char>, from: int) -> Option<int>
    decreases s.len() + 1 - from,
{
    if from < 0 || from > s.len() {
        None
    } else if text::has_prefix(s.skip(from), p) {
        Some(from)
    } else {
        find_from(s, p, from + 1)
    }
}

/// `s` with the first occurrence of `p` replaced by `r`.
pub open spec fn replaced_first(s: Seq<char>, p: Seq<char>, r: Seq<char>) -> Seq<char> {
    match find_from(s, p, 0) {
        Some(i) => s.take(i) + r + s.skip(i + p.len()),
        None => s,
    }
}

/// `hdmi1` and `hdmi-1` in the kernel's spelling `hdmi-a-1`.
pub open spec fn kernel_hdmi(s: Seq<char>) -> Seq<char> {
    if text::has_prefix(s, "hdmi"@) {
        let rest = text::stripped(s.skip(4), "-"@);
        if rest.len() > 0 && text::is_digit(rest[0]) {
            "hdmi-a-"@ + rest
        } else {
            s
        }
    } else {
        s
    }
}

/// A connector name in the one spelling that names are compared in.
pub open spec fn normalized(name: Seq<char>) -> Seq<char> {
    kernel_hdmi(replaced_first(cleaned(name), "displayport"@, "dp"@))
}

fn is_name_char(c: char) -> (b: bool)
    ensures
        b == name_char(c),
{
    ('0' <= c && c <= '9') || ('a' <= c && c <= 'z') || c == '-'
}

fn clean(name: &Vec<char>) -> (t: Vec<char>)
    ensures
        t@ == cleaned(name@),
{
    let ghost low = name@.map_values(lower_case());
    let ghost keep = kept_in_names();
    let mut t: Vec<char> = Vec::new();
    let mut i: usize = 0;
    proof {
        reveal(Seq::filter);
        assert(low.take(0) =~= Seq::<char>::empty());
        assert(low.take(0).filter(keep) =~= Seq::<char>::empty());
    }
    while i < name.len()
        invariant
            i <= name@.len(),
            low == name@.map_values(lower_case()),
            keep == kept_in_names(),
            t@ == low.take(i as int).filter(keep),
        decreases name@.len() - i,
    {
        let c: char = text::lower(name[i]);
        proof {
            assert(low[i as int] == c);
            assert(low.take(i + 1) =~= low.take(i as int).push(c));
            low.take(i as int).lemma_filter_push(c, keep);
        }
        if is_name_char(c) {
            t.push(c);
        }
        i += 1;
    }
    assert(low.take(low.len() as int) =~= low);
    t
}

fn find(s: &Vec<char>, p: &Vec<char>) -> (at: Option<usize>)
    ensures
        match at {
            Some(i) => find_from(s@, p@, 0) == Some(i as int) && i + p@.len() <= s@.len(),
            None => find_from(s@, p@, 0) is None,
        },
{
    let mut i: usize = 0;
    while i < s.len()
        invariant
            i <= s@.len(),
            find_from(s@, p@, 0) == find_from(s@, p@, i as int),
        decreases s@.len() - i,
    {
        if text::matches_at(s, i, p) {
            return Some(i);
        }
        i += 1;
    }
    if text::matches_at(s, i, p) {
        return Some(i);
    }
    assert(find_from(s@, p@, (s@.len() + 1) as int) is None);
    None
}

fn push_range(out: &mut Vec<char>, s: &Vec<char>, from: usize, to: usize)
    requires
        from <= to <= s@.len(),
    ensures
        final(out)@ == old(out)@ + s@.subrange(from as int, to as int),
{
    let mut i: usize = from;
    while i < to
        invariant
            from <= i <= to <= s@.len(),
            out@ =~= old(out)@ + s@.subrange(from as int, i as int),
        decreases to - i,
    {
        out.push(s[i]);
        i += 1;
    }
}

/// Brings a connector name into the one spelling that names are compared in:
/// lower case, letters, digits and dashes only, `DisplayPort-1` as `dp-1`, and
/// `HDMI-1` as `hdmi-a-1`.
pub fn normalize_connector_name(name: &str) -> (n: String)
    ensures
        n@ == normalized(name@),
{
    let t: Vec<char> = clean(&text::chars_of(name));
    let n: usize = t.len();
    let long: Vec<char> = text::chars_of("displayport");
    let short: Vec<char> = text::chars_of("dp");
    let u: Vec<char> = match find(&t, &long) {
        Some(i) => {
            let mut u: Vec<char> = Vec::new();
            push_range(&mut u, &t, 0, i);
            push_range(&mut u, &short, 0, short.len());
            push_range(&mut u, &t, i + long.len(), n);
            assert(u@ =~= t@.take(i as int) + short@ + t@.skip(i + long@.len()));
            u
        },
        None => t,
    };
    proof {
        reveal_strlit("hdmi");
    }
    if text::starts_with(&u, "hdmi") {
        let tail: Vec<char> = text::slice_of(&u, 4, u.len());
        assert(tail@ =~= u@.skip(4));
        let rest: Vec<char> = text::strip_all(&tail, "-");
        if rest.len() > 0 && '0' <= rest[0] && rest[0] <= '9' {
            let mut n: String = "hdmi-a-".to_owned();
            n.append(text::string_of(&rest).as_str());
            return n;
        }
    }
    text::string_of(&u)
}

/// Names that differ only in the case of ASCII letters are the same name.
pub proof fn normalization_ignores_case(a: Seq<char>, b: Seq<char>)
    requires
        a.map_values(lower_case()) == b.map_values(lower_case()),
    ensures
        normalized(a) == normalized(b),
{
}

/// A normalised name holds only lower-case letters, digits and dashes.
pub proof fn normalized_names_are_plain(name: Seq<char>)
    ensures
        forall|i: int| 0 <= i < normalized(name).len() ==> name_char(#[trigger] normalized(name)[i]),
{
    broadcast use vstd::seq_lib::group_filter_ensures;

    reveal_strlit("displayport");
    reveal_strlit("dp");
    reveal_strlit("hdmi");
    reveal_strlit("hdmi-a-");
    let t = cleaned(name);
    assert forall|i: int| 0 <= i < t.len() implies name_char(#[trigger] t[i]) by {
        assert(t.contains(t[i]));
        assert(kept_in_names()(t[i]));
    }
    let u = replaced_first(t, "displayport"@, "dp"@);
    lemma_find_from(t, "displayport"@, 0);
    assert(forall|i: int| 0 <= i < u.len() ==> name_char(#[trigger] u[i]));
    if text::has_prefix(u, "hdmi"@) {
        let rest = text::stripped(u.skip(4), "-"@);
        lemma_stripped_is_a_tail(u.skip(4), "-"@);
        let n = u.skip(4).len() - rest.len();
        assert forall|i: int| 0 <= i < rest.len() implies name_char(#[trigger] rest[i]) by {
            assert(rest[i] == u.skip(4).skip(n)[i]);
            assert(rest[i] == u[4 + n + i]);
        }
    }
}

pub open spec fn upper_case() -> spec_fn(char) -> char {
    |c: char| text::ascii_upper(c)
}

/// A name in upper case is the same name.
pub proof fn upper_case_is_the_same_name(name: Seq<char>)
    ensures
        normalized(name.map_values(upper_case())) == normalized(name),
{
    let up = name.map_values(upper_case());
    assert forall|i: int| 0 <= i < name.len() implies lower_case()(up[i]) == lower_case()(
        name[i],
    ) by {
        let c = name[i];
        assert(up[i] == upper_case()(c));
    }
    assert(up.map_values(lower_case()) =~= name.map_values(lower_case()));
    normalization_ignores_case(up, name);
}

/// `p` occurs in `s` at `i`.
pub open spec fn occurs_at(s: Seq<char>, p: Seq<char>, i: int) -> bool {
    0 <= i <= s.len() && text::has_prefix(s.skip(i), p)
}

/// `p` occurs in `s` in one place at most.
pub open spec fn at_most_once(s: Seq<char>, p: Seq<char>) -> bool {
    forall|i: int, j: int| #[trigger] occurs_at(s, p, i) && #[trigger] occurs_at(s, p, j) ==> i == j
}

proof fn lemma_occurrence(s: Seq<char>, p: Seq<char>, i: int)
    ensures
        occurs_at(s, p, i) <==> 0 <= i && i + p.len() <= s.len() && forall|k: int|
            0 <= k < p.len() ==> s[i + k] == #[trigger] p[k],
{
    if occurs_at(s, p, i) {
        assert forall|k: int| 0 <= k < p.len() implies s[i + k] == #[trigger] p[k] by {
            assert(s.skip(i).take(p.len() as int)[k] == s[i + k]);
        }
    }
    if 0 <= i && i + p.len() <= s.len() && forall|k: int|
        0 <= k < p.len() ==> s[i + k] == #[trigger] p[k] {
        assert(s.skip(i).take(p.len() as int) =~= p);
    }
}

/// Replacing the only `displayport` leaves none, and neither does a name without
/// one get one.
proof fn lemma_no_long_spelling_is_left(s: Seq<char>)
    requires
        at_most_once(s, "displayport"@),
    ensures
        forall|j: int|
            !#[trigger] occurs_at(
                replaced_first(s, "displayport"@, "dp"@),
                "displayport"@,
                j,
            ),
{
    reveal_strlit("displayport");
    reveal_strlit("dp");
    let long = "displayport"@;
    let u = replaced_first(s, long, "dp"@);
    lemma_find_from(s, long, 0);
    assert forall|j: int| !#[trigger] occurs_at(u, long, j) by {
        if occurs_at(u, long, j) {
            match find_from(s, long, 0) {
                None => {
                    assert(occurs_at(s, long, j));
                },
                Some(i) => {
                    lemma_occurrence(u, long, j);
                    assert(u[i] == 'd' && u[i + 1] == 'p');
                    if j + 11 <= i {
                        assert forall|k: int| 0 <= k < 11 implies s[j + k] == #[trigger] long[k] by {
                            assert(u[j + k] == s[j + k]);
                        }
                        lemma_occurrence(s, long, j);
                        assert(occurs_at(s, long, i));
                    } else if j >= i + 2 {
                        assert forall|k: int| 0 <= k < 11 implies s[j + 9 + k]
                            == #[trigger] long[k] by {
                            assert(u[j + k] == s[j + 9 + k]);
                        }
                        lemma_occurrence(s, long, j + 9);
                        assert(occurs_at(s, long, i));
                        assert(occurs_at(s, long, j + 9));
                    } else if j <= i {
                        let k = i - j;
                        assert(u[j + k] == long[k]);
                        assert(k == 0);
                        assert(u[j + 1] == long[1]);
                    } else {
                        assert(u[j + 0] == long[0]);
                    }
                },
            }
        }
    }
}

/// The kernel's spelling of an HDMI name brings in no `displayport` either.
proof fn lemma_hdmi_brings_no_long_spelling(u: Seq<char>)
    requires
        forall|j: int| !#[trigger] occurs_at(u, "displayport"@, j),
    ensures
        forall|j: int| !#[trigger] occurs_at(kernel_hdmi(u), "displayport"@, j),
{
    reveal_strlit("displayport");
    reveal_strlit("hdmi");
    reveal_strlit("hdmi-a-");
    let long = "displayport"@;
    let n = kernel_hdmi(u);
    if n != u {
        let tail = u.skip(4);
        let rest = text::stripped(tail, "-"@);
        lemma_stripped_is_a_tail(tail, "-"@);
        let cut = tail.len() - rest.len();
        assert(n == "hdmi-a-"@ + rest);
        assert forall|j: int| !#[trigger] occurs_at(n, long, j) by {
            if occurs_at(n, long, j) {
                lemma_occurrence(n, long, j);
                if j >= 7 {
                    let m = j - 7 + 4 + cut;
                    assert forall|k: int| 0 <= k < 11 implies u[m + k] == #[trigger] long[k] by {
                        assert(n[j + k] == rest[j - 7 + k]);
                        assert(rest[j - 7 + k] == tail.skip(cut)[j - 7 + k]);
                    }
                    lemma_occurrence(u, long, m);
                    assert(occurs_at(u, long, m));
                } else {
                    // A dash of the prefix would have to be part of the word.
                    let dash = if j <= 4 {
                        4int
                    } else {
                        6
                    };
                    assert(n[dash] == '-');
                    assert(n[j + (dash - j)] == long[dash - j]);
                }
            }
        }
    }
}

/// A plain name without `displayport` in the kernel's spelling is normalised
/// already.
proof fn lemma_kernel_spelling_is_normal(u: Seq<char>)
    requires
        forall|i: int| 0 <= i < kernel_hdmi(u).len() ==> name_char(#[trigger] kernel_hdmi(u)[i]),
        forall|j: int| !#[trigger] occurs_at(kernel_hdmi(u), "displayport"@, j),
    ensures
        normalized(kernel_hdmi(u)) == kernel_hdmi(u),
{
    let n = kernel_hdmi(u);
    assert(n.map_values(lower_case()) =~= n);
    lemma_filter_keeps_all(n);
    lemma_find_from(n, "displayport"@, 0);
    if n != u {
        reveal_strlit("hdmi-a-");
        assert(n.take(7) =~= "hdmi-a-"@);
        kernel_hdmi_names_are_kept(n);
    }
}

/// Normalising a name again changes nothing, when the name spells out
/// `DisplayPort` once at most: only the first such spelling is shortened.
pub proof fn normalizing_again_changes_nothing(name: Seq<char>)
    requires
        at_most_once(cleaned(name), "displayport"@),
    ensures
        normalized(normalized(name)) == normalized(name),
{
    let u = replaced_first(cleaned(name), "displayport"@, "dp"@);
    assert(normalized(name) == kernel_hdmi(u));
    normalized_names_are_plain(name);
    assert forall|i: int| 0 <= i < kernel_hdmi(u).len() implies name_char(
        #[trigger] kernel_hdmi(u)[i],
    ) by {
        assert(name_char(normalized(name)[i]));
    }
    lemma_no_long_spelling_is_left(cleaned(name));
    lemma_hdmi_brings_no_long_spelling(u);
    lemma_kernel_spelling_is_normal(u);
}

proof fn lemma_find_from(s: Seq<char>, p: Seq<char>, from: int)
    requires
        0 <= from,
    ensures
        find_from(s, p, from) matches Some(i) ==> from <= i && i + p.len() <= s.len() && occurs_at(
            s,
            p,
            i,
        ),
        find_from(s, p, from) matches Some(i) ==> forall|j: int|
            from <= j < i ==> !#[trigger] occurs_at(s, p, j),
        find_from(s, p, from) is None ==> forall|j: int|
            from <= j ==> !#[trigger] occurs_at(s, p, j),
    decreases s.len() + 1 - from,
{
    if from <= s.len() && !text::has_prefix(s.skip(from), p) {
        lemma_find_from(s, p, from + 1);
    }
}

proof fn lemma_stripped_is_a_tail(s: Seq<char>, p: Seq<char>)
    ensures
        text::stripped(s, p).len() <= s.len(),
        text::stripped(s, p) == s.skip(s.len() - text::stripped(s, p).len()),
    decreases s.len(),
{
    if p.len() > 0 && text::has_prefix(s, p) {
        lemma_stripped_is_a_tail(s.skip(p.len() as int), p);
        let r = text::stripped(s, p);
        assert(s.skip(p.len() as int).skip(s.len() - p.len() - r.len()) =~= s.skip(
            s.len() - r.len(),
        ));
    } else {
        assert(s.skip(0) =~= s);
    }
}

/// The kernel's own HDMI names are left alone.
pub proof fn kernel_hdmi_names_are_kept(s: Seq<char>)
    requires
        forall|i: int| 0 <= i < s.len() ==> name_char(#[trigger] s[i]),
        find_from(s, "displayport"@, 0) is None,
        text::has_prefix(s, "hdmi-a-"@),
    ensures
        normalized(s) == s,
{
    reveal_strlit("hdmi");
    reveal_strlit("hdmi-a-");
    reveal_strlit("-");
    assert(s.map_values(lower_case()) =~= s);
    lemma_filter_keeps_all(s);
    let k = "hdmi-a-"@;
    assert(s.take(7)[4] == k[4] && s.take(7)[5] == k[5]);
    let r = s.skip(4);
    assert(r.take(1) =~= "-"@);
    assert(r.skip(1)[0] == 'a');
    assert(r.skip(1).take(1)[0] == 'a');
    assert(text::stripped(r, "-"@) == text::stripped(r.skip(1), "-"@));
    assert(text::stripped(r.skip(1), "-"@) == r.skip(1));
}

proof fn lemma_filter_keeps_all(s: Seq<char>)
    requires
        forall|i: int| 0 <= i < s.len() ==> name_char(#[trigger] s[i]),
    ensures
        s.filter(kept_in_names()) == s,
    decreases s.len(),
{
    reveal(Seq::filter);
    if s.len() > 0 {
        lemma_filter_keeps_all(s.drop_last());
        assert(s.drop_last().push(s.last()) =~= s);
    }
}

/// Whether the anchor has to be bound anew: the window's output is known, and
/// the anchor is on another one or on none that has a name.
pub fn needs_anchor_retarget(anchor_connector: Option<&str>, window_connector: Option<&str>) -> (b:
    bool)
    ensures
        b == (match (anchor_connector, window_connector) {
            (_, None) => false,
            (Some(a), Some(w)) => a@ != w@,
            (None, Some(_)) => true,
        }),
{
    match (anchor_connector, window_connector) {
        (_, None) => false,
        (Some(a), Some(w)) => !text::same_str(a, w),
        (None, Some(_)) => true,
    }
}

// ---------------------------------------------------------------------------
// Enumeration
// ---------------------------------------------------------------------------

/// A connector of a card, with the CRTC that scans it out.
#[derive(Clone, Debug)]
pub struct ConnectorInfo {
    /// Kernel-style name, such as `DP-1`.
    pub name: String,
    /// Whether a display is plugged in.
    pub connected: bool,
    /// Index of the CRTC serving it, when active.
    pub pipe: Option<u32>,
    /// Object id of the CRTC serving it, when active.
    pub crtc_id: Option<u32>,
}

/// What the kernel reports of a connector.
#[derive(Clone, Copy, Debug, PartialEq, Eq, Structural)]
pub struct RawConnector {
    pub connector_type: u32,
    pub connector_type_id: u32,
    pub connection: u32,
    /// The encoder bound to it, zero for none.
    pub encoder_id: u32,
}

/// `RawConnector::connection` of a plugged-in display.
pub const DRM_MODE_CONNECTED: u32 = 1;

impl RawConnector {
    /// Whether the connector is scanned out, so that its encoder is worth
    /// asking for.
    pub fn is_active(&self) -> (b: bool)
        ensures
            b == (self.encoder_id != 0 && self.connection == DRM_MODE_CONNECTED),
    {
        self.encoder_id != 0 && self.connection == DRM_MODE_CONNECTED
    }
}

/// The place of `id` in the card's CRTC list.
pub open spec fn is_pipe_of(crtcs: Seq<u32>, id: u32, pipe: Option<u32>) -> bool {
    match pipe {
        Some(p) => p < crtcs.len() && crtcs[p as int] == id && forall|j: int|
            0 <= j < p ==> #[trigger] crtcs[j] != id,
        None => forall|j: int| 0 <= j < crtcs.len() ==> #[trigger] crtcs[j] != id,
    }
}

/// Resolves a connector: its name, and the pipe that serves it.  `crtc_id` is
/// the CRTC that its encoder named, zero for none.
pub fn connector_info(crtcs: &Vec<u32>, raw: &RawConnector, crtc_id: u32) -> (info: ConnectorInfo)
    requires
        crtcs@.len() <= u32::MAX,
    ensures
        info.name@ == kernel_name(raw.connector_type) + "-"@ + text::decimal(
            raw.connector_type_id as nat,
        ),
        info.connected == (raw.connection == DRM_MODE_CONNECTED),
        ({
            let served = raw.encoder_id != 0 && raw.connection == DRM_MODE_CONNECTED && crtc_id
                != 0;
            &&& info.crtc_id == (if served {
                Some(crtc_id)
            } else {
                None
            })
            &&& served ==> is_pipe_of(crtcs@, crtc_id, info.pipe)
            &&& !served ==> info.pipe is None
        }),
{
    let mut name: String = connector_type_name(raw.connector_type).to_owned();
    name.append("-");
    text::push_decimal(&mut name, raw.connector_type_id as u64);
    let connected: bool = raw.connection == DRM_MODE_CONNECTED;
    if !raw.is_active() || crtc_id == 0 {
        return ConnectorInfo { name, connected, pipe: None, crtc_id: None };
    }
    ConnectorInfo { name, connected, pipe: pipe_of(crtcs, crtc_id), crtc_id: Some(crtc_id) }
}

fn pipe_of(crtcs: &Vec<u32>, id: u32) -> (pipe: Option<u32>)
    requires
        crtcs@.len() <= u32::MAX,
    ensures
        is_pipe_of(crtcs@, id, pipe),
{
    let mut i: usize = 0;
    while i < crtcs.len()
        invariant
            i <= crtcs@.len() <= u32::MAX,
            forall|j: int| 0 <= j < i ==> #[trigger] crtcs@[j] != id,
        decreases crtcs@.len() - i,
    {
        if crtcs[i] == id {
            return Some(i as u32);
        }
        i += 1;
    }
    None
}

// ---------------------------------------------------------------------------
// Probe order
// ---------------------------------------------------------------------------

/// A pipe to probe, and the connector it serves where that is known.
#[derive(Debug)]
pub struct Probe {
    pub pipe: u32,
    pub connector: Option<String>,
}

/// A [`Probe`] as plain values.
pub type ProbeView = (u32, Option<Seq<char>>);

impl View for Probe {
    type V = ProbeView;

    open spec fn view(&self) -> ProbeView {
        (
            self.pipe,
            match self.connector {
                Some(c) => Some(c@),
                None => None,
            },
        )
    }
}

/// How a probe is called: by its connector, or by its pipe.
pub open spec fn probe_label(p: ProbeView) -> Seq<char> {
    match p.1 {
        Some(c) => c,
        None => pipe_label(p.0),
    }
}

impl Probe {
    /// How the probe is called: by its connector, or by its pipe.
    pub fn label(&self) -> (l: String)
        ensures
            l@ == probe_label(self@),
    {
        match &self.connector {
            Some(c) => c.clone(),
            None => {
                let mut l: String = String::new();
                push_pipe_label(&mut l, self.pipe);
                assert(l@ =~= pipe_label(self.pipe));
                l
            },
        }
    }
}

pub open spec fn probe_views(order: Seq<Probe>) -> Seq<ProbeView> {
    order.map_values(|p: Probe| p@)
}

/// The connector is plugged in and scanned out.
pub open spec fn active(i: ConnectorInfo) -> bool {
    i.connected && i.pipe is Some
}

/// Some probe is for `pipe` already.
pub open spec fn has_pipe(order: Seq<ProbeView>, pipe: u32) -> bool {
    exists|j: int| 0 <= j < order.len() && (#[trigger] order[j]).0 == pipe
}

/// `order`, and the active ones of the first `n` connectors whose pipe is not
/// in it yet.
pub open spec fn with_active(
    order: Seq<ProbeView>,
    infos: Seq<ConnectorInfo>,
    n: nat,
) -> Seq<ProbeView>
    decreases n,
{
    if n == 0 {
        order
    } else {
        let so_far = with_active(order, infos, (n - 1) as nat);
        let i = infos[n - 1];
        if active(i) && !has_pipe(so_far, i.pipe->0) {
            so_far.push((i.pipe->0, Some(i.name@)))
        } else {
            so_far
        }
    }
}

/// The first active connector of the wanted name.
pub open spec fn first_wanted(infos: Seq<ConnectorInfo>, want: Seq<char>, k: int) -> bool {
    &&& 0 <= k < infos.len()
    &&& active(infos[k]) && normalized(infos[k].name@) == want
    &&& forall|j: int|
        0 <= j < k ==> !(active(#[trigger] infos[j]) && normalized(infos[j].name@) == want)
}

/// The name of a pipe that is probed without a connector.
pub open spec fn pipe_label(pipe: u32) -> Seq<char> {
    "pipe"@ + text::decimal(pipe as nat)
}

/// The probes that come before all others: the active connector of the wanted
/// name, where there is one.
pub open spec fn head_start(infos: Seq<ConnectorInfo>, pref: Option<Seq<char>>) -> Seq<ProbeView> {
    match pref {
        Some(name) => if exists|k: int| first_wanted(infos, normalized(name), k) {
            let k = choose|k: int| first_wanted(infos, normalized(name), k);
            seq![(infos[k].pipe->0, Some(infos[k].name@))]
        } else {
            Seq::empty()
        },
        None => Seq::empty(),
    }
}

/// The order in which pipes are probed: only a forced one; else the wanted
/// connector, then the other active ones; and the first eight pipes when no
/// connector is known.
pub open spec fn order_of(
    infos: Seq<ConnectorInfo>,
    pref: Option<Seq<char>>,
    force_pipe: Option<u32>,
) -> Seq<ProbeView> {
    match force_pipe {
        Some(p) => seq![(p, None)],
        None => {
            let known = with_active(head_start(infos, pref), infos, infos.len());
            if known.len() > 0 {
                known
            } else {
                Seq::new(8, |i: int| (i as u32, None))
            }
        },
    }
}

fn push_pipe_label(out: &mut String, pipe: u32)
    ensures
        final(out)@ == old(out)@ + pipe_label(pipe),
{
    out.append("pipe");
    text::push_decimal(out, pipe as u64);
    assert(out@ =~= old(out)@ + pipe_label(pipe));
}

fn find_wanted(infos: &Vec<ConnectorInfo>, want: &str) -> (k: Option<usize>)
    ensures
        match k {
            Some(k) => first_wanted(infos@, want@, k as int),
            None => forall|j: int| !first_wanted(infos@, want@, j),
        },
{
    let mut i: usize = 0;
    while i < infos.len()
        invariant
            i <= infos@.len(),
            forall|j: int|
                0 <= j < i ==> !(active(#[trigger] infos@[j]) && normalized(infos@[j].name@)
                    == want@),
        decreases infos@.len() - i,
    {
        if infos[i].connected && infos[i].pipe.is_some() {
            let n: String = normalize_connector_name(infos[i].name.as_str());
            if text::same_str(n.as_str(), want) {
                return Some(i);
            }
        }
        i += 1;
    }
    None
}

fn lists_pipe(order: &Vec<Probe>, pipe: u32) -> (b: bool)
    ensures
        b == has_pipe(probe_views(order@), pipe),
{
    let mut i: usize = 0;
    while i < order.len()
        invariant
            i <= order@.len(),
            forall|j: int| 0 <= j < i ==> (#[trigger] order@[j]).pipe != pipe,
        decreases order@.len() - i,
    {
        if order[i].pipe == pipe {
            assert(probe_views(order@)[i as int].0 == pipe);
            return true;
        }
        i += 1;
    }
    assert forall|j: int| 0 <= j < order@.len() implies (#[trigger] probe_views(order@)[j]).0
        != pipe by {
        assert(order@[j].pipe != pipe);
    }
    false
}

/// The order in which the pipes of a card are probed.
pub fn probe_order(
    infos: &Vec<ConnectorInfo>,
    pref_connector: Option<&str>,
    force_pipe: Option<u32>,
) -> (order: Vec<Probe>)
    ensures
        probe_views(order@) == order_of(
            infos@,
            text::chars_if_any(pref_connector),
            force_pipe,
        ),
{
    let mut order: Vec<Probe> = Vec::new();
    if let Some(p) = force_pipe {
        order.push(Probe { pipe: p, connector: None });
        assert(probe_views(order@) =~= seq![(p, None::<Seq<char>>)]);
        return order;
    }
    let ghost pref = text::chars_if_any(pref_connector);
    assert(probe_views(order@) =~= Seq::<ProbeView>::empty());
    if let Some(name) = pref_connector {
        let want: String = normalize_connector_name(name);
        if let Some(k) = find_wanted(infos, want.as_str()) {
            if let Some(pipe) = infos[k].pipe {
                proof {
                    assert(first_wanted(infos@, normalized(name@), k as int));
                    let c = choose|c: int| first_wanted(infos@, normalized(name@), c);
                    assert(first_wanted(infos@, normalized(name@), c));
                    assert(c == k);
                }
                order.push(Probe { pipe, connector: Some(infos[k].name.clone()) });
                assert(probe_views(order@) =~= head_start(infos@, pref));
            }
        }
    }
    assert(probe_views(order@) == head_start(infos@, pref));
    let mut i: usize = 0;
    while i < infos.len()
        invariant
            i <= infos@.len(),
            probe_views(order@) == with_active(head_start(infos@, pref), infos@, i as nat),
        decreases infos@.len() - i,
    {
        if infos[i].connected {
            if let Some(pipe) = infos[i].pipe {
                if !lists_pipe(&order, pipe) {
                    let ghost before = order@;
                    order.push(Probe { pipe, connector: Some(infos[i].name.clone()) });
                    assert(probe_views(order@) =~= probe_views(before).push(
                        (pipe, Some(infos@[i as int].name@)),
                    ));
                }
            }
        }
        i += 1;
    }
    if order.len() == 0 {
        let mut p: u32 = 0;
        while p < 8
            invariant
                p <= 8,
                probe_views(order@) =~= Seq::new(p as nat, |i: int| (i as u32, None::<Seq<char>>)),
            decreases 8 - p,
        {
            let ghost before = probe_views(order@);
            order.push(Probe { pipe: p, connector: None });
            assert(probe_views(order@) =~= before.push((p, None)));
            p += 1;
        }
    }
    order
}

/// No pipe is probed twice, there is always something to probe, and the wanted
/// connector comes first.
pub proof fn every_pipe_is_probed_once(
    infos: Seq<ConnectorInfo>,
    pref: Option<Seq<char>>,
    force_pipe: Option<u32>,
)
    ensures
        order_of(infos, pref, force_pipe).len() > 0,
        forall|i: int, j: int|
            0 <= i < j < order_of(infos, pref, force_pipe).len() ==> (#[trigger] order_of(
                infos,
                pref,
                force_pipe,
            )[i]).0 != (#[trigger] order_of(infos, pref, force_pipe)[j]).0,
        force_pipe is None && pref is Some && (exists|k: int|
            first_wanted(infos, normalized(pref->0), k)) ==> order_of(infos, pref, force_pipe)[0]
            == head_start(infos, pref)[0],
{
    lemma_with_active(head_start(infos, pref), infos, infos.len());
}

proof fn lemma_with_active(order: Seq<ProbeView>, infos: Seq<ConnectorInfo>, n: nat)
    requires
        n <= infos.len(),
        order.len() <= 1,
    ensures
        with_active(order, infos, n).len() >= order.len(),
        order.len() > 0 ==> with_active(order, infos, n)[0] == order[0],
        forall|i: int, j: int|
            0 <= i < j < with_active(order, infos, n).len() ==> (#[trigger] with_active(
                order,
                infos,
                n,
            )[i]).0 != (#[trigger] with_active(order, infos, n)[j]).0,
    decreases n,
{
    if n > 0 {
        lemma_with_active(order, infos, (n - 1) as nat);
        let so_far = with_active(order, infos, (n - 1) as nat);
        let r = with_active(order, infos, n);
        if r != so_far {
            assert forall|i: int, j: int| 0 <= i < j < r.len() implies (#[trigger] r[i]).0 != (
            #[trigger] r[j]).0 by {
                assert(r[i] == so_far[i]);
                if j < so_far.len() {
                    assert(r[j] == so_far[j]);
                }
            }
        }
    }
}

/// The CRTC object of a pipe: that of the connector on it, else the pipe's
/// place in the card's CRTC list, else its place in `fallback`.
pub fn crtc_of_pipe(
    infos: &Vec<ConnectorInfo>,
    crtc_ids: &Vec<u32>,
    fallback: &Vec<u32>,
    pipe: u32,
) -> (id: Option<u32>)
    ensures
        id == crtc_at(infos@, crtc_ids@, fallback@, pipe, 0),
{
    let mut i: usize = 0;
    while i < infos.len()
        invariant
            i <= infos@.len(),
            crtc_at(infos@, crtc_ids@, fallback@, pipe, i as int) == crtc_at(
                infos@,
                crtc_ids@,
                fallback@,
                pipe,
                0,
            ),
        decreases infos@.len() - i,
    {
        if let Some(p) = infos[i].pipe {
            if p == pipe {
                if let Some(id) = infos[i].crtc_id {
                    return Some(id);
                }
                return listed_crtc(crtc_ids, fallback, pipe);
            }
        }
        i += 1;
    }
    listed_crtc(crtc_ids, fallback, pipe)
}

/// A pipe's place in the card's CRTC list, else in `fallback`.
pub open spec fn listed(crtc_ids: Seq<u32>, fallback: Seq<u32>, pipe: u32) -> Option<u32> {
    if pipe < crtc_ids.len() {
        Some(crtc_ids[pipe as int])
    } else if pipe < fallback.len() {
        Some(fallback[pipe as int])
    } else {
        None
    }
}

/// The CRTC object of a pipe, looking at the connectors from the `i`-th on.
pub open spec fn crtc_at(
    infos: Seq<ConnectorInfo>,
    crtc_ids: Seq<u32>,
    fallback: Seq<u32>,
    pipe: u32,
    i: int,
) -> Option<u32>
    decreases infos.len() - i,
{
    if i < 0 || i >= infos.len() {
        listed(crtc_ids, fallback, pipe)
    } else if infos[i].pipe == Some(pipe) {
        match infos[i].crtc_id {
            Some(id) => Some(id),
            None => listed(crtc_ids, fallback, pipe),
        }
    } else {
        crtc_at(infos, crtc_ids, fallback, pipe, i + 1)
    }
}

fn listed_crtc(crtc_ids: &Vec<u32>, fallback: &Vec<u32>, pipe: u32) -> (id: Option<u32>)
    ensures
        id == listed(crtc_ids@, fallback@, pipe),
{
    let p: usize = pipe as usize;
    if p < crtc_ids.len() {
        Some(crtc_ids[p])
    } else if p < fallback.len() {
        Some(fallback[p])
    } else {
        None
    }
}

// ---------------------------------------------------------------------------
// Cards
// ---------------------------------------------------------------------------

/// The device of the `i`-th card.
pub open spec fn card_path(i: nat) -> Seq<char> {
    "/dev/dri/card"@ + text::decimal(i)
}

pub open spec fn string_views(v: Seq<String>) -> Seq<Seq<char>> {
    v.map_values(|s: String| s@)
}

/// The first `n` cards, without the forced one.
pub open spec fn other_cards(forced: Seq<char>, n: nat) -> Seq<Seq<char>>
    decreases n,
{
    if n == 0 {
        Seq::empty()
    } else if card_path((n - 1) as nat) == forced {
        other_cards(forced, (n - 1) as nat)
    } else {
        other_cards(forced, (n - 1) as nat).push(card_path((n - 1) as nat))
    }
}

/// The order in which cards are opened: a forced one first, then the first
/// four.
pub open spec fn cards(forced: Option<Seq<char>>) -> Seq<Seq<char>> {
    match forced {
        Some(f) if text::trimmed(f).len() > 0 => seq![text::trimmed(f)] + other_cards(
            text::trimmed(f),
            4,
        ),
        _ => Seq::new(4, |i: int| card_path(i as nat)),
    }
}

/// The order in which cards are opened.  `forced` is the card that the user
/// asked for, with or without surrounding white space.
pub fn card_order(forced: Option<&str>) -> (order: Vec<String>)
    ensures
        string_views(order@) == cards(text::chars_if_any(forced)),
{
    let mut order: Vec<String> = Vec::new();
    let wish: Vec<char> = match forced {
        Some(f) => text::trim(&text::chars_of(f)),
        None => Vec::new(),
    };
    let any: bool = wish.len() > 0;
    if any {
        order.push(text::string_of(&wish));
    }
    let ghost first = string_views(order@);
    assert(first =~= if any {
        seq![wish@]
    } else {
        Seq::empty()
    });
    let mut i: u64 = 0;
    assert(first + other_cards(wish@, 0) =~= first);
    while i < 4
        invariant
            i <= 4,
            any == (wish@.len() > 0),
            any ==> string_views(order@) == first + other_cards(wish@, i as nat),
            !any ==> first =~= Seq::<Seq<char>>::empty(),
            !any ==> string_views(order@) =~= Seq::new(i as nat, |k: int| card_path(k as nat)),
        decreases 4 - i,
    {
        let mut path: String = "/dev/dri/card".to_owned();
        text::push_decimal(&mut path, i);
        let ghost before = string_views(order@);
        let chars: Vec<char> = text::chars_of(path.as_str());
        let ghost p = path@;
        if !any || !text::same(&chars, &wish) {
            order.push(path);
            assert(string_views(order@) =~= before.push(p));
            assert(any ==> first + other_cards(wish@, i as nat).push(p) =~= (first + other_cards(
                wish@,
                i as nat,
            )).push(p));
        }
        i += 1;
    }
    order
}

/// The forced card is opened first, and no card is opened twice.
pub proof fn a_forced_card_comes_first(f: Seq<char>)
    requires
        text::trimmed(f).len() > 0,
    ensures
        cards(Some(f))[0] == text::trimmed(f),
        forall|i: int| 0 < i < cards(Some(f)).len() ==> #[trigger] cards(Some(f))[i]
            != text::trimmed(f),
{
    lemma_other_cards(text::trimmed(f), 4);
}

proof fn lemma_other_cards(forced: Seq<char>, n: nat)
    ensures
        forall|i: int|
            0 <= i < other_cards(forced, n).len() ==> #[trigger] other_cards(forced, n)[i]
                != forced,
    decreases n,
{
    if n > 0 {
        lemma_other_cards(forced, (n - 1) as nat);
        let fewer = other_cards(forced, (n - 1) as nat);
        let all = other_cards(forced, n);
        assert forall|i: int| 0 <= i < all.len() implies #[trigger] all[i] != forced by {
            if i < fewer.len() {
                assert(all[i] == fewer[i]);
            }
        }
    }
}

/// An entry of the kernel's connector directory with the text of its `enabled`
/// file, where that could be read.
#[derive(Debug)]
pub struct HeadEntry {
    pub name: String,
    pub enabled: Option<String>,
}

/// The entry is a connector of the card `base`, and enabled.
pub open spec fn is_enabled_head(e: HeadEntry, base: Seq<char>) -> bool {
    &&& text::has_prefix(e.name@, base + "-"@)
    &&& e.name@.len() > base.len() + 1
    &&& e.enabled matches Some(s) && text::trimmed(s@) == "enabled"@
}

/// How many of the first `n` entries are enabled heads of the card.
pub open spec fn enabled_heads(entries: Seq<HeadEntry>, base: Seq<char>, n: nat) -> nat
    decreases n,
{
    if n == 0 {
        0
    } else if is_enabled_head(entries[n - 1], base) {
        enabled_heads(entries, base, (n - 1) as nat) + 1
    } else {
        enabled_heads(entries, base, (n - 1) as nat)
    }
}

/// Counts the active heads of a card, `base` being its device name.
pub fn sysfs_active_heads(base: &str, entries: &Vec<HeadEntry>) -> (n: usize)
    ensures
        n == enabled_heads(entries@, base@, entries@.len()),
{
    let mut prefix: String = String::new();
    prefix.append(base);
    prefix.append("-");
    assert(prefix@ =~= base@ + "-"@);
    let least: usize = text::chars_of(prefix.as_str()).len();
    proof {
        reveal_strlit("-");
    }
    let want: Vec<char> = text::chars_of("enabled");
    let mut n: usize = 0;
    let mut i: usize = 0;
    while i < entries.len()
        invariant
            i <= entries.len(),
            n <= i,
            n == enabled_heads(entries@, base@, i as nat),
            prefix@ == base@ + "-"@,
            least == base@.len() + 1,
            want@ == "enabled"@,
        decreases entries@.len() - i,
    {
        let name: Vec<char> = text::chars_of(entries[i].name.as_str());
        if text::starts_with(&name, prefix.as_str()) && name.len() > least {
            if let Some(s) = &entries[i].enabled {
                let s: Vec<char> = text::trim(&text::chars_of(s.as_str()));
                if text::same(&s, &want) {
                    n += 1;
                }
            }
        }
        i += 1;
    }
    n
}

// ---------------------------------------------------------------------------
// What is said of the search
// ---------------------------------------------------------------------------

/// How a connector is listed.
pub open spec fn listing(i: ConnectorInfo) -> Seq<char> {
    i.name@ + "("@ + (match i.pipe {
        Some(p) => pipe_label(p),
        None => "no-crtc"@,
    }) + (if i.connected {
        ")"@
    } else {
        ", disconnected)"@
    })
}

/// The connectors of a card in one line.
pub open spec fn listings(infos: Seq<ConnectorInfo>, n: nat) -> Seq<char>
    decreases n,
{
    if n == 0 {
        Seq::empty()
    } else if n == 1 {
        listing(infos[0])
    } else {
        listings(infos, (n - 1) as nat) + ", "@ + listing(infos[n - 1])
    }
}

fn push_listing(out: &mut String, i: &ConnectorInfo)
    ensures
        final(out)@ == old(out)@ + listing(*i),
{
    out.append(i.name.as_str());
    out.append("(");
    match i.pipe {
        Some(p) => {
            push_pipe_label(out, p);
        },
        None => {
            out.append("no-crtc");
        },
    }
    if i.connected {
        out.append(")");
    } else {
        out.append(", disconnected)");
    }
    assert(out@ =~= old(out)@ + listing(*i));
}

/// The connectors of a card in one line.
pub fn outputs_summary(infos: &Vec<ConnectorInfo>) -> (s: String)
    ensures
        s@ == listings(infos@, infos@.len()),
{
    let mut s: String = String::new();
    let mut i: usize = 0;
    while i < infos.len()
        invariant
            i <= infos@.len(),
            s@ == listings(infos@, i as nat),
        decreases infos@.len() - i,
    {
        if i > 0 {
            s.append(", ");
        }
        push_listing(&mut s, &infos[i]);
        i += 1;
        proof {
            if i == 1 {
                assert(Seq::<char>::empty() + listing(infos@[0]) =~= listing(infos@[0]));
            }
        }
    }
    s
}

/// What to say when the wanted output is not among the probes.
#[derive(Clone, Copy, Debug, PartialEq, Eq, Structural)]
pub enum Notice {
    /// Nothing: no output was asked for, or it was found.
    Nothing,
    /// The card does not tell its connectors.
    NoEnumeration,
    /// The card has no such active output.
    NotFound,
}

/// What is said of the wanted output: nothing where it is probed first, and
/// else why it is not.
pub open spec fn noticed(
    infos: Seq<ConnectorInfo>,
    pref: Option<Seq<char>>,
    force_pipe: Option<u32>,
    failed: bool,
) -> Notice {
    if force_pipe is Some || pref is None || head_start(infos, pref).len() > 0 {
        Notice::Nothing
    } else if failed || infos.len() == 0 {
        Notice::NoEnumeration
    } else {
        Notice::NotFound
    }
}

/// What to say of the wanted output, `failed` telling that the card refused to
/// list its connectors.
pub fn bind_notice(
    infos: &Vec<ConnectorInfo>,
    pref_connector: Option<&str>,
    force_pipe: Option<u32>,
    failed: bool,
) -> (n: Notice)
    ensures
        n == noticed(infos@, text::chars_if_any(pref_connector), force_pipe, failed),
{
    if force_pipe.is_some() {
        return Notice::Nothing;
    }
    match pref_connector {
        None => Notice::Nothing,
        Some(name) => {
            let want: String = normalize_connector_name(name);
            match find_wanted(infos, want.as_str()) {
                Some(k) => {
                    assert(first_wanted(infos@, normalized(name@), k as int));
                    Notice::Nothing
                },
                None => if failed || infos.len() == 0 {
                    Notice::NoEnumeration
                } else {
                    Notice::NotFound
                },
            }
        },
    }
}

/// An output was wanted, connectors are known, and the anchor is on another one
/// or on an unknown one.
pub open spec fn missed(
    infos: Seq<ConnectorInfo>,
    pref: Option<Seq<char>>,
    force_pipe: Option<u32>,
    bound: Option<Seq<char>>,
) -> bool {
    &&& force_pipe is None
    &&& infos.len() > 0
    &&& pref matches Some(w) && !(bound matches Some(c) && normalized(c) == normalized(w))
}

/// Whether the anchor ended up on another output than the wanted one, or on an
/// unknown one.
pub fn off_target(
    infos: &Vec<ConnectorInfo>,
    pref_connector: Option<&str>,
    force_pipe: Option<u32>,
    bound: Option<&str>,
) -> (b: bool)
    ensures
        b == missed(
            infos@,
            text::chars_if_any(pref_connector),
            force_pipe,
            text::chars_if_any(bound),
        ),
{
    if force_pipe.is_some() || infos.len() == 0 {
        return false;
    }
    match pref_connector {
        None => false,
        Some(w) => match bound {
            None => true,
            Some(c) => {
                let a: String = normalize_connector_name(c);
                let b: String = normalize_connector_name(w);
                !text::same_str(a.as_str(), b.as_str())
            },
        },
    }
}

/// The `errno` of an operation that a driver does not support.
pub const ENOTSUP: i32 = 95;

/// What a driver without vertical-blank events can be told to do.
#[derive(Clone, Copy, Debug, PartialEq, Eq, Structural)]
pub enum VblankHint {
    /// Nothing is known to help.
    Nothing,
    /// The driver has no option for it.
    NoOption,
    /// The option exists; `off` where it is not set.
    SetOption { off: bool },
}

/// Which hint goes with a failed open.  `param` is the text of the driver's
/// `vblank` parameter, empty where it has none.
pub fn vblank_hint(errno: Option<i32>, nvidia: bool, param: &str) -> (h: VblankHint)
    ensures
        h == (if errno != Some(ENOTSUP) || !nvidia {
            VblankHint::Nothing
        } else if param@.len() == 0 {
            VblankHint::NoOption
        } else {
            VblankHint::SetOption {
                off: text::trimmed(param@) != "Y"@ && text::trimmed(param@) != "1"@,
            }
        }),
{
    let unsupported: bool = match errno {
        Some(e) => e == ENOTSUP,
        None => false,
    };
    if !unsupported || !nvidia {
        return VblankHint::Nothing;
    }
    let p: Vec<char> = text::chars_of(param);
    if p.len() == 0 {
        return VblankHint::NoOption;
    }
    let t: String = text::string_of(&text::trim(&p));
    let on: bool = text::same_str(t.as_str(), "Y") || text::same_str(t.as_str(), "1");
    VblankHint::SetOption { off: !on }
}

/// The reasons why the search for an anchor has come to nothing so far.
#[derive(Debug)]
pub struct Reasons {
    /// One entry for each card or pipe that failed.
    pub all: Vec<String>,
    /// The pipes of the card at hand that ran at another rate.
    pub rates: Vec<String>,
}

/// The parts, with `sep` between them.
pub open spec fn joined(parts: Seq<Seq<char>>, sep: Seq<char>) -> Seq<char>
    decreases parts.len(),
{
    if parts.len() == 0 {
        Seq::empty()
    } else if parts.len() == 1 {
        parts[0]
    } else {
        joined(parts.drop_last(), sep) + sep + parts.last()
    }
}

fn join(parts: &Vec<String>, sep: &str) -> (s: String)
    ensures
        s@ == joined(string_views(parts@), sep@),
{
    let ghost all = string_views(parts@);
    let mut s: String = String::new();
    let mut i: usize = 0;
    while i < parts.len()
        invariant
            i <= parts@.len(),
            all == string_views(parts@),
            s@ == joined(all.take(i as int), sep@),
        decreases parts@.len() - i,
    {
        if i > 0 {
            s.append(sep);
        }
        s.append(parts[i].as_str());
        i += 1;
        proof {
            assert(all.take(i as int).drop_last() =~= all.take(i - 1));
            assert(all.take(i as int).last() == parts@[i - 1]@);
            if i == 1 {
                assert(Seq::<char>::empty() + all[0] =~= all[0]);
                assert(all.take(1)[0] == all[0]);
            }
        }
    }
    assert(all.take(all.len() as int) =~= all);
    s
}

/// What is said of a card none of whose pipes could be used, `rates` being the
/// pipes that ran at another rate.
pub open spec fn card_line(path: Seq<char>, rates: Seq<Seq<char>>) -> Seq<char> {
    path + ": no usable ~120 Hz display ("@ + (if rates.len() == 0 {
        "no probes ran"@
    } else {
        joined(rates, "; "@)
    }) + ")"@
}

impl Reasons {
    pub open spec fn spoken(&self) -> (Seq<Seq<char>>, Seq<Seq<char>>) {
        (string_views(self.all@), string_views(self.rates@))
    }

    pub fn new() -> (r: Reasons)
        ensures
            r.spoken() == (Seq::<Seq<char>>::empty(), Seq::<Seq<char>>::empty()),
    {
        let r: Reasons = Reasons { all: Vec::new(), rates: Vec::new() };
        assert(string_views(r.all@) =~= Seq::empty());
        assert(string_views(r.rates@) =~= Seq::empty());
        r
    }

    /// A card or a pipe could not be used.
    pub fn failed(&mut self, place: &str, why: &str)
        ensures
            final(self).spoken() == (
                old(self).spoken().0.push(place@ + ": "@ + why@),
                old(self).spoken().1,
            ),
    {
        let mut line: String = place.to_owned();
        line.append(": ");
        line.append(why);
        let ghost l = line@;
        self.all.push(line);
        assert(string_views(self.all@) =~= old(self).spoken().0.push(l));
    }

    /// A pipe answered, at a rate that is of no use.
    pub fn wrong_rate(&mut self, label: &str, period_us: u64)
        ensures
            final(self).spoken() == (
                old(self).spoken().0,
                old(self).spoken().1.push(
                    label@ + ": "@ + text::decimal(period_us as nat) + " us"@,
                ),
            ),
    {
        let mut line: String = label.to_owned();
        line.append(": ");
        text::push_decimal(&mut line, period_us);
        line.append(" us");
        let ghost l = line@;
        self.rates.push(line);
        assert(string_views(self.rates@) =~= old(self).spoken().1.push(l));
    }

    /// Every pipe of the card has been tried in vain.
    pub fn card_done(&mut self, path: &str)
        ensures
            final(self).spoken() == (
                old(self).spoken().0.push(card_line(path@, old(self).spoken().1)),
                Seq::<Seq<char>>::empty(),
            ),
    {
        let mut line: String = path.to_owned();
        line.append(": no usable ~120 Hz display (");
        if self.rates.len() == 0 {
            line.append("no probes ran");
        } else {
            let rates: String = join(&self.rates, "; ");
            line.append(rates.as_str());
        }
        line.append(")");
        let ghost l = line@;
        self.all.push(line);
        self.rates = Vec::new();
        assert(string_views(self.all@) =~= old(self).spoken().0.push(l));
        assert(string_views(self.rates@) =~= Seq::empty());
    }

    /// All reasons in one line, after their number.
    pub fn no_card(&self) -> (s: String)
        ensures
            s@ == "no usable DRM card ("@ + text::decimal(self.spoken().0.len()) + "): "@ + joined(
                self.spoken().0,
                "; "@,
            ),
    {
        let mut s: String = "no usable DRM card (".to_owned();
        text::push_decimal(&mut s, self.all.len() as u64);
        s.append("): ");
        let all: String = join(&self.all, "; ");
        s.append(all.as_str());
        s
    }

    /// All reasons in one line.
    pub fn report(&self) -> (s: String)
        ensures
            s@ == joined(self.spoken().0, "; "@),
    {
        join(&self.all, "; ")
    }
}

} // verus!
