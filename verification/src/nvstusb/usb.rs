//! The emitter's byte protocol, and the choice of the device to open.

use crate::text;
use vstd::prelude::*;

verus! {

pub const NVSTUSB_VID: u16 = 0x0955;
pub const NVSTUSB_PID: u16 = 0x0007;

/// Type of the vendor requests.
pub const REQUEST_TYPE_VENDOR: u8 = 0x40;
/// The request that writes firmware.
pub const REQUEST_FIRMWARE: u8 = 0xA0;

/// Product ids that other NVIDIA emitters may have, in the order in which they
/// are probed.
pub const NVIDIA_ALT_PIDS: [u16; 10] = [
    0x7001, 0x7002, 0x7003, 0x7004, 0x7008, 0x7009, 0x700A, 0x700C, 0x700D, 0x700E,
];

// ---------------------------------------------------------------------------
// Ids
// ---------------------------------------------------------------------------

/// The value of a hexadecimal digit.
pub open spec fn nibble(c: char) -> Option<int> {
    if '0' <= c <= '9' {
        Some(c as int - '0' as int)
    } else if 'a' <= c <= 'f' {
        Some(c as int - 'a' as int + 10)
    } else if 'A' <= c <= 'F' {
        Some(c as int - 'A' as int + 10)
    } else {
        None
    }
}

pub open spec fn all_nibbles(s: Seq<char>) -> bool {
    s.len() > 0 && forall|i: int| 0 <= i < s.len() ==> nibble(#[trigger] s[i]) is Some
}

/// The value of a string of hexadecimal digits.
pub open spec fn hex_value(s: Seq<char>) -> int
    decreases s.len(),
{
    if s.len() == 0 {
        0
    } else {
        hex_value(s.drop_last()) * 16 + nibble(s.last())->0
    }
}

/// A hexadecimal number of at most sixteen bits, with an optional plus sign.
pub open spec fn hex_u16(s: Seq<char>) -> Option<int> {
    let body = if s.len() > 0 && s[0] == '+' {
        s.skip(1)
    } else {
        s
    };
    if all_nibbles(body) && hex_value(body) <= u16::MAX {
        Some(hex_value(body))
    } else {
        None
    }
}

/// The id that a setting stands for, with or without `0x` in front.
pub open spec fn hex_id(raw: Seq<char>) -> Option<int> {
    hex_u16(text::stripped(text::stripped(text::trimmed(raw), "0x"@), "0X"@))
}

fn nibble_of(c: char) -> (v: Option<u32>)
    ensures
        match v {
            Some(n) => nibble(c) == Some(n as int) && n < 16,
            None => nibble(c) is None,
        },
{
    if '0' <= c && c <= '9' {
        Some(c as u32 - '0' as u32)
    } else if 'a' <= c && c <= 'f' {
        Some(c as u32 - 'a' as u32 + 10)
    } else if 'A' <= c && c <= 'F' {
        Some(c as u32 - 'A' as u32 + 10)
    } else {
        None
    }
}

proof fn lemma_hex_value_grows(s: Seq<char>, n: int)
    requires
        0 <= n <= s.len(),
        all_nibbles(s),
    ensures
        0 <= hex_value(s.take(n)) <= hex_value(s),
    decreases s.len(),
{
    if n == s.len() {
        assert(s.take(n) =~= s);
        if n > 0 {
            let t = s.drop_last();
            if t.len() > 0 {
                assert forall|i: int| 0 <= i < t.len() implies nibble(#[trigger] t[i]) is Some by {
                    assert(t[i] == s[i]);
                }
                lemma_hex_value_grows(t, t.len() as int);
                assert(t.take(t.len() as int) =~= t);
            }
            assert(nibble(s[n - 1]) is Some);
        }
    } else {
        let t = s.drop_last();
        assert(nibble(s[s.len() - 1]) is Some);
        if t.len() > 0 {
            assert forall|i: int| 0 <= i < t.len() implies nibble(#[trigger] t[i]) is Some by {
                assert(t[i] == s[i]);
            }
            lemma_hex_value_grows(t, n);
            assert(t.take(n) =~= s.take(n));
        } else {
            assert(s.take(n) =~= t);
        }
    }
}

fn read_hex_u16(s: &Vec<char>) -> (v: Option<u16>)
    ensures
        match v {
            Some(n) => hex_u16(s@) == Some(n as int),
            None => hex_u16(s@) is None,
        },
{
    let from: usize = if s.len() > 0 && s[0] == '+' {
        1
    } else {
        0
    };
    let ghost body = s@.skip(from as int);
    assert(s@.skip(0) =~= s@);
    if s.len() == from {
        return None;
    }
    let mut v: u32 = 0;
    let mut i: usize = from;
    assert(body.take(0) =~= Seq::<char>::empty());
    while i < s.len()
        invariant
            from <= i <= s@.len(),
            body == s@.skip(from as int),
            body.len() > 0,
            hex_u16(s@) == (if all_nibbles(body) && hex_value(body) <= u16::MAX {
                Some(hex_value(body))
            } else {
                None
            }),
            v <= u16::MAX,
            v == hex_value(body.take(i - from)),
            forall|j: int| 0 <= j < i - from ==> nibble(#[trigger] body[j]) is Some,
        decreases s@.len() - i,
    {
        let ghost k = i - from;
        assert(body[k] == s@[i as int]);
        match nibble_of(s[i]) {
            None => {
                assert(!all_nibbles(body));
                return None;
            },
            Some(d) => {
                v = v * 16 + d;
            },
        }
        proof {
            assert(body.take(k + 1).drop_last() =~= body.take(k));
            assert(body.take(k + 1).last() == body[k]);
            assert(v == hex_value(body.take(k + 1)));
        }
        if v > u16::MAX as u32 {
            proof {
                if all_nibbles(body) {
                    lemma_hex_value_grows(body, k + 1);
                }
            }
            return None;
        }
        i += 1;
    }
    assert(body.take(body.len() as int) =~= body);
    Some(v as u16)
}

/// The id that a setting stands for, where it was given and is a number.
pub fn env_hex_id(given: Option<&str>) -> (id: Option<u16>)
    ensures
        match (id, text::chars_if_any(given)) {
            (Some(n), Some(raw)) => hex_id(raw) == Some(n as int),
            (None, Some(raw)) => hex_id(raw) is None,
            (Some(_), None) => false,
            (None, None) => true,
        },
{
    match given {
        None => None,
        Some(raw) => {
            let t: Vec<char> = text::trim(&text::chars_of(raw));
            let t: Vec<char> = text::strip_all(&t, "0x");
            let t: Vec<char> = text::strip_all(&t, "0X");
            read_hex_u16(&t)
        },
    }
}

/// The id in a setting, else the default.
pub open spec fn id_or(given: Option<Seq<char>>, default: int) -> int {
    match given {
        Some(raw) => match hex_id(raw) {
            Some(n) => n,
            None => default,
        },
        None => default,
    }
}

/// Vendor and product id of the emitter, which the user may override.
pub fn emitter_ids(vid: Option<&str>, pid: Option<&str>) -> (ids: (u16, u16))
    ensures
        ids.0 == id_or(text::chars_if_any(vid), NVSTUSB_VID as int),
        ids.1 == id_or(text::chars_if_any(pid), NVSTUSB_PID as int),
{
    let v: u16 = match env_hex_id(vid) {
        Some(v) => v,
        None => NVSTUSB_VID,
    };
    let p: u16 = match env_hex_id(pid) {
        Some(p) => p,
        None => NVSTUSB_PID,
    };
    (v, p)
}

// ---------------------------------------------------------------------------
// The device to open
// ---------------------------------------------------------------------------

/// A device on the bus.
#[derive(Clone, Copy, Debug, PartialEq, Eq, Structural)]
pub struct BusDevice {
    pub vendor: u16,
    pub product: u16,
}

/// Whether such a device is on the bus.
pub fn device_present(bus: &Vec<BusDevice>, vid: u16, pid: u16) -> (b: bool)
    ensures
        b == bus@.contains(BusDevice { vendor: vid, product: pid }),
{
    let mut i: usize = 0;
    while i < bus.len()
        invariant
            i <= bus@.len(),
            forall|j: int|
                0 <= j < i ==> #[trigger] bus@[j] != (BusDevice { vendor: vid, product: pid }),
        decreases bus@.len() - i,
    {
        if bus[i].vendor == vid && bus[i].product == pid {
            assert(bus@[i as int] == BusDevice { vendor: vid, product: pid });
            return true;
        }
        i += 1;
    }
    false
}

/// The product ids of NVIDIA's devices among the first `n` of the bus, each
/// once and in the order of the bus, without `except`.
pub open spec fn nvidia_pids(bus: Seq<BusDevice>, except: u16, n: nat) -> Seq<u16>
    decreases n,
{
    if n == 0 {
        Seq::empty()
    } else {
        let so_far = nvidia_pids(bus, except, (n - 1) as nat);
        let d = bus[n - 1];
        if d.vendor == NVSTUSB_VID && d.product != except && !so_far.contains(d.product) {
            so_far.push(d.product)
        } else {
            so_far
        }
    }
}

pub open spec fn is_other() -> spec_fn(u16) -> bool {
    |p: u16| !NVIDIA_ALT_PIDS@.contains(p)
}

pub open spec fn is_among(found: Seq<u16>) -> spec_fn(u16) -> bool {
    |p: u16| found.contains(p)
}

/// The known alternates that were found, in their own order, and then the
/// others in the order in which they were found.
pub open spec fn probe_ranked(found: Seq<u16>) -> Seq<u16> {
    NVIDIA_ALT_PIDS@.filter(is_among(found)) + found.filter(is_other())
}

fn holds(v: &Vec<u16>, p: u16) -> (b: bool)
    ensures
        b == v@.contains(p),
{
    let mut i: usize = 0;
    while i < v.len()
        invariant
            i <= v@.len(),
            forall|j: int| 0 <= j < i ==> #[trigger] v@[j] != p,
        decreases v@.len() - i,
    {
        if v[i] == p {
            assert(v@[i as int] == p);
            return true;
        }
        i += 1;
    }
    false
}

fn is_alt_pid(p: u16) -> (b: bool)
    ensures
        b == NVIDIA_ALT_PIDS@.contains(p),
{
    let alt: [u16; 10] = NVIDIA_ALT_PIDS;
    let mut i: usize = 0;
    while i < 10
        invariant
            i <= 10,
            alt == NVIDIA_ALT_PIDS,
            forall|j: int| 0 <= j < i ==> #[trigger] alt@[j] != p,
        decreases 10 - i,
    {
        if alt[i] == p {
            assert(alt@[i as int] == p);
            return true;
        }
        i += 1;
    }
    false
}

/// Every product id on the bus under NVIDIA's vendor id but `except`, known
/// alternates first.
pub fn nvidia_pids_on_bus(bus: &Vec<BusDevice>, except: u16) -> (pids: Vec<u16>)
    ensures
        pids@ == probe_ranked(nvidia_pids(bus@, except, bus@.len())),
{
    let mut found: Vec<u16> = Vec::new();
    let mut i: usize = 0;
    while i < bus.len()
        invariant
            i <= bus@.len(),
            found@ == nvidia_pids(bus@, except, i as nat),
        decreases bus@.len() - i,
    {
        let d: BusDevice = bus[i];
        if d.vendor == NVSTUSB_VID && d.product != except && !holds(&found, d.product) {
            found.push(d.product);
        }
        i += 1;
    }
    let ghost all = found@;
    let alt: [u16; 10] = NVIDIA_ALT_PIDS;
    let mut pids: Vec<u16> = Vec::new();
    let mut i: usize = 0;
    proof {
        reveal(Seq::filter);
        assert(alt@.take(0).filter(is_among(all)) =~= Seq::<u16>::empty());
    }
    while i < 10
        invariant
            i <= 10,
            alt == NVIDIA_ALT_PIDS,
            found@ == all,
            pids@ == alt@.take(i as int).filter(is_among(all)),
        decreases 10 - i,
    {
        proof {
            assert(alt@.take(i + 1) =~= alt@.take(i as int).push(alt@[i as int]));
            alt@.take(i as int).lemma_filter_push(alt@[i as int], is_among(all));
        }
        if holds(&found, alt[i]) {
            pids.push(alt[i]);
        }
        i += 1;
    }
    assert(alt@.take(10) =~= alt@);
    let ghost known = pids@;
    let mut i: usize = 0;
    proof {
        reveal(Seq::filter);
        assert(all.take(0).filter(is_other()) =~= Seq::<u16>::empty());
        assert(known + Seq::<u16>::empty() =~= known);
    }
    while i < found.len()
        invariant
            i <= found@.len(),
            found@ == all,
            pids@ == known + all.take(i as int).filter(is_other()),
        decreases found@.len() - i,
    {
        let ghost before = all.take(i as int).filter(is_other());
        proof {
            assert(all.take(i + 1) =~= all.take(i as int).push(all[i as int]));
            all.take(i as int).lemma_filter_push(all[i as int], is_other());
        }
        if !is_alt_pid(found[i]) {
            pids.push(found[i]);
            assert(known + before.push(all[i as int]) =~= (known + before).push(all[i as int]));
        }
        i += 1;
    }
    assert(all.take(all.len() as int) =~= all);
    pids
}

/// The product ids to try, in order: the emitter's own, and then, unless the
/// user pinned an id, any other NVIDIA device on the bus.
pub fn candidates(pid: u16, pinned: bool, bus: &Vec<BusDevice>) -> (order: Vec<u16>)
    ensures
        order@ == (if pinned {
            seq![pid]
        } else {
            seq![pid] + probe_ranked(nvidia_pids(bus@, pid, bus@.len()))
        }),
{
    let mut order: Vec<u16> = Vec::new();
    order.push(pid);
    if !pinned {
        let more: Vec<u16> = nvidia_pids_on_bus(bus, pid);
        let mut i: usize = 0;
        while i < more.len()
            invariant
                i <= more@.len(),
                order@ =~= seq![pid] + more@.take(i as int),
            decreases more@.len() - i,
        {
            order.push(more[i]);
            i += 1;
        }
        assert(more@.take(more@.len() as int) =~= more@);
    }
    order
}

/// Every NVIDIA device of the bus is tried, no product id twice, and the
/// emitter's own first.
pub proof fn every_candidate_is_tried_once(bus: Seq<BusDevice>, pid: u16)
    ensures
        ({
            let order = seq![pid] + probe_ranked(nvidia_pids(bus, pid, bus.len()));
            &&& order[0] == pid
            &&& order.no_duplicates()
            &&& forall|i: int|
                0 <= i < bus.len() && (#[trigger] bus[i]).vendor == NVSTUSB_VID ==> order.contains(
                    bus[i].product,
                )
        }),
{
    broadcast use vstd::seq_lib::group_filter_ensures;

    let found = nvidia_pids(bus, pid, bus.len());
    lemma_nvidia_pids(bus, pid, bus.len());
    let known = NVIDIA_ALT_PIDS@.filter(is_among(found));
    let rest = found.filter(is_other());
    let order = seq![pid] + (known + rest);
    lemma_alternates_differ();
    lemma_filter_distinct(NVIDIA_ALT_PIDS@, is_among(found));
    lemma_filter_distinct(found, is_other());
    assert forall|i: int| 0 <= i < known.len() implies found.contains(#[trigger] known[i])
        && NVIDIA_ALT_PIDS@.contains(known[i]) by {
        assert(known.contains(known[i]));
        NVIDIA_ALT_PIDS@.lemma_filter_contains_rev(is_among(found), known[i]);
        assert(is_among(found)(known[i]));
    }
    assert forall|i: int| 0 <= i < rest.len() implies found.contains(#[trigger] rest[i])
        && !NVIDIA_ALT_PIDS@.contains(rest[i]) by {
        assert(rest.contains(rest[i]));
        found.lemma_filter_contains_rev(is_other(), rest[i]);
        assert(is_other()(rest[i]));
    }
    assert forall|i: int, j: int| 0 <= i < order.len() && 0 <= j < order.len() && i != j implies order[i]
        != order[j] by {
        let lo = if i < j {
            i
        } else {
            j
        };
        let hi = if i < j {
            j
        } else {
            i
        };
        if lo == 0 {
            if hi <= known.len() {
                assert(order[hi] == known[hi - 1]);
            } else {
                assert(order[hi] == rest[hi - 1 - known.len()]);
            }
        } else if hi <= known.len() {
            assert(order[lo] == known[lo - 1] && order[hi] == known[hi - 1]);
        } else if lo > known.len() {
            assert(order[lo] == rest[lo - 1 - known.len()]);
            assert(order[hi] == rest[hi - 1 - known.len()]);
        } else {
            assert(order[lo] == known[lo - 1]);
            assert(order[hi] == rest[hi - 1 - known.len()]);
        }
    }
    assert forall|i: int|
        0 <= i < bus.len() && (#[trigger] bus[i]).vendor == NVSTUSB_VID implies order.contains(
        bus[i].product,
    ) by {
        let p = bus[i].product;
        if p == pid {
            assert(order[0] == pid);
        } else {
            assert(found.contains(p));
            if NVIDIA_ALT_PIDS@.contains(p) {
                assert(is_among(found)(p));
                assert(known.contains(p));
                let k = choose|k: int| 0 <= k < known.len() && known[k] == p;
                assert(order[k + 1] == p);
            } else {
                assert(is_other()(p));
                assert(rest.contains(p));
                let k = choose|k: int| 0 <= k < rest.len() && rest[k] == p;
                assert(order[1 + known.len() + k] == p);
            }
        }
    }
}

proof fn lemma_nvidia_pids(bus: Seq<BusDevice>, except: u16, n: nat)
    requires
        n <= bus.len(),
    ensures
        nvidia_pids(bus, except, n).no_duplicates(),
        !nvidia_pids(bus, except, n).contains(except),
        forall|i: int|
            0 <= i < n && (#[trigger] bus[i]).vendor == NVSTUSB_VID && bus[i].product != except
                ==> nvidia_pids(bus, except, n).contains(bus[i].product),
    decreases n,
{
    if n > 0 {
        lemma_nvidia_pids(bus, except, (n - 1) as nat);
        let so_far = nvidia_pids(bus, except, (n - 1) as nat);
        let all = nvidia_pids(bus, except, n);
        assert forall|p: u16| so_far.contains(p) implies #[trigger] all.contains(p) by {
            let k = choose|k: int| 0 <= k < so_far.len() && so_far[k] == p;
            assert(all[k] == p);
        }
        let d = bus[n - 1];
        if d.vendor == NVSTUSB_VID && d.product != except && !so_far.contains(d.product) {
            assert(all[all.len() - 1] == d.product);
            assert(all.no_duplicates()) by {
                assert forall|i: int, j: int|
                    0 <= i < all.len() && 0 <= j < all.len() && i != j implies all[i] != all[j] by {
                    if i < so_far.len() {
                        assert(so_far.contains(so_far[i]));
                    }
                    if j < so_far.len() {
                        assert(so_far.contains(so_far[j]));
                    }
                }
            }
            assert(!all.contains(except)) by {
                assert forall|i: int| 0 <= i < all.len() implies all[i] != except by {
                    if i < so_far.len() {
                        assert(so_far.contains(so_far[i]));
                    }
                }
            }
        }
    }
}

proof fn lemma_alternates_differ()
    ensures
        NVIDIA_ALT_PIDS@.no_duplicates(),
{
    let a = NVIDIA_ALT_PIDS@;
    assert(a =~= seq![
        0x7001u16, 0x7002u16, 0x7003u16, 0x7004u16, 0x7008u16, 0x7009u16, 0x700Au16, 0x700Cu16,
        0x700Du16, 0x700Eu16,
    ]);
}

proof fn lemma_filter_distinct(s: Seq<u16>, keep: spec_fn(u16) -> bool)
    requires
        s.no_duplicates(),
    ensures
        s.filter(keep).no_duplicates(),
    decreases s.len(),
{
    broadcast use vstd::seq_lib::group_filter_ensures;

    reveal(Seq::filter);
    if s.len() > 0 {
        let t = s.drop_last();
        lemma_filter_distinct(t, keep);
        let f = t.filter(keep);
        assert forall|i: int| 0 <= i < f.len() implies #[trigger] f[i] != s.last() by {
            assert(f.contains(f[i]));
            t.lemma_filter_contains_rev(keep, f[i]);
        }
    }
}

/// What the active configuration of a device looks like.
#[derive(Clone, Copy, Debug, PartialEq, Eq, Structural)]
pub enum ActiveConfig {
    /// It could not be read: there is none.
    Missing,
    /// It has no interface.
    NoInterface,
    /// Its first interface has that many endpoints.
    Endpoints(u8),
}

/// Whether the device waits for its firmware.  A device without an active
/// configuration runs from flash; one whose configuration has no endpoint is
/// bare.
pub fn needs_firmware(config: ActiveConfig) -> (b: bool)
    ensures
        b == (config is NoInterface || config == ActiveConfig::Endpoints(0)),
{
    match config {
        ActiveConfig::Missing => false,
        ActiveConfig::NoInterface => true,
        ActiveConfig::Endpoints(n) => n == 0,
    }
}

/// Why no emitter was opened.
#[derive(Clone, Copy, Debug, PartialEq, Eq, Structural)]
pub enum OpenFailure {
    /// It is there, but may not be opened.
    Permissions,
    /// Others were tried too, or the user pinned one.
    NoneUsable,
    /// There is none.
    NotFound,
}

/// Why no emitter was opened.
pub fn open_failure(primary_present: bool, tried: usize, pinned: bool) -> (f: OpenFailure)
    ensures
        f == (if primary_present {
            OpenFailure::Permissions
        } else if tried > 1 || pinned {
            OpenFailure::NoneUsable
        } else {
            OpenFailure::NotFound
        }),
{
    if primary_present {
        OpenFailure::Permissions
    } else if tried > 1 || pinned {
        OpenFailure::NoneUsable
    } else {
        OpenFailure::NotFound
    }
}

// ---------------------------------------------------------------------------
// Packets
// ---------------------------------------------------------------------------

/// The bits of a signed word.
pub open spec fn word_of(v: i32) -> int {
    if v < 0 {
        v + 0x1_0000_0000
    } else {
        v as int
    }
}

/// The signed word with those bits.
pub open spec fn signed_word(u: int) -> int {
    if u >= 0x8000_0000 {
        u - 0x1_0000_0000
    } else {
        u
    }
}

/// The four bytes of a word, low byte first.
pub open spec fn le4(u: int) -> Seq<u8> {
    seq![
        (u % 256) as u8,
        (u / 256 % 256) as u8,
        (u / 0x1_0000 % 256) as u8,
        (u / 0x100_0000 % 256) as u8,
    ]
}

/// The word at `at`, low byte first.
pub open spec fn le_at(s: Seq<u8>, at: int) -> int {
    s[at] + s[at + 1] * 256 + s[at + 2] * 0x1_0000 + s[at + 3] * 0x100_0000
}

fn le_bytes(u: u32) -> (b: [u8; 4])
    ensures
        b@ == le4(u as int),
{
    let b: [u8; 4] = [
        (u % 256) as u8,
        (u / 256 % 256) as u8,
        (u / 0x1_0000 % 256) as u8,
        (u / 0x100_0000 % 256) as u8,
    ];
    assert(b@ =~= le4(u as int));
    b
}

fn to_word(v: i32) -> (u: u32)
    ensures
        u == word_of(v),
{
    if v < 0 {
        (v as i64 + 0x1_0000_0000) as u32
    } else {
        v as u32
    }
}

fn word_at(s: &[u8], at: usize) -> (v: i32)
    requires
        at + 4 <= s@.len(),
    ensures
        v == signed_word(le_at(s@, at as int)),
{
    let u: i64 = s[at] as i64 + s[at + 1] as i64 * 256 + s[at + 2] as i64 * 0x1_0000 + s[at + 3]
        as i64 * 0x100_0000;
    if u >= 0x8000_0000 {
        (u - 0x1_0000_0000) as i32
    } else {
        u as i32
    }
}

proof fn lemma_le4(u: int)
    requires
        0 <= u < 0x1_0000_0000,
    ensures
        le_at(le4(u), 0) == u,
{
}

/// Timer reloads of the shutter: the second timer counter, the delay to the
/// opening edge, the open window and the frame time.
#[derive(Clone, Copy, Debug, PartialEq, Eq, Structural)]
pub struct TimerCounts {
    pub w: i32,
    pub x: i32,
    pub y: i32,
    pub z: i32,
}

/// The block that writes the shutter timings.
pub open spec fn block_bytes(c: TimerCounts) -> Seq<u8> {
    seq![0x01u8, 0x00, 0x18, 0x00] + le4(word_of(c.w)) + le4(word_of(c.x)) + le4(word_of(c.y))
        + seq![0x30u8, 0x28, 0x24, 0x22, 0x0a, 0x08, 0x05, 0x04] + le4(word_of(c.z))
}

/// The block that writes the shutter timings: twenty-four bytes for the timer
/// registers, with the shutter and port toggles between the third and the
/// fourth reload.
pub fn timings_block(c: TimerCounts) -> (b: [u8; 28])
    ensures
        b@ == block_bytes(c),
{
    let w: [u8; 4] = le_bytes(to_word(c.w));
    let x: [u8; 4] = le_bytes(to_word(c.x));
    let y: [u8; 4] = le_bytes(to_word(c.y));
    let z: [u8; 4] = le_bytes(to_word(c.z));
    let b: [u8; 28] = [
        0x01, 0x00, 0x18, 0x00, w[0], w[1], w[2], w[3], x[0], x[1], x[2], x[3], y[0], y[1], y[2],
        y[3], 0x30, 0x28, 0x24, 0x22, 0x0a, 0x08, 0x05, 0x04, z[0], z[1], z[2], z[3],
    ];
    assert(b@ =~= block_bytes(c));
    b
}

/// The reloads in a read-back of the timing registers.
pub open spec fn echoed(resp: Seq<u8>) -> Option<Seq<int>> {
    if resp.len() < 32 || resp.take(4) != seq![0x00u8, 0x1c, 0x00, 0x04] {
        None
    } else {
        Some(
            seq![
                signed_word(le_at(resp, 4)),
                signed_word(le_at(resp, 8)),
                signed_word(le_at(resp, 12)),
                signed_word(le_at(resp, 24)),
            ],
        )
    }
}

pub open spec fn counts(v: Seq<i32>) -> Seq<int> {
    v.map_values(|c: i32| c as int)
}

/// Reads the answer to a read-back of the timing registers: four bytes of head
/// and the register block.  An answer of another shape is none.
pub fn parse_timings_response(resp: &[u8]) -> (v: Option<[i32; 4]>)
    ensures
        match v {
            Some(c) => echoed(resp@) == Some(counts(c@)),
            None => echoed(resp@) is None,
        },
{
    if resp.len() < 32 {
        return None;
    }
    let fits: bool = resp[0] == 0x00 && resp[1] == 0x1c && resp[2] == 0x00 && resp[3] == 0x04;
    proof {
        let head = resp@.take(4);
        assert(head[0] == resp@[0] && head[1] == resp@[1] && head[2] == resp@[2] && head[3]
            == resp@[3]);
        if fits {
            assert(head =~= seq![0x00u8, 0x1c, 0x00, 0x04]);
        }
    }
    if !fits {
        return None;
    }
    let v: [i32; 4] = [word_at(resp, 4), word_at(resp, 8), word_at(resp, 12), word_at(resp, 24)];
    assert(counts(v@) =~= seq![
        signed_word(le_at(resp@, 4)),
        signed_word(le_at(resp@, 8)),
        signed_word(le_at(resp@, 12)),
        signed_word(le_at(resp@, 24)),
    ]);
    Some(v)
}

/// The answer of a device that stored a block: the head, the block's registers
/// and four bytes of padding.
pub open spec fn answer(c: TimerCounts, padding: Seq<u8>) -> Seq<u8> {
    seq![0x00u8, 0x1c, 0x00, 0x04] + block_bytes(c).skip(4) + padding
}

/// What was written is read back, whatever the padding holds.
pub proof fn written_timings_read_back(c: TimerCounts, padding: Seq<u8>)
    requires
        padding.len() == 4,
    ensures
        echoed(answer(c, padding)) == Some(seq![c.w as int, c.x as int, c.y as int, c.z as int]),
{
    let r = answer(c, padding);
    let b = block_bytes(c);
    assert(r.len() == 32);
    assert(r.take(4) =~= seq![0x00u8, 0x1c, 0x00, 0x04]);
    assert(forall|i: int| 4 <= i < 28 ==> r[i] == b[i]);
    assert(r.subrange(4, 8) =~= le4(word_of(c.w)));
    assert(r.subrange(8, 12) =~= le4(word_of(c.x)));
    assert(r.subrange(12, 16) =~= le4(word_of(c.y)));
    assert(r.subrange(24, 28) =~= le4(word_of(c.z)));
    lemma_le4(word_of(c.w));
    lemma_le4(word_of(c.x));
    lemma_le4(word_of(c.y));
    lemma_le4(word_of(c.z));
    lemma_word_at(r, 4);
    lemma_word_at(r, 8);
    lemma_word_at(r, 12);
    lemma_word_at(r, 24);
}

proof fn lemma_word_at(s: Seq<u8>, at: int)
    requires
        0 <= at,
        at + 4 <= s.len(),
    ensures
        le_at(s, at) == le_at(s.subrange(at, at + 4), 0),
{
    let t = s.subrange(at, at + 4);
    assert(t[0] == s[at] && t[1] == s[at + 1] && t[2] == s[at + 2] && t[3] == s[at + 3]);
}

/// Whether the device stored the block that was written: it answered with the
/// same reloads.
pub fn timings_verified(written: &[u8; 28], back: Option<[i32; 4]>) -> (b: bool)
    ensures
        b == (back is Some && counts(back->0@) == seq![
            signed_word(le_at(written@, 4)),
            signed_word(le_at(written@, 8)),
            signed_word(le_at(written@, 12)),
            signed_word(le_at(written@, 24)),
        ]),
{
    let block: &[u8] = written;
    let w: i32 = word_at(block, 4);
    let x: i32 = word_at(block, 8);
    let y: i32 = word_at(block, 12);
    let z: i32 = word_at(block, 24);
    match back {
        None => false,
        Some(v) => {
            let ghost c = counts(v@);
            let same: bool = v[0] == w && v[1] == x && v[2] == y && v[3] == z;
            proof {
                let e = seq![w as int, x as int, y as int, z as int];
                assert(c[0] == v@[0] && c[1] == v@[1] && c[2] == v@[2] && c[3] == v@[3]);
                if same {
                    assert(c =~= e);
                } else {
                    assert(e[0] == w && e[1] == x && e[2] == y && e[3] == z);
                }
            }
            same
        },
    }
}

/// The reloads that a read-back is held against are the ones that the written
/// block carries.
pub proof fn only_the_written_reloads_verify(c: TimerCounts)
    ensures
        ({
            let b = block_bytes(c);
            &&& signed_word(le_at(b, 4)) == c.w
            &&& signed_word(le_at(b, 8)) == c.x
            &&& signed_word(le_at(b, 12)) == c.y
            &&& signed_word(le_at(b, 24)) == c.z
        }),
{
    let b = block_bytes(c);
    let padding = seq![0u8, 0, 0, 0];
    let r = answer(c, padding);
    written_timings_read_back(c, padding);
    let v = echoed(r)->0;
    assert(forall|i: int| 4 <= i < 28 ==> r[i] == b[i]);
    assert(v[0] == c.w && v[1] == c.x && v[2] == c.y && v[3] == c.z);
}

/// Asks for the timing registers.
pub fn timings_query() -> (b: [u8; 4])
    ensures
        b@ == seq![0x02u8, 0x00, 0x1c, 0x00],
{
    let b: [u8; 4] = [0x02, 0x00, 0x1c, 0x00];
    assert(b@ =~= seq![0x02u8, 0x00, 0x1c, 0x00]);
    b
}

/// How often the timing registers are asked for.
pub const TIMINGS_READ_TRIES: u32 = 3;

/// How a read-back goes on.
#[derive(Clone, Copy, Debug, PartialEq, Eq)]
pub enum ReadStep {
    /// These are the registers.
    Done([i32; 4]),
    /// Ask again.
    Again,
    /// Give up.
    GiveUp,
}

/// What to do after the `asked`-th answer, `None` standing for a failed read.
/// A short or foreign answer was left over from an earlier command, and is
/// dropped.
pub fn read_step(asked: u32, resp: Option<&[u8]>) -> (s: ReadStep)
    ensures
        ({
            let echo = match resp {
                Some(r) => echoed(r@),
                None => None,
            };
            match s {
                ReadStep::Done(v) => echo == Some(counts(v@)),
                ReadStep::Again => echo is None && asked < TIMINGS_READ_TRIES,
                ReadStep::GiveUp => echo is None && asked >= TIMINGS_READ_TRIES,
            }
        }),
{
    if let Some(r) = resp {
        if let Some(v) = parse_timings_response(r) {
            return ReadStep::Done(v);
        }
    }
    if asked < TIMINGS_READ_TRIES {
        ReadStep::Again
    } else {
        ReadStep::GiveUp
    }
}

/// The commands that follow the timings when the emitter is set up: the
/// register `0x1c`, the timeout, and the switch to driver mode.
pub fn configure_commands(timeout: u16) -> (c: ([u8; 6], [u8; 6], [u8; 5]))
    ensures
        c.0@ == seq![0x01u8, 0x1c, 0x02, 0x00, 0x02, 0x00],
        c.1@ == seq![
            0x01u8,
            0x1e,
            0x02,
            0x00,
            (timeout % 256) as u8,
            (timeout / 256) as u8,
        ],
        c.2@ == seq![0x01u8, 0x1b, 0x01, 0x00, 0x07],
{
    let a: [u8; 6] = [0x01, 0x1c, 0x02, 0x00, 0x02, 0x00];
    let t: [u8; 6] = [0x01, 0x1e, 0x02, 0x00, (timeout % 256) as u8, (timeout / 256) as u8];
    let e: [u8; 5] = [0x01, 0x1b, 0x01, 0x00, 0x07];
    assert(a@ =~= seq![0x01u8, 0x1c, 0x02, 0x00, 0x02, 0x00]);
    assert(t@ =~= seq![
        0x01u8,
        0x1e,
        0x02,
        0x00,
        (timeout % 256) as u8,
        (timeout / 256) as u8,
    ]);
    assert(e@ =~= seq![0x01u8, 0x1b, 0x01, 0x00, 0x07]);
    (a, t, e)
}

/// Register of the delay from packet to infrared.
pub const REGISTER_ALARM_DELAY: u8 = 0x23;
/// Register of the gap between tokens.
pub const REGISTER_FRAME_DURATION: u8 = 0x24;

/// Writes a word to a control register.
pub fn register_write(register: u8, value: u32) -> (b: [u8; 8])
    ensures
        b@ == seq![0x01u8, register, 0x04, 0x00] + le4(value as int),
{
    let v: [u8; 4] = le_bytes(value);
    let b: [u8; 8] = [0x01, register, 0x04, 0x00, v[0], v[1], v[2], v[3]];
    assert(b@ =~= seq![0x01u8, register, 0x04, 0x00] + le4(value as int));
    b
}

/// Chooses the order of a token pair.
pub fn pair_order_write(close_then_open: bool) -> (b: [u8; 5])
    ensures
        b@ == seq![0x01u8, 0x25, 0x01, 0x00, if close_then_open {
            1u8
        } else {
            0u8
        }],
{
    let order: u8 = if close_then_open {
        1
    } else {
        0
    };
    let b: [u8; 5] = [0x01, 0x25, 0x01, 0x00, order];
    assert(b@ =~= seq![0x01u8, 0x25, 0x01, 0x00, order]);
    b
}

/// Fires one eye's shutter.  `count` is the reload of the frame timer.
pub fn eye_packet(right: bool, count: u32) -> (b: [u8; 8])
    ensures
        b@ == seq![0xAAu8, if right {
            0xFEu8
        } else {
            0xFFu8
        }, 0x00, 0x00] + le4(count as int),
{
    let v: [u8; 4] = le_bytes(count);
    let select: u8 = if right {
        0xFE
    } else {
        0xFF
    };
    let b: [u8; 8] = [0xAA, select, 0x00, 0x00, v[0], v[1], v[2], v[3]];
    assert(b@ =~= seq![0xAAu8, select, 0x00, 0x00] + le4(count as int));
    b
}

/// Reads and clears the state of the button and the wheel.
pub fn keys_query() -> (b: [u8; 4])
    ensures
        b@ == seq![0x42u8, 0x18, 0x03, 0x00],
{
    let b: [u8; 4] = [0x42, 0x18, 0x03, 0x00];
    assert(b@ =~= seq![0x42u8, 0x18, 0x03, 0x00]);
    b
}

} // verus!
