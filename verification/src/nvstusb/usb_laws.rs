//! What the emitter's ids, registers and figures promise.

use crate::nvstusb;
use crate::nvstusb::drm;
use crate::nvstusb::usb;
use crate::nvstusb::usb::{BusDevice, TimerCounts, NVIDIA_ALT_PIDS, NVSTUSB_VID};
use crate::nvstusb::PresentStats;
use crate::text;
use crate::text_laws;
use vstd::prelude::*;

verus! {

/// An id can be written in four hexadecimal digits, with or without `0x` in
/// front, and means the same; a setting that is no id counts as none.
pub proof fn an_id_reads_with_or_without_its_prefix(n: u16, default: int)
    ensures
        usb::hex_id(text::hex4(n)) == Some(n as int),
        usb::hex_id("0x"@ + text::hex4(n)) == Some(n as int),
        usb::hex_id("0X"@ + text::hex4(n)) == Some(n as int),
        usb::id_or(Some(text::hex4(n)), default) == n,
        usb::id_or(None, default) == default,
        usb::hex_id(Seq::<char>::empty()) is None,
        usb::id_or(Some(Seq::<char>::empty()), default) == default,
{
    reveal_strlit("0x");
    reveal_strlit("0X");
    let s = text::hex4(n);
    text_laws::four_hex_digits_read_back(n);
    assert(forall|i: int| 0 <= i < 4 ==> usb::nibble(#[trigger] s[i]) is Some) by {
        assert(s[0] == text::hex_digit(n as int / 4096));
        assert(s[1] == text::hex_digit(n as int / 256 % 16));
        assert(s[2] == text::hex_digit(n as int / 16 % 16));
        assert(s[3] == text::hex_digit(n as int % 16));
    }
    lemma_digits_stay(s);
    let a = "0x"@ + s;
    let b = "0X"@ + s;
    lemma_solid(s);
    assert forall|i: int| 0 <= i < a.len() implies !text::is_space(#[trigger] a[i]) by {
        if i >= 2 {
            assert(a[i] == s[i - 2]);
            assert(usb::nibble(s[i - 2]) is Some);
        }
    }
    assert forall|i: int| 0 <= i < b.len() implies !text::is_space(#[trigger] b[i]) by {
        if i >= 2 {
            assert(b[i] == s[i - 2]);
            assert(usb::nibble(s[i - 2]) is Some);
        }
    }
    text::trimming_keeps_solid_text(a);
    text::trimming_keeps_solid_text(b);
    text::trimming_keeps_solid_text(s);
    text_laws::stripping_takes_every_repetition(s, "0x"@);
    text_laws::stripping_takes_every_repetition(s, "0X"@);
    assert(!text::has_prefix(b, "0x"@)) by {
        assert(b.take(2)[1] == 'X');
        assert("0x"@[1] == 'x');
    }
    assert(text::stripped(b, "0x"@) == b);
    let e = Seq::<char>::empty();
    assert(text::trimmed(e) == e);
    assert(text::stripped(e, "0x"@) == e);
    assert(text::stripped(e, "0X"@) == e);
}

proof fn lemma_solid(s: Seq<char>)
    requires
        forall|i: int| 0 <= i < s.len() ==> usb::nibble(#[trigger] s[i]) is Some,
    ensures
        forall|i: int| 0 <= i < s.len() ==> !text::is_space(#[trigger] s[i]),
{
    assert forall|i: int| 0 <= i < s.len() implies !text::is_space(#[trigger] s[i]) by {
        assert(usb::nibble(s[i]) is Some);
    }
}

proof fn lemma_digits_stay(s: Seq<char>)
    requires
        s.len() == 4,
        forall|i: int| 0 <= i < s.len() ==> usb::nibble(#[trigger] s[i]) is Some,
    ensures
        !text::has_prefix(s, "0x"@),
        !text::has_prefix(s, "0X"@),
        text::stripped(s, "0x"@) == s,
        text::stripped(s, "0X"@) == s,
{
    reveal_strlit("0x");
    reveal_strlit("0X");
    assert(usb::nibble(s[1]) is Some);
    assert(s.take(2)[1] == s[1]);
    assert("0x"@[1] == 'x');
    assert("0X"@[1] == 'X');
}

/// Every device that is tried, apart from the pinned one, is NVIDIA's and on the
/// bus; the known alternates come before all others.
pub proof fn only_devices_on_the_bus_are_tried(bus: Seq<BusDevice>, pid: u16, i: int)
    requires
        0 <= i < usb::probe_ranked(usb::nvidia_pids(bus, pid, bus.len())).len(),
    ensures
        ({
            let ranked = usb::probe_ranked(usb::nvidia_pids(bus, pid, bus.len()));
            &&& ranked[i] != pid
            &&& exists|k: int|
                0 <= k < bus.len() && (#[trigger] bus[k]).vendor == NVSTUSB_VID && bus[k].product
                    == ranked[i]
            &&& NVIDIA_ALT_PIDS@.contains(ranked[i]) ==> forall|j: int|
                0 <= j < i ==> NVIDIA_ALT_PIDS@.contains(#[trigger] ranked[j])
        }),
{
    broadcast use vstd::seq_lib::group_filter_ensures;

    let found = usb::nvidia_pids(bus, pid, bus.len());
    let known = NVIDIA_ALT_PIDS@.filter(usb::is_among(found));
    let rest = found.filter(usb::is_other());
    let ranked = usb::probe_ranked(found);
    assert forall|j: int| 0 <= j < known.len() implies found.contains(#[trigger] known[j])
        && NVIDIA_ALT_PIDS@.contains(known[j]) by {
        assert(usb::is_among(found)(known[j]));
        assert(known.contains(known[j]));
        NVIDIA_ALT_PIDS@.lemma_filter_contains_rev(usb::is_among(found), known[j]);
    }
    assert forall|j: int| 0 <= j < rest.len() implies found.contains(#[trigger] rest[j])
        && !NVIDIA_ALT_PIDS@.contains(rest[j]) by {
        assert(usb::is_other()(rest[j]));
        assert(rest.contains(rest[j]));
        found.lemma_filter_contains_rev(usb::is_other(), rest[j]);
    }
    if i < known.len() {
        assert(ranked[i] == known[i]);
    } else {
        assert(ranked[i] == rest[i - known.len()]);
    }
    let k = choose|k: int| 0 <= k < found.len() && found[k] == ranked[i];
    lemma_found_on_the_bus(bus, pid, bus.len(), k);
    if NVIDIA_ALT_PIDS@.contains(ranked[i]) {
        assert forall|j: int| 0 <= j < i implies NVIDIA_ALT_PIDS@.contains(#[trigger] ranked[j]) by {
            assert(ranked[j] == known[j]);
        }
    }
}

proof fn lemma_found_on_the_bus(bus: Seq<BusDevice>, except: u16, n: nat, k: int)
    requires
        n <= bus.len(),
        0 <= k < usb::nvidia_pids(bus, except, n).len(),
    ensures
        usb::nvidia_pids(bus, except, n)[k] != except,
        exists|i: int|
            0 <= i < bus.len() && (#[trigger] bus[i]).vendor == NVSTUSB_VID && bus[i].product
                == usb::nvidia_pids(bus, except, n)[k],
    decreases n,
{
    let so_far = usb::nvidia_pids(bus, except, (n - 1) as nat);
    if k < so_far.len() {
        lemma_found_on_the_bus(bus, except, (n - 1) as nat, k);
    } else {
        assert(bus[n - 1].vendor == NVSTUSB_VID);
    }
}

/// Words go out low byte first, and a word and its bits stand for each other.
pub proof fn words_go_out_low_byte_first(u: int, v: i32)
    requires
        0 <= u < 0x1_0000_0000,
    ensures
        usb::le4(u).len() == 4,
        usb::le_at(usb::le4(u), 0) == u,
        usb::le4(u)[0] == u % 256,
        u < 256 ==> usb::le4(u) == seq![u as u8, 0u8, 0u8, 0u8],
        usb::signed_word(usb::word_of(v)) == v,
        0 <= usb::word_of(v) < 0x1_0000_0000,
        v >= 0 ==> usb::word_of(v) == v,
        usb::word_of((-1) as i32) == 0xffff_ffff,
{
    if u < 256 {
        assert(usb::le4(u) =~= seq![u as u8, 0u8, 0u8, 0u8]);
    }
}

/// The block names the length of what follows its head, and only the registers
/// differ between two blocks.
pub proof fn blocks_differ_only_in_their_registers(a: TimerCounts, b: TimerCounts, i: int)
    requires
        0 <= i < 4 || 16 <= i < 24,
    ensures
        usb::block_bytes(a).len() == 28,
        usb::block_bytes(a)[2] == usb::block_bytes(a).len() - 4,
        usb::block_bytes(a)[0] == 0x01,
        usb::block_bytes(a)[i] == usb::block_bytes(b)[i],
        a.w == b.w ==> usb::block_bytes(a).subrange(4, 8) == usb::block_bytes(b).subrange(4, 8),
        a.x == b.x ==> usb::block_bytes(a).subrange(8, 12) == usb::block_bytes(b).subrange(8, 12),
        a.y == b.y ==> usb::block_bytes(a).subrange(12, 16) == usb::block_bytes(b).subrange(
            12,
            16,
        ),
        a.z == b.z ==> usb::block_bytes(a).subrange(24, 28) == usb::block_bytes(b).subrange(
            24,
            28,
        ),
{
    let x = usb::block_bytes(a);
    let y = usb::block_bytes(b);
    assert(x.subrange(4, 8) =~= usb::le4(usb::word_of(a.w)));
    assert(y.subrange(4, 8) =~= usb::le4(usb::word_of(b.w)));
    assert(x.subrange(8, 12) =~= usb::le4(usb::word_of(a.x)));
    assert(y.subrange(8, 12) =~= usb::le4(usb::word_of(b.x)));
    assert(x.subrange(12, 16) =~= usb::le4(usb::word_of(a.y)));
    assert(y.subrange(12, 16) =~= usb::le4(usb::word_of(b.y)));
    assert(x.subrange(24, 28) =~= usb::le4(usb::word_of(a.z)));
    assert(y.subrange(24, 28) =~= usb::le4(usb::word_of(b.z)));
}

/// An answer that is too short, or whose head is another one, holds no timings.
pub proof fn a_foreign_answer_holds_no_timings(resp: Seq<u8>)
    ensures
        resp.len() < 32 ==> usb::echoed(resp) is None,
        resp.len() >= 32 && !(resp[0] == 0x00 && resp[1] == 0x1c && resp[2] == 0x00 && resp[3]
            == 0x04) ==> usb::echoed(resp) is None,
        resp.len() >= 32 && resp[0] == 0x00 && resp[1] == 0x1c && resp[2] == 0x00 && resp[3] == 0x04
            ==> usb::echoed(resp) is Some,
{
    if resp.len() >= 32 {
        let head = resp.take(4);
        let want = seq![0x00u8, 0x1c, 0x00, 0x04];
        assert(head[0] == resp[0] && head[1] == resp[1] && head[2] == resp[2] && head[3]
            == resp[3]);
        if head == want {
            assert(want[0] == 0x00 && want[1] == 0x1c && want[2] == 0x00 && want[3] == 0x04);
        }
        if resp[0] == 0x00 && resp[1] == 0x1c && resp[2] == 0x00 && resp[3] == 0x04 {
            assert(head =~= want);
        }
    }
}

/// A byte of the wheel counts up to 127 and down to -128, one step per count.
pub proof fn wheel_bytes_count_both_ways(b: u8)
    ensures
        -128 <= nvstusb::signed_byte(b) <= 127,
        (nvstusb::signed_byte(b) - b) % 256 == 0,
        b < 128 ==> nvstusb::signed_byte(b) == b,
        b > 0 && b != 128 ==> nvstusb::signed_byte(b) == nvstusb::signed_byte((b - 1) as u8) + 1,
{
}

/// A flip within two periods of its prediction is counted once, early or late
/// alike; one further off is not counted at all.
pub proof fn only_plausible_flips_are_counted(s: PresentStats, err: int, period: int)
    requires
        0 < period <= 0x1000_0000_0000,
        s.count < u64::MAX,
        -0x1000_0000_0000 <= s.total_us <= 0x1000_0000_0000,
        s.max_abs_us >= 0,
    ensures
        -(2 * period) < err < 2 * period ==> {
            &&& s.with_error(err, period).count == s.count + 1
            &&& s.with_error(err, period).total_us == s.total_us + err
            &&& s.with_error(err, period).max_abs_us >= drm::abs(err)
            &&& s.with_error(err, period).max_abs_us >= s.max_abs_us
            &&& s.with_error(err, period).max_abs_us == s.max_abs_us || s.with_error(
                err,
                period,
            ).max_abs_us == drm::abs(err)
            &&& s.with_error(-err, period).max_abs_us == s.with_error(err, period).max_abs_us
        },
        err >= 2 * period || err <= -(2 * period) ==> s.with_error(err, period) == s,
        drm::abs(err) >= 0,
        drm::abs(err) == err || drm::abs(err) == -err,
{
}

} // verus!
