//! What the search for a display to follow promises.

use crate::nvstusb::heads;
use crate::nvstusb::heads::{ConnectorInfo, HeadEntry, Notice};
use crate::nvstusb::search::SearchState;
use crate::text;
use crate::text_laws;
use vstd::prelude::*;

verus! {

/// Connector types that the kernel knows have names of their own, and none of
/// them is called unknown.
pub proof fn connector_types_are_told_apart(a: u32, b: u32)
    requires
        1 <= a <= 17,
        heads::kernel_name(a) == heads::kernel_name(b),
    ensures
        a == b,
{
    reveal_strlit("VGA");
    reveal_strlit("DVI-I");
    reveal_strlit("DVI-D");
    reveal_strlit("DVI-A");
    reveal_strlit("Composite");
    reveal_strlit("SVIDEO");
    reveal_strlit("LVDS");
    reveal_strlit("Component");
    reveal_strlit("DIN");
    reveal_strlit("DP");
    reveal_strlit("HDMI-A");
    reveal_strlit("HDMI-B");
    reveal_strlit("TV");
    reveal_strlit("eDP");
    reveal_strlit("Virtual");
    reveal_strlit("DSI");
    reveal_strlit("DPI");
    reveal_strlit("Unknown");
    let x = heads::kernel_name(a);
    let y = heads::kernel_name(b);
    assert(x.len() == y.len());
    assert(x[0] == y[0] && x[1] == y[1] && x[x.len() - 1] == y[y.len() - 1]);
    assert(x.len() > 5 ==> x[5] == y[5]);
}

/// The short spellings of an HDMI output and the kernel's are one name.
pub proof fn hdmi_spellings_are_one_name(number: Seq<char>)
    requires
        number.len() > 0,
        text::is_digit(number[0]),
    ensures
        heads::kernel_hdmi("hdmi"@ + number) == "hdmi-a-"@ + number,
        heads::kernel_hdmi("hdmi-"@ + number) == "hdmi-a-"@ + number,
        heads::kernel_hdmi("hdmi-a-"@ + number) == "hdmi-a-"@ + number,
        heads::kernel_hdmi("hdmi-b-"@ + number) == "hdmi-b-"@ + number,
        heads::kernel_hdmi("dp-"@ + number) == "dp-"@ + number,
{
    reveal_strlit("hdmi");
    reveal_strlit("hdmi-");
    reveal_strlit("hdmi-a-");
    reveal_strlit("hdmi-b-");
    reveal_strlit("dp-");
    reveal_strlit("-");
    let a = "hdmi"@ + number;
    let b = "hdmi-"@ + number;
    let c = "hdmi-a-"@ + number;
    let d = "hdmi-b-"@ + number;
    let e = "dp-"@ + number;
    assert(a.take(4) =~= "hdmi"@);
    assert(b.take(4) =~= "hdmi"@);
    assert(c.take(4) =~= "hdmi"@);
    assert(d.take(4) =~= "hdmi"@);
    assert(e.len() >= 4 ==> e.take(4)[0] == 'd');
    assert("hdmi"@[0] == 'h');
    assert(a.skip(4) =~= number);
    assert(b.skip(4) =~= "-"@ + number);
    let rc = "a-"@ + number;
    reveal_strlit("a-");
    reveal_strlit("b-");
    let rd = "b-"@ + number;
    assert(c.skip(4) =~= "-"@ + rc);
    assert(d.skip(4) =~= "-"@ + rd);
    lemma_no_dash(number);
    lemma_no_dash(rc);
    lemma_no_dash(rd);
    text_laws::stripping_takes_every_repetition(number, "-"@);
    text_laws::stripping_takes_every_repetition(rc, "-"@);
    text_laws::stripping_takes_every_repetition(rd, "-"@);
}

proof fn lemma_no_dash(s: Seq<char>)
    requires
        s.len() > 0,
        s[0] != '-',
    ensures
        !text::has_prefix(s, "-"@),
{
    reveal_strlit("-");
    if text::has_prefix(s, "-"@) {
        assert(s.take(1)[0] == s[0]);
        assert("-"@[0] == '-');
    }
}

/// The long spelling of a DisplayPort output and the short one are one name.
pub proof fn displayport_spellings_are_one_name(rest: Seq<char>)
    ensures
        heads::replaced_first("displayport"@ + rest, "displayport"@, "dp"@) == "dp"@ + rest,
{
    let s = "displayport"@ + rest;
    assert(s.skip(0) =~= s);
    text_laws::a_prefix_is_a_beginning("displayport"@, rest, s);
    assert(heads::find_from(s, "displayport"@, 0) == Some(0int));
    assert(s.take(0) + "dp"@ + s.skip("displayport"@.len() as int) =~= "dp"@ + rest);
}

/// The probe is for a connector of the card that is plugged in and scanned out.
pub open spec fn is_probe_of(p: heads::ProbeView, infos: Seq<ConnectorInfo>) -> bool {
    exists|j: int|
        {
            &&& 0 <= j < infos.len()
            &&& (#[trigger] infos[j]).connected
            &&& infos[j].pipe == Some(p.0)
            &&& p.1 == Some(infos[j].name@)
        }
}

/// Without a forced pipe every connector that is plugged in and scanned out is
/// probed, and nothing else as long as there is one; without any, the first
/// eight pipes are.
pub proof fn every_active_connector_is_probed(
    infos: Seq<ConnectorInfo>,
    pref: Option<Seq<char>>,
    k: int,
)
    requires
        0 <= k < infos.len(),
        infos[k].connected,
        infos[k].pipe is Some,
    ensures
        heads::has_pipe(heads::order_of(infos, pref, None), infos[k].pipe->0),
        forall|i: int|
            0 <= i < heads::order_of(infos, pref, None).len() ==> is_probe_of(
                #[trigger] heads::order_of(infos, pref, None)[i],
                infos,
            ),
{
    let start = heads::head_start(infos, pref);
    lemma_head_start(infos, pref);
    lemma_active_ones_are_in(start, infos, infos.len(), k);
    lemma_only_active_ones(start, infos, infos.len());
}

proof fn lemma_head_start(infos: Seq<ConnectorInfo>, pref: Option<Seq<char>>)
    ensures
        forall|i: int|
            0 <= i < heads::head_start(infos, pref).len() ==> is_probe_of(
                #[trigger] heads::head_start(infos, pref)[i],
                infos,
            ),
{
    if let Some(name) = pref {
        if exists|k: int| heads::first_wanted(infos, heads::normalized(name), k) {
            let k = choose|k: int| heads::first_wanted(infos, heads::normalized(name), k);
            assert(heads::active(infos[k]));
            assert(infos[k].connected);
        }
    }
}

proof fn lemma_active_ones_are_in(
    order: Seq<heads::ProbeView>,
    infos: Seq<ConnectorInfo>,
    n: nat,
    k: int,
)
    requires
        0 <= k < n <= infos.len(),
        heads::active(infos[k]),
    ensures
        heads::has_pipe(heads::with_active(order, infos, n), infos[k].pipe->0),
    decreases n,
{
    let so_far = heads::with_active(order, infos, (n - 1) as nat);
    let all = heads::with_active(order, infos, n);
    let pipe = infos[k].pipe->0;
    if k < n - 1 {
        lemma_active_ones_are_in(order, infos, (n - 1) as nat, k);
        let j = choose|j: int| 0 <= j < so_far.len() && (#[trigger] so_far[j]).0 == pipe;
        assert(all[j].0 == pipe);
    } else if !heads::has_pipe(so_far, pipe) {
        assert(all[all.len() - 1].0 == pipe);
    }
}

proof fn lemma_only_active_ones(
    order: Seq<heads::ProbeView>,
    infos: Seq<ConnectorInfo>,
    n: nat,
)
    requires
        n <= infos.len(),
        forall|i: int| 0 <= i < order.len() ==> is_probe_of(#[trigger] order[i], infos),
    ensures
        forall|i: int|
            0 <= i < heads::with_active(order, infos, n).len() ==> is_probe_of(
                #[trigger] heads::with_active(order, infos, n)[i],
                infos,
            ),
    decreases n,
{
    if n > 0 {
        lemma_only_active_ones(order, infos, (n - 1) as nat);
        let so_far = heads::with_active(order, infos, (n - 1) as nat);
        let all = heads::with_active(order, infos, n);
        assert forall|i: int| 0 <= i < all.len() implies is_probe_of(#[trigger] all[i], infos) by {
            if i < so_far.len() {
                assert(all[i] == so_far[i]);
            } else {
                assert(infos[n - 1].connected);
            }
        }
    }
}

/// The wanted connector is probed before all others; a forced pipe is the only
/// one; and without an active connector the first eight pipes are probed in
/// order.
pub proof fn the_wanted_connector_is_probed_first(
    infos: Seq<ConnectorInfo>,
    pref: Option<Seq<char>>,
    force: u32,
    k: int,
)
    ensures
        heads::order_of(infos, pref, Some(force)) == seq![(force, None::<Seq<char>>)],
        pref is Some && heads::first_wanted(infos, heads::normalized(pref->0), k) ==> ({
            let first = heads::order_of(infos, pref, None)[0];
            &&& Some(first.0) == infos[k].pipe
            &&& first.1 == Some(infos[k].name@)
        }),
        (forall|j: int| 0 <= j < infos.len() ==> !heads::active(#[trigger] infos[j]))
            ==> heads::order_of(infos, pref, None) == Seq::new(
            8,
            |i: int| (i as u32, None::<Seq<char>>),
        ),
{
    if pref is Some && heads::first_wanted(infos, heads::normalized(pref->0), k) {
        let want = heads::normalized(pref->0);
        let c = choose|c: int| heads::first_wanted(infos, want, c);
        assert(heads::first_wanted(infos, want, c));
        if c < k {
            assert(!(heads::active(infos[c]) && heads::normalized(infos[c].name@) == want));
        }
        if k < c {
            assert(!(heads::active(infos[k]) && heads::normalized(infos[k].name@) == want));
        }
        lemma_start_is_kept(heads::head_start(infos, pref), infos, infos.len());
    }
    if forall|j: int| 0 <= j < infos.len() ==> !heads::active(#[trigger] infos[j]) {
        if let Some(name) = pref {
            assert forall|c: int| !heads::first_wanted(infos, heads::normalized(name), c) by {
                if 0 <= c < infos.len() {
                    assert(!heads::active(infos[c]));
                }
            }
        }
        lemma_none_active(heads::head_start(infos, pref), infos, infos.len());
    }
}

proof fn lemma_start_is_kept(order: Seq<heads::ProbeView>, infos: Seq<ConnectorInfo>, n: nat)
    requires
        order.len() > 0,
    ensures
        heads::with_active(order, infos, n).len() >= order.len(),
        heads::with_active(order, infos, n)[0] == order[0],
    decreases n,
{
    if n > 0 {
        lemma_start_is_kept(order, infos, (n - 1) as nat);
    }
}

proof fn lemma_none_active(order: Seq<heads::ProbeView>, infos: Seq<ConnectorInfo>, n: nat)
    requires
        n <= infos.len(),
        forall|j: int| 0 <= j < infos.len() ==> !heads::active(#[trigger] infos[j]),
    ensures
        heads::with_active(order, infos, n) == order,
    decreases n,
{
    if n > 0 {
        lemma_none_active(order, infos, (n - 1) as nat);
        assert(!heads::active(infos[n - 1]));
    }
}

/// Two connectors are probed in the order in which the card lists them, unless
/// the wanted one goes first.
pub proof fn probes_follow_the_listing(
    order: Seq<heads::ProbeView>,
    infos: Seq<ConnectorInfo>,
    n: nat,
)
    requires
        n < infos.len(),
    ensures
        ({
            let before = heads::with_active(order, infos, n);
            let after = heads::with_active(order, infos, n + 1);
            &&& begins(before, after)
            &&& after.len() <= before.len() + 1
            &&& heads::active(infos[n as int]) && !heads::has_pipe(before, infos[n as int].pipe->0)
                ==> after.last() == (infos[n as int].pipe->0, Some(infos[n as int].name@))
                && after.len() == before.len() + 1
            &&& !heads::active(infos[n as int]) ==> after == before
        }),
{
}

/// `a` is where `b` begins.
pub open spec fn begins(a: Seq<heads::ProbeView>, b: Seq<heads::ProbeView>) -> bool {
    a.len() <= b.len() && forall|i: int| 0 <= i < a.len() ==> a[i] == #[trigger] b[i]
}

/// The CRTC of a pipe is that of the first connector on it; without one, the
/// pipe's place in the card's own list decides, and then the other list.
pub proof fn a_pipe_has_the_crtc_of_its_connector(
    infos: Seq<ConnectorInfo>,
    crtc_ids: Seq<u32>,
    fallback: Seq<u32>,
    pipe: u32,
    k: int,
    from: int,
)
    requires
        0 <= from <= k <= infos.len(),
        forall|j: int| from <= j < k ==> (#[trigger] infos[j]).pipe != Some(pipe),
        k < infos.len() ==> infos[k].pipe == Some(pipe),
    ensures
        ({
            let id = heads::crtc_at(infos, crtc_ids, fallback, pipe, from);
            &&& k < infos.len() && infos[k].crtc_id is Some ==> id == infos[k].crtc_id
            &&& k == infos.len() || infos[k].crtc_id is None ==> {
                &&& pipe < crtc_ids.len() ==> id == Some(crtc_ids[pipe as int])
                &&& crtc_ids.len() <= pipe < fallback.len() ==> id == Some(fallback[pipe as int])
                &&& pipe >= crtc_ids.len() && pipe >= fallback.len() ==> id is None
            }
        }),
    decreases k - from,
{
    if from < k {
        assert(infos[from].pipe != Some(pipe));
        a_pipe_has_the_crtc_of_its_connector(infos, crtc_ids, fallback, pipe, k, from + 1);
    }
}

/// A CRTC has one place in the list.
pub proof fn a_crtc_has_one_pipe(crtcs: Seq<u32>, id: u32, a: Option<u32>, b: Option<u32>)
    requires
        heads::is_pipe_of(crtcs, id, a),
        heads::is_pipe_of(crtcs, id, b),
    ensures
        a == b,
        a matches Some(p) ==> p < crtcs.len() && crtcs[p as int] == id,
        crtcs.contains(id) ==> a is Some,
{
    if let (Some(p), Some(q)) = (a, b) {
        if p < q {
            assert(crtcs[p as int] != id);
        }
        if q < p {
            assert(crtcs[q as int] != id);
        }
    }
    if a is Some && b is None {
        assert(crtcs[a->0 as int] != id);
    }
    if b is Some && a is None {
        assert(crtcs[b->0 as int] != id);
    }
    if crtcs.contains(id) {
        let j = choose|j: int| 0 <= j < crtcs.len() && crtcs[j] == id;
        assert(crtcs[j] == id);
    }
}

/// Cards are opened in the order of their numbers, and each of the first four
/// is among them.
pub proof fn the_first_four_cards_are_opened(forced: Option<Seq<char>>, n: nat)
    requires
        n < 4,
    ensures
        heads::cards(forced).contains(heads::card_path(n)),
        heads::cards(None).len() == 4,
        heads::cards(None)[n as int] == heads::card_path(n),
{
    let all = heads::cards(None);
    assert(all[n as int] == heads::card_path(n));
    if let Some(f) = forced {
        if text::trimmed(f).len() > 0 {
            lemma_other_cards_are_in(text::trimmed(f), 4, n);
            let first = seq![text::trimmed(f)];
            let rest = heads::other_cards(text::trimmed(f), 4);
            if heads::card_path(n) == text::trimmed(f) {
                assert((first + rest)[0] == heads::card_path(n));
            } else {
                let j = choose|j: int| 0 <= j < rest.len() && rest[j] == heads::card_path(n);
                assert((first + rest)[j + 1] == heads::card_path(n));
            }
        }
    }
}

proof fn lemma_other_cards_are_in(forced: Seq<char>, n: nat, i: nat)
    requires
        i < n,
    ensures
        heads::card_path(i) != forced ==> heads::other_cards(forced, n).contains(
            heads::card_path(i),
        ),
    decreases n,
{
    let fewer = heads::other_cards(forced, (n - 1) as nat);
    let all = heads::other_cards(forced, n);
    if i < n - 1 {
        lemma_other_cards_are_in(forced, (n - 1) as nat, i);
        if heads::card_path(i) != forced {
            let j = choose|j: int| 0 <= j < fewer.len() && fewer[j] == heads::card_path(i);
            assert(all[j] == heads::card_path(i));
        }
    } else if heads::card_path(i) != forced {
        assert(all[all.len() - 1] == heads::card_path(i));
    }
}

/// Two cards have two paths.
pub proof fn cards_have_paths_of_their_own(a: nat, b: nat)
    requires
        heads::card_path(a) == heads::card_path(b),
    ensures
        a == b,
{
    let k = "/dev/dri/card"@.len() as int;
    assert(heads::card_path(a).skip(k) =~= text::decimal(a));
    assert(heads::card_path(b).skip(k) =~= text::decimal(b));
    text::decimal_is_injective(a, b);
}

/// Only heads that say they are enabled count, with or without the line's end.
pub proof fn only_enabled_heads_count(e: HeadEntry, base: Seq<char>)
    requires
        text::has_prefix(e.name@, base + "-"@),
        e.name@.len() > base.len() + 1,
        e.enabled is Some,
    ensures
        e.enabled->0@ == "enabled"@ || e.enabled->0@ == "enabled"@.push('\n')
            ==> heads::is_enabled_head(e, base),
        e.enabled->0@ == "disabled"@ || e.enabled->0@ == "disabled"@.push('\n')
            ==> !heads::is_enabled_head(e, base),
{
    reveal_strlit("enabled");
    reveal_strlit("disabled");
    text::trimming_keeps_solid_text("enabled"@);
    text::trimming_keeps_solid_text("disabled"@);
    text_laws::space_around_makes_no_difference("enabled"@, '\n');
    text_laws::space_around_makes_no_difference("disabled"@, '\n');
    assert("enabled"@.len() != "disabled"@.len());
}

/// Each enabled head of the card counts once, and an entry of another card not
/// at all.
pub proof fn enabled_heads_count_once(entries: Seq<HeadEntry>, base: Seq<char>, n: nat)
    requires
        n < entries.len(),
    ensures
        heads::enabled_heads(entries, base, n + 1) <= n + 1,
        heads::is_enabled_head(entries[n as int], base) ==> heads::enabled_heads(
            entries,
            base,
            n + 1,
        ) == heads::enabled_heads(entries, base, n) + 1,
        !text::has_prefix(entries[n as int].name@, base + "-"@) ==> heads::enabled_heads(
            entries,
            base,
            n + 1,
        ) == heads::enabled_heads(entries, base, n),
        heads::enabled_heads(entries, base, 0) == 0,
    decreases n,
{
    assert(heads::enabled_heads(entries, base, 0) == 0);
    if n > 0 {
        enabled_heads_count_once(entries, base, (n - 1) as nat);
    }
}

/// Nothing is said of a wanted output that is probed first; when it is not, the
/// user is told, and told why.
pub proof fn a_wanted_output_that_is_missing_is_noticed(
    infos: Seq<ConnectorInfo>,
    want: Seq<char>,
    failed: bool,
    force: u32,
)
    ensures
        ({
            let found = exists|k: int| heads::first_wanted(infos, heads::normalized(want), k);
            let n = heads::noticed(infos, Some(want), None, failed);
            &&& found <==> n == Notice::Nothing
            &&& !found && (failed || infos.len() == 0) ==> n == Notice::NoEnumeration
            &&& !found && !failed && infos.len() > 0 ==> n == Notice::NotFound
        }),
        heads::noticed(infos, None, None, failed) == Notice::Nothing,
        heads::noticed(infos, Some(want), Some(force), failed) == Notice::Nothing,
{
}

/// An anchor is off target exactly when an output was wanted, could be known and
/// is not the one it is on, in whatever spelling.
pub proof fn an_anchor_on_the_wanted_output_is_on_target(
    infos: Seq<ConnectorInfo>,
    want: Seq<char>,
    bound: Seq<char>,
    force: u32,
)
    ensures
        !heads::missed(infos, Some(want), None, Some(want)),
        heads::normalized(bound) == heads::normalized(want) ==> !heads::missed(
            infos,
            Some(want),
            None,
            Some(bound),
        ),
        infos.len() > 0 && heads::normalized(bound) != heads::normalized(want) ==> heads::missed(
            infos,
            Some(want),
            None,
            Some(bound),
        ),
        infos.len() > 0 ==> heads::missed(infos, Some(want), None, None),
        !heads::missed(infos, None, None, Some(bound)),
        !heads::missed(infos, Some(want), Some(force), Some(bound)),
        !heads::missed(Seq::empty(), Some(want), None, Some(bound)),
{
}

/// Joining two lists and then their texts comes to the same.
pub proof fn joining_in_two_steps_comes_to_the_same(
    a: Seq<Seq<char>>,
    b: Seq<Seq<char>>,
    sep: Seq<char>,
)
    requires
        a.len() > 0,
        b.len() > 0,
    ensures
        heads::joined(a + b, sep) == heads::joined(a, sep) + sep + heads::joined(b, sep),
    decreases b.len(),
{
    let all = a + b;
    assert(all.last() == b.last());
    if b.len() == 1 {
        assert(all.drop_last() =~= a);
    } else {
        assert(all.drop_last() =~= a + b.drop_last());
        joining_in_two_steps_comes_to_the_same(a, b.drop_last(), sep);
        assert(heads::joined(all, sep) =~= heads::joined(a, sep) + sep + (heads::joined(
            b.drop_last(),
            sep,
        ) + sep + b.last()));
    }
}

/// Every failure is remembered, after those before it, and names its place; what
/// ran at a wrong rate is told with its card and forgotten with it.
pub proof fn every_failure_is_remembered(s: SearchState, why: Seq<char>, period: u64)
    requires
        s.wf(),
    ensures
        s.opening() ==> {
            let t = s.card_failed(why);
            &&& t.reasons.len() == s.reasons.len() + 1
            &&& t.reasons.drop_last() == s.reasons
            &&& text::has_prefix(t.reasons.last(), s.cards[s.card])
            &&& t.cards == s.cards
        },
        s.probing() && s.probe + 1 < s.probes.len() ==> {
            let t = s.probe_failed(why);
            let w = s.wrong_rate(period);
            &&& t.reasons.drop_last() == s.reasons
            &&& text::has_prefix(t.reasons.last(), s.place())
            &&& t.rates == s.rates
            &&& w.reasons == s.reasons
            &&& w.rates.len() == s.rates.len() + 1
            &&& w.rates.drop_last() == s.rates
            &&& t.probes == s.probes && w.probes == s.probes
        },
        s.probing() && s.probe + 1 == s.probes.len() ==> {
            let t = s.probe_failed(why);
            let w = s.wrong_rate(period);
            &&& t.reasons.len() == s.reasons.len() + 2
            &&& t.rates.len() == 0
            &&& w.reasons.len() == s.reasons.len() + 1
            &&& w.reasons.drop_last() == s.reasons
            &&& text::has_prefix(w.reasons.last(), s.cards[s.card])
            &&& w.rates.len() == 0
            &&& t.cards == s.cards && w.cards == s.cards
        },
        s.probing() ==> text::has_prefix(s.place(), s.cards[s.card]),
{
    let t = s.card_failed(why);
    if s.opening() {
        assert(t.reasons.drop_last() =~= s.reasons);
        assert(t.reasons.last().take(s.cards[s.card].len() as int) =~= s.cards[s.card]);
    }
    if s.probing() {
        let p = s.probe_failed(why);
        let w = s.wrong_rate(period);
        assert(s.place().take(s.cards[s.card].len() as int) =~= s.cards[s.card]);
        let line = s.place() + ": "@ + why;
        assert(line.take(s.place().len() as int) =~= s.place());
        if s.probe + 1 < s.probes.len() {
            assert(p.reasons.drop_last() =~= s.reasons);
            assert(w.rates.drop_last() =~= s.rates);
        } else {
            assert(w.reasons.drop_last() =~= s.reasons);
            assert(w.reasons.last().take(s.cards[s.card].len() as int) =~= s.cards[s.card]);
        }
    }
}

/// A probe is called by its connector where it has one, else by its pipe; two
/// pipes are never called the same.
pub proof fn probes_are_told_apart(a: u32, b: u32, name: Seq<char>)
    ensures
        heads::probe_label((a, Some(name))) == name,
        heads::probe_label((a, None)) == heads::probe_label((b, None)) ==> a == b,
{
    if heads::probe_label((a, None)) == heads::probe_label((b, None)) {
        let k = "pipe"@.len() as int;
        assert(heads::pipe_label(a).skip(k) =~= text::decimal(a as nat));
        assert(heads::pipe_label(b).skip(k) =~= text::decimal(b as nat));
        text::decimal_is_injective(a as nat, b as nat);
    }
}

/// A listing tells whether a display is plugged in, and which pipe serves it.
pub proof fn a_listing_tells_the_connectors_state(a: ConnectorInfo, b: ConnectorInfo)
    requires
        a.name@ == b.name@,
        heads::listing(a) == heads::listing(b),
    ensures
        a.pipe == b.pipe ==> a.connected == b.connected,
        a.connected == b.connected && a.pipe is Some && b.pipe is Some ==> a.pipe == b.pipe,
{
    reveal_strlit(")");
    reveal_strlit(", disconnected)");
    if a.pipe == b.pipe {
        let front = a.name@ + "("@ + (match a.pipe {
            Some(p) => heads::pipe_label(p),
            None => "no-crtc"@,
        });
        assert(heads::listing(a).len() == front.len() + (if a.connected {
            1int
        } else {
            15
        }));
        assert(heads::listing(b).len() == front.len() + (if b.connected {
            1int
        } else {
            15
        }));
    }
    if a.connected == b.connected && a.pipe is Some && b.pipe is Some {
        let front = a.name@ + "("@ + "pipe"@;
        let end = if a.connected {
            ")"@
        } else {
            ", disconnected)"@
        };
        assert(heads::listing(a) =~= front + text::decimal(a.pipe->0 as nat) + end);
        assert(heads::listing(b) =~= front + text::decimal(b.pipe->0 as nat) + end);
        text_laws::a_figure_can_be_read(front, a.pipe->0 as nat, b.pipe->0 as nat, end);
    }
}

/// The pipes that ran at another rate are told with their card.
pub proof fn a_card_line_tells_its_rates(path: Seq<char>, rates: Seq<Seq<char>>)
    ensures
        text::has_prefix(heads::card_line(path, rates), path),
        rates.len() > 0 ==> {
            let told = heads::joined(rates, "; "@) + ")"@;
            let line = heads::card_line(path, rates);
            line.len() >= told.len() && line.skip(line.len() - told.len()) == told
        },
{
    let line = heads::card_line(path, rates);
    assert(line.take(path.len() as int) =~= path);
    if rates.len() > 0 {
        let told = heads::joined(rates, "; "@) + ")"@;
        assert(line.skip(line.len() - told.len()) =~= told);
    }
}

} // verus!
