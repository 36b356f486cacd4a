//! What the choice of mode, connector, card and CRTC promises.

use crate::nvstusb::kms;
use crate::nvstusb::kms::{
    ConnectorMode, DrmModeModeInfo, Encoder, PresentStages, Scanout, Stage,
};
use crate::nvstusb::usb;
use crate::text;
use crate::text_laws;
use vstd::prelude::*;

verus! {

/// Of the chosen mode, what matters: a preferred one wins over any rate; without
/// one, no mode that the glasses can follow is faster; and where there is
/// neither, the first serves.
pub proof fn the_chosen_mode_is_the_best(modes: Seq<DrmModeModeInfo>, k: int, j: int)
    requires
        modes.len() > 0,
        kms::is_choice(modes, k),
        0 <= j < modes.len(),
    ensures
        0 <= k < modes.len(),
        kms::is_preferred(modes[j]) ==> kms::is_preferred(modes[k]) && k <= j,
        !kms::is_preferred(modes[k]) && 100 <= modes[j].vrefresh <= 130 ==> 100
            <= modes[k].vrefresh <= 130 && modes[j].vrefresh <= modes[k].vrefresh,
        !kms::is_preferred(modes[k]) && 100 <= modes[j].vrefresh <= 130 && modes[j].vrefresh
            == modes[k].vrefresh ==> k <= j,
        !kms::is_preferred(modes[k]) && !(100 <= modes[k].vrefresh <= 130) ==> k == 0,
        !kms::is_preferred(modes[k]) ==> !kms::is_preferred(modes[j]),
{
    if kms::is_preferred(modes[j]) {
        assert(kms::any_preferred(modes));
        if j < k {
            assert(!kms::is_preferred(modes[j]));
        }
    }
    if 100 <= modes[j].vrefresh <= 130 {
        assert(kms::stereo_rate(modes[j]));
        assert(kms::offers_stereo_rate(modes));
    }
}

/// One bit of its type makes a mode the preferred one; the other bits make no
/// difference.
pub proof fn one_bit_makes_a_mode_preferred(m: DrmModeModeInfo)
    ensures
        kms::is_preferred(DrmModeModeInfo { mode_type: m.mode_type | 8, ..m }),
        !kms::is_preferred(DrmModeModeInfo { mode_type: m.mode_type & !8, ..m }),
{
    let t = m.mode_type;
    assert((t | 8u32) & 8u32 != 0) by (bit_vector);
    assert((t & !8u32) & 8u32 == 0) by (bit_vector);
}

/// Being better is an order: nothing is better than itself, of two at most one
/// is better, and what is better than the better one is better; a display for
/// the glasses beats any other, whatever the rates.
pub proof fn better_connectors_are_ordered(a: ConnectorMode, b: ConnectorMode, c: ConnectorMode)
    ensures
        !kms::is_better(a, a),
        kms::is_better(a, b) ==> !kms::is_better(b, a),
        kms::is_better(a, b) && kms::is_better(b, c) ==> kms::is_better(a, c),
        a.offers_stereo && !b.offers_stereo ==> kms::is_better(a, b),
        a.offers_stereo == b.offers_stereo && a.mode.vrefresh > b.mode.vrefresh ==> kms::is_better(
            a,
            b,
        ),
        !kms::is_better(a, b) && !kms::is_better(b, a) ==> a.offers_stereo == b.offers_stereo
            && a.mode.vrefresh == b.mode.vrefresh,
{
}

/// Cards with a display for the glasses come first, and every card comes once.
pub proof fn every_card_comes_once(offers: Seq<bool>, card: usize)
    requires
        card < offers.len() <= usize::MAX,
    ensures
        ({
            let first = kms::cards_that(offers, true);
            let rest = kms::cards_that(offers, false);
            &&& offers[card as int] ==> first.contains(card) && !rest.contains(card)
            &&& !offers[card as int] ==> rest.contains(card) && !first.contains(card)
            &&& first.no_duplicates()
            &&& rest.no_duplicates()
            &&& first.len() + rest.len() == offers.len()
        }),
{
    lemma_cards(offers, true, card);
    lemma_cards(offers, false, card);
    lemma_cards_count(offers, offers.len());
    assert(Seq::new(offers.len(), |i: int| i as usize).take(offers.len() as int) =~= Seq::new(
        offers.len(),
        |i: int| i as usize,
    ));
}

proof fn lemma_cards(offers: Seq<bool>, wanted: bool, card: usize)
    requires
        card < offers.len() <= usize::MAX,
    ensures
        kms::cards_that(offers, wanted).contains(card) <==> offers[card as int] == wanted,
        kms::cards_that(offers, wanted).no_duplicates(),
{
    broadcast use vstd::seq_lib::group_filter_ensures;

    let all = Seq::new(offers.len(), |i: int| i as usize);
    let f = kms::offering(offers, wanted);
    assert(all[card as int] == card);
    assert(all.contains(card));
    if offers[card as int] == wanted {
        assert(f(card));
        let j = card as int;
        assert(all.filter(f).contains(all[j]));
    }
    if all.filter(f).contains(card) {
        let j = choose|j: int| 0 <= j < all.filter(f).len() && all.filter(f)[j] == card;
        assert(f(all.filter(f)[j]));
    }
    assert(all.no_duplicates());
    lemma_filter_distinct(all, f);
}

proof fn lemma_filter_distinct(s: Seq<usize>, keep: spec_fn(usize) -> bool)
    requires
        s.no_duplicates(),
    ensures
        s.filter(keep).no_duplicates(),
    decreases s.len(),
{
    broadcast use vstd::seq_lib::group_filter_ensures;

    reveal(Seq::filter);
    if s.len() > 0 {
        let t = s.drop_last();
        lemma_filter_distinct(t, keep);
        let f = t.filter(keep);
        assert forall|i: int| 0 <= i < f.len() implies #[trigger] f[i] != s.last() by {
            assert(f.contains(f[i]));
            t.lemma_filter_contains_rev(keep, f[i]);
        }
    }
}

proof fn lemma_cards_count(offers: Seq<bool>, n: nat)
    requires
        n <= offers.len() <= usize::MAX,
    ensures
        ({
            let all = Seq::new(offers.len(), |i: int| i as usize).take(n as int);
            all.filter(kms::offering(offers, true)).len() + all.filter(
                kms::offering(offers, false),
            ).len() == n
        }),
    decreases n,
{
    reveal(Seq::filter);
    let whole = Seq::new(offers.len(), |i: int| i as usize);
    let all = whole.take(n as int);
    if n > 0 {
        assert(all.drop_last() =~= whole.take(n - 1));
        assert(all.last() == (n - 1) as usize);
        lemma_cards_count(offers, (n - 1) as nat);
    }
}

/// The encoder's mask names CRTCs by their place in the card's list, and a place
/// without a CRTC is no route.
pub proof fn routes_follow_the_mask(crtcs: Seq<u32>, e: Encoder, bit: u32)
    ensures
        bit >= crtcs.len() || bit >= 32 ==> !kms::can_route(crtcs, e, bit),
        bit < crtcs.len() && crtcs[bit as int] == 0 ==> !kms::can_route(crtcs, e, bit),
        e.possible_crtcs == 0 ==> !kms::can_route(crtcs, e, bit),
        bit < crtcs.len() && bit < 32 && crtcs[bit as int] != 0 && e.possible_crtcs == 1u32 << bit
            ==> kms::can_route(crtcs, e, bit),
        forall|only: u32|
            only < 32 && only != bit && e.possible_crtcs == #[trigger] (1u32 << only)
                ==> !kms::can_route(crtcs, e, bit),
{
    if bit < 32 {
        assert(0u32 & (1u32 << bit) == 0) by (bit_vector);
        assert((1u32 << bit) & (1u32 << bit) != 0) by (bit_vector)
            requires
                bit < 32,
        ;
        assert forall|only: u32|
            only < 32 && only != bit && e.possible_crtcs == #[trigger] (1u32
                << only) implies !kms::can_route(crtcs, e, bit) by {
            assert((1u32 << only) & (1u32 << bit) == 0) by (bit_vector)
                requires
                    only < 32,
                    bit < 32,
                    only != bit,
            ;
        }
    }
}

/// There is only one first route, and it belongs to the first encoder that has
/// any.
pub proof fn the_first_route_is_unique(
    crtcs: Seq<u32>,
    encoders: Seq<Encoder>,
    i: int,
    bit: u32,
    j: int,
    other: u32,
)
    requires
        kms::first_route(crtcs, encoders, i, bit),
        0 <= j < encoders.len(),
        kms::can_route(crtcs, encoders[j], other),
    ensures
        i <= j,
        i == j ==> bit <= other,
        !kms::unrouted(crtcs, encoders),
        kms::first_route(crtcs, encoders, j, other) ==> i == j && bit == other,
{
    if j < i {
        assert(!kms::can_route(crtcs, encoders[j], other));
    }
    if kms::first_route(crtcs, encoders, j, other) && i < j {
        assert(!kms::can_route(crtcs, encoders[i], bit));
    }
}

/// There is only one first bound encoder.
pub proof fn the_first_bound_encoder_is_unique(encoders: Seq<Encoder>, i: int, j: int)
    requires
        kms::first_bound(encoders, i),
        0 <= j < encoders.len(),
        encoders[j].crtc_id != 0,
    ensures
        i <= j,
        kms::first_bound(encoders, j) ==> i == j,
{
    if kms::first_bound(encoders, j) && i < j {
        assert(encoders[i].crtc_id == 0);
    }
}

/// What is on the display is given back under the ids it was shown with; an id
/// of zero is none.
pub proof fn what_is_shown_is_given_back(fb: u32, bo: u64)
    ensures
        ({
            let s = Scanout { first: false, cur_fb: fb, cur_bo: bo };
            &&& fb != 0 ==> s.on_display().fb == Some(fb)
            &&& bo != 0 ==> s.on_display().bo == Some(bo)
            &&& fb == 0 ==> s.on_display().fb is None
            &&& bo == 0 ==> s.on_display().bo is None
        }),
{
}

/// Words of an event are read low byte first.
pub proof fn event_words_are_read_low_byte_first(u: int)
    requires
        0 <= u < 0x1_0000_0000,
    ensures
        kms::word(usb::le4(u), 0) == u,
{
}

/// Taking the samples leaves none, and a report says something exactly when
/// something was sampled.
pub proof fn a_report_says_what_was_sampled(s: Stage, p: PresentStages)
    ensures
        s.emptied().n == 0,
        s.n > 0 ==> s.emptied() == Stage::zero(),
        p.any() <==> p.line().len() > 0,
        !p.any() ==> p.line() == Seq::<char>::empty(),
        p.any() <==> p.swap.n > 0 || p.lock.n > 0 || p.flipq.n > 0 || p.flipwait.n > 0
            || p.egl_errors > 0,
{
    reveal_strlit(" avg=");
    reveal_strlit(" | ");
    reveal_strlit("egl-err-after-swap n=");
    lemma_stage_text("swap"@, p.swap);
    lemma_stage_text("lock"@, p.lock);
    lemma_stage_text("flipq"@, p.flipq);
    lemma_stage_text("flipwait"@, p.flipwait);
}

proof fn lemma_stage_text(name: Seq<char>, s: Stage)
    ensures
        kms::stage_text(name, s).len() > 0,
{
    reveal_strlit(" avg=");
}

/// Parts of a report are separated, and none is lost.
pub proof fn parts_are_separated(line: Seq<char>, part: Seq<char>)
    ensures
        ({
            let l = kms::with_part(line, part);
            &&& text::has_prefix(l, line)
            &&& l.skip(l.len() - part.len()) == part
            &&& line.len() > 0 ==> l.len() == line.len() + 3 + part.len()
            &&& line.len() == 0 ==> l == part
        }),
{
    reveal_strlit(" | ");
    let l = kms::with_part(line, part);
    assert(l.take(line.len() as int) =~= line);
    assert(l.skip(l.len() - part.len()) =~= part);
}

/// A stage's part of the report gives the mean, the longest and the number of
/// its durations.
pub proof fn a_stage_tells_its_figures(name: Seq<char>, s: Stage, t: Stage)
    requires
        kms::stage_text(name, s) == kms::stage_text(name, t),
    ensures
        s.max_us == t.max_us && s.n == t.n ==> s.total_us / s.n == t.total_us / t.n,
        s.total_us / s.n == t.total_us / t.n && s.n == t.n ==> s.max_us == t.max_us,
        s.total_us / s.n == t.total_us / t.n && s.max_us == t.max_us ==> s.n == t.n,
{
    let a = name + " avg="@;
    let b = "us max="@;
    let c = "us n="@;
    let x = text::decimal((s.total_us / s.n) as nat);
    let y = text::decimal(s.max_us as nat);
    let z = text::decimal(s.n as nat);
    let x2 = text::decimal((t.total_us / t.n) as nat);
    let y2 = text::decimal(t.max_us as nat);
    let z2 = text::decimal(t.n as nat);
    assert(kms::stage_text(name, s) =~= a + x + (b + y + c + z));
    assert(kms::stage_text(name, t) =~= a + x2 + (b + y2 + c + z2));
    assert(kms::stage_text(name, s) =~= (a + x + b) + y + (c + z));
    assert(kms::stage_text(name, t) =~= (a + x2 + b) + y2 + (c + z2));
    assert(kms::stage_text(name, s) =~= (a + x + b + y + c) + z + Seq::<char>::empty());
    assert(kms::stage_text(name, t) =~= (a + x2 + b + y2 + c) + z2 + Seq::<char>::empty());
    if s.max_us == t.max_us && s.n == t.n {
        text_laws::a_figure_can_be_read(
            a,
            (s.total_us / s.n) as nat,
            (t.total_us / t.n) as nat,
            b + y + c + z,
        );
    }
    if s.total_us / s.n == t.total_us / t.n && s.n == t.n {
        text_laws::a_figure_can_be_read(a + x + b, s.max_us as nat, t.max_us as nat, c + z);
    }
    if s.total_us / s.n == t.total_us / t.n && s.max_us == t.max_us {
        text_laws::a_figure_can_be_read(
            a + x + b + y + c,
            s.n as nat,
            t.n as nat,
            Seq::empty(),
        );
    }
}

} // verus!
