//! Direct scanout: which connector, mode and CRTC to drive, and the bookkeeping
//! of page flips.

use crate::text;
use vstd::prelude::*;

verus! {

/// A display mode.
#[derive(Clone, Copy, Debug, PartialEq, Eq, Structural)]
pub struct DrmModeModeInfo {
    pub clock: u32,
    pub hdisplay: u16,
    pub hsync_start: u16,
    pub hsync_end: u16,
    pub htotal: u16,
    pub hskew: u16,
    pub vdisplay: u16,
    pub vsync_start: u16,
    pub vsync_end: u16,
    pub vtotal: u16,
    pub vscan: u16,
    /// Vertical refresh in hertz.
    pub vrefresh: u32,
    pub flags: u32,
    pub mode_type: u32,
}

/// Bit of `mode_type` that marks the display's preferred mode.
pub const DRM_MODE_TYPE_PREFERRED: u32 = 8;

pub const DRM_MODE_PAGE_FLIP_EVENT: u32 = 0x01;
pub const DRM_EVENT_FLIP_COMPLETE: u32 = 0x02;

/// Pixel format of the scanned-out buffers.
pub const DRM_FORMAT_XRGB8888: u32 = 0x3432_5258;

/// Number of an ioctl of the display engine.
pub fn drm_ioc(dir: u32, nr: u8, size: u32) -> (r: u64)
    requires
        dir < 4,
        size < 0x4000,
    ensures
        r == dir * 0x4000_0000 + size * 0x1_0000 + 0x64 * 0x100 + nr,
{
    dir as u64 * 0x4000_0000 + size as u64 * 0x1_0000 + 0x6400 + nr as u64
}

// ---------------------------------------------------------------------------
// Modes
// ---------------------------------------------------------------------------

/// A rate that shutter glasses can follow.
pub open spec fn stereo_rate(m: DrmModeModeInfo) -> bool {
    100 <= m.vrefresh <= 130
}

pub open spec fn is_preferred(m: DrmModeModeInfo) -> bool {
    m.mode_type & DRM_MODE_TYPE_PREFERRED != 0
}

/// `k` is the first mode of the highest rate that the glasses can follow.
pub open spec fn is_fastest_stereo(modes: Seq<DrmModeModeInfo>, k: int) -> bool {
    &&& 0 <= k < modes.len()
    &&& stereo_rate(modes[k])
    &&& forall|j: int|
        0 <= j < modes.len() && stereo_rate(#[trigger] modes[j]) ==> modes[j].vrefresh
            < modes[k].vrefresh || (modes[j].vrefresh == modes[k].vrefresh && k <= j)
}

/// `k` is the first preferred mode.
pub open spec fn is_first_preferred(modes: Seq<DrmModeModeInfo>, k: int) -> bool {
    &&& 0 <= k < modes.len()
    &&& is_preferred(modes[k])
    &&& forall|j: int| 0 <= j < k ==> !is_preferred(#[trigger] modes[j])
}

/// Some mode is the display's preferred one.
pub open spec fn any_preferred(modes: Seq<DrmModeModeInfo>) -> bool {
    exists|j: int| 0 <= j < modes.len() && is_preferred(#[trigger] modes[j])
}

/// Some mode has a rate that the glasses can follow.
pub open spec fn offers_stereo_rate(modes: Seq<DrmModeModeInfo>) -> bool {
    exists|j: int| 0 <= j < modes.len() && stereo_rate(#[trigger] modes[j])
}

/// `k` is the mode to use: the preferred one, else the fastest that the glasses
/// can follow, else the first.
pub open spec fn is_choice(modes: Seq<DrmModeModeInfo>, k: int) -> bool {
    if any_preferred(modes) {
        is_first_preferred(modes, k)
    } else if offers_stereo_rate(modes) {
        is_fastest_stereo(modes, k)
    } else {
        k == 0
    }
}

/// The mode to use: the display's preferred one, else the fastest that the
/// glasses can follow, else the first.
pub fn pick_mode(modes: &[DrmModeModeInfo]) -> (m: Option<DrmModeModeInfo>)
    ensures
        match m {
            Some(m) => exists|k: int|
                #![trigger is_choice(modes@, k)]
                0 <= k < modes@.len() && is_choice(modes@, k) && m == modes@[k],
            None => modes@.len() == 0,
        },
{
    if modes.len() == 0 {
        return None;
    }
    let mut preferred: Option<usize> = None;
    let mut fast: Option<usize> = None;
    let mut i: usize = 0;
    while i < modes.len()
        invariant
            i <= modes@.len(),
            match preferred {
                Some(p) => p < i && is_first_preferred(modes@, p as int),
                None => forall|j: int| 0 <= j < i ==> !is_preferred(#[trigger] modes@[j]),
            },
            match fast {
                Some(f) => {
                    &&& f < i
                    &&& stereo_rate(modes@[f as int])
                    &&& forall|j: int|
                        0 <= j < i && stereo_rate(#[trigger] modes@[j]) ==> modes@[j].vrefresh
                            < modes@[f as int].vrefresh || (modes@[j].vrefresh
                            == modes@[f as int].vrefresh && f <= j)
                },
                None => forall|j: int| 0 <= j < i ==> !stereo_rate(#[trigger] modes@[j]),
            },
        decreases modes@.len() - i,
    {
        let m: DrmModeModeInfo = modes[i];
        if preferred.is_none() && m.mode_type & DRM_MODE_TYPE_PREFERRED != 0 {
            preferred = Some(i);
        }
        if m.vrefresh >= 100 && m.vrefresh <= 130 {
            match fast {
                Some(f) => {
                    if m.vrefresh > modes[f].vrefresh {
                        fast = Some(i);
                    }
                },
                None => {
                    fast = Some(i);
                },
            }
        }
        i += 1;
    }
    let k: usize = match preferred {
        Some(p) => p,
        None => match fast {
            Some(f) => f,
            None => 0,
        },
    };
    proof {
        if let Some(p) = preferred {
            assert(is_preferred(modes@[p as int]));
        } else if let Some(f) = fast {
            assert(stereo_rate(modes@[f as int]));
            assert(is_fastest_stereo(modes@, f as int));
        }
        assert(is_choice(modes@, k as int));
    }
    Some(modes[k])
}

/// The choice is determined by the modes.
pub proof fn the_chosen_mode_is_unique(modes: Seq<DrmModeModeInfo>, a: int, b: int)
    requires
        is_choice(modes, a),
        is_choice(modes, b),
    ensures
        a == b,
{
}

/// A connected connector and the mode that was picked for it.
#[derive(Clone, Copy, Debug, PartialEq, Eq, Structural)]
pub struct ConnectorMode {
    pub connector_id: u32,
    pub mode: DrmModeModeInfo,
    /// Whether any of its modes has a rate that the glasses can follow.
    pub offers_stereo: bool,
}

/// What a connected connector with these modes has to offer; `None` without
/// modes.
pub fn connector_mode(connector_id: u32, modes: &[DrmModeModeInfo]) -> (c: Option<ConnectorMode>)
    ensures
        match c {
            Some(c) => {
                &&& c.connector_id == connector_id
                &&& c.offers_stereo == offers_stereo_rate(modes@)
                &&& exists|k: int|
                    #![trigger is_choice(modes@, k)]
                    0 <= k < modes@.len() && is_choice(modes@, k) && c.mode == modes@[k]
            },
            None => modes@.len() == 0,
        },
{
    match pick_mode(modes) {
        None => None,
        Some(mode) => {
            let mut offers_stereo: bool = false;
            let mut i: usize = 0;
            while i < modes.len()
                invariant
                    i <= modes@.len(),
                    offers_stereo == exists|j: int|
                        0 <= j < i && stereo_rate(#[trigger] modes@[j]),
                decreases modes@.len() - i,
            {
                if modes[i].vrefresh >= 100 && modes[i].vrefresh <= 130 {
                    assert(stereo_rate(modes@[i as int]));
                    offers_stereo = true;
                }
                i += 1;
            }
            Some(ConnectorMode { connector_id, mode, offers_stereo })
        },
    }
}

/// `a` is to be taken rather than `b`: it offers a rate for the glasses where
/// `b` offers none, or else its mode is faster.
pub open spec fn is_better(a: ConnectorMode, b: ConnectorMode) -> bool {
    (a.offers_stereo && !b.offers_stereo) || (a.offers_stereo == b.offers_stereo && a.mode.vrefresh
        > b.mode.vrefresh)
}

fn better(a: &ConnectorMode, b: &ConnectorMode) -> (r: bool)
    ensures
        r == is_better(*a, *b),
{
    (a.offers_stereo && !b.offers_stereo) || (a.offers_stereo == b.offers_stereo && a.mode.vrefresh
        > b.mode.vrefresh)
}

/// The connector to drive: the first that no other is better than.
pub fn find_best_connector(found: &Vec<ConnectorMode>) -> (best: Option<ConnectorMode>)
    ensures
        match best {
            Some(b) => exists|k: int|
                0 <= k < found@.len() && b == #[trigger] found@[k] && (forall|j: int|
                    0 <= j < found@.len() ==> !is_better(#[trigger] found@[j], b)) && (
                forall|j: int|
                    0 <= j < k ==> is_better(b, #[trigger] found@[j])),
            None => found@.len() == 0,
        },
{
    if found.len() == 0 {
        return None;
    }
    let mut k: usize = 0;
    let mut i: usize = 1;
    while i < found.len()
        invariant
            k < i <= found@.len(),
            forall|j: int|
                0 <= j < i ==> !is_better(#[trigger] found@[j], found@[k as int]),
            forall|j: int|
                0 <= j < k ==> is_better(found@[k as int], #[trigger] found@[j]),
        decreases found@.len() - i,
    {
        if better(&found[i], &found[k]) {
            k = i;
        }
        i += 1;
    }
    Some(found[k])
}

/// The cards whose best connector offers a rate for the glasses, or offers
/// none.
pub open spec fn cards_that(offers: Seq<bool>, wanted: bool) -> Seq<usize> {
    Seq::new(offers.len(), |i: int| i as usize).filter(offering(offers, wanted))
}

pub open spec fn offering(offers: Seq<bool>, wanted: bool) -> spec_fn(usize) -> bool {
    |i: usize| offers[i as int] == wanted
}

/// Appends the cards that offer what is wanted, in order.
fn push_cards(order: &mut Vec<usize>, offers: &Vec<bool>, wanted: bool)
    ensures
        final(order)@ == old(order)@ + cards_that(offers@, wanted),
{
    let ghost all = Seq::new(offers@.len(), |i: int| i as usize);
    let ghost f = offering(offers@, wanted);
    let mut i: usize = 0;
    proof {
        reveal(Seq::filter);
        assert(all.take(0) =~= Seq::<usize>::empty());
        assert(all.take(0).filter(f) =~= Seq::<usize>::empty());
        assert(order@ =~= old(order)@ + all.take(0).filter(f));
    }
    while i < offers.len()
        invariant
            i <= offers@.len(),
            all == Seq::new(offers@.len(), |i: int| i as usize),
            f == offering(offers@, wanted),
            order@ == old(order)@ + all.take(i as int).filter(f),
        decreases offers@.len() - i,
    {
        proof {
            assert(all.take(i + 1) =~= all.take(i as int).push(i));
            all.take(i as int).lemma_filter_push(i, f);
        }
        if offers[i] == wanted {
            order.push(i);
        }
        assert(order@ =~= old(order)@ + all.take(i + 1).filter(f));
        i += 1;
    }
    assert(all.take(all.len() as int) =~= all);
}

/// The order in which to try to take over cards with a connected connector:
/// those that offer a rate for the glasses come first.
pub fn takeover_order(offers: &Vec<bool>) -> (order: Vec<usize>)
    ensures
        order@ == cards_that(offers@, true) + cards_that(offers@, false),
{
    let mut order: Vec<usize> = Vec::new();
    push_cards(&mut order, offers, true);
    push_cards(&mut order, offers, false);
    assert(order@ =~= cards_that(offers@, true) + cards_that(offers@, false));
    order
}

// ---------------------------------------------------------------------------
// Routing
// ---------------------------------------------------------------------------

/// An encoder of a connector.
#[derive(Clone, Copy, Debug, PartialEq, Eq, Structural)]
pub struct Encoder {
    /// The CRTC it is bound to, zero for none.
    pub crtc_id: u32,
    /// The CRTCs it can be bound to, one bit for each place in the card's list.
    pub possible_crtcs: u32,
}

/// The encoder can be bound to the CRTC at `bit` in the card's list.
pub open spec fn can_route(crtcs: Seq<u32>, e: Encoder, bit: u32) -> bool {
    bit < 32 && bit < crtcs.len() && crtcs[bit as int] != 0 && e.possible_crtcs & (1u32 << bit)
        != 0
}

/// `i` is the first bound encoder.
pub open spec fn first_bound(encoders: Seq<Encoder>, i: int) -> bool {
    &&& 0 <= i < encoders.len()
    &&& encoders[i].crtc_id != 0
    &&& forall|j: int| 0 <= j < i ==> (#[trigger] encoders[j]).crtc_id == 0
}

/// The first route of the first encoder that has one.
pub open spec fn first_route(
    crtcs: Seq<u32>,
    encoders: Seq<Encoder>,
    i: int,
    bit: u32,
) -> bool {
    &&& 0 <= i < encoders.len()
    &&& can_route(crtcs, encoders[i], bit)
    &&& forall|b: u32| b < bit ==> !#[trigger] can_route(crtcs, encoders[i], b)
    &&& forall|j: int, b: u32| 0 <= j < i ==> !#[trigger] can_route(crtcs, encoders[j], b)
}

/// No encoder has a route.
pub open spec fn unrouted(crtcs: Seq<u32>, encoders: Seq<Encoder>) -> bool {
    forall|j: int, b: u32| 0 <= j < encoders.len() ==> !#[trigger] can_route(crtcs, encoders[j], b)
}

fn first_bit(crtcs: &Vec<u32>, e: &Encoder) -> (bit: Option<u32>)
    ensures
        match bit {
            Some(b) => can_route(crtcs@, *e, b) && forall|c: u32|
                c < b ==> !#[trigger] can_route(crtcs@, *e, c),
            None => forall|b: u32| !#[trigger] can_route(crtcs@, *e, b),
        },
{
    let mut bit: u32 = 0;
    while bit < 32
        invariant
            bit <= 32,
            forall|c: u32| c < bit ==> !#[trigger] can_route(crtcs@, *e, c),
        decreases 32 - bit,
    {
        if (bit as usize) < crtcs.len() && crtcs[bit as usize] != 0 && e.possible_crtcs & (1u32
            << bit) != 0 {
            return Some(bit);
        }
        bit += 1;
    }
    None
}

/// The CRTC to drive a connector with: the one that an encoder of it is bound
/// to, else the first that an encoder can be bound to, else the card's first.
/// `None` where that is not known either.
pub fn pick_crtc(crtcs: &Vec<u32>, encoders: &Vec<Encoder>) -> (id: Option<u32>)
    ensures
        ({
            let bound = exists|i: int| first_bound(encoders@, i);
            if bound {
                exists|i: int|
                    #![trigger first_bound(encoders@, i)]
                    first_bound(encoders@, i) && id == Some(encoders@[i].crtc_id)
            } else if !unrouted(crtcs@, encoders@) {
                exists|i: int, b: u32|
                    #![trigger first_route(crtcs@, encoders@, i, b)]
                    first_route(crtcs@, encoders@, i, b) && id == Some(crtcs@[b as int])
            } else {
                id == (if crtcs@.len() > 0 && crtcs@[0] != 0 {
                    Some(crtcs@[0])
                } else {
                    None
                })
            }
        }),
{
    let mut candidate: Option<u32> = None;
    let ghost mut route: (int, u32) = (0, 0);
    let mut i: usize = 0;
    while i < encoders.len()
        invariant
            i <= encoders@.len(),
            forall|j: int| 0 <= j < i ==> (#[trigger] encoders@[j]).crtc_id == 0,
            match candidate {
                Some(id) => first_route(crtcs@, encoders@, route.0, route.1) && id
                    == crtcs@[route.1 as int],
                None => forall|j: int, b: u32|
                    0 <= j < i ==> !#[trigger] can_route(crtcs@, encoders@[j], b),
            },
        decreases encoders@.len() - i,
    {
        let e: Encoder = encoders[i];
        if e.crtc_id != 0 {
            assert(first_bound(encoders@, i as int));
            return Some(e.crtc_id);
        }
        if candidate.is_none() {
            if let Some(b) = first_bit(crtcs, &e) {
                candidate = Some(crtcs[b as usize]);
                proof {
                    route = (i as int, b);
                    assert(first_route(crtcs@, encoders@, i as int, b));
                }
            }
        }
        i += 1;
    }
    proof {
        assert(forall|j: int| !first_bound(encoders@, j));
        if candidate is Some {
            assert(can_route(crtcs@, encoders@[route.0], route.1));
        }
    }
    match candidate {
        Some(id) => Some(id),
        None => if crtcs.len() > 0 && crtcs[0] != 0 {
            Some(crtcs[0])
        } else {
            None
        },
    }
}

/// Which of the configurations to render with: the first of the scanout's own
/// format, else the first.  An unreadable format is `None`.
pub fn choose_config(visuals: &Vec<Option<u32>>) -> (k: usize)
    requires
        visuals@.len() > 0,
    ensures
        k < visuals@.len(),
        forall|j: int| 0 <= j < k ==> #[trigger] visuals@[j] != Some(DRM_FORMAT_XRGB8888),
        visuals@[k as int] == Some(DRM_FORMAT_XRGB8888) || (k == 0 && forall|j: int|
            0 <= j < visuals@.len() ==> #[trigger] visuals@[j] != Some(DRM_FORMAT_XRGB8888)),
{
    let mut i: usize = 0;
    while i < visuals.len()
        invariant
            i <= visuals@.len(),
            forall|j: int| 0 <= j < i ==> #[trigger] visuals@[j] != Some(DRM_FORMAT_XRGB8888),
        decreases visuals@.len() - i,
    {
        if let Some(v) = visuals[i] {
            if v == DRM_FORMAT_XRGB8888 {
                return i;
            }
        }
        i += 1;
    }
    0
}

// ---------------------------------------------------------------------------
// Flips
// ---------------------------------------------------------------------------

/// The word at `at`, low byte first.
pub open spec fn word(s: Seq<u8>, at: int) -> int {
    s[at] + s[at + 1] * 256 + s[at + 2] * 0x1_0000 + s[at + 3] * 0x100_0000
}

fn read_word(s: &[u8], at: usize) -> (v: u64)
    requires
        at + 4 <= s@.len(),
    ensures
        v == word(s@, at as int),
        v <= u32::MAX,
{
    s[at] as u64 + s[at + 1] as u64 * 256 + s[at + 2] as u64 * 0x1_0000 + s[at + 3] as u64
        * 0x100_0000
}

/// Why no flip was confirmed.
#[derive(Clone, Copy, Debug, PartialEq, Eq, Structural)]
pub enum FlipError {
    /// No event came in time.
    TimedOut,
    /// The event is too short.
    Short,
    /// The event is another one.
    Unexpected(u32),
}

impl FlipError {
    pub fn message(&self) -> (m: String)
        ensures
            m@ == (match *self {
                FlipError::TimedOut => "timed out waiting for page flip event"@,
                FlipError::Short => "short read waiting for drm event"@,
                FlipError::Unexpected(t) => "unexpected drm event type 0x"@ + text::small_hex(
                    t as nat,
                ),
            }),
    {
        match self {
            FlipError::TimedOut => "timed out waiting for page flip event".to_owned(),
            FlipError::Short => "short read waiting for drm event".to_owned(),
            FlipError::Unexpected(t) => {
                let mut m: String = "unexpected drm event type 0x".to_owned();
                text::push_small_hex(&mut m, *t);
                m
            },
        }
    }
}

/// The time of a flip from the bytes of its event, in microseconds of the
/// monotonic clock.
pub fn flip_time(event: &[u8]) -> (t: Result<u64, FlipError>)
    ensures
        t == (if event@.len() < 32 {
            Err::<u64, FlipError>(FlipError::Short)
        } else if word(event@, 0) != DRM_EVENT_FLIP_COMPLETE {
            Err(FlipError::Unexpected(word(event@, 0) as u32))
        } else {
            Ok((word(event@, 16) * 1_000_000 + word(event@, 20)) as u64)
        }),
{
    if event.len() < 32 {
        return Err(FlipError::Short);
    }
    let kind: u64 = read_word(event, 0);
    if kind != DRM_EVENT_FLIP_COMPLETE as u64 {
        return Err(FlipError::Unexpected(kind as u32));
    }
    let sec: u64 = read_word(event, 16);
    let usec: u64 = read_word(event, 20);
    Ok(sec * 1_000_000 + usec)
}

/// What is being scanned out.
#[derive(Clone, Copy, Debug, PartialEq, Eq, Structural)]
pub struct Scanout {
    /// Nothing was put on the display yet: the first frame sets the mode.
    pub first: bool,
    /// Framebuffer on the display, zero for none.
    pub cur_fb: u32,
    /// Buffer on the display, zero for none.
    pub cur_bo: u64,
}

/// What a flip leaves behind, to be given back.
#[derive(Clone, Copy, Debug, PartialEq, Eq, Structural)]
pub struct Retired {
    pub fb: Option<u32>,
    pub bo: Option<u64>,
}

impl Scanout {
    /// Before the first frame.
    pub fn new() -> (s: Scanout)
        ensures
            s == (Scanout { first: true, cur_fb: 0, cur_bo: 0 }),
    {
        Scanout { first: true, cur_fb: 0, cur_bo: 0 }
    }

    /// What is on the display and has to be given back.
    pub open spec fn on_display(self) -> Retired {
        Retired {
            fb: if self.cur_fb != 0 {
                Some(self.cur_fb)
            } else {
                None
            },
            bo: if self.cur_bo != 0 {
                Some(self.cur_bo)
            } else {
                None
            },
        }
    }

    /// A frame is on the display.  The first one set the mode and retires
    /// nothing; any other takes the place of the one before.
    pub fn shown(&mut self, fb: u32, bo: u64) -> (old_frame: Retired)
        ensures
            *final(self) == (Scanout { first: false, cur_fb: fb, cur_bo: bo }),
            old_frame == (if old(self).first {
                Retired { fb: None, bo: None }
            } else {
                old(self).on_display()
            }),
    {
        let retired: Retired = if self.first {
            Retired { fb: None, bo: None }
        } else {
            self.retire()
        };
        self.first = false;
        self.cur_fb = fb;
        self.cur_bo = bo;
        retired
    }

    /// What has to be given back when the display is closed.
    pub fn retire(&self) -> (r: Retired)
        ensures
            r == self.on_display(),
    {
        Retired {
            fb: if self.cur_fb != 0 {
                Some(self.cur_fb)
            } else {
                None
            },
            bo: if self.cur_bo != 0 {
                Some(self.cur_bo)
            } else {
                None
            },
        }
    }
}

// ---------------------------------------------------------------------------
// Costs
// ---------------------------------------------------------------------------

/// How long one stage of presenting takes.
#[derive(Clone, Copy, Debug, PartialEq, Eq, Structural)]
pub struct Stage {
    pub n: u64,
    pub total_us: u64,
    pub max_us: u64,
}

impl Stage {
    /// Nothing sampled.
    pub open spec fn zero() -> Stage {
        Stage { n: 0, total_us: 0, max_us: 0 }
    }

    /// After the samples were taken; without samples nothing changes.
    pub open spec fn emptied(self) -> Stage {
        if self.n == 0 {
            self
        } else {
            Stage::zero()
        }
    }

    /// Nothing sampled.
    pub fn new() -> (s: Stage)
        ensures
            s == Stage::zero(),
    {
        Stage { n: 0, total_us: 0, max_us: 0 }
    }

    /// Counts one duration.
    pub fn sample(&mut self, us: u64)
        ensures
            *final(self) == (Stage {
                n: old(self).n.wrapping_add(1),
                total_us: old(self).total_us.wrapping_add(us),
                max_us: if us > old(self).max_us {
                    us
                } else {
                    old(self).max_us
                },
            }),
    {
        self.n = self.n.wrapping_add(1);
        self.total_us = self.total_us.wrapping_add(us);
        if us > self.max_us {
            self.max_us = us;
        }
    }

    /// Number, average and maximum of the samples since the last call, if there
    /// were any.
    pub fn take(&mut self) -> (t: Option<(u64, u64, u64)>)
        ensures
            *final(self) == old(self).emptied(),
            old(self).n == 0 ==> t is None,
            old(self).n > 0 ==> t == Some(
                (old(self).n, (old(self).total_us / old(self).n) as u64, old(self).max_us),
            ),
    {
        if self.n == 0 {
            return None;
        }
        let t: (u64, u64, u64) = (self.n, self.total_us / self.n, self.max_us);
        self.n = 0;
        self.total_us = 0;
        self.max_us = 0;
        Some(t)
    }
}

/// How long the stages of presenting take.
#[derive(Clone, Copy, Debug, PartialEq, Eq, Structural)]
pub struct PresentStages {
    pub swap: Stage,
    pub lock: Stage,
    pub flipq: Stage,
    pub flipwait: Stage,
    /// Swaps after which the driver reported an error.
    pub egl_errors: u64,
}

/// How a stage is reported.
pub open spec fn stage_text(name: Seq<char>, s: Stage) -> Seq<char> {
    name + " avg="@ + text::decimal((s.total_us / s.n) as nat) + "us max="@ + text::decimal(
        s.max_us as nat,
    ) + "us n="@ + text::decimal(s.n as nat)
}

/// `line` with one more part.
pub open spec fn with_part(line: Seq<char>, part: Seq<char>) -> Seq<char> {
    if line.len() == 0 {
        part
    } else {
        line + " | "@ + part
    }
}

pub open spec fn with_stage(line: Seq<char>, name: Seq<char>, s: Stage) -> Seq<char> {
    if s.n == 0 {
        line
    } else {
        with_part(line, stage_text(name, s))
    }
}

impl PresentStages {
    /// The report of the stages that were sampled.
    pub open spec fn line(self) -> Seq<char> {
        let l = with_stage(Seq::empty(), "swap"@, self.swap);
        let l = with_stage(l, "lock"@, self.lock);
        let l = with_stage(l, "flipq"@, self.flipq);
        let l = with_stage(l, "flipwait"@, self.flipwait);
        if self.egl_errors > 0 {
            with_part(l, "egl-err-after-swap n="@ + text::decimal(self.egl_errors as nat))
        } else {
            l
        }
    }

    /// Something was sampled.
    pub open spec fn any(self) -> bool {
        self.swap.n > 0 || self.lock.n > 0 || self.flipq.n > 0 || self.flipwait.n > 0
            || self.egl_errors > 0
    }

    pub fn new() -> (s: PresentStages)
        ensures
            s == (PresentStages {
                swap: Stage::zero(),
                lock: Stage::zero(),
                flipq: Stage::zero(),
                flipwait: Stage::zero(),
                egl_errors: 0,
            }),
    {
        PresentStages {
            swap: Stage::new(),
            lock: Stage::new(),
            flipq: Stage::new(),
            flipwait: Stage::new(),
            egl_errors: 0,
        }
    }

    /// A summary of the costs since the last call, if anything was sampled.
    pub fn take_present_stats_line(&mut self) -> (line: Option<String>)
        ensures
            match line {
                Some(l) => old(self).any() && l@ == old(self).line(),
                None => !old(self).any(),
            },
            *final(self) == (PresentStages {
                swap: old(self).swap.emptied(),
                lock: old(self).lock.emptied(),
                flipq: old(self).flipq.emptied(),
                flipwait: old(self).flipwait.emptied(),
                egl_errors: 0,
            }),
            !final(self).any(),
    {
        let mut l: String = String::new();
        let any: bool = self.swap.n > 0 || self.lock.n > 0 || self.flipq.n > 0 || self.flipwait.n
            > 0 || self.egl_errors > 0;
        take_stage(&mut l, "swap", &mut self.swap);
        take_stage(&mut l, "lock", &mut self.lock);
        take_stage(&mut l, "flipq", &mut self.flipq);
        take_stage(&mut l, "flipwait", &mut self.flipwait);
        if self.egl_errors > 0 {
            let mut part: String = "egl-err-after-swap n=".to_owned();
            text::push_decimal(&mut part, self.egl_errors);
            push_part(&mut l, part.as_str());
        }
        self.egl_errors = 0;
        if any {
            Some(l)
        } else {
            None
        }
    }
}

fn push_part(line: &mut String, part: &str)
    ensures
        final(line)@ == with_part(old(line)@, part@),
{
    if text::chars_of(line.as_str()).len() > 0 {
        line.append(" | ");
        line.append(part);
    } else {
        line.append(part);
        assert(old(line)@ + part@ =~= part@);
    }
}

fn take_stage(line: &mut String, name: &str, stage: &mut Stage)
    ensures
        final(line)@ == with_stage(old(line)@, name@, *old(stage)),
        *final(stage) == old(stage).emptied(),
{
    if let Some((n, avg, max)) = stage.take() {
        let mut part: String = name.to_owned();
        part.append(" avg=");
        text::push_decimal(&mut part, avg);
        part.append("us max=");
        text::push_decimal(&mut part, max);
        part.append("us n=");
        text::push_decimal(&mut part, n);
        push_part(line, part.as_str());
    }
}

} // verus!
