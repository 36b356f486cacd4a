//! The search for an anchor.
//!
//! Cards are opened one after the other, and of each card the pipes are probed
//! one after the other, until a pipe ticks at a usable rate.  The caller does
//! what [`AnchorSearch::step`] asks for and reports what came of it.

use crate::nvstusb::drm;
use crate::nvstusb::drm::{DrmVblank, Prediction};
use crate::nvstusb::heads;
use crate::nvstusb::heads::{ConnectorInfo, Notice, Probe, ProbeView, Reasons};
use crate::text;
use vstd::prelude::*;

verus! {

/// What to do next.
#[derive(Debug)]
pub enum Step {
    /// Open that card and list its connectors.
    OpenCard(String),
    /// Open the clock of that pipe and take two vblanks in a row from it;
    /// `place` is how the pipe is called.
    ProbePipe { pipe: u32, place: String },
    /// There is no anchor, for these reasons.
    GiveUp(String),
}

/// Where the search stands.
#[derive(Debug)]
pub struct AnchorSearch {
    /// The wanted output.
    pub pref: Option<String>,
    /// The only pipe to probe, where the user chose one.
    pub force_pipe: Option<u32>,
    pub cards: Vec<String>,
    /// Index of the card at hand.
    pub card: usize,
    /// The connectors and CRTC objects of the card at hand, once it is open.
    pub infos: Vec<ConnectorInfo>,
    pub crtc_ids: Vec<u32>,
    /// The pipes to probe on it.
    pub probes: Vec<Probe>,
    /// Index of the pipe at hand.
    pub probe: usize,
    pub reasons: Reasons,
}

/// An [`AnchorSearch`] as plain values.
#[verifier::ext_equal]
pub struct SearchState {
    pub cards: Seq<Seq<char>>,
    pub card: int,
    pub probes: Seq<ProbeView>,
    pub probe: int,
    /// Why cards and pipes could not be used.
    pub reasons: Seq<Seq<char>>,
    /// The pipes of the card at hand that ran at another rate.
    pub rates: Seq<Seq<char>>,
}

impl View for AnchorSearch {
    type V = SearchState;

    open spec fn view(&self) -> SearchState {
        SearchState {
            cards: heads::string_views(self.cards@),
            card: self.card as int,
            probes: heads::probe_views(self.probes@),
            probe: self.probe as int,
            reasons: self.reasons.spoken().0,
            rates: self.reasons.spoken().1,
        }
    }
}

impl SearchState {
    /// The pipe at hand, if any, is one of the card at hand.
    pub open spec fn wf(self) -> bool {
        &&& 0 <= self.card <= self.cards.len()
        &&& 0 <= self.probe <= self.probes.len()
        &&& self.probe < self.probes.len() ==> self.card < self.cards.len()
    }

    /// A pipe is to be probed next.
    pub open spec fn probing(self) -> bool {
        self.probe < self.probes.len()
    }

    /// A card is to be opened next.
    pub open spec fn opening(self) -> bool {
        !self.probing() && self.card < self.cards.len()
    }

    /// How the pipe at hand is called.
    pub open spec fn place(self) -> Seq<char> {
        self.cards[self.card] + "/"@ + heads::probe_label(self.probes[self.probe])
    }

    /// The card at hand is left.
    pub open spec fn past_card(self) -> SearchState {
        SearchState {
            card: self.card + 1,
            probes: Seq::empty(),
            probe: 0,
            rates: Seq::empty(),
            ..self
        }
    }

    /// The card at hand could not be opened.
    pub open spec fn card_failed(self, why: Seq<char>) -> SearchState {
        SearchState {
            reasons: self.reasons.push(self.cards[self.card] + ": "@ + why),
            ..self.past_card()
        }
    }

    /// The pipe at hand is left, and with the last one the card.
    pub open spec fn past_probe(self) -> SearchState {
        if self.probe + 1 < self.probes.len() {
            SearchState { probe: self.probe + 1, ..self }
        } else {
            SearchState {
                reasons: self.reasons.push(heads::card_line(self.cards[self.card], self.rates)),
                ..self.past_card()
            }
        }
    }

    /// The pipe at hand did not tick.
    pub open spec fn probe_failed(self, why: Seq<char>) -> SearchState {
        SearchState {
            reasons: self.reasons.push(self.place() + ": "@ + why),
            ..self
        }.past_probe()
    }

    /// The pipe at hand ticked at a rate that is of no use.
    pub open spec fn wrong_rate(self, period: u64) -> SearchState {
        SearchState {
            rates: self.rates.push(
                heads::probe_label(self.probes[self.probe]) + ": "@ + text::decimal(period as nat)
                    + " us"@,
            ),
            ..self
        }.past_probe()
    }
}

fn borrowed(s: &Option<String>) -> (b: Option<&str>)
    ensures
        text::chars_if_any(b) == text::string_if_any(*s),
{
    match s {
        Some(s) => Some(s.as_str()),
        None => None,
    }
}

impl AnchorSearch {
    pub open spec fn wf(&self) -> bool {
        self@.wf()
    }

    /// Everything but the place of the search.
    pub open spec fn same_wish(&self, other: &AnchorSearch) -> bool {
        self.pref == other.pref && self.force_pipe == other.force_pipe
    }

    /// A search that has not begun.  `forced` is the card that the user asked
    /// for.
    pub fn new(forced: Option<&str>, pref: Option<&str>, force_pipe: Option<u32>) -> (s:
        AnchorSearch)
        ensures
            s.wf(),
            text::string_if_any(s.pref) == text::chars_if_any(pref),
            s.force_pipe == force_pipe,
            s@ == (SearchState {
                cards: heads::cards(text::chars_if_any(forced)),
                card: 0,
                probes: Seq::empty(),
                probe: 0,
                reasons: Seq::empty(),
                rates: Seq::empty(),
            }),
    {
        let s: AnchorSearch = AnchorSearch {
            pref: match pref {
                Some(p) => Some(p.to_owned()),
                None => None,
            },
            force_pipe,
            cards: heads::card_order(forced),
            card: 0,
            infos: Vec::new(),
            crtc_ids: Vec::new(),
            probes: Vec::new(),
            probe: 0,
            reasons: Reasons::new(),
        };
        assert(heads::probe_views(s.probes@) =~= Seq::empty());
        s
    }

    /// What to do next.
    pub fn step(&self) -> (s: Step)
        requires
            self.wf(),
        ensures
            match s {
                Step::OpenCard(path) => self@.opening() && path@ == self@.cards[self@.card],
                Step::ProbePipe { pipe, place } => self@.probing() && pipe
                    == self@.probes[self@.probe].0 && place@ == self@.place(),
                Step::GiveUp(why) => !self@.probing() && self@.card == self@.cards.len() && why@
                    == heads::joined(self@.reasons, "; "@),
            },
    {
        if self.probe < self.probes.len() {
            assert(heads::probe_views(self.probes@)[self.probe as int]
                == self.probes@[self.probe as int]@);
            Step::ProbePipe { pipe: self.probes[self.probe].pipe, place: self.place() }
        } else if self.card < self.cards.len() {
            assert(heads::string_views(self.cards@)[self.card as int]
                == self.cards@[self.card as int]@);
            Step::OpenCard(self.cards[self.card].clone())
        } else {
            Step::GiveUp(self.reasons.report())
        }
    }

    /// How the pipe at hand is called.
    fn place(&self) -> (p: String)
        requires
            self.wf(),
            self@.probing(),
        ensures
            p@ == self@.place(),
    {
        proof {
            assert(heads::string_views(self.cards@)[self.card as int]
                == self.cards@[self.card as int]@);
            assert(heads::probe_views(self.probes@)[self.probe as int]
                == self.probes@[self.probe as int]@);
        }
        let mut p: String = self.cards[self.card].clone();
        p.append("/");
        p.append(self.probes[self.probe].label().as_str());
        p
    }

    /// The card at hand could not be opened.
    pub fn card_failed(&mut self, why: &str)
        requires
            old(self).wf(),
            old(self)@.opening(),
        ensures
            final(self).wf(),
            final(self).same_wish(old(self)),
            final(self)@ == old(self)@.card_failed(why@),
            final(self).infos == old(self).infos,
            final(self).crtc_ids == old(self).crtc_ids,
    {
        assert(heads::string_views(self.cards@)[self.card as int] == self.cards@[self.card as int]@);
        let path: String = self.cards[self.card].clone();
        self.reasons.failed(path.as_str(), why);
        self.reasons.rates = Vec::new();
        assert(self.card < self.cards.len());
        self.card += 1;
        self.probes = Vec::new();
        self.probe = 0;
        proof {
            assert(heads::string_views(self.reasons.rates@) =~= Seq::empty());
            assert(heads::probe_views(self.probes@) =~= Seq::empty());
        }
    }

    /// The card at hand is open.  `failed` tells that it refused to list its
    /// connectors.  Returns what to say of the wanted output.
    pub fn card_opened(&mut self, infos: Vec<ConnectorInfo>, crtc_ids: Vec<u32>, failed: bool) -> (n:
        Notice)
        requires
            old(self).wf(),
            old(self)@.opening(),
        ensures
            final(self).wf(),
            final(self).same_wish(old(self)),
            final(self)@.probing(),
            final(self).infos == infos,
            final(self).crtc_ids == crtc_ids,
            final(self)@ == (SearchState {
                probes: heads::order_of(infos@, text::string_if_any(old(self).pref), old(self).force_pipe),
                probe: 0,
                ..old(self)@
            }),
            n == heads::noticed(infos@, text::string_if_any(old(self).pref), old(self).force_pipe, failed),
    {
        proof {
            heads::every_pipe_is_probed_once(infos@, text::string_if_any(self.pref), self.force_pipe);
        }
        let n: Notice = heads::bind_notice(&infos, borrowed(&self.pref), self.force_pipe, failed);
        self.probes = heads::probe_order(&infos, borrowed(&self.pref), self.force_pipe);
        self.probe = 0;
        self.infos = infos;
        self.crtc_ids = crtc_ids;
        n
    }

    /// The CRTC object of the pipe at hand.  `listed` is a fresh list of the
    /// card's CRTC objects.
    pub fn crtc(&self, listed: &Vec<u32>) -> (id: Option<u32>)
        requires
            self.wf(),
            self@.probing(),
        ensures
            id == heads::crtc_at(
                self.infos@,
                self.crtc_ids@,
                listed@,
                self@.probes[self@.probe].0,
                0,
            ),
    {
        assert(heads::probe_views(self.probes@)[self.probe as int]
            == self.probes@[self.probe as int]@);
        heads::crtc_of_pipe(&self.infos, &self.crtc_ids, listed, self.probes[self.probe].pipe)
    }

    /// Leaves the pipe at hand.
    fn leave_probe(&mut self)
        requires
            old(self).wf(),
            old(self)@.probing(),
        ensures
            final(self).wf(),
            final(self).same_wish(old(self)),
            final(self)@ == old(self)@.past_probe(),
            final(self).infos == old(self).infos,
            final(self).crtc_ids == old(self).crtc_ids,
    {
        assert(self.probe < self.probes.len());
        self.probe += 1;
        if self.probe == self.probes.len() {
            assert(heads::string_views(self.cards@)[self.card as int]
                == self.cards@[self.card as int]@);
            let path: String = self.cards[self.card].clone();
            self.reasons.card_done(path.as_str());
            assert(self.card < self.cards.len());
            self.card += 1;
            self.probes = Vec::new();
            self.probe = 0;
            assert(heads::probe_views(self.probes@) =~= Seq::empty());
        }
    }

    /// The pipe at hand has no clock, or does not tick.
    pub fn probe_failed(&mut self, why: &str)
        requires
            old(self).wf(),
            old(self)@.probing(),
        ensures
            final(self).wf(),
            final(self).same_wish(old(self)),
            final(self)@ == old(self)@.probe_failed(why@),
            final(self).infos == old(self).infos,
            final(self).crtc_ids == old(self).crtc_ids,
    {
        let place: String = self.place();
        self.reasons.failed(place.as_str(), why);
        self.leave_probe();
    }

    /// The pipe at hand ticked at `t0` and `t1`.  When that is a usable rate the
    /// anchor is bound to the pipe and the search is over.
    pub fn measured(&mut self, d: &mut DrmVblank, t0: u64, t1: u64) -> (usable: bool)
        requires
            old(self).wf(),
            old(self)@.probing(),
        ensures
            final(self).wf(),
            final(self).same_wish(old(self)),
            usable == drm::usable_period(t1.saturating_sub(t0) as int),
            final(self)@ == (if usable {
                old(self)@
            } else {
                old(self)@.wrong_rate(t1.saturating_sub(t0))
            }),
            final(self).infos == old(self).infos,
            final(self).crtc_ids == old(self).crtc_ids,
            final(d).prediction() == (Prediction {
                period: t1.saturating_sub(t0) as int,
                confirmed: t1 as int,
                next: t1.saturating_add(t1.saturating_sub(t0)) as int,
                ..old(d).prediction()
            }),
            usable ==> text::string_if_any(final(d).connector) == old(self)@.probes[old(self)@.probe].1,
            !usable ==> final(d).connector == old(d).connector,
            final(d).same_binding(&(DrmVblank { connector: final(d).connector, ..*old(d) })),
    {
        assert(heads::probe_views(self.probes@)[self.probe as int]
            == self.probes@[self.probe as int]@);
        let connector: Option<String> = match &self.probes[self.probe].connector {
            Some(c) => Some(c.clone()),
            None => None,
        };
        if d.bind(t0, t1, connector) {
            return true;
        }
        let label: String = self.probes[self.probe].label();
        self.reasons.wrong_rate(label.as_str(), d.period_us());
        self.leave_probe();
        false
    }

    /// Whether the anchor ended up on another output than the wanted one.
    pub fn off_target(&self, d: &DrmVblank) -> (b: bool)
        ensures
            b == heads::missed(
                self.infos@,
                text::string_if_any(self.pref),
                self.force_pipe,
                text::string_if_any(d.connector),
            ),
    {
        heads::off_target(&self.infos, borrowed(&self.pref), self.force_pipe, d.connector_name())
    }
}

/// Each report moves the search on: to the next pipe of the card, or to the
/// next card.  So every search ends.
pub proof fn every_report_moves_the_search_on(s: SearchState, why: Seq<char>, period: u64)
    requires
        s.wf(),
    ensures
        s.opening() ==> s.card_failed(why).wf() && s.card_failed(why).card == s.card + 1,
        s.probing() ==> s.probe_failed(why).wf() && s.wrong_rate(period).wf(),
        s.probing() && s.probe + 1 < s.probes.len() ==> {
            &&& s.probe_failed(why).probing() && s.probe_failed(why).probe == s.probe + 1
            &&& s.wrong_rate(period).probing() && s.wrong_rate(period).probe == s.probe + 1
            &&& s.probe_failed(why).card == s.card && s.wrong_rate(period).card == s.card
        },
        s.probing() && s.probe + 1 == s.probes.len() ==> {
            &&& !s.probe_failed(why).probing() && s.probe_failed(why).card == s.card + 1
            &&& !s.wrong_rate(period).probing() && s.wrong_rate(period).card == s.card + 1
        },
{
}

/// The state after the first `n` pipes of a card were left.
pub open spec fn after_probes(s: SearchState, n: nat) -> SearchState
    decreases n,
{
    if n == 0 {
        s
    } else {
        after_probes(s, (n - 1) as nat).past_probe()
    }
}

/// All pipes of a card are probed, in order, before the next card is opened.
pub proof fn a_card_is_searched_to_its_end(s: SearchState, n: nat)
    requires
        s.wf(),
        s.probing(),
        s.probe + n <= s.probes.len(),
    ensures
        s.probe + n < s.probes.len() ==> after_probes(s, n) == (SearchState {
            probe: s.probe + n,
            ..s
        }),
        s.probe + n == s.probes.len() ==> after_probes(s, n).card == s.card + 1 && !after_probes(
            s,
            n,
        ).probing(),
    decreases n,
{
    if n > 0 {
        a_card_is_searched_to_its_end(s, (n - 1) as nat);
    }
}

} // verus!
