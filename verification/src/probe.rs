//! The audit probe. From a fixed, documented starting state, it builds the
//! cards named, in order, by the one way of building of the game (and,
//! in the action mode, activates the action of the last one), and reports
//! the change of state, the prices paid, the resources on cards, and what
//! the rule services say of the player probed. A script can impose the
//! policy's answers; without one the probe decides as the random policy.
//!
//! Starting state: player 0 without corporation, 100 MC (or as asked), 20
//! heat, 20 plants (or as asked), no production, TR 5, global parameters at
//! their start; the cards named alone in hand, in order; the draw pile the
//! other cards of the game's boxes in increasing id order; ocean tiles not
//! shuffled.

use vstd::prelude::*;
use rand::rngs::StdRng;
use crate::cards::{CardsDb, Tag, joker_tag_choices, joker_choice, same_text};
use crate::policy::{ActionOpt, ConstructionBonus, Policy, RandomPolicy};
use crate::state::{PhaseUpgrade, MilestoneKind, GameState, PlayerState, ids_ok, MilestoneSlot, AwardKind, ocean_tiles};
use crate::turn::{db_ok, contains_id, copy_ids};
use crate::rng::seeded;
use crate::setup::{ids_upto, install_corporation_with};
use crate::flow::discard_mc_rate;
use crate::arith::{minus, plus, clamp64};
use crate::flow::{card_points, card_points_spec, card_discount, next_card_discount, effective_cost,
    requirements_met, requirements_met_now, plants_reserved_by, player_capacities, research_extra,
    selector_bonus, SelectorBonus};
use crate::effects::{grant_colors, grant_color};
use crate::turn::{ensure_joker_tag, build_payable, resolve_hand_jokers};
use crate::phases::{build_card_with, phase_production};
use crate::turn::{apply_blue_action, apply_corp_action};
use crate::flow::corp_effects;

verus! {

/// Change of the probed state, after less before.
#[derive(Debug, Clone, Copy, PartialEq, Eq, Structural)]
pub struct ProbeDelta {
    pub mc: i64,
    pub heat: i64,
    pub plants: i64,
    pub hand: i64,
    pub mc_prod: i64,
    pub heat_prod: i64,
    pub plant_prod: i64,
    pub card_prod: i64,
    pub tr: i64,
    pub temperature: i64,
    pub oxygen: i64,
    pub oceans: i64,
    pub forests: i64,
}

impl ProbeDelta {
    /// No change.
    pub fn zero() -> (r: ProbeDelta)
        ensures
            r.mc == 0 && r.heat == 0 && r.plants == 0 && r.hand == 0 && r.mc_prod == 0 && r.heat_prod == 0,
            r.plant_prod == 0 && r.card_prod == 0 && r.tr == 0 && r.temperature == 0 && r.oxygen == 0,
            r.oceans == 0 && r.forests == 0,
    {
        ProbeDelta {
            mc: 0, heat: 0, plants: 0, hand: 0, mc_prod: 0, heat_prod: 0, plant_prod: 0, card_prod: 0,
            tr: 0, temperature: 0, oxygen: 0, oceans: 0, forests: 0,
        }
    }
}

impl Default for ProbeDelta {
    fn default() -> (r: ProbeDelta)
        ensures r == ProbeDelta::zero_spec(),
    {
        ProbeDelta::zero()
    }
}

impl ProbeDelta {
    /// No change.
    pub open spec fn zero_spec() -> ProbeDelta {
        ProbeDelta {
            mc: 0, heat: 0, plants: 0, hand: 0, mc_prod: 0, heat_prod: 0, plant_prod: 0, card_prod: 0,
            tr: 0, temperature: 0, oxygen: 0, oceans: 0, forests: 0,
        }
    }
}

/// A carrier card of the probed player and what it holds.
#[derive(Debug, Clone, PartialEq, Eq)]
pub struct ProbeRes {
    pub card: String,
    pub kind: &'static str,
    pub n: u32,
}

/// A target imposed by the script that could not be used: the effect is
/// skipped, never given to another card.
#[derive(Debug, Clone, PartialEq, Eq)]
pub enum TargetError {
    /// No card of the database has that name.
    UnknownCard(String),
    /// The card is not among those that could receive (or give) the resource.
    NotACandidate(String),
}

/// The corporation imposed on the probe: what the engine really set up.
#[derive(Debug)]
pub struct ProbeCorp {
    pub name: String,
    /// False: no corporation of that name; the probe goes on without one.
    pub found: bool,
    /// Does the corporation carry an encoded effect?
    pub encoded: bool,
    /// Printed starting MC (declared; the probed player keeps the MC asked).
    pub starting_mc: i64,
    /// Starting production written on the player's tracks.
    pub start_prod: (i64, i64, i64),
    /// The Phase cards the setup upgraded, phases in increasing order.
    pub upgrades: Vec<u8>,
    /// The heat the setup brought.
    pub start_heat: i64,
    /// What a discarded card brings the player after the setup.
    pub discard_rate: i64,
    /// Does the board carry an action?
    pub has_action: bool,
}

/// The starting state asked of the probe.
#[derive(Debug, Clone, Copy, PartialEq, Eq)]
pub struct ProbeOptions {
    /// Starting MC of the probed player.
    pub mc: i64,
    /// Extra cards in hand, from the top of the pile, as money to discard.
    pub filler: usize,
    /// Starting plants of the probed player.
    pub plants: i64,
    /// Build a card only if its requirements are met by the rule; the first
    /// refusal ends the sequence.
    pub strict: bool,
    /// Phase chosen by the probed player (0 = none).
    pub phase: u8,
    /// Upgraded Phase cards installed for the probed player.
    pub upgrades: [Option<PhaseUpgrade>; 5],
    /// Milestone claimed by the probed player (in the first slot).
    pub objectif: Option<MilestoneKind>,
}

impl ProbeOptions {
    /// The options of the plain probe.
    pub open spec fn default_spec() -> ProbeOptions {
        ProbeOptions { mc: 100, filler: 0, plants: 20, strict: false, phase: 0, upgrades: [None, None, None, None, None], objectif: None }
    }
}

impl Default for ProbeOptions {
    fn default() -> (r: ProbeOptions)
        ensures r == ProbeOptions::default_spec(),
    {
        ProbeOptions { mc: 100, filler: 0, plants: 20, strict: false, phase: 0, upgrades: [None, None, None, None, None], objectif: None }
    }
}

/// Answers imposed on the policy during a probe.
#[derive(Debug, Clone)]
pub struct ProbeScript {
    /// Answers to `Policy::choose_option`, used in order.
    pub choices: Vec<usize>,
    /// Card names imposed on `choose_res_target`, then `choose_res_source`,
    /// used in the order of the calls.
    pub targets: Vec<String>,
    /// Tag imposed on every joker of the sequence.
    pub joker_tag: Option<Tag>,
}

impl ProbeScript {
    /// An empty script.
    pub fn new() -> (r: ProbeScript)
        ensures r.choices@.len() == 0, r.targets@.len() == 0, r.joker_tag is None,
    {
        ProbeScript { choices: Vec::new(), targets: Vec::new(), joker_tag: None }
    }

    /// Nothing imposed?
    pub fn is_empty(&self) -> (r: bool)
        ensures r == (self.choices@.len() == 0 && self.targets@.len() == 0 && self.joker_tag is None),
    {
        self.choices.len() == 0 && self.targets.len() == 0 && self.joker_tag.is_none()
    }
}

impl Default for ProbeScript {
    fn default() -> (r: ProbeScript)
        ensures r.choices@.len() == 0, r.targets@.len() == 0, r.joker_tag is None,
    {
        ProbeScript::new()
    }
}

/// The probe's policy: the random policy, but for the scripted decisions
/// while their list lasts.
pub struct ProbePolicy {
    pub inner: RandomPolicy,
    pub choices: Vec<usize>,
    pub ci: usize,
    /// Imposed targets, with the card each name designates (`None`: unknown).
    pub targets: Vec<(String, Option<u16>)>,
    pub ti: usize,
    /// The first imposed target that could not be used.
    pub error: Option<TargetError>,
    pub joker_tag: Option<Tag>,
}

impl ProbePolicy {
    /// The policy of a script: the names resolved as the engine resolves
    /// them (the first card of the draw pile with that name).
    pub fn new(db: &CardsDb, script: &ProbeScript) -> (r: ProbePolicy)
        ensures
            r.choices@ == script.choices@, r.ci == 0, r.ti == 0, r.error is None,
            r.joker_tag == script.joker_tag,
            r.targets@.len() == script.targets@.len(),
            forall|k: int| 0 <= k < r.targets@.len() ==> {
                &&& (#[trigger] r.targets@[k]).0@ == script.targets@[k]@
                &&& (r.targets@[k].1 matches Some(i) ==> db.resolves_to(script.targets@[k]@, i as int))
            },
    {
        let mut choices: Vec<usize> = Vec::new();
        let mut i: usize = 0;
        while i < script.choices.len()
            invariant i <= script.choices@.len(), choices@ == script.choices@.subrange(0, i as int),
            decreases script.choices@.len() - i,
        {
            choices.push(script.choices[i]);
            proof {
                assert(script.choices@.subrange(0, i + 1) =~= script.choices@.subrange(0, i as int).push(script.choices@[i as int]));
            }
            i = i + 1;
        }
        proof { assert(script.choices@.subrange(0, script.choices@.len() as int) =~= script.choices@); }
        let mut targets: Vec<(String, Option<u16>)> = Vec::new();
        let mut j: usize = 0;
        while j < script.targets.len()
            invariant
                j <= script.targets@.len(), targets@.len() == j,
                forall|k: int| 0 <= k < j ==> {
                    &&& (#[trigger] targets@[k]).0@ == script.targets@[k]@
                    &&& (targets@[k].1 matches Some(i) ==> db.resolves_to(script.targets@[k]@, i as int))
                },
            decreases script.targets@.len() - j,
        {
            let name = script.targets[j].clone();
            let id = db.resolve_card(name.as_str());
            targets.push((name, id));
            j = j + 1;
        }
        ProbePolicy { inner: RandomPolicy, choices, ci: 0, targets, ti: 0, error: None, joker_tag: script.joker_tag }
    }

    /// Records the first error only.
    pub fn fail(&mut self, e: TargetError)
        ensures
            final(self).error == (if old(self).error is None { Some(e) } else { old(self).error }),
            final(self).ci == old(self).ci && final(self).ti == old(self).ti,
            final(self).choices == old(self).choices && final(self).targets == old(self).targets,
            final(self).joker_tag == old(self).joker_tag,
    {
        if self.error.is_none() {
            self.error = Some(e);
        }
    }

    /// The next imposed target as an index in `candidates`: `None` when the
    /// list is used up (the policy's own choice then), `Some(len)` (decline,
    /// the error recorded) when the name is unknown or not a candidate.
    pub fn scripted_target(&mut self, candidates: &[u16]) -> (r: Option<usize>)
        ensures
            old(self).ti >= old(self).targets@.len() ==> r is None && *final(self) == *old(self),
            old(self).ti < old(self).targets@.len() ==> {
                let t = old(self).targets@[old(self).ti as int];
                &&& final(self).ti == old(self).ti + 1
                &&& r matches Some(i)
                &&& i <= candidates@.len()
                &&& (i < candidates@.len() ==> t.1 == Some(candidates@[i as int])
                        && final(self).error == old(self).error)
                &&& (i == candidates@.len() ==> !(t.1 matches Some(c) && candidates@.contains(c))
                        && final(self).error is Some)
            },
    {
        if self.ti >= self.targets.len() {
            return None;
        }
        let name = self.targets[self.ti].0.clone();
        let id = self.targets[self.ti].1;
        self.ti = self.ti + 1;
        match id {
            None => {
                self.fail(TargetError::UnknownCard(name));
                Some(candidates.len())
            }
            Some(c) => {
                let ghost s1 = *self;
                let mut k: usize = 0;
                while k < candidates.len()
                    invariant
                        k <= candidates@.len(), forall|m: int| 0 <= m < k ==> candidates@[m] != c,
                        *self == s1, s1.ti == old(self).ti + 1, s1.error == old(self).error,
                        old(self).ti < old(self).targets@.len(),
                        old(self).targets@[old(self).ti as int].1 == Some(c),
                    decreases candidates@.len() - k,
                {
                    if candidates[k] == c {
                        return Some(k);
                    }
                    k = k + 1;
                }
                self.fail(TargetError::NotACandidate(name));
                Some(candidates.len())
            }
        }
    }
}

impl Policy for ProbePolicy {
    fn corp_mulligan(&mut self, rng: &mut StdRng, player: usize, corps: &[u16]) -> bool {
        self.inner.corp_mulligan(rng, player, corps)
    }

    fn project_mulligan(&mut self, rng: &mut StdRng, player: usize, hand: &[u16]) -> (r: Vec<usize>)
        ensures
            forall|k: int| 0 <= k < r@.len() ==> (#[trigger] r@[k] as int) < hand@.len(),
            forall|k: int, l: int| 0 <= k < l < r@.len() ==> r@[k] < r@[l],
    {
        self.inner.project_mulligan(rng, player, hand)
    }

    fn pick_corporation(&mut self, rng: &mut StdRng, player: usize, corps: &[u16]) -> (r: usize) {
        self.inner.pick_corporation(rng, player, corps)
    }

    fn pick_phase(&mut self, rng: &mut StdRng, player: usize, allowed: &[u8]) -> (r: u8) {
        self.inner.pick_phase(rng, player, allowed)
    }

    fn choose_build(&mut self, rng: &mut StdRng, player: usize, affordable: &[usize]) -> (r: Option<usize>) {
        self.inner.choose_build(rng, player, affordable)
    }

    fn construction_bonus(&mut self, rng: &mut StdRng, player: usize) -> ConstructionBonus {
        self.inner.construction_bonus(rng, player)
    }

    fn action_choice(&mut self, rng: &mut StdRng, player: usize, options: &[ActionOpt]) -> (r: Option<usize>) {
        self.inner.action_choice(rng, player, options)
    }

    fn research_keep(&mut self, rng: &mut StdRng, player: usize, drawn: &[u16], keep: usize) -> (r: Vec<usize>) {
        self.inner.research_keep(rng, player, drawn, keep)
    }

    fn discard_down(&mut self, rng: &mut StdRng, player: usize, hand: &[u16], n: usize) -> (r: Vec<usize>) {
        self.inner.discard_down(rng, player, hand, n)
    }

    /// The next scripted answer while there is one.
    fn choose_option(&mut self, rng: &mut StdRng, player: usize, n: usize) -> (r: usize)
        ensures
            old(self).ci < old(self).choices@.len() ==>
                r == old(self).choices@[old(self).ci as int] && final(self).ci == old(self).ci + 1,
            old(self).ci >= old(self).choices@.len() ==> final(self).ci == old(self).ci
                && (n == 0 ==> r == 0) && (n > 0 ==> r < n),
            final(self).choices == old(self).choices,
    {
        if self.ci < self.choices.len() {
            let c = self.choices[self.ci];
            self.ci = self.ci + 1;
            c
        } else {
            self.inner.choose_option(rng, player, n)
        }
    }

    fn choose_res_target(&mut self, rng: &mut StdRng, player: usize, candidates: &[u16]) -> (r: usize)
        ensures
            old(self).ti < old(self).targets@.len() ==> final(self).ti == old(self).ti + 1 && r <= candidates@.len()
                && (r < candidates@.len() ==> old(self).targets@[old(self).ti as int].1 == Some(candidates@[r as int]))
                && (r == candidates@.len() ==> final(self).error is Some),
            old(self).ti >= old(self).targets@.len() ==> *final(self) == *old(self)
                && (candidates@.len() == 0 ==> r == 0) && (candidates@.len() > 0 ==> r < candidates@.len()),
    {
        match self.scripted_target(candidates) {
            Some(i) => i,
            None => self.inner.choose_res_target(rng, player, candidates),
        }
    }

    fn choose_res_source(&mut self, rng: &mut StdRng, player: usize, candidates: &[u16]) -> (r: usize)
        ensures
            old(self).ti < old(self).targets@.len() ==> final(self).ti == old(self).ti + 1 && r <= candidates@.len()
                && (r < candidates@.len() ==> old(self).targets@[old(self).ti as int].1 == Some(candidates@[r as int]))
                && (r == candidates@.len() ==> final(self).error is Some),
            old(self).ti >= old(self).targets@.len() ==> *final(self) == *old(self)
                && (candidates@.len() == 0 ==> r == 0) && (candidates@.len() > 0 ==> r < candidates@.len()),
    {
        match self.scripted_target(candidates) {
            Some(i) => i,
            None => self.inner.choose_res_source(rng, player, candidates),
        }
    }

    /// The imposed tag for every joker; without one (or for the joker tag
    /// itself, which is no choice), the policy's own heuristic.
    fn pick_joker_tag(&mut self, rng: &mut StdRng, player: usize, card: u16, tag_counts: &[u32; 10]) -> (r: usize)
        ensures
            (old(self).joker_tag matches Some(t) && exists|i: int| 0 <= i < 10 && joker_choice(i) == t)
                ==> joker_choice(r as int) == old(self).joker_tag->0,
            !(old(self).joker_tag matches Some(t) && exists|i: int| 0 <= i < 10 && joker_choice(i) == t)
                ==> crate::policy::first_most_owned(tag_counts@, r as int, 10),
    {
        match self.joker_tag {
            Some(t) => {
                let choices = joker_tag_choices();
                let mut i: usize = 0;
                while i < 10
                    invariant
                        i <= 10, choices@.len() == 10, *self == *old(self), old(self).joker_tag == Some(t),
                        forall|k: int| 0 <= k < 10 ==> #[trigger] choices@[k] == joker_choice(k),
                        forall|k: int| 0 <= k < i ==> joker_choice(k) != t,
                    decreases 10 - i,
                {
                    if choices[i] == t {
                        return i;
                    }
                    i = i + 1;
                }
                self.inner.pick_joker_tag(rng, player, card, tag_counts)
            }
            None => self.inner.pick_joker_tag(rng, player, card, tag_counts),
        }
    }
}


// ---------------------------------------------------------- starting state

/// The cards of the game's boxes that are not among `ids`, by increasing id.
pub open spec fn pile_without(db: &CardsDb, ids: Seq<u16>, n: int) -> Seq<u16>
    decreases n,
{
    if n <= 0 {
        Seq::empty()
    } else {
        let prev = pile_without(db, ids, n - 1);
        if db.projects@[n - 1].in_deck && !ids.contains((n - 1) as u16) { prev.push((n - 1) as u16) } else { prev }
    }
}

/// The probe's draw pile: the other cards of the boxes, by increasing id.
fn probe_pile(db: &CardsDb, ids: &Vec<u16>) -> (r: Vec<u16>)
    requires db.wf(),
    ensures r@ == pile_without(db, ids@, db.projects@.len() as int), ids_ok(r@, db.projects@.len() as int),
{
    let n = db.projects.len();
    let mut out: Vec<u16> = Vec::new();
    let mut i: usize = 0;
    while i < n
        invariant
            i <= n, n == db.projects@.len(), n <= 65536,
            out@ == pile_without(db, ids@, i as int),
            ids_ok(out@, i as int),
        decreases n - i,
    {
        if db.projects[i].in_deck && !contains_id(ids, i as u16) {
            out.push(i as u16);
        }
        i = i + 1;
    }
    out
}

/// The probe's starting state: `ids` alone in player 0's hand, in order,
/// then `opts.filler` cards from the top of the pile; player 0 with
/// `opts.mc` MC, 20 heat, `opts.plants` plants, the phase and the upgraded
/// Phase cards asked, the milestone asked claimed in the first slot; the
/// other player fresh; ocean tiles in their printed order; the planet
/// snapshot taken.
pub fn probe_state_base(db: &CardsDb, ids: &Vec<u16>, opts: ProbeOptions) -> (r: GameState)
    requires db_ok(db), ids_ok(ids@, db.projects@.len() as int), opts.phase <= 5,
    ensures
        r.inv(db),
        r.players[0].mc == opts.mc && r.players[0].heat == 20 && r.players[0].plants == opts.plants,
        r.players[0].hand@.len() >= ids@.len(),
        r.players[0].hand@.len() <= ids@.len() + opts.filler,
        r.players[0].hand@.subrange(0, ids@.len() as int) == ids@,
        r.players[0].chosen_phase == opts.phase && r.players[0].phase_upgrades == opts.upgrades,
        r.players[0].corporation is None && r.players[1].corporation is None,
        r.players[0].played@.len() == 0 && r.players[0].tr == 5,
        r.players[1].chosen_phase == 0,
        r.temperature == 0 && r.oxygen == 0 && r.oceans_revealed == 0,
        match opts.objectif {
            Some(k) => r.milestones[0].kind == k && r.milestones[0].achieved_by[0] && !r.milestones[0].achieved_by[1],
            None => !r.milestones[0].achieved_by[0] && !r.milestones[0].achieved_by[1],
        },
{
    let mut deck = probe_pile(db, ids);
    let mut p0 = PlayerState::new();
    p0.mc = opts.mc;
    p0.chosen_phase = opts.phase;
    p0.phase_upgrades = opts.upgrades;
    p0.heat = 20;
    p0.plants = opts.plants;
    p0.hand = copy_ids(ids);
    let mut k: usize = 0;
    while k < opts.filler
        invariant
            k <= opts.filler, p0.hand@.len() <= ids@.len() + k, p0.hand@.len() >= ids@.len(),
            p0.hand@.subrange(0, ids@.len() as int) == ids@,
            ids_ok(p0.hand@, db.projects@.len() as int), ids_ok(deck@, db.projects@.len() as int),
            p0.played@.len() == 0, p0.corporation is None, p0.tr == 5, p0.tr_increments == 0,
            p0.tr_decrements == 0, p0.steel_capacity == 0, p0.titanium_capacity == 0,
            p0.card_resources@ == Map::<u16, u32>::empty(), p0.chosen_phase == opts.phase,
            p0.phase_upgrades == opts.upgrades, p0.mc == opts.mc, p0.heat == 20, p0.plants == opts.plants,
        decreases opts.filler - k,
    {
        match deck.pop() {
            Some(c) => {
                let ghost h = p0.hand@;
                p0.hand.push(c);
                proof { assert(p0.hand@.subrange(0, ids@.len() as int) =~= h.subrange(0, ids@.len() as int)); }
            }
            None => break,
        }
        k = k + 1;
    }
    let mut milestones = [MilestoneSlot { kind: MilestoneKind::Builder, achieved_by: [false, false] }; 3];
    match opts.objectif {
        Some(kind) => {
            milestones = [
                MilestoneSlot { kind, achieved_by: [true, false] },
                MilestoneSlot { kind: MilestoneKind::Builder, achieved_by: [false, false] },
                MilestoneSlot { kind: MilestoneKind::Builder, achieved_by: [false, false] },
            ];
        }
        None => {}
    }
    let mut game = GameState {
        rng: seeded(0),
        deck,
        discard: Vec::new(),
        corp_deck: ids_upto(db.corporations.len()),
        corp_discard: Vec::new(),
        oceans: ocean_tiles(),
        oceans_revealed: 0,
        temperature: 0,
        oxygen: 0,
        infrastructure: 0,
        players: [p0, PlayerState::new()],
        generation: 1,
        milestones,
        awards: [AwardKind::Celebrity; 3],
        game_over: false,
        blue_actions: 0,
        snap_temperature: 0,
        snap_oxygen: 0,
        snap_oceans: 0,
        snap_infrastructure: 0,
        first_player: 0,
        turn_order: Vec::new(),
        prereq_snapshot_blocks: 0,
        draw_before_build: 0,
        draw_after_build: 0,
        discard_payments: 0,
        res_added: 0,
        res_removed: 0,
        res_targets_missing: 0,
        phase_upgrades_skipped: 0,
        phase_upgrades_granted: 0,
        phase_upgrades_reupgraded: 0,
        upgraded_bonus_applied: 0,
        phase_upgrades_targeted: 0,
        phase_upgrades_by_action: 0,
        upgraded_reveal_bonuses: 0,
        objective_condition_hits: 0,
        draw_then_discard_uses: 0,
        upgraded_extra_builds: 0,
        cards_effects_unhandled: 0,
        derived_mc: 0,
        derived_heat: 0,
        derived_plants: 0,
        tr_from_tags: 0,
        research_extra_draws: 0,
        extra_builds_granted: 0,
        extra_builds_used: 0,
        free_builds: 0,
        next_card_mods_armed: 0,
        next_card_mods_used: 0,
        corp_heat_as_mc: 0,
        corp_forest_rebates: 0,
        corp_tr_boosts: 0,
        corp_trigger_tr: 0,
        action_phase_bonuses: 0,
        action_discard_costs: 0,
        draw_discard_discards: 0,
        cards_revealed: 0,
        standard_action_discounts: 0,
        action_mc_bonuses: 0,
        joker_tag_choices: 0,
        joker_tag_hits: 0,
        corp_phase_upgrades_at_setup: 0,
        discard_bonus_mc: 0,
        action_phase_self_bonus: 0,
    };
    game.snapshot_planet();
    game
}

/// The first corporation of the database with that name.
pub fn find_corporation(db: &CardsDb, name: &str) -> (r: Option<u16>)
    requires db.wf(),
    ensures
        r matches Some(i) ==> (i as int) < db.corporations@.len() && db.corporations@[i as int].name@ == name@
            && forall|j: int| 0 <= j < i ==> db.corporations@[j].name@ != name@,
        r is None ==> forall|j: int| 0 <= j < db.corporations@.len() ==> db.corporations@[j].name@ != name@,
{
    let n = db.corporations.len();
    let mut i: usize = 0;
    while i < n
        invariant i <= n, n == db.corporations@.len(), n <= 65536,
            forall|j: int| 0 <= j < i ==> db.corporations@[j].name@ != name@,
        decreases n - i,
    {
        if same_text(db.corporations[i].name.as_str(), name) {
            return Some(i as u16);
        }
        i = i + 1;
    }
    None
}

/// Are two upgrade slots the same?
fn same_upgrade(a: Option<PhaseUpgrade>, b: Option<PhaseUpgrade>) -> (r: bool)
    ensures r == (a == b),
{
    match (a, b) {
        (None, None) => true,
        (Some(PhaseUpgrade::VariantA), Some(PhaseUpgrade::VariantA)) => true,
        (Some(PhaseUpgrade::VariantB), Some(PhaseUpgrade::VariantB)) => true,
        _ => false,
    }
}

/// The starting state with the corporation asked installed by the one
/// service of the engine (with the probe's policy, its own copy of the
/// script); the probed player's MC brought back to `opts.mc` afterwards.
/// Returns the state, what was set up, and the hand size before the setup.
pub fn probe_state_corp(db: &CardsDb, ids: &Vec<u16>, opts: ProbeOptions, corp_name: Option<&str>,
    script: &ProbeScript) -> (r: (GameState, Option<ProbeCorp>, usize))
    requires db_ok(db), ids_ok(ids@, db.projects@.len() as int), opts.phase <= 5,
    ensures
        r.0.inv(db),
        r.1 is Some == corp_name is Some,
        r.2 >= ids@.len(),
        r.0.players[0].mc == opts.mc,
        r.0.players[0].chosen_phase == opts.phase,
        match (corp_name, r.1) {
            (Some(n), Some(c)) => c.name@ == n@ && (c.found <==> exists|j: int| 0 <= j < db.corporations@.len()
                && db.corporations@[j].name@ == n@),
            _ => true,
        },
{
    let mut game = probe_state_base(db, ids, opts);
    let hand_before = game.players[0].hand.len();
    let name = match corp_name {
        Some(n) => n,
        None => return (game, None, hand_before),
    };
    let cid = match find_corporation(db, name) {
        Some(c) => c,
        None => {
            let rate = discard_mc_rate(db, &game.players[0]);
            let pc = ProbeCorp {
                name: name.to_owned(),
                found: false,
                encoded: false,
                starting_mc: 0,
                start_prod: (0, 0, 0),
                upgrades: Vec::new(),
                start_heat: 0,
                discard_rate: rate,
                has_action: false,
            };
            return (game, Some(pc), hand_before);
        }
    };
    let upg_before = game.players[0].phase_upgrades;
    let heat_before = game.players[0].heat;
    let ghost g0 = game;
    let mut pol = ProbePolicy::new(db, script);
    install_corporation_with(&mut game, db, 0, cid, &mut pol);
    let mut upgrades: Vec<u8> = Vec::new();
    let mut ph: u8 = 1;
    while ph <= 5
        invariant 1 <= ph <= 6,
        decreases 6 - ph,
    {
        if !same_upgrade(game.players[0].phase_upgrade(ph), upg_before[(ph - 1) as usize]) {
            upgrades.push(ph);
        }
        ph = ph + 1;
    }
    let start_heat = minus(game.players[0].heat, heat_before);
    game.players[0].mc = opts.mc;
    let corp = &db.corporations[cid as usize];
    let (sp, has_action) = if db.effects_on {
        match &corp.effect {
            Some(e) => ((e.start_prod.mc, e.start_prod.heat, e.start_prod.plants), e.action.is_some()),
            None => ((0i64, 0i64, 0i64), false),
        }
    } else {
        ((0i64, 0i64, 0i64), false)
    };
    let discard_rate = discard_mc_rate(db, &game.players[0]);
    let pc = ProbeCorp {
        name: corp.name.clone(),
        found: true,
        encoded: corp.effect.is_some(),
        starting_mc: corp.starting_mc,
        start_prod: sp,
        upgrades,
        start_heat,
        discard_rate,
        has_action,
    };
    proof {
        assert(game.players[0].chosen_phase == g0.players[0].chosen_phase);
    }
    (game, Some(pc), hand_before)
}


// ------------------------------------------------------------- reading

/// A card name, resolved by the engine's one way (the first card of the
/// draw pile with that name).
pub fn resolve(db: &CardsDb, name: &str) -> (r: Option<u16>)
    ensures
        r matches Some(i) ==> db.resolves_to(name@, i as int),
        r is None ==> forall|j: int| 0 <= j < db.projects@.len() && j < 65536 ==>
            !(db.projects@[j].name@ == name@ && db.projects@[j].in_deck),
{
    db.resolve_card(name)
}

/// The probed values: MC, heat, plants, the four productions, TR,
/// forests, temperature, oxygen, oceans.
pub open spec fn snap_spec(game: &GameState) -> [i64; 12] {
    let pl = game.players[0];
    [pl.mc, pl.heat, pl.plants, pl.mc_prod, pl.heat_prod, pl.plant_prod, pl.card_prod, pl.tr, pl.forests,
        game.temperature as i64, game.oxygen as i64, game.oceans_revealed as i64]
}

/// The probed values of a state.
pub fn snap(game: &GameState) -> (r: [i64; 12])
    ensures r == snap_spec(game),
{
    let pl = &game.players[0];
    [pl.mc, pl.heat, pl.plants, pl.mc_prod, pl.heat_prod, pl.plant_prod, pl.card_prod, pl.tr, pl.forests,
        game.temperature as i64, game.oxygen as i64, game.oceans_revealed as i64]
}

/// `g1` is a valid state reached from the valid state `g0` by one move.
pub open spec fn action_states(db: &CardsDb, g0: GameState, g1: GameState) -> bool {
    g0.inv(db) && g1.inv(db) && g1.step(&g0)
}

/// The change between two snapshots as `make_delta` computes it.
pub open spec fn delta_between(before: [i64; 12], after: [i64; 12], hand: i64, mc_extra: i64) -> ProbeDelta {
    ProbeDelta {
        mc: clamp64(clamp64(after[0] - before[0]) + mc_extra) as i64,
        heat: clamp64(after[1] - before[1]) as i64,
        plants: clamp64(after[2] - before[2]) as i64,
        hand,
        mc_prod: clamp64(after[3] - before[3]) as i64,
        heat_prod: clamp64(after[4] - before[4]) as i64,
        plant_prod: clamp64(after[5] - before[5]) as i64,
        card_prod: clamp64(after[6] - before[6]) as i64,
        tr: clamp64(after[7] - before[7]) as i64,
        temperature: clamp64(after[9] - before[9]) as i64,
        oxygen: clamp64(after[10] - before[10]) as i64,
        oceans: clamp64(after[11] - before[11]) as i64,
        forests: clamp64(after[8] - before[8]) as i64,
    }
}

/// The sum of the payments (held to the range of `i64`).
pub open spec fn paid_sum(s: Seq<i64>) -> i64
    decreases s.len(),
{
    if s.len() == 0 { 0 } else { clamp64(paid_sum(s.drop_last()) + s.last()) as i64 }
}

/// `g0` is a start state of a probe under `opts`, and `g1` a valid state
/// reached from it with at least `n` more cards in play.
pub open spec fn probe_states(db: &CardsDb, opts: ProbeOptions, g0: GameState, g1: GameState, n: int) -> bool {
    &&& g0.inv(db) && g1.inv(db)
    &&& g0.players[0].mc == opts.mc && g0.players[0].chosen_phase == opts.phase
    &&& g1.players[0].played@.len() >= g0.players[0].played@.len() + n
    &&& g1.step(&g0)
}

/// The change between two snapshots (held to the range of `i64`), the
/// hand's change given, `mc_extra` added to the MC change.
pub fn make_delta(before: &[i64; 12], after: &[i64; 12], hand: i64, mc_extra: i64) -> (r: ProbeDelta)
    ensures
        r.mc == clamp64(clamp64(after[0] - before[0]) + mc_extra),
        r.heat == clamp64(after[1] - before[1]),
        r.plants == clamp64(after[2] - before[2]),
        r.hand == hand,
        r.mc_prod == clamp64(after[3] - before[3]),
        r.heat_prod == clamp64(after[4] - before[4]),
        r.plant_prod == clamp64(after[5] - before[5]),
        r.card_prod == clamp64(after[6] - before[6]),
        r.tr == clamp64(after[7] - before[7]),
        r.forests == clamp64(after[8] - before[8]),
        r.temperature == clamp64(after[9] - before[9]),
        r.oxygen == clamp64(after[10] - before[10]),
        r.oceans == clamp64(after[11] - before[11]),
{
    ProbeDelta {
        mc: plus(minus(after[0], before[0]), mc_extra),
        heat: minus(after[1], before[1]),
        plants: minus(after[2], before[2]),
        hand,
        mc_prod: minus(after[3], before[3]),
        heat_prod: minus(after[4], before[4]),
        plant_prod: minus(after[5], before[5]),
        card_prod: minus(after[6], before[6]),
        tr: minus(after[7], before[7]),
        temperature: minus(after[9], before[9]),
        oxygen: minus(after[10], before[10]),
        oceans: minus(after[11], before[11]),
        forests: minus(after[8], before[8]),
    }
}

/// Byte order of texts from position `i` on: `a` comes first or they are
/// equal.
pub open spec fn bytes_le_from(a: Seq<u8>, b: Seq<u8>, i: int) -> bool
    decreases a.len() - i,
{
    if i >= a.len() || i < 0 {
        true
    } else if i >= b.len() {
        false
    } else if a[i] < b[i] {
        true
    } else if a[i] > b[i] {
        false
    } else {
        bytes_le_from(a, b, i + 1)
    }
}

/// Two texts are always ordered one way or the other.
proof fn lemma_bytes_total(a: Seq<u8>, b: Seq<u8>, i: int)
    requires 0 <= i,
    ensures bytes_le_from(a, b, i) || bytes_le_from(b, a, i),
    decreases a.len() - i,
{
    if i < a.len() && i < b.len() && a[i] == b[i] {
        lemma_bytes_total(a, b, i + 1);
    }
}

/// Does text `a` come before `b` (or equal it), byte by byte?
fn text_le(a: &str, b: &str) -> (r: bool)
    ensures r == bytes_le_from(vstd::utf8::encode_utf8(a@), vstd::utf8::encode_utf8(b@), 0),
{
    let x = a.as_bytes();
    let y = b.as_bytes();
    let mut i: usize = 0;
    while i < x.len()
        invariant
            x@ == vstd::utf8::encode_utf8(a@), y@ == vstd::utf8::encode_utf8(b@), i <= x@.len(),
            bytes_le_from(x@, y@, 0) == bytes_le_from(x@, y@, i as int),
        decreases x@.len() - i,
    {
        if i >= y.len() {
            return false;
        }
        if x[i] < y[i] {
            return true;
        }
        if x[i] > y[i] {
            return false;
        }
        i = i + 1;
    }
    true
}

/// The name of a card, as bytes.
pub open spec fn name_bytes(db: &CardsDb, c: u16) -> Seq<u8> {
    vstd::utf8::encode_utf8(db.projects@[c as int].name@)
}

/// Each card's name comes before the next one's (or equals it).
pub open spec fn by_name(db: &CardsDb, s: Seq<u16>) -> bool {
    forall|i: int| 0 <= i < s.len() - 1 ==> bytes_le_from(#[trigger] name_bytes(db, s[i]), name_bytes(db, s[i + 1]), 0)
}

/// The cards sorted by name (insertion sort; equal names keep their order).
fn sort_by_name(db: &CardsDb, v: &Vec<u16>) -> (r: Vec<u16>)
    requires ids_ok(v@, db.projects@.len() as int),
    ensures by_name(db, r@), r@.to_multiset() == v@.to_multiset(), ids_ok(r@, db.projects@.len() as int),
{
    broadcast use vstd::seq_lib::group_to_multiset_ensures;
    let mut out: Vec<u16> = Vec::new();
    let mut i: usize = 0;
    while i < v.len()
        invariant
            i <= v@.len(), by_name(db, out@), ids_ok(v@, db.projects@.len() as int),
            ids_ok(out@, db.projects@.len() as int),
            out@.to_multiset() == v@.subrange(0, i as int).to_multiset(),
        decreases v@.len() - i,
    {
        let x = v[i];
        let mut pos: usize = 0;
        while pos < out.len() && text_le(db.projects[out[pos] as usize].name.as_str(), db.projects[x as usize].name.as_str())
            invariant
                pos <= out@.len(), ids_ok(out@, db.projects@.len() as int), (x as int) < db.projects@.len(),
                pos > 0 ==> bytes_le_from(name_bytes(db, out@[pos - 1]), name_bytes(db, x), 0),
            decreases out@.len() - pos,
        {
            pos = pos + 1;
        }
        let ghost before = out@;
        out.insert(pos, x);
        proof {
            assert(v@.subrange(0, i + 1) =~= v@.subrange(0, i as int).push(x));
            vstd::seq_lib::to_multiset_build(v@.subrange(0, i as int), x);
            assert(out@ == before.insert(pos as int, x));
            crate::sim::lemma_insert_multiset(before, pos as int, x);
            assert(out@.to_multiset() == v@.subrange(0, i + 1).to_multiset());
            if pos < before.len() {
                lemma_bytes_total(name_bytes(db, before[pos as int]), name_bytes(db, x), 0);
            }
            assert forall|k: int| 0 <= k < out@.len() - 1 implies
                bytes_le_from(#[trigger] name_bytes(db, out@[k]), name_bytes(db, out@[k + 1]), 0) by {
                if k < pos - 1 {
                    assert(out@[k] == before[k] && out@[k + 1] == before[k + 1]);
                } else if k == pos - 1 {
                } else if k == pos {
                } else {
                    assert(out@[k] == before[k - 1] && out@[k + 1] == before[k]);
                }
            }
            assert forall|k: int| 0 <= k < out@.len() implies (out@[k] as int) < db.projects@.len() by {
                if k < pos { assert(out@[k] == before[k]); }
                else if k > pos { assert(out@[k] == before[k - 1]); }
            }
        }
        i = i + 1;
    }
    proof { assert(v@.subrange(0, v@.len() as int) =~= v@); }
    out
}

/// Carrier cards of player 0 among the first `n` ids.
pub open spec fn carriers_upto(pl: &PlayerState, n: int) -> Seq<u16>
    decreases n,
{
    if n <= 0 {
        Seq::empty()
    } else {
        let prev = carriers_upto(pl, n - 1);
        if pl.card_resources@.contains_key((n - 1) as u16) { prev.push((n - 1) as u16) } else { prev }
    }
}

/// The carrier cards of player 0 (every card in their table of
/// resources), by id.
fn carriers(db: &CardsDb, pl: &PlayerState) -> (r: Vec<u16>)
    requires db.wf(),
    ensures r@ == carriers_upto(pl, db.projects@.len() as int), ids_ok(r@, db.projects@.len() as int),
{
    let n = db.projects.len();
    let mut out: Vec<u16> = Vec::new();
    let mut i: usize = 0;
    while i < n
        invariant
            i <= n, n == db.projects@.len(), n <= 65536,
            out@ == carriers_upto(pl, i as int), ids_ok(out@, i as int),
        decreases n - i,
    {
        if pl.card_resources.contains_key(&(i as u16)) {
            out.push(i as u16);
        }
        i = i + 1;
    }
    out
}

/// The entries name cards of `db` in the order of their names.
pub open spec fn res_by_name(db: &CardsDb, rs: Seq<ProbeRes>) -> bool {
    exists|order: Seq<u16>| #![trigger by_name(db, order)]
        by_name(db, order) && order.len() == rs.len()
        && forall|k: int| 0 <= k < rs.len() ==> (#[trigger] rs[k]).card@ == db.projects@[order[k] as int].name@
}

/// Every carrier card of player 0, those at 0 included, sorted by name,
/// with the kind it holds and how many.
pub fn probe_resources(game: &GameState, db: &CardsDb) -> (r: Vec<ProbeRes>)
    requires game.inv(db),
    ensures
        exists|order: Seq<u16>| {
            &&& by_name(db, order)
            &&& order.to_multiset() == carriers_upto(&game.players[0], db.projects@.len() as int).to_multiset()
            &&& r@.len() == order.len()
            &&& forall|k: int| 0 <= k < r@.len() ==> {
                &&& (#[trigger] r@[k]).card@ == db.projects@[order[k] as int].name@
                &&& r@[k].n == game.players[0].resources_on_spec(order[k])
            }
        },
        res_by_name(db, r@),
{
    let ids = carriers(db, &game.players[0]);
    let order = sort_by_name(db, &ids);
    let mut out: Vec<ProbeRes> = Vec::new();
    let mut i: usize = 0;
    while i < order.len()
        invariant
            i <= order@.len(), out@.len() == i, ids_ok(order@, db.projects@.len() as int),
            forall|k: int| 0 <= k < i ==> {
                &&& (#[trigger] out@[k]).card@ == db.projects@[order@[k] as int].name@
                &&& out@[k].n == game.players[0].resources_on_spec(order@[k])
            },
        decreases order@.len() - i,
    {
        let c = order[i];
        let card = &db.projects[c as usize];
        let kind: &'static str = match card.holds() {
            Some(k) => k.name(),
            None => "",
        };
        out.push(ProbeRes { card: card.name.clone(), kind, n: game.players[0].resources_on(c) });
        i = i + 1;
    }
    proof {
        assert(by_name(db, order@));
        assert(forall|k: int| 0 <= k < out@.len() ==> (#[trigger] out@[k]).card@ == db.projects@[order@[k] as int].name@);
    }
    out
}

/// Points from resources over player 0's cards in play.
pub open spec fn resource_vp_upto(db: &CardsDb, pl: &PlayerState, s: Seq<u16>) -> i64
    decreases s.len(),
{
    if s.len() == 0 { 0 } else { clamp64(resource_vp_upto(db, pl, s.drop_last()) + card_points_spec(db, pl, s.last()).1) as i64 }
}

/// Points over player 0's cards in play (all of them: printed and variable).
pub open spec fn card_vp_upto(db: &CardsDb, pl: &PlayerState, s: Seq<u16>) -> i64
    decreases s.len(),
{
    if s.len() == 0 { 0 } else { clamp64(card_vp_upto(db, pl, s.drop_last()) + card_points_spec(db, pl, s.last()).0) as i64 }
}

/// Points of player 0's cards in play, read on `card_points`: the
/// resources' share (`false`) or the whole (`true`).
fn probe_points(game: &GameState, db: &CardsDb, whole: bool) -> (r: i64)
    requires ids_ok(game.players[0].played@, db.projects@.len() as int),
    ensures r == (if whole { card_vp_upto(db, &game.players[0], game.players[0].played@) }
        else { resource_vp_upto(db, &game.players[0], game.players[0].played@) }),
{
    let pl = &game.players[0];
    let mut t: i64 = 0;
    let mut i: usize = 0;
    while i < pl.played.len()
        invariant
            i <= pl.played@.len(), ids_ok(pl.played@, db.projects@.len() as int),
            t == (if whole { card_vp_upto(db, pl, pl.played@.subrange(0, i as int)) }
                else { resource_vp_upto(db, pl, pl.played@.subrange(0, i as int)) }),
        decreases pl.played@.len() - i,
    {
        proof { assert(pl.played@.subrange(0, i + 1).drop_last() =~= pl.played@.subrange(0, i as int)); }
        let pts = card_points(db, pl, pl.played[i]);
        t = plus(t, if whole { pts.0 } else { pts.1 });
        i = i + 1;
    }
    proof { assert(pl.played@.subrange(0, pl.played@.len() as int) =~= pl.played@); }
    t
}


// ------------------------------------------------------------ the probes

/// What the probe of a sequence reports.
#[derive(Debug)]
pub struct ProbeResult {
    /// Last card of the sequence.
    pub card: String,
    pub found: bool,
    /// Does the last card carry an encoding (effect layer on)?
    pub in_lot: bool,
    /// Requirements of the last card on the probe's snapshot, judged just
    /// before it is built (the starting state if the sequence stops before).
    pub prereq_ok: bool,
    /// The same on the current state.
    pub prereq_ok_now: bool,
    pub played: bool,
    /// Cumulated change, prices paid put back into MC.
    pub delta: ProbeDelta,
    /// Printed points of the last card plus the points of resources on cards.
    pub vp: i64,
    /// Price of each card built, fixed reductions only, in order (>= 0).
    pub paid: Vec<i64>,
    /// Cards discarded to pay each card built, in order.
    pub discarded: Vec<i64>,
    pub resources: Vec<ProbeRes>,
    pub target_error: Option<TargetError>,
    /// Was the real Production phase played after the sequence?
    pub produced: bool,
    /// What derived production credited in that phase: (MC, heat, plants).
    pub derived_prod: (i64, i64, i64),
    /// Points of every card in play of the probed player.
    pub vp_total: i64,
    pub corp: Option<ProbeCorp>,
    pub steel: i64,
    pub titanium: i64,
    /// Permanent research bonus: (more drawn, more kept).
    pub research: (usize, usize),
    /// Upgraded Phase cards of the probed player, labels sorted.
    pub upgrades: Vec<String>,
    /// The selector bonus of the phase asked, as the one service gives it.
    pub selector_bonus: SelectorBonus,
    /// The tag kept for the last card's joker, if any.
    pub joker_tag: Option<&'static str>,
}

/// What the probe of an action reports.
#[derive(Debug)]
pub struct ProbeActionResult {
    pub card: String,
    pub found: bool,
    pub in_lot: bool,
    pub has_action: bool,
    pub action_applied: bool,
    /// Change due to the action alone (after the builds, to after the action).
    pub delta: ProbeDelta,
    pub resources: Vec<ProbeRes>,
    pub target_error: Option<TargetError>,
    pub corp: Option<ProbeCorp>,
    /// Upgraded Phase cards after the builds and the action, labels sorted.
    pub upgrades: Vec<String>,
}

/// Does `name` designate a card of the draw pile?
pub open spec fn names_card(db: &CardsDb, name: Seq<char>) -> bool {
    exists|i: int| #[trigger] db.resolves_to(name, i)
}

/// The cards the first `n` names designate, in order (a name that
/// designates none is left out).
pub open spec fn resolved_upto(db: &CardsDb, names: Seq<&str>, n: int) -> Seq<u16>
    decreases n,
{
    if n <= 0 {
        Seq::empty()
    } else {
        let prev = resolved_upto(db, names, n - 1);
        if exists|i: int| i < 65536 && #[trigger] db.resolves_to(names[n - 1]@, i) {
            prev.push((choose|i: int| i < 65536 && #[trigger] db.resolves_to(names[n - 1]@, i)) as u16)
        } else {
            prev
        }
    }
}

/// The cards of the names that designate one, in order (unknown names
/// are left out).
fn resolve_all(db: &CardsDb, names: &[&str]) -> (r: Vec<u16>)
    ensures
        ids_ok(r@, db.projects@.len() as int), r@.len() <= names@.len(),
        r@ == resolved_upto(db, names@, names@.len() as int),
{
    let mut out: Vec<u16> = Vec::new();
    let mut i: usize = 0;
    while i < names.len()
        invariant
            i <= names@.len(), out@.len() <= i, ids_ok(out@, db.projects@.len() as int),
            out@ == resolved_upto(db, names@, i as int),
        decreases names@.len() - i,
    {
        match resolve(db, names[i]) {
            Some(id) => {
                proof {
                    let c = choose|j: int| j < 65536 && #[trigger] db.resolves_to(names@[i as int]@, j);
                    assert(db.resolves_to(names@[i as int]@, id as int));
                    assert(c == id as int) by {
                        if c < id as int {
                            assert(!(db.projects@[c].name@ == names@[i as int]@ && db.projects@[c].in_deck));
                        } else if c > id as int {
                            assert(!(db.projects@[id as int].name@ == names@[i as int]@ && db.projects@[id as int].in_deck));
                        }
                    }
                }
                out.push(id);
            }
            None => {
                proof {
                    assert forall|j: int| j < 65536 implies !#[trigger] db.resolves_to(names@[i as int]@, j) by {
                        if db.resolves_to(names@[i as int]@, j) { assert(0 <= j < db.projects@.len()); }
                    }
                }
            }
        }
        i = i + 1;
    }
    out
}

/// A counter's increase, as a signed amount (0 if it went down).
fn counter_rise(after: u64, before: u64) -> (r: i64)
    ensures after >= before ==> r == clamp64(after - before), after < before ==> r == 0,
{
    if after < before {
        0
    } else {
        let d = after - before;
        if d > 0x7fff_ffff_ffff_ffffu64 { i64::MAX } else { d as i64 }
    }
}

/// Builds the cards of the sequence, in order, each from the head of the
/// hand, by the one way of building of the game. Stops at the first card
/// that cannot be paid (every reduction counted), whose committed plants
/// are missing, or, in strict mode, whose requirements are not met.
/// Returns the prices reported and the cards discarded, and the
/// requirements of the last card judged just before its turn.
fn build_sequence(game: &mut GameState, db: &CardsDb, ids: &Vec<u16>, strict: bool, pol: &mut ProbePolicy,
    last_reqs: (bool, bool)) -> (r: (Vec<i64>, Vec<i64>, (bool, bool)))
    requires old(game).inv(db), ids_ok(ids@, db.projects@.len() as int),
    ensures
        final(game).inv(db), final(game).step(old(game)),
        r.0@.len() == r.1@.len(), r.0@.len() <= ids@.len(),
        forall|k: int| 0 <= k < r.0@.len() ==> r.0@[k] >= 0,
        forall|k: int| 0 <= k < r.1@.len() ==> r.1@[k] >= 0,
        final(game).players[0].played@.len() >= old(game).players[0].played@.len() + r.0@.len(),
        ids@.len() == 0 ==> r.2 == last_reqs && r.0@.len() == 0,
{
    let mut paid: Vec<i64> = Vec::new();
    let mut discarded: Vec<i64> = Vec::new();
    let mut reqs = last_reqs;
    let n = ids.len();
    let any = grant_colors(true, true, true);
    let mut k: usize = 0;
    while k < n
        invariant
            k <= n, n == ids@.len(), ids_ok(ids@, db.projects@.len() as int),
            game.inv(db), game.step(old(game)),
            paid@.len() == discarded@.len(), paid@.len() == k,
            game.players[0].played@.len() >= old(game).players[0].played@.len() + k,
            n == 0 ==> reqs == last_reqs,
            forall|j: int| 0 <= j < paid@.len() ==> paid@[j] >= 0,
            forall|j: int| 0 <= j < discarded@.len() ==> discarded@[j] >= 0,
            any == grant_color(true, true, true),
        decreases n - k,
    {
        let id = ids[k];
        if game.players[0].hand.len() == 0 {
            break;
        }
        let disc = plus(card_discount(game, db, 0, id), next_card_discount(&game.players[0]));
        let cost = effective_cost(db.projects[id as usize].price, disc);
        if k + 1 == n {
            reqs = (requirements_met(game, db, 0, id), requirements_met_now(game, db, 0, id));
        }
        if strict && !requirements_met(game, db, 0, id) {
            break;
        }
        let head = game.players[0].hand[0];
        proof { assert(ids_ok(game.players[0].hand@, db.projects@.len() as int)); }
        ensure_joker_tag(game, db, 0, head, pol);
        if game.players[0].hand.len() == 0 || game.players[0].hand[0] != head {
            break;
        }
        if !build_payable(game, db, 0, 0, 0, &any) {
            break;
        }
        if game.players[0].plants < plants_reserved_by(db, id) {
            break;
        }
        paid.push(cost);
        let d = build_card_with(game, db, 0, 0, 0, pol);
        discarded.push(if d as u64 > 0x7fff_ffff_ffff_ffffu64 { i64::MAX } else { d as i64 });
        k = k + 1;
    }
    (paid, discarded, reqs)
}

/// The probe of a sequence, with everything: the corporation asked set up
/// first; the cards built in order (forced as to requirements unless
/// strict, never as to payment); the real Production phase played after
/// it when asked. An empty sequence only sets the corporation up (and
/// produces); an unknown last card reports `found: false` from the
/// starting state.
#[verifier::rlimit(40)]
pub fn run_probe_seq_corp(db: &CardsDb, names: &[&str], opts: ProbeOptions, script: &ProbeScript, produce: bool,
    corp_name: Option<&str>) -> (r: ProbeResult)
    requires db_ok(db), opts.phase <= 5,
    ensures
        names@.len() > 0 ==> r.card@ == names@.last()@,
        r.found == (names@.len() > 0 && names_card(db, names@.last()@)),
        r.paid@.len() == r.discarded@.len(), r.paid@.len() <= names@.len(),
        forall|k: int| 0 <= k < r.paid@.len() ==> r.paid@[k] >= 0,
        !r.found ==> r.paid@.len() == 0 && !r.played && !r.in_lot,
        r.produced ==> produce, r.found ==> r.produced == produce,
        !r.produced ==> r.derived_prod == (0i64, 0i64, 0i64),
        r.in_lot ==> db.effects_on,
        r.corp is Some == corp_name is Some,
        r.paid@.len() <= resolved_upto(db, names@, names@.len() as int).len(),
        names@.len() > 0 && !r.found ==> !r.prereq_ok && !r.prereq_ok_now && r.delta == ProbeDelta::zero_spec()
            && r.vp == 0 && r.vp_total == 0 && r.resources@.len() == 0 && r.target_error is None,
        names@.len() == 0 ==> r.produced == produce && r.card@.len() == 0,
        res_by_name(db, r.resources@),
        names@.len() == 0 || r.found ==> exists|g0: GameState, g1: GameState|
            #![trigger probe_states(db, opts, g0, g1, r.paid@.len() as int)]
            probe_states(db, opts, g0, g1, r.paid@.len() as int)
            && r.delta == delta_between(snap_spec(&g0), snap_spec(&g1), r.delta.hand, paid_sum(r.paid@)),
{
    let n_names = names.len();
    let last: &str = if n_names == 0 { "" } else { names[n_names - 1] };
    proof {
        reveal_strlit("");
        assert(by_name(db, Seq::<u16>::empty()));
    }
    let last_id: Option<u16> = if n_names == 0 {
        None
    } else {
        match resolve(db, last) {
            Some(id) => Some(id),
            None => {
                proof {
                    assert forall|i: int| !#[trigger] db.resolves_to(last@, i) by {
                        if db.resolves_to(last@, i) {
                            assert(i < db.projects@.len());
                        }
                    }
                }
                return probe_not_found(db, last, opts, script, corp_name);
            }
        }
    };
    let ids = resolve_all(db, names);
    let (mut game, corp, hand_before_corp) = probe_state_corp(db, &ids, opts, corp_name, script);
    let reqs0: (bool, bool) = match last_id {
        Some(id) => (requirements_met(&game, db, 0, id), requirements_met_now(&game, db, 0, id)),
        None => (false, false),
    };
    let n = ids.len();
    let hand0: i64 = if opts.filler > 0 { hand_before_corp as i64 } else { (hand_before_corp - n) as i64 };
    let before = snap(&game);
    let ghost g0 = game;
    let mut pol = ProbePolicy::new(db, script);
    resolve_hand_jokers(&mut game, db, 0, &mut pol);
    let (paid, discarded, reqs) = build_sequence(&mut game, db, &ids, opts.strict, &mut pol, reqs0);
    let mut derived_prod: (i64, i64, i64) = (0, 0, 0);
    if produce {
        let b = (game.derived_mc, game.derived_heat, game.derived_plants);
        phase_production(&mut game, db, &mut pol);
        derived_prod = (counter_rise(game.derived_mc, b.0), counter_rise(game.derived_heat, b.1),
            counter_rise(game.derived_plants, b.2));
    }
    let after = snap(&game);
    let ghost g1 = game;
    proof {
        assert(probe_states(db, opts, g0, g1, paid@.len() as int));
        assert(paid@.take(0) =~= Seq::<i64>::empty());
    }
    let mut total_paid: i64 = 0;
    let mut j: usize = 0;
    while j < paid.len()
        invariant j <= paid@.len(), total_paid == paid_sum(paid@.take(j as int)),
        decreases paid@.len() - j,
    {
        proof { assert(paid@.take(j + 1).drop_last() =~= paid@.take(j as int)); }
        total_paid = plus(total_paid, paid[j]);
        j = j + 1;
    }
    proof { assert(paid@.take(paid@.len() as int) =~= paid@); }
    let played = match last_id {
        Some(id) => contains_id(&game.players[0].played, id),
        None => false,
    };
    let (in_lot, card_vp) = match last_id {
        Some(id) => (db.effects_on && db.projects[id as usize].effect.is_some(), db.projects[id as usize].vp),
        None => (false, 0),
    };
    let hand_delta = minus(game.players[0].hand.len() as i64, hand0);
    let caps = player_capacities(&game.players[0]);
    let joker_tag: Option<&'static str> = match last_id {
        Some(id) => match game.players[0].joker_tag(id) {
            Some(t) => Some(t.as_str()),
            None => None,
        },
        None => None,
    };
    let resources = probe_resources(&game, db);
    let vp = plus(card_vp, probe_points(&game, db, false));
    let vp_total = probe_points(&game, db, true);
    let research = research_extra(db, &game.players[0]);
    let upgrades = game.players[0].phase_upgrade_labels();
    let sb = selector_bonus(db, &game.players[0], opts.phase);
    let delta = make_delta(&before, &after, hand_delta, total_paid);
    proof {
        assert(delta == delta_between(snap_spec(&g0), snap_spec(&g1), delta.hand, paid_sum(paid@)));
        assert(probe_states(db, opts, g0, g1, paid@.len() as int));
    }
    let res = ProbeResult {
        card: last.to_owned(),
        found: last_id.is_some(),
        in_lot,
        prereq_ok: reqs.0,
        prereq_ok_now: reqs.1,
        played,
        delta,
        vp,
        paid,
        discarded,
        resources,
        target_error: pol.error,
        produced: produce,
        derived_prod,
        vp_total,
        corp,
        steel: caps.steel,
        titanium: caps.titanium,
        research,
        upgrades,
        selector_bonus: sb,
        joker_tag,
    };
    proof {
        assert(res.paid@ == paid@ && res.delta == delta);
        assert(probe_states(db, opts, g0, g1, res.paid@.len() as int)
            && res.delta == delta_between(snap_spec(&g0), snap_spec(&g1), res.delta.hand, paid_sum(res.paid@)));
    }
    res
}

/// The report of a sequence whose last card is unknown: the starting
/// state only (the corporation asked set up all the same).
fn probe_not_found(db: &CardsDb, last: &str, opts: ProbeOptions, script: &ProbeScript, corp_name: Option<&str>)
    -> (r: ProbeResult)
    requires db_ok(db), opts.phase <= 5,
    ensures
        r.card@ == last@, !r.found, r.paid@.len() == 0, r.discarded@.len() == 0, !r.played, !r.in_lot,
        !r.produced, r.corp is Some == corp_name is Some, r.derived_prod == (0i64, 0i64, 0i64),
        !r.prereq_ok && !r.prereq_ok_now, r.delta == ProbeDelta::zero_spec(), r.vp == 0, r.vp_total == 0,
        r.resources@.len() == 0, r.target_error is None, r.joker_tag is None,
{
    let none: Vec<u16> = Vec::new();
    let (g, corp, _) = probe_state_corp(db, &none, opts, corp_name, script);
    let caps = player_capacities(&g.players[0]);
    ProbeResult {
        card: last.to_owned(),
        found: false,
        in_lot: false,
        prereq_ok: false,
        prereq_ok_now: false,
        played: false,
        delta: ProbeDelta::zero(),
        vp: 0,
        paid: Vec::new(),
        discarded: Vec::new(),
        resources: Vec::new(),
        target_error: None,
        produced: false,
        derived_prod: (0, 0, 0),
        vp_total: 0,
        corp,
        steel: caps.steel,
        titanium: caps.titanium,
        research: research_extra(db, &g.players[0]),
        upgrades: g.players[0].phase_upgrade_labels(),
        selector_bonus: selector_bonus(db, &g.players[0], opts.phase),
        joker_tag: None,
    }
}

/// The probe of a sequence without corporation.
pub fn run_probe_seq_full(db: &CardsDb, names: &[&str], opts: ProbeOptions, script: &ProbeScript, produce: bool)
    -> (r: ProbeResult)
    requires db_ok(db), opts.phase <= 5,
    ensures
        names@.len() > 0 ==> r.card@ == names@.last()@,
        r.found == (names@.len() > 0 && names_card(db, names@.last()@)),
        r.paid@.len() == r.discarded@.len(), r.paid@.len() <= names@.len(),
        !r.found ==> r.paid@.len() == 0 && !r.played,
        r.produced ==> produce, r.found ==> r.produced == produce, r.corp is None,
        !r.produced ==> r.derived_prod == (0i64, 0i64, 0i64),
{
    run_probe_seq_corp(db, names, opts, script, produce, None)
}

/// The probe of a sequence, the policy's answers scripted.
pub fn run_probe_seq_scripted(db: &CardsDb, names: &[&str], opts: ProbeOptions, script: &ProbeScript) -> (r: ProbeResult)
    requires db_ok(db), opts.phase <= 5,
    ensures
        names@.len() > 0 ==> r.card@ == names@.last()@,
        r.found == (names@.len() > 0 && names_card(db, names@.last()@)),
        r.paid@.len() == r.discarded@.len(), r.paid@.len() <= names@.len(),
        !r.found ==> r.paid@.len() == 0 && !r.played,
        !r.produced, r.corp is None,
{
    run_probe_seq_full(db, names, opts, script, false)
}

/// The probe of a sequence with options.
pub fn run_probe_seq_opts(db: &CardsDb, names: &[&str], opts: ProbeOptions) -> (r: ProbeResult)
    requires db_ok(db), opts.phase <= 5,
    ensures
        names@.len() > 0 ==> r.card@ == names@.last()@,
        r.found == (names@.len() > 0 && names_card(db, names@.last()@)),
        r.paid@.len() == r.discarded@.len(), r.paid@.len() <= names@.len(),
        !r.found ==> r.paid@.len() == 0 && !r.played,
        !r.produced, r.corp is None,
{
    let script = ProbeScript::new();
    run_probe_seq_scripted(db, names, opts, &script)
}

/// The probe of a sequence from the default starting state.
pub fn run_probe_seq(db: &CardsDb, names: &[&str]) -> (r: ProbeResult)
    requires db_ok(db),
    ensures
        names@.len() > 0 ==> r.card@ == names@.last()@,
        r.found == (names@.len() > 0 && names_card(db, names@.last()@)),
        r.paid@.len() == r.discarded@.len(), r.paid@.len() <= names@.len(),
        !r.found ==> r.paid@.len() == 0 && !r.played,
        !r.produced, r.corp is None,
{
    let opts = ProbeOptions { mc: 100, filler: 0, plants: 20, strict: false, phase: 0,
        upgrades: [None, None, None, None, None], objectif: None };
    run_probe_seq_opts(db, names, opts)
}

/// The probe of one card.
pub fn run_probe(db: &CardsDb, name: &str) -> (r: ProbeResult)
    requires db_ok(db),
    ensures
        r.card@ == name@,
        r.found == names_card(db, name@),
        r.paid@.len() == r.discarded@.len(), r.paid@.len() <= 1,
        !r.found ==> r.paid@.len() == 0 && !r.played,
{
    let names: [&str; 1] = [name];
    run_probe_seq(db, names.as_slice())
}


/// What the action probe activates.
#[derive(Debug, Clone, Copy, PartialEq, Eq, Structural)]
enum ActionTarget {
    /// A blue card in play.
    Card(u16),
    /// The probed player's corporation board.
    Corporation,
}

/// Does `name` designate a corporation of the database?
pub open spec fn names_corporation(db: &CardsDb, name: Seq<char>) -> bool {
    exists|j: int| 0 <= j < db.corporations@.len() && #[trigger] db.corporations@[j].name@ == name
}

/// The action probe with an explicit target: `names` is the sequence built
/// (unknown names left out), then the action of `target` (by default the
/// last card of the sequence) is activated once, if it is a card that got
/// into play, or the board of the corporation installed. The change
/// reported is the action's alone. A name that is neither a card nor a
/// corporation is refused: `found: false`, nothing activated.
#[verifier::rlimit(40)]
pub fn run_probe_action_target(db: &CardsDb, names: &[&str], script: &ProbeScript, corp_name: Option<&str>,
    opts: ProbeOptions, target: Option<&str>) -> (r: ProbeActionResult)
    requires db_ok(db), opts.phase <= 5,
    ensures
        target matches Some(t) ==> r.card@ == t@,
        (target is None && names@.len() > 0) ==> r.card@ == names@.last()@,
        r.found == (names_card(db, r.card@) || names_corporation(db, r.card@)),
        r.action_applied ==> r.has_action,
        !r.action_applied ==> r.delta == ProbeDelta::zero_spec(),
        r.has_action ==> r.in_lot && db.effects_on,
        r.corp is Some == corp_name is Some,
        !r.found ==> !r.in_lot && !r.has_action && !r.action_applied && r.delta == ProbeDelta::zero_spec()
            && r.resources@.len() == 0 && r.upgrades@.len() == 0 && r.target_error is None,
        (target is None && names@.len() == 0) ==> r.card@.len() == 0,
        r.in_lot ==> db.effects_on,
        res_by_name(db, r.resources@),
        r.found ==> exists|g0: GameState, g1: GameState| #![trigger action_states(db, g0, g1)]
            action_states(db, g0, g1) && (r.action_applied ==>
                r.delta == delta_between(snap_spec(&g0), snap_spec(&g1), r.delta.hand, 0)),
{
    proof {
        reveal_strlit("");
        assert(by_name(db, Seq::<u16>::empty()));
    }
    let name: &str = match target {
        Some(t) => t,
        None => if names.len() == 0 { "" } else { names[names.len() - 1] },
    };
    let ids = resolve_all(db, names);
    let aim: Option<ActionTarget> = match resolve(db, name) {
        Some(id) => Some(ActionTarget::Card(id)),
        None => {
            proof {
                assert forall|i: int| !#[trigger] db.resolves_to(name@, i) by {
                    if db.resolves_to(name@, i) { assert(i < db.projects@.len()); }
                }
            }
            match find_corporation(db, name) {
                Some(_) => Some(ActionTarget::Corporation),
                None => None,
            }
        }
    };
    let aim = match aim {
        Some(a) => a,
        None => {
            let none: Vec<u16> = Vec::new();
            let (_g, corp, _) = probe_state_corp(db, &none, opts, corp_name, script);
            return ProbeActionResult {
                card: name.to_owned(),
                found: false,
                in_lot: false,
                has_action: false,
                action_applied: false,
                delta: ProbeDelta::zero(),
                resources: Vec::new(),
                target_error: None,
                corp,
                upgrades: Vec::new(),
            };
        }
    };
    let (mut game, corp, _) = probe_state_corp(db, &ids, opts, corp_name, script);
    let corp_in_place = match (aim, game.players[0].corporation) {
        (ActionTarget::Corporation, Some(c)) => same_text(db.corporations[c as usize].name.as_str(), name),
        _ => false,
    };
    let (in_lot, has_action) = match aim {
        ActionTarget::Card(id) => {
            let card = &db.projects[id as usize];
            let in_lot = db.effects_on && card.effect.is_some();
            let act = match &card.effect {
                Some(e) => e.action.is_some(),
                None => false,
            };
            (in_lot, in_lot && act)
        }
        ActionTarget::Corporation => {
            if corp_in_place {
                match corp_effects(db, &game.players[0]) {
                    Some(e) => (true, e.action.is_some()),
                    None => (false, false),
                }
            } else {
                (false, false)
            }
        }
    };
    let mut pol = ProbePolicy::new(db, script);
    resolve_hand_jokers(&mut game, db, 0, &mut pol);
    build_sequence(&mut game, db, &ids, false, &mut pol, (false, false));
    let hand_after = game.players[0].hand.len();
    let before = snap(&game);
    let ghost g0 = game;
    let action_applied = match aim {
        ActionTarget::Card(id) => {
            if has_action && contains_id(&game.players[0].played, id) {
                apply_blue_action(&mut game, db, 0, id, &mut pol)
            } else {
                false
            }
        }
        ActionTarget::Corporation => {
            if has_action { apply_corp_action(&mut game, db, 0, &mut pol) } else { false }
        }
    };
    let after = snap(&game);
    let ghost g1 = game;
    let hand_delta = minus(game.players[0].hand.len() as i64, hand_after as i64);
    let resources = probe_resources(&game, db);
    let upgrades = game.players[0].phase_upgrade_labels();
    let delta = make_delta(&before, &after, hand_delta, 0);
    let res = ProbeActionResult {
        card: name.to_owned(),
        found: true,
        in_lot,
        has_action,
        action_applied: action_applied && has_action,
        delta,
        resources,
        target_error: pol.error,
        corp,
        upgrades,
    };
    proof {
        assert(res.delta == delta);
        assert(action_states(db, g0, g1)
            && res.delta == delta_between(snap_spec(&g0), snap_spec(&g1), res.delta.hand, 0));
    }
    res
}

/// The action probe of a sequence: the action of its last card.
pub fn run_probe_action_seq(db: &CardsDb, names: &[&str], script: &ProbeScript, corp_name: Option<&str>,
    opts: ProbeOptions) -> (r: ProbeActionResult)
    requires db_ok(db), opts.phase <= 5,
    ensures
        names@.len() > 0 ==> r.card@ == names@.last()@,
        r.found == (names_card(db, r.card@) || names_corporation(db, r.card@)),
        r.action_applied ==> r.has_action,
        !r.action_applied ==> r.delta == ProbeDelta::zero_spec(),
        r.corp is Some == corp_name is Some,
{
    run_probe_action_target(db, names, script, corp_name, opts, None)
}

/// The action probe of one card, with options.
pub fn run_probe_action_opts(db: &CardsDb, name: &str, script: &ProbeScript, corp_name: Option<&str>,
    opts: ProbeOptions) -> (r: ProbeActionResult)
    requires db_ok(db), opts.phase <= 5,
    ensures
        r.card@ == name@,
        r.found == (names_card(db, name@) || names_corporation(db, name@)),
        r.action_applied ==> r.has_action,
        !r.action_applied ==> r.delta == ProbeDelta::zero_spec(),
        r.corp is Some == corp_name is Some,
{
    let names: [&str; 1] = [name];
    run_probe_action_seq(db, names.as_slice(), script, corp_name, opts)
}

/// The action probe of one card, a corporation set up first.
pub fn run_probe_action_corp(db: &CardsDb, name: &str, script: &ProbeScript, corp_name: Option<&str>)
    -> (r: ProbeActionResult)
    requires db_ok(db),
    ensures
        r.card@ == name@,
        r.found == (names_card(db, name@) || names_corporation(db, name@)),
        r.action_applied ==> r.has_action,
        !r.action_applied ==> r.delta == ProbeDelta::zero_spec(),
        r.corp is Some == corp_name is Some,
{
    let opts = ProbeOptions { mc: 100, filler: 0, plants: 20, strict: false, phase: 0,
        upgrades: [None, None, None, None, None], objectif: None };
    run_probe_action_opts(db, name, script, corp_name, opts)
}

/// The action probe of one card, the policy's answers scripted.
pub fn run_probe_action_scripted(db: &CardsDb, name: &str, script: &ProbeScript) -> (r: ProbeActionResult)
    requires db_ok(db),
    ensures
        r.card@ == name@,
        r.found == (names_card(db, name@) || names_corporation(db, name@)),
        r.action_applied ==> r.has_action,
        !r.action_applied ==> r.delta == ProbeDelta::zero_spec(),
        r.corp is None,
{
    run_probe_action_corp(db, name, script, None)
}

/// The action probe of one card.
pub fn run_probe_action(db: &CardsDb, name: &str) -> (r: ProbeActionResult)
    requires db_ok(db),
    ensures
        r.card@ == name@,
        r.found == (names_card(db, name@) || names_corporation(db, name@)),
        r.action_applied ==> r.has_action,
        !r.action_applied ==> r.delta == ProbeDelta::zero_spec(),
        r.corp is None,
{
    let script = ProbeScript::new();
    run_probe_action_scripted(db, name, &script)
}

} // verus!
