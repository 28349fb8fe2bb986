//! Game state: players, planet, piles, milestones and awards.
//!
//! Constants: temperature −30..+8 °C by steps of 2 (20 levels), oxygen
//! 0..14 (15 levels), 9 ocean tiles; starting TR 5, starting hand 8, hand
//! limit 10, 3 MC per discarded card.

use vstd::prelude::*;
use rand::rngs::StdRng;
use std::collections::BTreeMap;
use crate::cards::{CardsDb, Color, Tag, TAG_COUNT, tag_index, color_index};
use crate::effects::{BuildGrant, NextCardMod};

verus! {

broadcast use vstd::std_specs::btree::group_btree_axioms;

/// The random generator of a game (outside type, carried through).
#[verifier::external_type_specification]
#[verifier::external_body]
pub struct ExStdRng(StdRng);

pub const NUM_PLAYERS: usize = 2;
/// Highest temperature level (index 19 == +8 °C).
pub const TEMPERATURE_MAX: u8 = 19;
/// Highest oxygen level (14 %).
pub const OXYGEN_MAX: u8 = 14;
/// Number of ocean tiles.
pub const NUM_OCEANS: u8 = 9;
/// Highest infrastructure level.
pub const INFRASTRUCTURE_MAX: u8 = 14;

pub const STARTING_TR: i64 = 5;
pub const STARTING_HAND: usize = 8;
pub const HAND_LIMIT: usize = 10;
pub const SELL_CARD_MC: i64 = 3;

// Standard actions.
pub const FOREST_PLANT_COST: i64 = 8;
pub const FOREST_MC_COST: i64 = 20;
pub const TEMPERATURE_HEAT_COST: i64 = 8;
pub const TEMPERATURE_MC_COST: i64 = 14;
pub const OCEAN_MC_COST: i64 = 15;

// Phase selector bonuses.
pub const DEV_SELECTOR_DISCOUNT: i64 = 3;
pub const PRODUCTION_SELECTOR_MC: i64 = 4;

/// Bonus of an ocean tile (cards, MC, plants).
#[derive(Debug, Clone, Copy, PartialEq, Eq, Structural)]
pub struct OceanTile {
    pub cards: u8,
    pub mc: i64,
    pub plants: i64,
}

/// The 9 ocean tiles of the base game, in their printed order.
pub open spec fn ocean_tiles_seq() -> Seq<OceanTile> {
    seq![
        OceanTile { cards: 0, mc: 0, plants: 2 },
        OceanTile { cards: 0, mc: 4, plants: 0 },
        OceanTile { cards: 1, mc: 1, plants: 0 },
        OceanTile { cards: 0, mc: 2, plants: 1 },
        OceanTile { cards: 1, mc: 0, plants: 1 },
        OceanTile { cards: 1, mc: 0, plants: 0 },
        OceanTile { cards: 0, mc: 1, plants: 1 },
        OceanTile { cards: 1, mc: 0, plants: 0 },
        OceanTile { cards: 0, mc: 0, plants: 2 },
    ]
}

/// The milestone pool, in its printed order.
pub open spec fn milestone_pool_seq() -> Seq<MilestoneKind> {
    seq![MilestoneKind::Builder, MilestoneKind::Diversifier, MilestoneKind::Energizer, MilestoneKind::Farmer,
        MilestoneKind::Legend, MilestoneKind::Magnate, MilestoneKind::Planner, MilestoneKind::SpaceBaron,
        MilestoneKind::Terraformer, MilestoneKind::Tycoon, MilestoneKind::Gardener]
}

/// The 9 ocean tiles of the base game (order before shuffling).
pub fn ocean_tiles() -> (r: [OceanTile; 9])
    ensures
        forall|i: int| 0 <= i < 9 ==> r@[i].cards <= 1 && 0 <= r@[i].mc <= 4 && 0 <= r@[i].plants <= 2,
        r@ == ocean_tiles_seq(),
{
    [
        OceanTile { cards: 0, mc: 0, plants: 2 },
        OceanTile { cards: 0, mc: 4, plants: 0 },
        OceanTile { cards: 1, mc: 1, plants: 0 },
        OceanTile { cards: 0, mc: 2, plants: 1 },
        OceanTile { cards: 1, mc: 0, plants: 1 },
        OceanTile { cards: 1, mc: 0, plants: 0 },
        OceanTile { cards: 0, mc: 1, plants: 1 },
        OceanTile { cards: 1, mc: 0, plants: 0 },
        OceanTile { cards: 0, mc: 0, plants: 2 },
    ]
}

/// Variant of an upgraded Phase card.
#[derive(Debug, Clone, Copy, PartialEq, Eq, Structural)]
pub enum PhaseUpgrade {
    VariantA,
    VariantB,
}

impl PhaseUpgrade {
    pub open spec fn index_spec(self) -> usize {
        match self {
            PhaseUpgrade::VariantA => 0usize,
            PhaseUpgrade::VariantB => 1usize,
        }
    }

    /// 0 for A, 1 for B.
    pub fn index(self) -> (r: usize)
        ensures r == self.index_spec(), r < 2,
    {
        match self {
            PhaseUpgrade::VariantA => 0,
            PhaseUpgrade::VariantB => 1,
        }
    }

    /// « A » or « B ».
    pub fn label(self) -> (r: &'static str)
        ensures r@ == (if self is VariantA { "A"@ } else { "B"@ }),
    {
        match self {
            PhaseUpgrade::VariantA => "A",
            PhaseUpgrade::VariantB => "B",
        }
    }
}

/// Milestones (base pool plus Discovery). Three are in play in a game.
#[derive(Debug, Clone, Copy, PartialEq, Eq, Structural)]
pub enum MilestoneKind {
    /// 8 building tags.
    Builder,
    /// 9 different tags.
    Diversifier,
    /// 10 heat production.
    Energizer,
    /// 5 plant production.
    Farmer,
    /// 6 red cards.
    Legend,
    /// 8 green cards.
    Magnate,
    /// 12 played cards.
    Planner,
    /// 6 space tags.
    SpaceBaron,
    /// TR at least 15.
    Terraformer,
    /// 6 blue cards.
    Tycoon,
    /// 3 forests.
    Gardener,
}

/// The milestone pool.
pub fn milestone_pool() -> (r: [MilestoneKind; 11])
    ensures
        r == [MilestoneKind::Builder, MilestoneKind::Diversifier, MilestoneKind::Energizer, MilestoneKind::Farmer,
            MilestoneKind::Legend, MilestoneKind::Magnate, MilestoneKind::Planner, MilestoneKind::SpaceBaron,
            MilestoneKind::Terraformer, MilestoneKind::Tycoon, MilestoneKind::Gardener],
        r@ == milestone_pool_seq(),
{
    [
        MilestoneKind::Builder,
        MilestoneKind::Diversifier,
        MilestoneKind::Energizer,
        MilestoneKind::Farmer,
        MilestoneKind::Legend,
        MilestoneKind::Magnate,
        MilestoneKind::Planner,
        MilestoneKind::SpaceBaron,
        MilestoneKind::Terraformer,
        MilestoneKind::Tycoon,
        MilestoneKind::Gardener,
    ]
}

/// Awards.
#[derive(Debug, Clone, Copy, PartialEq, Eq, Structural)]
pub enum AwardKind {
    /// MC production.
    Celebrity,
    /// Resources on cards.
    Collector,
    /// Heat production.
    Generator,
    /// Steel plus titanium know-how.
    Industrialist,
    /// Played cards.
    ProjectManager,
    /// Science tags.
    Researcher,
    /// Upgraded Phase cards (Discovery).
    Visionary,
}

/// The seven award tiles, Visionary last.
pub open spec fn award_pool_seq() -> Seq<AwardKind> {
    seq![AwardKind::Celebrity, AwardKind::Collector, AwardKind::Generator,
        AwardKind::Industrialist, AwardKind::ProjectManager, AwardKind::Researcher,
        AwardKind::Visionary]
}

/// The award pool.
pub fn award_pool_all() -> (r: [AwardKind; 7])
    ensures r@ == award_pool_seq(),
{
    let r = [
        AwardKind::Celebrity,
        AwardKind::Collector,
        AwardKind::Generator,
        AwardKind::Industrialist,
        AwardKind::ProjectManager,
        AwardKind::Researcher,
        AwardKind::Visionary,
    ];
    assert(r@ =~= seq![AwardKind::Celebrity, AwardKind::Collector, AwardKind::Generator,
            AwardKind::Industrialist, AwardKind::ProjectManager, AwardKind::Researcher,
            AwardKind::Visionary]);
    r
}

/// A milestone in play and who claimed it.
#[derive(Debug, Clone, Copy)]
pub struct MilestoneSlot {
    pub kind: MilestoneKind,
    pub achieved_by: [bool; 2],
}

/// Number of tags of `tags` whose counter slot is `i`.
pub open spec fn count_slot(tags: Seq<Tag>, i: usize) -> nat
    decreases tags.len(),
{
    if tags.len() == 0 {
        0
    } else {
        count_slot(tags.drop_last(), i) + if tag_index(tags.last()) == Some(i) { 1nat } else { 0nat }
    }
}

/// Count held to the range of `u32`.
pub open spec fn clamp_u32(v: int) -> int {
    if v > u32::MAX as int { u32::MAX as int } else { v }
}

/// Number of `Some` among the five Phase cards.
pub open spec fn upgrades_count_spec(u: Seq<Option<PhaseUpgrade>>) -> nat
    decreases u.len(),
{
    if u.len() == 0 {
        0
    } else {
        upgrades_count_spec(u.drop_last()) + if u.last() is Some { 1nat } else { 0nat }
    }
}

/// State of one player.
#[derive(Debug, Clone)]
pub struct PlayerState {
    pub mc: i64,
    pub heat: i64,
    pub plants: i64,
    pub tr: i64,
    pub forests: i64,
    pub mc_prod: i64,
    pub heat_prod: i64,
    pub plant_prod: i64,
    pub card_prod: i64,
    /// Steel know-how (cache of `flow::capacities`).
    pub steel_capacity: i64,
    /// Titanium know-how (cache of `flow::capacities`).
    pub titanium_capacity: i64,
    /// Hand (indices in `CardsDb::projects`).
    pub hand: Vec<u16>,
    /// Cards in play.
    pub played: Vec<u16>,
    /// Chosen corporation (index in `CardsDb::corporations`).
    pub corporation: Option<u16>,
    /// Tag counters of the cards in play (corporation included).
    pub tag_counts: [u32; 10],
    /// Played colours (green, blue, red).
    pub color_counts: [u32; 3],
    /// Phase chosen this round (1-5), 0 = none yet.
    pub chosen_phase: u8,
    /// Phase chosen the round before (forbidden this round).
    pub previous_phase: Option<u8>,
    /// Extra blue-card activations left in the action phase.
    pub extra_blue_activations: u8,
    /// Upgraded Phase cards, one slot per phase.
    pub phase_upgrades: [Option<PhaseUpgrade>; 5],
    /// Has the TR been raised during the current phase?
    pub tr_raised_this_phase: bool,
    /// TR steps granted (audit: tr == 5 + increments − decrements).
    pub tr_increments: u64,
    /// TR spent.
    pub tr_decrements: u64,
    /// Resources on cards in play: card → quantity (carrier cards only).
    pub card_resources: BTreeMap<u16, u32>,
    /// Extra build permissions gained in the current phase.
    pub pending_builds: Vec<BuildGrant>,
    /// Modifier armed for the next card of the phase.
    pub next_card_mod: NextCardMod,
    /// Tag chosen for the joker tag of a card (final once written).
    pub joker_tags: BTreeMap<u16, Tag>,
}

impl PlayerState {
    /// A fresh player: TR 5, nothing else.
    pub fn new() -> (r: PlayerState)
        ensures
            r.mc == 0 && r.heat == 0 && r.plants == 0 && r.tr == STARTING_TR && r.forests == 0,
            r.mc_prod == 0 && r.heat_prod == 0 && r.plant_prod == 0 && r.card_prod == 0,
            r.steel_capacity == 0 && r.titanium_capacity == 0,
            r.hand@.len() == 0 && r.played@.len() == 0,
            r.corporation is None,
            forall|i: int| 0 <= i < 10 ==> r.tag_counts[i] == 0,
            forall|i: int| 0 <= i < 3 ==> r.color_counts[i] == 0,
            r.chosen_phase == 0,
            r.previous_phase is None,
            r.extra_blue_activations == 0,
            forall|i: int| 0 <= i < 5 ==> r.phase_upgrades[i] is None,
            !r.tr_raised_this_phase,
            r.tr_increments == 0 && r.tr_decrements == 0,
            r.card_resources@ == Map::<u16, u32>::empty(),
            r.pending_builds@.len() == 0,
            r.next_card_mod.discount == 0 && !r.next_card_mod.color_flex,
            r.joker_tags@ == Map::<u16, Tag>::empty(),
    {
        PlayerState {
            mc: 0,
            heat: 0,
            plants: 0,
            tr: STARTING_TR,
            forests: 0,
            mc_prod: 0,
            heat_prod: 0,
            plant_prod: 0,
            card_prod: 0,
            steel_capacity: 0,
            titanium_capacity: 0,
            hand: Vec::new(),
            played: Vec::new(),
            corporation: None,
            tag_counts: [0; 10],
            color_counts: [0; 3],
            chosen_phase: 0,
            previous_phase: None,
            extra_blue_activations: 0,
            phase_upgrades: [None; 5],
            tr_raised_this_phase: false,
            tr_increments: 0,
            tr_decrements: 0,
            card_resources: BTreeMap::new(),
            pending_builds: Vec::new(),
            next_card_mod: NextCardMod::none(),
            joker_tags: BTreeMap::new(),
        }
    }

    /// Resources on a card (0 if it holds none or is not in play).
    pub open spec fn resources_on_spec(&self, card_id: u16) -> u32 {
        if self.card_resources@.contains_key(card_id) { self.card_resources@[card_id] } else { 0 }
    }

    /// Resources on a card (0 if it holds none or is not in play).
    pub fn resources_on(&self, card_id: u16) -> (r: u32)
        ensures r == self.resources_on_spec(card_id),
    {
        match self.card_resources.get(&card_id) {
            Some(n) => *n,
            None => 0,
        }
    }

    /// The tags of a card as this player sees them: a joker that received a
    /// token counts as the chosen tag.
    pub open spec fn tags_of_spec(&self, db: &CardsDb, card_id: u16) -> Seq<Tag> {
        db.projects@[card_id as int].tags@.map_values(|t: Tag|
            if t == Tag::Joker && self.joker_tags@.contains_key(card_id) {
                self.joker_tags@[card_id]
            } else {
                t
            })
    }

    /// The tags of a card as this player sees them.
    pub fn tags_of(&self, db: &CardsDb, card_id: u16) -> (r: Vec<Tag>)
        requires (card_id as int) < db.projects@.len(),
        ensures r@ == self.tags_of_spec(db, card_id),
    {
        let tags = &db.projects[card_id as usize].tags;
        let chosen: Option<Tag> = match self.joker_tags.get(&card_id) {
            Some(t) => Some(*t),
            None => None,
        };
        let mut out: Vec<Tag> = Vec::new();
        let mut i: usize = 0;
        while i < tags.len()
            invariant
                i <= tags@.len(),
                tags@ == db.projects@[card_id as int].tags@,
                chosen == (if self.joker_tags@.contains_key(card_id) { Some(self.joker_tags@[card_id]) } else { None::<Tag> }),
                out@ == tags@.subrange(0, i as int).map_values(|t: Tag|
                    if t == Tag::Joker && self.joker_tags@.contains_key(card_id) {
                        self.joker_tags@[card_id]
                    } else {
                        t
                    }),
            decreases tags@.len() - i,
        {
            let t = tags[i];
            let v = match chosen {
                Some(c) => if t.is_joker() { c } else { t },
                None => t,
            };
            out.push(v);
            proof {
                assert(tags@.subrange(0, i + 1) =~= tags@.subrange(0, i as int).push(t));
            }
            i = i + 1;
            proof {
                let f = |t: Tag| if t == Tag::Joker && self.joker_tags@.contains_key(card_id) {
                    self.joker_tags@[card_id] } else { t };
                assert(out@ =~= tags@.subrange(0, i as int).map_values(f));
            }
        }
        proof { assert(tags@.subrange(0, tags@.len() as int) =~= tags@); }
        out
    }

    /// The joker token placed on a card, if any.
    pub fn joker_tag(&self, card_id: u16) -> (r: Option<Tag>)
        ensures r == (if self.joker_tags@.contains_key(card_id) { Some(self.joker_tags@[card_id]) } else { None::<Tag> }),
    {
        match self.joker_tags.get(&card_id) {
            Some(t) => Some(*t),
            None => None,
        }
    }

    /// Brings a card into play: its tags (as this player sees them) and its
    /// colour are counted, and it joins the played cards. Returns whether a
    /// joker tag with a token entered the tag counters.
    pub fn put_in_play(&mut self, card_id: u16, db: &CardsDb) -> (r: bool)
        requires (card_id as int) < db.projects@.len(),
        ensures
            final(self).played@ == old(self).played@.push(card_id),
            forall|i: int| 0 <= i < 10 ==> final(self).tag_counts[i] == clamp_u32(
                old(self).tag_counts[i] + count_slot(old(self).tags_of_spec(db, card_id), i as usize)),
            forall|i: int| 0 <= i < 3 ==> final(self).color_counts[i] == clamp_u32(
                old(self).color_counts[i] + if i == color_index(db.projects@[card_id as int].color) { 1int } else { 0 }),
            r == (seq_contains_joker(db.projects@[card_id as int].tags@) && old(self).joker_tags@.contains_key(card_id)),
            final(self).frame_except_play(*old(self)),
    {
        let tags = self.tags_of(db, card_id);
        let ghost start = self.tag_counts;
        let mut counts = self.tag_counts;
        let mut i: usize = 0;
        while i < tags.len()
            invariant
                i <= tags@.len(),
                forall|k: int| 0 <= k < 10 ==> counts[k] == clamp_u32(
                    start[k] + count_slot(tags@.subrange(0, i as int), k as usize)),
            decreases tags@.len() - i,
        {
            proof {
                assert(tags@.subrange(0, i + 1).drop_last() =~= tags@.subrange(0, i as int));
            }
            match tags[i].index() {
                Some(k) => {
                    counts[k] = counts[k].saturating_add(1);
                }
                None => {}
            }
            i = i + 1;
        }
        proof { assert(tags@.subrange(0, tags@.len() as int) =~= tags@); }
        self.tag_counts = counts;
        let c = db.projects[card_id as usize].color.index();
        let mut colors = self.color_counts;
        colors[c] = colors[c].saturating_add(1);
        self.color_counts = colors;
        self.played.push(card_id);
        let has_joker = contains_joker(&db.projects[card_id as usize].tags);
        has_joker && self.joker_tags.contains_key(&card_id)
    }

    /// Everything but the played cards and the tag and colour counters is unchanged.
    pub open spec fn frame_except_play(&self, o: PlayerState) -> bool {
        &&& self.mc == o.mc && self.heat == o.heat && self.plants == o.plants
        &&& self.tr == o.tr && self.forests == o.forests
        &&& self.mc_prod == o.mc_prod && self.heat_prod == o.heat_prod
        &&& self.plant_prod == o.plant_prod && self.card_prod == o.card_prod
        &&& self.steel_capacity == o.steel_capacity && self.titanium_capacity == o.titanium_capacity
        &&& self.hand == o.hand
        &&& self.corporation == o.corporation
        &&& self.chosen_phase == o.chosen_phase && self.previous_phase == o.previous_phase
        &&& self.extra_blue_activations == o.extra_blue_activations
        &&& self.phase_upgrades == o.phase_upgrades
        &&& self.tr_raised_this_phase == o.tr_raised_this_phase
        &&& self.tr_increments == o.tr_increments && self.tr_decrements == o.tr_decrements
        &&& self.card_resources@ == o.card_resources@
        &&& self.pending_builds == o.pending_builds
        &&& self.next_card_mod == o.next_card_mod
        &&& self.joker_tags@ == o.joker_tags@
    }

    /// Nothing but the MC, heat and plants differs.
    pub open spec fn same_but_money(&self, o: PlayerState) -> bool {
        &&& self.tr == o.tr && self.forests == o.forests
        &&& self.mc_prod == o.mc_prod && self.heat_prod == o.heat_prod
        &&& self.plant_prod == o.plant_prod && self.card_prod == o.card_prod
        &&& self.steel_capacity == o.steel_capacity && self.titanium_capacity == o.titanium_capacity
        &&& self.hand == o.hand && self.played == o.played
        &&& self.corporation == o.corporation
        &&& self.tag_counts == o.tag_counts && self.color_counts == o.color_counts
        &&& self.chosen_phase == o.chosen_phase && self.previous_phase == o.previous_phase
        &&& self.extra_blue_activations == o.extra_blue_activations
        &&& self.phase_upgrades == o.phase_upgrades
        &&& self.tr_raised_this_phase == o.tr_raised_this_phase
        &&& self.tr_increments == o.tr_increments && self.tr_decrements == o.tr_decrements
        &&& self.card_resources@ == o.card_resources@
        &&& self.pending_builds == o.pending_builds
        &&& self.next_card_mod == o.next_card_mod
        &&& self.joker_tags@ == o.joker_tags@
    }

    /// Played cards of a colour.
    pub fn played_count(&self, color: Color) -> (r: u32)
        ensures r == self.color_counts[color_index(color) as int],
    {
        self.color_counts[color.index()]
    }

    /// Number of different tags in play.
    pub open spec fn unique_tags_spec(&self) -> nat {
        unique_upto(self.tag_counts@, 10)
    }

    /// Number of different tags in play.
    pub fn unique_tags(&self) -> (r: u32)
        ensures r == self.unique_tags_spec(), r <= 10,
    {
        let mut n: u32 = 0;
        let mut i: usize = 0;
        while i < 10
            invariant
                i <= 10,
                n == unique_upto(self.tag_counts@, i as int),
                n <= i,
            decreases 10 - i,
        {
            if self.tag_counts[i] > 0 {
                n = n + 1;
            }
            i = i + 1;
        }
        n
    }

    /// The TR audit: `tr == 5 + increments - decrements`, never negative,
    /// the increments below their machine limit.
    pub open spec fn tr_ok(&self) -> bool {
        &&& self.tr == STARTING_TR + self.tr_increments - self.tr_decrements
        &&& self.tr >= 0
        &&& self.tr_increments <= u64::MAX - 5
    }

    /// Can the TR still rise (below the machine limits of the counters)?
    pub open spec fn tr_can_rise(&self) -> bool {
        self.tr < i64::MAX && self.tr_increments < u64::MAX - 5
    }

    /// Raises the TR one step, counted for the TR audit. At the machine
    /// limits of the rating or of its counter the TR stays where it is.
    pub fn gain_tr(&mut self)
        ensures
            old(self).tr_can_rise() ==> final(self).tr == old(self).tr + 1
                && final(self).tr_increments == old(self).tr_increments + 1,
            !old(self).tr_can_rise() ==> final(self).tr == old(self).tr
                && final(self).tr_increments == old(self).tr_increments,
            final(self).tr_decrements == old(self).tr_decrements,
            old(self).tr_ok() ==> final(self).tr_ok(),
            final(self).same_but_tr(*old(self)),
    {
        if self.tr < i64::MAX && self.tr_increments < u64::MAX - 5 {
            self.tr = self.tr + 1;
            self.tr_increments = self.tr_increments + 1;
        }
    }

    /// Spends `n` TR (« Requires you to spend n TR »), counted for the audit.
    pub fn spend_tr(&mut self, n: i64)
        requires old(self).tr >= n, n >= 0, old(self).tr_decrements + n <= u64::MAX,
        ensures
            final(self).tr == old(self).tr - n,
            final(self).tr_decrements == old(self).tr_decrements + n,
            final(self).tr_increments == old(self).tr_increments,
            old(self).tr_ok() ==> final(self).tr_ok(),
            final(self).same_but_tr(*old(self)),
    {
        self.tr = self.tr - n;
        self.tr_decrements = self.tr_decrements + n as u64;
    }

    /// Nothing but the hand differs.
    pub open spec fn same_but_hand(&self, o: PlayerState) -> bool {
        &&& self.mc == o.mc && self.heat == o.heat && self.plants == o.plants
        &&& self.same_but_money_hand(o)
    }

    /// Nothing but the hand, the MC, heat and plants differs.
    pub open spec fn same_but_money_hand(&self, o: PlayerState) -> bool {
        &&& self.tr == o.tr && self.forests == o.forests
        &&& self.mc_prod == o.mc_prod && self.heat_prod == o.heat_prod
        &&& self.plant_prod == o.plant_prod && self.card_prod == o.card_prod
        &&& self.steel_capacity == o.steel_capacity && self.titanium_capacity == o.titanium_capacity
        &&& self.played == o.played
        &&& self.corporation == o.corporation
        &&& self.tag_counts == o.tag_counts && self.color_counts == o.color_counts
        &&& self.chosen_phase == o.chosen_phase && self.previous_phase == o.previous_phase
        &&& self.extra_blue_activations == o.extra_blue_activations
        &&& self.phase_upgrades == o.phase_upgrades
        &&& self.tr_raised_this_phase == o.tr_raised_this_phase
        &&& self.tr_increments == o.tr_increments && self.tr_decrements == o.tr_decrements
        &&& self.card_resources@ == o.card_resources@
        &&& self.pending_builds == o.pending_builds
        &&& self.next_card_mod == o.next_card_mod
        &&& self.joker_tags@ == o.joker_tags@
    }

    /// Nothing but the know-how differs.
    pub open spec fn same_but_caps(&self, o: PlayerState) -> bool {
        &&& self.mc == o.mc && self.heat == o.heat && self.plants == o.plants
        &&& self.tr == o.tr && self.forests == o.forests
        &&& self.mc_prod == o.mc_prod && self.heat_prod == o.heat_prod
        &&& self.plant_prod == o.plant_prod && self.card_prod == o.card_prod
        &&& self.hand == o.hand && self.played == o.played
        &&& self.corporation == o.corporation
        &&& self.tag_counts == o.tag_counts && self.color_counts == o.color_counts
        &&& self.chosen_phase == o.chosen_phase && self.previous_phase == o.previous_phase
        &&& self.extra_blue_activations == o.extra_blue_activations
        &&& self.phase_upgrades == o.phase_upgrades
        &&& self.tr_raised_this_phase == o.tr_raised_this_phase
        &&& self.tr_increments == o.tr_increments && self.tr_decrements == o.tr_decrements
        &&& self.card_resources@ == o.card_resources@
        &&& self.pending_builds == o.pending_builds
        &&& self.next_card_mod == o.next_card_mod
        &&& self.joker_tags@ == o.joker_tags@
    }

    /// Nothing but the resources on cards differs.
    pub open spec fn same_but_resources(&self, o: PlayerState) -> bool {
        &&& self.mc == o.mc && self.heat == o.heat && self.plants == o.plants
        &&& self.tr == o.tr && self.forests == o.forests
        &&& self.mc_prod == o.mc_prod && self.heat_prod == o.heat_prod
        &&& self.plant_prod == o.plant_prod && self.card_prod == o.card_prod
        &&& self.steel_capacity == o.steel_capacity && self.titanium_capacity == o.titanium_capacity
        &&& self.hand == o.hand && self.played == o.played
        &&& self.corporation == o.corporation
        &&& self.tag_counts == o.tag_counts && self.color_counts == o.color_counts
        &&& self.chosen_phase == o.chosen_phase && self.previous_phase == o.previous_phase
        &&& self.extra_blue_activations == o.extra_blue_activations
        &&& self.phase_upgrades == o.phase_upgrades
        &&& self.tr_raised_this_phase == o.tr_raised_this_phase
        &&& self.tr_increments == o.tr_increments && self.tr_decrements == o.tr_decrements
        &&& self.pending_builds == o.pending_builds
        &&& self.next_card_mod == o.next_card_mod
        &&& self.joker_tags@ == o.joker_tags@
    }

    /// Nothing but the Phase-card upgrades differ.
    pub open spec fn same_but_upgrades(&self, o: PlayerState) -> bool {
        &&& self.mc == o.mc && self.heat == o.heat && self.plants == o.plants
        &&& self.tr == o.tr && self.forests == o.forests
        &&& self.mc_prod == o.mc_prod && self.heat_prod == o.heat_prod
        &&& self.plant_prod == o.plant_prod && self.card_prod == o.card_prod
        &&& self.steel_capacity == o.steel_capacity && self.titanium_capacity == o.titanium_capacity
        &&& self.hand == o.hand && self.played == o.played
        &&& self.corporation == o.corporation
        &&& self.tag_counts == o.tag_counts && self.color_counts == o.color_counts
        &&& self.chosen_phase == o.chosen_phase && self.previous_phase == o.previous_phase
        &&& self.extra_blue_activations == o.extra_blue_activations
        &&& self.tr_raised_this_phase == o.tr_raised_this_phase
        &&& self.tr_increments == o.tr_increments && self.tr_decrements == o.tr_decrements
        &&& self.card_resources@ == o.card_resources@
        &&& self.pending_builds == o.pending_builds
        &&& self.next_card_mod == o.next_card_mod
        &&& self.joker_tags@ == o.joker_tags@
    }

    /// Nothing but the joker tokens differ.
    pub open spec fn same_but_jokers(&self, o: PlayerState) -> bool {
        &&& self.mc == o.mc && self.heat == o.heat && self.plants == o.plants
        &&& self.tr == o.tr && self.forests == o.forests
        &&& self.mc_prod == o.mc_prod && self.heat_prod == o.heat_prod
        &&& self.plant_prod == o.plant_prod && self.card_prod == o.card_prod
        &&& self.steel_capacity == o.steel_capacity && self.titanium_capacity == o.titanium_capacity
        &&& self.hand == o.hand && self.played == o.played
        &&& self.corporation == o.corporation
        &&& self.tag_counts == o.tag_counts && self.color_counts == o.color_counts
        &&& self.chosen_phase == o.chosen_phase && self.previous_phase == o.previous_phase
        &&& self.extra_blue_activations == o.extra_blue_activations
        &&& self.phase_upgrades == o.phase_upgrades
        &&& self.tr_raised_this_phase == o.tr_raised_this_phase
        &&& self.tr_increments == o.tr_increments && self.tr_decrements == o.tr_decrements
        &&& self.card_resources@ == o.card_resources@
        &&& self.pending_builds == o.pending_builds
        &&& self.next_card_mod == o.next_card_mod
    }

    /// Nothing but the TR and its two counters differs.
    pub open spec fn same_but_tr(&self, o: PlayerState) -> bool {
        &&& self.mc == o.mc && self.heat == o.heat && self.plants == o.plants
        &&& self.forests == o.forests
        &&& self.mc_prod == o.mc_prod && self.heat_prod == o.heat_prod
        &&& self.plant_prod == o.plant_prod && self.card_prod == o.card_prod
        &&& self.steel_capacity == o.steel_capacity && self.titanium_capacity == o.titanium_capacity
        &&& self.hand == o.hand && self.played == o.played
        &&& self.corporation == o.corporation
        &&& self.tag_counts == o.tag_counts && self.color_counts == o.color_counts
        &&& self.chosen_phase == o.chosen_phase && self.previous_phase == o.previous_phase
        &&& self.extra_blue_activations == o.extra_blue_activations
        &&& self.phase_upgrades == o.phase_upgrades
        &&& self.tr_raised_this_phase == o.tr_raised_this_phase
        &&& self.card_resources@ == o.card_resources@
        &&& self.pending_builds == o.pending_builds
        &&& self.next_card_mod == o.next_card_mod
        &&& self.joker_tags@ == o.joker_tags@
    }

    /// The upgrade installed on Phase card `phase` (1..=5).
    pub open spec fn phase_upgrade_spec(&self, phase: u8) -> Option<PhaseUpgrade> {
        if 1 <= phase <= 5 { self.phase_upgrades[phase as int - 1] } else { None }
    }

    /// The upgrade installed on Phase card `phase` (1..=5).
    pub fn phase_upgrade(&self, phase: u8) -> (r: Option<PhaseUpgrade>)
        ensures r == self.phase_upgrade_spec(phase),
    {
        if 1 <= phase && phase <= 5 { self.phase_upgrades[(phase - 1) as usize] } else { None }
    }

    /// Installs an upgrade on Phase card `phase`; returns whether the card
    /// was already upgraded.
    pub fn upgrade_phase(&mut self, phase: u8, v: PhaseUpgrade) -> (r: bool)
        requires 1 <= phase <= 5,
        ensures
            r == old(self).phase_upgrades[phase as int - 1] is Some,
            final(self).phase_upgrades@ == old(self).phase_upgrades@.update(phase as int - 1, Some(v)),
            final(self).same_but_upgrades(*old(self)),
    {
        let i = (phase - 1) as usize;
        let was = self.phase_upgrades[i].is_some();
        self.phase_upgrades[i] = Some(v);
        was
    }

    /// Number of upgraded Phase cards the player owns.
    pub fn phase_upgrades_count(&self) -> (r: i64)
        ensures r == upgrades_count_spec(self.phase_upgrades@),
    {
        let mut n: i64 = 0;
        let mut i: usize = 0;
        while i < 5
            invariant
                i <= 5,
                n == upgrades_count_spec(self.phase_upgrades@.subrange(0, i as int)),
                n <= i,
            decreases 5 - i,
        {
            proof {
                assert(self.phase_upgrades@.subrange(0, i + 1).drop_last() =~= self.phase_upgrades@.subrange(0, i as int));
            }
            if self.phase_upgrades[i].is_some() {
                n = n + 1;
            }
            i = i + 1;
        }
        proof { assert(self.phase_upgrades@.subrange(0, 5) =~= self.phase_upgrades@); }
        n
    }

    /// Labels of the upgraded Phase cards, by phase: `["1B", "5A"]`.
    pub fn phase_upgrade_labels(&self) -> (r: Vec<String>)
        ensures r@.len() == upgrades_count_spec(self.phase_upgrades@),
    {
        let mut out: Vec<String> = Vec::new();
        let mut i: usize = 0;
        while i < 5
            invariant
                i <= 5,
                out@.len() == upgrades_count_spec(self.phase_upgrades@.subrange(0, i as int)),
            decreases 5 - i,
        {
            proof {
                assert(self.phase_upgrades@.subrange(0, i + 1).drop_last() =~= self.phase_upgrades@.subrange(0, i as int));
            }
            match self.phase_upgrades[i] {
                Some(v) => out.push(upgrade_label(i, v)),
                None => {}
            }
            i = i + 1;
        }
        proof { assert(self.phase_upgrades@.subrange(0, 5) =~= self.phase_upgrades@); }
        out
    }
}

/// State of a whole game.
pub struct GameState {
    pub rng: StdRng,
    /// Project draw pile (the top is the end of the vector).
    pub deck: Vec<u16>,
    pub discard: Vec<u16>,
    /// Remaining corporations.
    pub corp_deck: Vec<u16>,
    /// Corporations set aside (mulligan, not chosen).
    pub corp_discard: Vec<u16>,
    pub oceans: [OceanTile; 9],
    pub oceans_revealed: u8,
    /// Temperature level (0..=19).
    pub temperature: u8,
    /// Oxygen level (0..=14).
    pub oxygen: u8,
    /// Infrastructure level (0..=14).
    pub infrastructure: u8,
    pub players: [PlayerState; 2],
    pub generation: u32,
    pub milestones: [MilestoneSlot; 3],
    pub awards: [AwardKind; 3],
    pub game_over: bool,
    /// Blue-card activations that really applied their effect.
    pub blue_actions: u64,
    // Planet snapshot at the start of the current phase.
    pub snap_temperature: u8,
    pub snap_oxygen: u8,
    pub snap_oceans: u8,
    pub snap_infrastructure: u8,
    /// First player of the current round (alternates every full round).
    pub first_player: usize,
    /// First player of every round really played, in order.
    pub turn_order: Vec<u8>,
    /// Payable cards excluded because the phase-start snapshot forbade them.
    pub prereq_snapshot_blocks: u64,
    /// Construction-bonus draws taken before / after the build.
    pub draw_before_build: u64,
    pub draw_after_build: u64,
    /// Cards discarded to pay for project cards.
    pub discard_payments: u64,
    /// Resources added to / removed from cards (units).
    pub res_added: u64,
    pub res_removed: u64,
    /// Resource puts skipped for want of a target.
    pub res_targets_missing: u64,
    pub phase_upgrades_skipped: u64,
    pub phase_upgrades_granted: u64,
    pub phase_upgrades_reupgraded: u64,
    pub upgraded_bonus_applied: u64,
    pub phase_upgrades_targeted: u64,
    pub phase_upgrades_by_action: u64,
    pub upgraded_reveal_bonuses: u64,
    pub objective_condition_hits: u64,
    pub draw_then_discard_uses: u64,
    pub upgraded_extra_builds: u64,
    /// Cards without encoding that entered play.
    pub cards_effects_unhandled: u64,
    /// Resources credited by derived production.
    pub derived_mc: u64,
    pub derived_heat: u64,
    pub derived_plants: u64,
    /// TR steps gained per tag.
    pub tr_from_tags: u64,
    /// Extra research draws thanks to permanent bonuses.
    pub research_extra_draws: u64,
    pub extra_builds_granted: u64,
    pub extra_builds_used: u64,
    pub free_builds: u64,
    pub next_card_mods_armed: u64,
    pub next_card_mods_used: u64,
    pub corp_heat_as_mc: u64,
    pub corp_forest_rebates: u64,
    pub corp_tr_boosts: u64,
    pub corp_trigger_tr: u64,
    pub action_phase_bonuses: u64,
    pub action_discard_costs: u64,
    pub draw_discard_discards: u64,
    pub cards_revealed: u64,
    pub standard_action_discounts: u64,
    pub action_mc_bonuses: u64,
    pub joker_tag_choices: u64,
    pub joker_tag_hits: u64,
    pub corp_phase_upgrades_at_setup: u64,
    pub discard_bonus_mc: u64,
    pub action_phase_self_bonus: u64,
}

/// Every card id of the sequence designates a project card.
pub open spec fn ids_ok(s: Seq<u16>, n: int) -> bool {
    forall|i: int| 0 <= i < s.len() ==> (s[i] as int) < n
}

impl PlayerState {
    /// The player's card and corporation ids are in range.
    pub open spec fn wf(&self, db: &CardsDb) -> bool {
        &&& ids_ok(self.hand@, db.projects@.len() as int)
        &&& ids_ok(self.played@, db.projects@.len() as int)
        &&& (self.corporation matches Some(c) ==> (c as int) < db.corporations@.len())
        &&& self.chosen_phase <= 5
    }
}

impl GameState {
    /// Ids in range, parameters within their tracks.
    pub open spec fn wf(&self, db: &CardsDb) -> bool {
        &&& db.wf()
        &&& ids_ok(self.deck@, db.projects@.len() as int)
        &&& ids_ok(self.discard@, db.projects@.len() as int)
        &&& ids_ok(self.corp_deck@, db.corporations@.len() as int)
        &&& ids_ok(self.corp_discard@, db.corporations@.len() as int)
        &&& self.players[0].wf(db)
        &&& self.players[1].wf(db)
        &&& self.oceans_revealed <= NUM_OCEANS
        &&& self.temperature <= TEMPERATURE_MAX
        &&& self.oxygen <= OXYGEN_MAX
        &&& self.infrastructure <= INFRASTRUCTURE_MAX
        &&& self.snap_oceans <= NUM_OCEANS
        &&& self.snap_temperature <= TEMPERATURE_MAX
        &&& self.snap_oxygen <= OXYGEN_MAX
        &&& self.snap_infrastructure <= INFRASTRUCTURE_MAX
        &&& self.first_player < 2
    }

    /// Are the three global parameters at their maximum?
    pub fn all_parameters_maxed(&self) -> (r: bool)
        ensures r == (self.temperature == TEMPERATURE_MAX && self.oxygen == OXYGEN_MAX
            && self.oceans_revealed == NUM_OCEANS),
    {
        self.temperature == TEMPERATURE_MAX
            && self.oxygen == OXYGEN_MAX
            && self.oceans_revealed == NUM_OCEANS
    }

    /// Takes the planet snapshot of the start of a phase.
    pub fn snapshot_planet(&mut self)
        ensures
            final(self).snap_temperature == old(self).temperature,
            final(self).snap_oxygen == old(self).oxygen,
            final(self).snap_oceans == old(self).oceans_revealed,
            final(self).snap_infrastructure == old(self).infrastructure,
            final(self).same_but_snapshot(*old(self)),
    {
        self.snap_temperature = self.temperature;
        self.snap_oxygen = self.oxygen;
        self.snap_oceans = self.oceans_revealed;
        self.snap_infrastructure = self.infrastructure;
    }

    /// Only the snapshot may differ.
    pub open spec fn same_but_snapshot(&self, o: GameState) -> bool {
        &&& self.deck == o.deck && self.discard == o.discard
        &&& self.corp_deck == o.corp_deck && self.corp_discard == o.corp_discard
        &&& self.oceans == o.oceans && self.oceans_revealed == o.oceans_revealed
        &&& self.temperature == o.temperature && self.oxygen == o.oxygen
        &&& self.infrastructure == o.infrastructure
        &&& self.players == o.players
        &&& self.generation == o.generation
        &&& self.first_player == o.first_player
        &&& self.game_over == o.game_over
        &&& self.milestones == o.milestones && self.awards == o.awards
        &&& self.turn_order == o.turn_order
    }

    /// Only the piles, the ocean tiles and the generator may differ.
    pub open spec fn same_but_piles_and_tiles(&self, o: GameState) -> bool {
        &&& self.discard == o.discard && self.corp_discard == o.corp_discard
        &&& self.oceans_revealed == o.oceans_revealed
        &&& self.temperature == o.temperature && self.oxygen == o.oxygen
        &&& self.infrastructure == o.infrastructure
        &&& self.players == o.players
        &&& self.generation == o.generation
        &&& self.first_player == o.first_player
        &&& self.game_over == o.game_over
        &&& self.milestones == o.milestones && self.awards == o.awards
        &&& self.turn_order == o.turn_order
        &&& self.snap_temperature == o.snap_temperature && self.snap_oxygen == o.snap_oxygen
        &&& self.snap_oceans == o.snap_oceans && self.snap_infrastructure == o.snap_infrastructure
    }

    /// The players in the turn order of the current round.
    pub fn players_in_turn_order(&self) -> (r: [usize; 2])
        requires self.first_player < 2,
        ensures r[0] == self.first_player, r[1] == (self.first_player + 1) % 2,
    {
        [self.first_player, (self.first_player + 1) % NUM_PLAYERS]
    }

    /// Number of alternations observed in the turn order really played.
    pub open spec fn switches_upto(&self, n: int) -> nat
        decreases n,
    {
        if n <= 1 {
            0
        } else {
            self.switches_upto(n - 1) + if self.turn_order@[n - 2] != self.turn_order@[n - 1] { 1nat } else { 0nat }
        }
    }

    /// Number of alternations observed in the turn order really played.
    pub fn turn_order_switches(&self) -> (r: u64)
        ensures r == self.switches_upto(self.turn_order@.len() as int),
    {
        let n = self.turn_order.len();
        let mut k: u64 = 0;
        let mut i: usize = 1;
        if n == 0 {
            return 0;
        }
        while i < n
            invariant
                n == self.turn_order@.len(),
                1 <= i <= n,
                k == self.switches_upto(i as int),
                k <= i,
            decreases n - i,
        {
            if self.turn_order[i - 1] != self.turn_order[i] {
                k = k + 1;
            }
            i = i + 1;
        }
        k
    }
}

/// Label of an upgraded Phase card: the phase's number (`i` counts from 0,
/// the fifth standing for any later one) then the variant.
pub open spec fn upgrade_label_spec(i: usize, v: PhaseUpgrade) -> Seq<char> {
    let n: char = if i == 0 { '1' } else if i == 1 { '2' } else if i == 2 { '3' } else if i == 3 { '4' } else { '5' };
    seq![n, if v is VariantA { 'A' } else { 'B' }]
}

/// Label of an upgraded Phase card: phase number then variant.
fn upgrade_label(i: usize, v: PhaseUpgrade) -> (r: String)
    ensures r@ == upgrade_label_spec(i, v),
{
    let s: &str = match (i, v) {
        (0, PhaseUpgrade::VariantA) => "1A",
        (0, PhaseUpgrade::VariantB) => "1B",
        (1, PhaseUpgrade::VariantA) => "2A",
        (1, PhaseUpgrade::VariantB) => "2B",
        (2, PhaseUpgrade::VariantA) => "3A",
        (2, PhaseUpgrade::VariantB) => "3B",
        (3, PhaseUpgrade::VariantA) => "4A",
        (3, PhaseUpgrade::VariantB) => "4B",
        (_, PhaseUpgrade::VariantA) => "5A",
        (_, PhaseUpgrade::VariantB) => "5B",
    };
    proof {
        reveal_strlit("1A"); reveal_strlit("1B"); reveal_strlit("2A"); reveal_strlit("2B");
        reveal_strlit("3A"); reveal_strlit("3B"); reveal_strlit("4A"); reveal_strlit("4B");
        reveal_strlit("5A"); reveal_strlit("5B");
    }
    assert(s@ =~= upgrade_label_spec(i, v));
    s.to_owned()
}

/// Number of nonzero counters among the first `n`.
pub open spec fn unique_upto(c: Seq<u32>, n: int) -> nat
    decreases n,
{
    if n <= 0 {
        0
    } else {
        unique_upto(c, n - 1) + if c[n - 1] > 0 { 1nat } else { 0nat }
    }
}

pub open spec fn seq_contains_joker(tags: Seq<Tag>) -> bool {
    exists|i: int| 0 <= i < tags.len() && tags[i] == Tag::Joker
}

/// Does the tag list hold a joker?
pub fn contains_joker(tags: &Vec<Tag>) -> (r: bool)
    ensures r == seq_contains_joker(tags@),
{
    let mut i: usize = 0;
    while i < tags.len()
        invariant
            i <= tags@.len(),
            forall|k: int| 0 <= k < i ==> tags@[k] != Tag::Joker,
        decreases tags@.len() - i,
    {
        if tags[i].is_joker() {
            return true;
        }
        i = i + 1;
    }
    false
}

} // verus!
