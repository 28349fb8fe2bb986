//! The game flow that changes the state: drawing, paying, raising the
//! global parameters, resources on cards, card effects, building, card
//! actions, the five phases, the round and the setup.

use vstd::prelude::*;
use vstd::multiset::Multiset;
use rand::rngs::StdRng;
use crate::arith::{clamp64, clamp_u64, plus, minus, count, count_i64};
use crate::cards::{CardsDb, Color, Tag, tag_index, color_index};
use crate::effects::{card_sound, corp_sound};
use crate::flow::{capacities_spec, capacities, player_ids_ok, corp_ok, heat_as_mc, heat_as_mc_spec};
use crate::rng::{upto};
use crate::policy::{ChoiceContext, Policy, UpgradeSource, ActionSource};
use crate::effects::{ResKind, ResEff, ResPut, ResTarget, ResAmount, Eff, ObjectiveGain, TrigGain, GlobalTrigger,
    eff_basic, res_eff_basic, branches_basic, trig_gain_basic, gains_basic, global_trigger_gains, corp_gain_ok};
use crate::arith::times;
use crate::flow::{has_objective, card_discount_spec, card_discount, microbe_discount_spec, microbe_discount,
    plant_discount_with_spec, plant_discount_with, plant_reduction_spec, plant_reduction, spendable_spec,
    spendable_mc_reserving, reserved_spec, heat_reserved_by, discard_rate_spec, discard_mc_rate, payable_spec,
    payable, effective_cost_spec, effective_cost, requirements_met, requirements_met_now, pay_res_in_cards,
    pay_res_in_reds, pay_plants_in_cards, pay_plants_in_reds, discard_bonus_per_card};
use crate::effects::{BuildGrant, NextCardMod, Reduction, reduction_sound, Req, ResStep, PlayTrigger,
    Action, ActionCost, ActionEff, ActionRes, PhaseBonus, Reveal};
use crate::flow::{action_mc_cost, action_mc_cost_spec, action_res_spec, action_res_get, action_res_add, reveal_matches, standard_mc_cost,
    standard_cost_spec, standard_discount_spec, forest_plant_cost, forest_plant_cost_spec, activable_blue_spec};
use crate::policy::ActionOpt;
use crate::rng::below;
use crate::state::{FOREST_MC_COST, FOREST_PLANT_COST, TEMPERATURE_HEAT_COST, TEMPERATURE_MC_COST, OCEAN_MC_COST};
use crate::state::seq_contains_joker;
use crate::cards::joker_tag_choices;
use crate::cards::in_deck_upto;
use crate::flow::{corp_effects, corp_spec, spendable_mc, reqs_ok_spec};
use crate::state::{PhaseUpgrade};
use crate::state::{GameState, PlayerState, ids_ok, NUM_OCEANS, TEMPERATURE_MAX, OXYGEN_MAX, INFRASTRUCTURE_MAX};

verus! {

broadcast use vstd::std_specs::btree::group_btree_axioms;

/// Encoding rules of the whole database (see `card_sound`, `corp_sound`),
/// and the count of its project cards in play kept as it was built.
pub open spec fn db_ok(db: &CardsDb) -> bool {
    &&& db.wf()
    &&& db.deck_project_count == crate::cards::in_deck_count(db)
    &&& forall|i: int| 0 <= i < db.projects@.len() ==>
        ((#[trigger] db.projects@[i]).effect matches Some(e) ==> card_sound(e))
    &&& forall|i: int| 0 <= i < db.corporations@.len() ==>
        ((#[trigger] db.corporations@[i]).effect matches Some(e) ==> corp_sound(e))
}

/// Does the database follow its rules (`db_ok`): sizes within the range of
/// the card ids, the count of project cards dealt equal to the cards of the
/// draw pile, every card and corporation encoded by the rules?
pub fn db_sound(db: &CardsDb) -> (r: bool)
    ensures r == db_ok(db),
{
    if db.projects.len() > 65536 || db.corporations.len() > 65536 {
        return false;
    }
    let mut n: usize = 0;
    let mut i: usize = 0;
    while i < db.projects.len()
        invariant i <= db.projects@.len(), db.projects@.len() <= 65536, n == in_deck_upto(db, i as int).len(), n <= i,
        decreases db.projects@.len() - i,
    {
        if db.projects[i].in_deck {
            n = n + 1;
        }
        i = i + 1;
    }
    if n != db.deck_project_count {
        return false;
    }
    let mut j: usize = 0;
    while j < db.projects.len()
        invariant j <= db.projects@.len(),
            forall|k: int| 0 <= k < j ==> ((#[trigger] db.projects@[k]).effect matches Some(e) ==> card_sound(e)),
        decreases db.projects@.len() - j,
    {
        match &db.projects[j].effect {
            Some(e) => {
                if !crate::effects::card_is_sound(e) {
                    return false;
                }
            }
            None => {}
        }
        j = j + 1;
    }
    let mut c: usize = 0;
    while c < db.corporations.len()
        invariant c <= db.corporations@.len(),
            forall|k: int| 0 <= k < c ==> ((#[trigger] db.corporations@[k]).effect matches Some(e) ==> corp_sound(e)),
        decreases db.corporations@.len() - c,
    {
        match &db.corporations[c].effect {
            Some(e) => {
                if !crate::effects::corp_is_sound(e) {
                    return false;
                }
            }
            None => {}
        }
        c = c + 1;
    }
    true
}

/// The know-how a player's state holds is the one its cards give.
pub open spec fn caps_ok(db: &CardsDb, pl: &PlayerState) -> bool {
    let c = capacities_spec(db, pl.played@, pl.corporation);
    pl.steel_capacity == c.steel && pl.titanium_capacity == c.titanium
}

/// Only carrier cards (cards that hold a kind of resource) are in the
/// player's table of resources.
pub open spec fn resources_ok(db: &CardsDb, pl: &PlayerState) -> bool {
    forall|c: u16| #[trigger] pl.card_resources@.contains_key(c) ==>
        (c as int) < db.projects@.len() && db.projects@[c as int].holds_spec() is Some
}

impl GameState {
    /// Project cards in the piles, the hands and in play.
    pub open spec fn cards_total(&self) -> int {
        (self.deck@.len() + self.discard@.len()
            + self.players[0].hand@.len() + self.players[0].played@.len()
            + self.players[1].hand@.len() + self.players[1].played@.len()) as int
    }

    /// The invariant of a game in progress: ids in range, parameters on
    /// their tracks, the TR audit, the know-how cache.
    pub open spec fn inv(&self, db: &CardsDb) -> bool {
        &&& self.wf(db)
        &&& db_ok(db)
        &&& self.players[0].tr_ok() && self.players[1].tr_ok()
        &&& caps_ok(db, &self.players[0]) && caps_ok(db, &self.players[1])
        &&& resources_ok(db, &self.players[0]) && resources_ok(db, &self.players[1])
    }

    /// What every move of the game keeps, from `o` to `self`: the number
    /// of project cards, the global parameters never going down, the TR
    /// counters never going down, the phase snapshot, the round, the
    /// corporations.
    pub open spec fn step(&self, o: &GameState) -> bool {
        &&& self.cards_total() == o.cards_total()
        &&& self.moves(o)
    }

    /// What every move keeps but the number of cards (a card in play never
    /// leaves play).
    pub open spec fn moves(&self, o: &GameState) -> bool {
        &&& o.temperature <= self.temperature && o.oxygen <= self.oxygen
        &&& o.oceans_revealed <= self.oceans_revealed && o.infrastructure <= self.infrastructure
        &&& self.snap_temperature == o.snap_temperature && self.snap_oxygen == o.snap_oxygen
        &&& self.snap_oceans == o.snap_oceans && self.snap_infrastructure == o.snap_infrastructure
        &&& self.first_player == o.first_player && self.generation == o.generation
        &&& self.game_over == o.game_over && self.turn_order == o.turn_order
        &&& self.oceans == o.oceans && self.milestones == o.milestones && self.awards == o.awards
        &&& self.corp_deck == o.corp_deck && self.corp_discard == o.corp_discard
        &&& forall|p: int| 0 <= p < 2 ==> {
            &&& (#[trigger] self.players[p]).corporation == o.players[p].corporation
            &&& self.players[p].chosen_phase == o.players[p].chosen_phase
            &&& self.players[p].previous_phase == o.players[p].previous_phase
            &&& o.players[p].tr_increments <= self.players[p].tr_increments
            &&& o.players[p].tr_decrements <= self.players[p].tr_decrements
            &&& o.players[p].forests <= self.players[p].forests
            &&& o.players[p].played@.len() <= self.players[p].played@.len()
            &&& forall|i: int| 0 <= i < o.players[p].played@.len() ==>
                #[trigger] self.players[p].played@[i] == o.players[p].played@[i]
        }
    }
}

/// Every element of `a` is an element of `b`.
pub open spec fn drawn_from<T>(a: Seq<T>, b: Seq<T>) -> bool {
    forall|k: int| 0 <= k < a.len() ==> b.contains(#[trigger] a[k])
}

pub proof fn lemma_ids_drawn_from(a: Seq<u16>, b: Seq<u16>, n: int)
    requires drawn_from(a, b), ids_ok(b, n),
    ensures ids_ok(a, n),
{
    assert forall|k: int| 0 <= k < a.len() implies (a[k] as int) < n by {
        assert(b.contains(a[k]));
        let m = choose|m: int| 0 <= m < b.len() && b[m] == a[k];
    }
}

/// Fisher–Yates shuffle, in place, with the game's generator.
pub fn shuffle<T: Copy>(v: &mut Vec<T>, rng: &mut StdRng)
    ensures
        final(v)@.len() == old(v)@.len(),
        drawn_from(final(v)@, old(v)@),
        final(v)@.to_multiset() == old(v)@.to_multiset(),
{
    let ghost orig = v@;
    let n = v.len();
    let mut i: usize = n;
    proof {
        assert forall|k: int| 0 <= k < v@.len() implies orig.contains(#[trigger] v@[k]) by {
            assert(orig[k] == v@[k]);
        }
    }
    while i > 1
        invariant
            i <= n, v@.len() == n, orig.len() == n,
            drawn_from(v@, orig),
            v@.to_multiset() == orig.to_multiset(),
        decreases i,
    {
        i = i - 1;
        let j = upto(rng, i);
        let a = v[i];
        let b = v[j];
        let ghost before = v@;
        v.set(i, b);
        v.set(j, a);
        proof {
            lemma_swap_multiset(before, i as int, j as int);
            assert forall|k: int| 0 <= k < v@.len() implies orig.contains(#[trigger] v@[k]) by {
                if k == j as int {
                    assert(v@[k] == before[i as int]);
                    assert(orig.contains(before[i as int]));
                } else if k == i as int {
                    assert(v@[k] == before[j as int]);
                    assert(orig.contains(before[j as int]));
                } else {
                    assert(v@[k] == before[k]);
                    assert(orig.contains(before[k]));
                }
            }
        }
    }
}

/// Exchanging two places keeps every element.
pub proof fn lemma_swap_multiset<T>(s: Seq<T>, i: int, j: int)
    requires 0 <= i < s.len(), 0 <= j < s.len(),
    ensures s.update(i, s[j]).update(j, s[i]).to_multiset() == s.to_multiset(),
{
    broadcast use vstd::multiset::group_multiset_axioms;
    let s1 = s.update(i, s[j]);
    vstd::seq_lib::to_multiset_update(s, i, s[j]);
    vstd::seq_lib::to_multiset_update(s1, j, s[i]);
    vstd::seq_lib::to_multiset_contains(s, s[i]);
    assert(s1[j] == s[j]);
    assert(s.to_multiset().insert(s[j]).remove(s[i]).insert(s[i]).remove(s[j]) =~= s.to_multiset());
}

/// MC, heat and plants of both players are as in `o`.
pub open spec fn resources_kept(a: &GameState, o: &GameState) -> bool {
    forall|q: int| 0 <= q < 2 ==> {
        &&& (#[trigger] a.players[q]).mc == o.players[q].mc
        &&& a.players[q].heat == o.players[q].heat
        &&& a.players[q].plants == o.players[q].plants
    }
}

/// The smaller of two integers.
pub open spec fn min_int(a: int, b: int) -> int {
    if a < b { a } else { b }
}

/// Temperature, oxygen and oceans are where they were.
pub open spec fn params_kept(a: &GameState, o: &GameState) -> bool {
    a.temperature == o.temperature && a.oxygen == o.oxygen && a.oceans_revealed == o.oceans_revealed
}

/// Neither player holds negative heat or plants.
pub open spec fn hp_nonneg(g: &GameState) -> bool {
    forall|q: int| 0 <= q < 2 ==> (#[trigger] g.players[q]).heat >= 0 && g.players[q].plants >= 0
}

/// No ocean tile takes plants away.
pub open spec fn tiles_nonneg(g: &GameState) -> bool {
    forall|i: int| 0 <= i < 9 ==> (#[trigger] g.oceans[i]).plants >= 0
}

/// Draws a card; reshuffles the discard pile when the draw pile is empty.
pub fn draw_card(game: &mut GameState) -> (r: Option<u16>)
    ensures
        final(game).players == old(game).players,
        (r is None) == (old(game).deck@.len() == 0 && old(game).discard@.len() == 0),
        final(game).deck@.len() + final(game).discard@.len() + (if r is Some { 1int } else { 0 })
            == old(game).deck@.len() + old(game).discard@.len(),
        forall|n: int| ids_ok(old(game).deck@, n) && ids_ok(old(game).discard@, n) ==>
            ids_ok(final(game).deck@, n) && ids_ok(final(game).discard@, n)
            && (r matches Some(c) ==> (c as int) < n),
        final(game).same_but_piles(*old(game)),
        ({
            let drawn = match r { Some(c) => Multiset::singleton(c), None => Multiset::empty() };
            final(game).deck@.to_multiset().add(final(game).discard@.to_multiset()).add(drawn)
                == old(game).deck@.to_multiset().add(old(game).discard@.to_multiset())
        }),
        old(game).deck@.len() > 0 ==> r == Some(old(game).deck@.last()) && final(game).deck@ == old(game).deck@.drop_last()
            && final(game).discard == old(game).discard,
        *final(game) == (GameState { deck: final(game).deck, discard: final(game).discard, rng: final(game).rng, ..*old(game) }),
        old(game).deck@.len() == 0 && old(game).discard@.len() > 0 ==> (final(game).discard@.len() == 0
            && (r matches Some(c) && final(game).deck@.push(c).to_multiset() == old(game).discard@.to_multiset())),
{
    broadcast use vstd::multiset::group_multiset_axioms;
    if game.deck.len() == 0 && game.discard.len() > 0 {
        std::mem::swap(&mut game.deck, &mut game.discard);
        let ghost before = game.deck@;
        shuffle(&mut game.deck, &mut game.rng);
        proof {
            assert forall|n: int| ids_ok(before, n) implies ids_ok(game.deck@, n) by {
                lemma_ids_drawn_from(game.deck@, before, n);
            }
            vstd::seq_lib::to_multiset_len(old(game).deck@);
            vstd::seq_lib::to_multiset_len(game.discard@);
            vstd::multiset::lemma_multiset_empty_len(old(game).deck@.to_multiset());
            vstd::multiset::lemma_multiset_empty_len(game.discard@.to_multiset());
            assert(old(game).deck@.to_multiset() =~= Multiset::empty());
            assert(game.discard@.to_multiset() =~= Multiset::empty());
            assert(old(game).deck@.to_multiset().add(old(game).discard@.to_multiset())
                =~= game.deck@.to_multiset().add(game.discard@.to_multiset()));
        }
    }
    let ghost d = game.deck@;
    let r = game.deck.pop();
    proof {
        match r {
            Some(c) => {
                assert(d =~= game.deck@.push(c));
                vstd::seq_lib::to_multiset_build(game.deck@, c);
                assert(game.deck@.to_multiset().add(game.discard@.to_multiset()).add(Multiset::singleton(c))
                    =~= d.to_multiset().add(game.discard@.to_multiset()));
            }
            None => {
                assert(game.deck@.to_multiset().add(game.discard@.to_multiset()).add(Multiset::empty())
                    =~= d.to_multiset().add(game.discard@.to_multiset()));
            }
        }
    }
    proof {
        assert forall|n: int| ids_ok(old(game).deck@, n) && ids_ok(old(game).discard@, n) implies
            (r matches Some(c) ==> (c as int) < n) by {
            match r {
                Some(c) => {}
                None => {}
            }
        }
    }
    r
}

impl GameState {
    /// Nothing but the two piles and the generator differs.
    pub open spec fn same_but_piles(&self, o: GameState) -> bool {
        &&& self.players == o.players
        &&& self.corp_deck == o.corp_deck && self.corp_discard == o.corp_discard
        &&& self.oceans == o.oceans && self.oceans_revealed == o.oceans_revealed
        &&& self.temperature == o.temperature && self.oxygen == o.oxygen
        &&& self.infrastructure == o.infrastructure
        &&& self.generation == o.generation && self.milestones == o.milestones
        &&& self.awards == o.awards && self.game_over == o.game_over
        &&& self.snap_temperature == o.snap_temperature && self.snap_oxygen == o.snap_oxygen
        &&& self.snap_oceans == o.snap_oceans && self.snap_infrastructure == o.snap_infrastructure
        &&& self.first_player == o.first_player && self.turn_order == o.turn_order
    }
}


/// Draws a card into the hand of player `p`, if there is one to draw.
pub fn draw_into_hand(game: &mut GameState, db: &CardsDb, p: usize) -> (r: Option<u16>)
    requires p < 2, old(game).inv(db),
    ensures
        final(game).inv(db), final(game).step(old(game)),
        params_kept(final(game), old(game)),
        final(game).free_builds == old(game).free_builds && final(game).discard_payments == old(game).discard_payments,
        final(game).players[p as int].played == old(game).players[p as int].played,
        final(game).players[p as int].hand@ == (match r {
            Some(c) => old(game).players[p as int].hand@.push(c),
            None => old(game).players[p as int].hand@,
        }),
        final(game).players[p as int].same_but_hand(old(game).players[p as int]),
        final(game).players[1 - p as int] == old(game).players[1 - p as int],
        (r is None) == (old(game).deck@.len() == 0 && old(game).discard@.len() == 0),
        final(game).same_but_cards(*old(game)),
        final(game).deck@.to_multiset().add(final(game).discard@.to_multiset())
            .add(final(game).players[p as int].hand@.to_multiset())
            == old(game).deck@.to_multiset().add(old(game).discard@.to_multiset())
            .add(old(game).players[p as int].hand@.to_multiset()),
        final(game).deck@.len() + final(game).discard@.len() + (if r is Some { 1int } else { 0 })
            == old(game).deck@.len() + old(game).discard@.len(),
{
    broadcast use vstd::multiset::group_multiset_axioms;
    let ghost h = game.players[p as int].hand@;
    let r = draw_card(game);
    match r {
        Some(c) => {
            game.players[p].hand.push(c);
            proof {
                vstd::seq_lib::to_multiset_build(h, c);
                assert(game.deck@.to_multiset().add(game.discard@.to_multiset()).add(h.to_multiset().insert(c))
                    =~= game.deck@.to_multiset().add(game.discard@.to_multiset()).add(Multiset::singleton(c))
                        .add(h.to_multiset()));
            }
        }
        None => {
            proof {
                assert(game.deck@.to_multiset().add(game.discard@.to_multiset()).add(Multiset::empty())
                    =~= game.deck@.to_multiset().add(game.discard@.to_multiset()));
            }
        }
    }
    r
}

/// Discards the named card from the hand of player `p` to the discard pile;
/// false if it is not in hand.
pub fn discard_from_hand(game: &mut GameState, db: &CardsDb, p: usize, card: u16) -> (r: bool)
    requires p < 2, old(game).inv(db),
    ensures
        final(game).inv(db), final(game).step(old(game)),
        params_kept(final(game), old(game)),
        final(game).free_builds == old(game).free_builds && final(game).discard_payments == old(game).discard_payments,
        final(game).players[p as int].played == old(game).players[p as int].played,
        r == old(game).players[p as int].hand@.contains(card),
        final(game).players[p as int].same_but_hand(old(game).players[p as int]),
        final(game).players[1 - p as int] == old(game).players[1 - p as int],
        final(game).players[p as int].hand@.len() == old(game).players[p as int].hand@.len() - (if r { 1int } else { 0 }),
        final(game).same_but_cards(*old(game)),
{
    let n = game.players[p].hand.len();
    let mut i: usize = 0;
    while i < n
        invariant
            i <= n, n == game.players[p as int].hand@.len(), p < 2,
            *game == *old(game), game.inv(db),
            forall|k: int| 0 <= k < i ==> game.players[p as int].hand@[k] != card,
        decreases n - i,
    {
        if game.players[p].hand[i] == card {
            let ghost h = game.players[p as int].hand@;
            let c = game.players[p].hand.remove(i);
            game.discard.push(c);
            proof {
                assert(ids_ok(game.players[p as int].hand@, db.projects@.len() as int)) by {
                    assert forall|k: int| 0 <= k < game.players[p as int].hand@.len() implies
                        (game.players[p as int].hand@[k] as int) < db.projects@.len() by {
                        if k < i { assert(game.players[p as int].hand@[k] == h[k]); }
                        else { assert(game.players[p as int].hand@[k] == h[k + 1]); }
                    }
                }
                assert(h.contains(card));
            }
            return true;
        }
        i = i + 1;
    }
    false
}

impl GameState {
    /// Nothing but the piles, the generator and the hands differs.
    pub open spec fn same_but_cards(&self, o: GameState) -> bool {
        &&& self.corp_deck == o.corp_deck && self.corp_discard == o.corp_discard
        &&& self.oceans == o.oceans && self.oceans_revealed == o.oceans_revealed
        &&& self.temperature == o.temperature && self.oxygen == o.oxygen
        &&& self.infrastructure == o.infrastructure
        &&& self.generation == o.generation && self.milestones == o.milestones
        &&& self.awards == o.awards && self.game_over == o.game_over
        &&& self.snap_temperature == o.snap_temperature && self.snap_oxygen == o.snap_oxygen
        &&& self.snap_oceans == o.snap_oceans && self.snap_infrastructure == o.snap_infrastructure
        &&& self.first_player == o.first_player && self.turn_order == o.turn_order
    }
}


impl GameState {
    /// Nothing but the players (and the audit counters) differs.
    pub open spec fn same_but_players(&self, o: GameState) -> bool {
        &&& self.deck == o.deck && self.discard == o.discard
        &&& self.same_but_cards(o)
    }
}

/// Writes the know-how derived from the cards into the player's state: the
/// only writer of `steel_capacity` and `titanium_capacity`.
pub fn refresh_capacities(game: &mut GameState, db: &CardsDb, p: usize)
    requires p < 2, player_ids_ok(db, &old(game).players[p as int]),
    ensures
        caps_ok(db, &final(game).players[p as int]),
        final(game).players[p as int].steel_capacity == capacities_spec(db, old(game).players[p as int].played@, old(game).players[p as int].corporation).steel,
        final(game).players[p as int].titanium_capacity == capacities_spec(db, old(game).players[p as int].played@, old(game).players[p as int].corporation).titanium,
        final(game).players[p as int].same_but_caps(old(game).players[p as int]),
        final(game).players[1 - p as int] == old(game).players[1 - p as int],
        final(game).same_but_players(*old(game)),
        *final(game) == (GameState { players: final(game).players, ..*old(game) }),
{
    let c = capacities(db, &game.players[p]);
    game.players[p].steel_capacity = c.steel;
    game.players[p].titanium_capacity = c.titanium;
}

/// A carrier card enters the table of resources with 0: an empty carrier is
/// already a valid target. A card that holds nothing never enters it.
pub fn init_card_resources(game: &mut GameState, db: &CardsDb, p: usize, card_id: u16)
    requires p < 2, (card_id as int) < db.projects@.len(),
    ensures
        final(game).free_builds == old(game).free_builds && final(game).discard_payments == old(game).discard_payments,
        final(game).players[p as int].card_resources@ == (if db.projects@[card_id as int].holds_spec() is Some {
            old(game).players[p as int].card_resources@.insert(card_id, 0u32)
        } else {
            old(game).players[p as int].card_resources@
        }),
        final(game).players[p as int].same_but_resources(old(game).players[p as int]),
        final(game).players[1 - p as int] == old(game).players[1 - p as int],
        final(game).same_but_players(*old(game)),
{
    if db.projects[card_id as usize].holds().is_some() {
        game.players[p].card_resources.insert(card_id, 0);
    }
}

/// Adds `n` resources on a carrier card in play of player `p` (held at the
/// range of `u32`), counted in `res_added`.
pub fn add_resources(game: &mut GameState, db: &CardsDb, p: usize, card_id: u16, n: u32)
    requires
        p < 2, (card_id as int) < db.projects@.len(),
        n > 0 ==> db.projects@[card_id as int].holds_spec() is Some
            && old(game).players[p as int].card_resources@.contains_key(card_id),
    ensures
        final(game).free_builds == old(game).free_builds && final(game).discard_payments == old(game).discard_payments,
        final(game).players[p as int].card_resources@ == (if n == 0 {
            old(game).players[p as int].card_resources@
        } else {
            old(game).players[p as int].card_resources@.insert(card_id,
                crate::state::clamp_u32(old(game).players[p as int].card_resources@[card_id] + n) as u32)
        }),
        final(game).res_added == (if n == 0 { old(game).res_added as int } else { crate::arith::clamp_u64(old(game).res_added + n) }),
        final(game).players[p as int].same_but_resources(old(game).players[p as int]),
        final(game).players[1 - p as int] == old(game).players[1 - p as int],
        final(game).same_but_players(*old(game)),
{
    if n == 0 {
        return;
    }
    let cur = game.players[p].resources_on(card_id);
    game.players[p].card_resources.insert(card_id, cur.saturating_add(n));
    game.res_added = count(game.res_added, n as u64);
}

/// Removes `n` resources from a card in play of player `p`, counted in
/// `res_removed`.
pub fn remove_resources(game: &mut GameState, db: &CardsDb, p: usize, card_id: u16, n: u32)
    requires
        p < 2,
        n > 0 ==> old(game).players[p as int].card_resources@.contains_key(card_id)
            && old(game).players[p as int].card_resources@[card_id] >= n,
    ensures
        final(game).free_builds == old(game).free_builds && final(game).discard_payments == old(game).discard_payments,
        final(game).players[p as int].card_resources@ == (if n == 0 {
            old(game).players[p as int].card_resources@
        } else {
            old(game).players[p as int].card_resources@.insert(card_id,
                (old(game).players[p as int].card_resources@[card_id] - n) as u32)
        }),
        final(game).res_removed == (if n == 0 { old(game).res_removed as int } else { crate::arith::clamp_u64(old(game).res_removed + n) }),
        final(game).players[p as int].same_but_resources(old(game).players[p as int]),
        final(game).players[1 - p as int] == old(game).players[1 - p as int],
        final(game).same_but_players(*old(game)),
{
    if n == 0 {
        return;
    }
    let cur = game.players[p].resources_on(card_id);
    game.players[p].card_resources.insert(card_id, cur - n);
    game.res_removed = count(game.res_removed, n as u64);
}

/// Heat the top-up converts: what is missing to reach `cost`, within the
/// heat left once `reserved` is set aside.
pub open spec fn top_up_spec(db: &CardsDb, pl: &PlayerState, cost: i64, reserved: i64) -> i64 {
    if !heat_as_mc_spec(db, pl.corporation) {
        0
    } else {
        let missing = clamp64(cost - pl.mc);
        let spare = clamp64(pl.heat - reserved);
        let available = if spare > 0 { spare } else { 0 };
        let used = if missing < available { missing } else { available };
        if missing <= 0 || used <= 0 { 0 } else { used as i64 }
    }
}

/// Converts just enough heat into MC to reach `cost`, when the
/// corporation allows it; `reserved` heat is never touched. Returns the
/// heat converted.
pub fn top_up_mc_with_heat_reserving(game: &mut GameState, db: &CardsDb, p: usize, cost: i64, reserved: i64) -> (r: i64)
    requires p < 2, corp_ok(db, old(game).players[p as int].corporation),
    ensures
        r == top_up_spec(db, &old(game).players[p as int], cost, reserved),
        r >= 0,
        final(game).players[p as int].heat == old(game).players[p as int].heat - r,
        final(game).players[p as int].mc == old(game).players[p as int].mc + r,
        final(game).players[p as int].plants == old(game).players[p as int].plants,
        final(game).players[p as int].same_but_money(old(game).players[p as int]),
        final(game).players[1 - p as int] == old(game).players[1 - p as int],
        final(game).same_but_players(*old(game)),
        *final(game) == (GameState { players: final(game).players, corp_heat_as_mc: final(game).corp_heat_as_mc,
            ..*old(game) }),
        final(game).corp_heat_as_mc == (if r == 0 { old(game).corp_heat_as_mc as int }
            else { clamp_u64(old(game).corp_heat_as_mc + r) }),
{
    if !heat_as_mc(db, &game.players[p]) {
        return 0;
    }
    let missing = minus(cost, game.players[p].mc);
    if missing <= 0 {
        return 0;
    }
    let spare = minus(game.players[p].heat, reserved);
    let available = if spare > 0 { spare } else { 0 };
    let used = if missing < available { missing } else { available };
    if used <= 0 {
        return 0;
    }
    proof {
        assert(used <= game.players[p as int].heat - reserved || used <= missing);
    }
    game.players[p].heat = game.players[p].heat - used;
    game.players[p].mc = game.players[p].mc + used;
    game.corp_heat_as_mc = count_i64(game.corp_heat_as_mc, used);
    used
}

/// The same with no heat set aside.
pub fn top_up_mc_with_heat(game: &mut GameState, db: &CardsDb, p: usize, cost: i64) -> (r: i64)
    requires p < 2, corp_ok(db, old(game).players[p as int].corporation),
    ensures
        r == top_up_spec(db, &old(game).players[p as int], cost, 0),
        r >= 0,
        final(game).players[p as int].heat == old(game).players[p as int].heat - r,
        final(game).players[p as int].mc == old(game).players[p as int].mc + r,
        final(game).players[p as int].plants == old(game).players[p as int].plants,
        final(game).players[p as int].same_but_money(old(game).players[p as int]),
        final(game).players[1 - p as int] == old(game).players[1 - p as int],
        final(game).same_but_players(*old(game)),
        *final(game) == (GameState { players: final(game).players, corp_heat_as_mc: final(game).corp_heat_as_mc,
            ..*old(game) }),
        final(game).corp_heat_as_mc == (if r == 0 { old(game).corp_heat_as_mc as int }
            else { clamp_u64(old(game).corp_heat_as_mc + r) }),
{
    top_up_mc_with_heat_reserving(game, db, p, cost, 0)
}


/// The one service that raises a player's TR from the game flow: the step
/// is counted for the TR audit, then a corporation that lets the player buy
/// one more step the first time their TR rises in a phase offers it (paid
/// in MC, heat allowed where the corporation allows it).
pub fn gain_tr<P: Policy>(game: &mut GameState, db: &CardsDb, p: usize, policy: &mut P)
    requires p < 2, old(game).inv(db),
    ensures
        final(game).inv(db), final(game).step(old(game)),
        params_kept(final(game), old(game)),
        final(game).free_builds == old(game).free_builds && final(game).discard_payments == old(game).discard_payments,
        final(game).players[p as int].played == old(game).players[p as int].played,
        old(game).players[p as int].tr_can_rise() ==>
            final(game).players[p as int].tr_increments >= old(game).players[p as int].tr_increments + 1,
        final(game).players[p as int].tr_decrements == old(game).players[p as int].tr_decrements,
        final(game).players[1 - p as int] == old(game).players[1 - p as int],
        !db.effects_on ==> resources_kept(final(game), old(game)),
{
    game.players[p].gain_tr();
    let first = !game.players[p].tr_raised_this_phase;
    game.players[p].tr_raised_this_phase = true;
    if !first {
        return;
    }
    let boost = match corp_effects(db, &game.players[p]) {
        Some(s) => match s.tr_boost {
            Some(b) => b,
            None => return,
        },
        None => return,
    };
    if spendable_mc(db, &game.players[p]) < boost.cost_mc {
        return;
    }
    policy.observe(game, p);
    let ctx = ChoiceContext::CorpTrBoost {
        corporation: game.players[p].corporation,
        cost_mc: boost.cost_mc,
        steps: boost.steps,
    };
    if policy.choose_option_ctx(&mut game.rng, p, &ctx) != 0 {
        return;
    }
    top_up_mc_with_heat(game, db, p, boost.cost_mc);
    game.players[p].mc = minus(game.players[p].mc, boost.cost_mc);
    let mut k: u8 = 0;
    while k < boost.steps
        invariant
            p < 2, game.inv(db), game.step(old(game)), params_kept(game, old(game)),
            game.free_builds == old(game).free_builds && game.discard_payments == old(game).discard_payments,
            game.players[p as int].played == old(game).players[p as int].played,
            old(game).players[p as int].tr_can_rise() ==>
                game.players[p as int].tr_increments >= old(game).players[p as int].tr_increments + 1,
            game.players[p as int].tr_decrements == old(game).players[p as int].tr_decrements,
            game.players[1 - p as int] == old(game).players[1 - p as int],
        decreases boost.steps - k,
    {
        game.players[p].gain_tr();
        k = k + 1;
    }
    game.corp_tr_boosts = count(game.corp_tr_boosts, boost.steps as u64);
}

/// An upgrade may be granted: free, or imposed on one of the five Phase cards.
pub open spec fn upgrade_target_ok(target: Option<u8>) -> bool {
    match target {
        None => true,
        Some(t) => 1 <= t <= 5,
    }
}

/// Player `b` is `a` with Phase card `ph` (the imposed one, if any) turned
/// to variant `v`, which it did not show before.
pub open spec fn upgrade_made(a: PlayerState, b: PlayerState, target: Option<u8>, ph: u8, v: PhaseUpgrade) -> bool {
    &&& 1 <= ph <= 5
    &&& (target matches Some(t) ==> ph == t)
    &&& a.phase_upgrade_spec(ph) != Some(v)
    &&& b.phase_upgrades@ == a.phase_upgrades@.update(ph as int - 1, Some(v))
}

/// « Upgrade a Phase card »: the one way an upgrade is granted. The player
/// picks one of the upgraded Phase cards set aside (phase imposed by the
/// card, or free); an upgraded phase may be upgraded again by switching to
/// the other variant, so the variant in place is never offered.
pub fn apply_phase_upgrade<P: Policy>(game: &mut GameState, db: &CardsDb, p: usize, policy: &mut P,
    target: Option<u8>, src: UpgradeSource)
    requires p < 2, old(game).inv(db),
    ensures
        final(game).inv(db), final(game).step(old(game)),
        params_kept(final(game), old(game)),
        final(game).free_builds == old(game).free_builds && final(game).discard_payments == old(game).discard_payments,
        final(game).players[p as int].played == old(game).players[p as int].played,
        final(game).players[1 - p as int] == old(game).players[1 - p as int],
        !upgrade_target_ok(target) ==> *final(game) == *old(game),
        upgrade_target_ok(target) ==> {
            &&& final(game).phase_upgrades_granted == clamp_u64(old(game).phase_upgrades_granted + 1)
            &&& final(game).players[p as int].same_but_upgrades(old(game).players[p as int])
            &&& exists|ph: u8, v: PhaseUpgrade| #![trigger upgrade_made(old(game).players[p as int], final(game).players[p as int], target, ph, v)]
                upgrade_made(old(game).players[p as int], final(game).players[p as int], target, ph, v)
        },
{
    let mut cands: Vec<(u8, PhaseUpgrade)> = Vec::new();
    let mut phase: u8 = 1;
    while phase <= 5
        invariant
            1 <= phase <= 6, p < 2, *game == *old(game),
            forall|k: int| 0 <= k < cands@.len() ==> 1 <= (#[trigger] cands@[k]).0 <= 5,
            forall|k: int| 0 <= k < cands@.len() ==> (target matches Some(t) ==> (#[trigger] cands@[k]).0 == t),
            forall|k: int| 0 <= k < cands@.len() ==> game.players[p as int].phase_upgrade_spec((#[trigger] cands@[k]).0)
                != Some(cands@[k].1),
            (match target { None => phase > 1, Some(t) => 1 <= t < phase }) ==> cands@.len() > 0,
        decreases 6 - phase,
    {
        let skip = match target {
            Some(t) => t != phase,
            None => false,
        };
        if !skip {
            if game.players[p].phase_upgrade(phase) != Some(PhaseUpgrade::VariantA) {
                cands.push((phase, PhaseUpgrade::VariantA));
            }
            if game.players[p].phase_upgrade(phase) != Some(PhaseUpgrade::VariantB) {
                cands.push((phase, PhaseUpgrade::VariantB));
            }
        }
        phase = phase + 1;
    }
    if cands.len() == 0 {
        return;
    }
    let i = if cands.len() == 1 {
        0
    } else {
        let ctx = ChoiceContext::PhaseUpgrade { candidates: cands.clone(), imposed_phase: target, source: src };
        policy.observe(game, p);
        policy.choose_option_ctx(&mut game.rng, p, &ctx)
    };
    let last = cands.len() - 1;
    let ghost pl0 = game.players[p as int];
    let j = if i < last { i } else { last };
    let (ph, variant) = cands[j];
    assert(1 <= cands@[j as int].0 <= 5);
    let already = game.players[p].upgrade_phase(ph, variant);
    proof {
        assert(pl0 == old(game).players[p as int]);
        assert(upgrade_made(old(game).players[p as int], game.players[p as int], target, ph, variant));
    }
    game.phase_upgrades_granted = count(game.phase_upgrades_granted, 1);
    if already {
        game.phase_upgrades_reupgraded = count(game.phase_upgrades_reupgraded, 1);
    }
    if target.is_some() {
        game.phase_upgrades_targeted = count(game.phase_upgrades_targeted, 1);
    }
    match src {
        UpgradeSource::Action => game.phase_upgrades_by_action = count(game.phase_upgrades_by_action, 1),
        UpgradeSource::Setup => game.corp_phase_upgrades_at_setup = count(game.corp_phase_upgrades_at_setup, 1),
        UpgradeSource::Build => {}
    }
}

/// Is the kind among the listed kinds?
pub fn kind_in(kinds: &Vec<ResKind>, k: ResKind) -> (r: bool)
    ensures r == kinds@.contains(k),
{
    let mut i: usize = 0;
    while i < kinds.len()
        invariant i <= kinds@.len(), forall|j: int| 0 <= j < i ==> kinds@[j] != k,
        decreases kinds@.len() - i,
    {
        if kinds[i] == k {
            assert(kinds@[i as int] == k);
            return true;
        }
        i = i + 1;
    }
    false
}

/// Is card `c` a target of kind `kinds` for player `p`, `exclude` aside?
pub open spec fn is_res_target(db: &CardsDb, pl: &PlayerState, kinds: Seq<ResKind>, exclude: Option<u16>, c: u16) -> bool {
    &&& pl.card_resources@.contains_key(c)
    &&& Some(c) != exclude
    &&& (c as int) < db.projects@.len()
    &&& (db.projects@[c as int].holds_spec() matches Some(k) && kinds.contains(k))
}

/// The carrier cards in play of player `p` that accept one of `kinds`,
/// `exclude` aside, by increasing id.
pub fn res_targets(game: &GameState, db: &CardsDb, p: usize, kinds: &Vec<ResKind>, exclude: Option<u16>) -> (r: Vec<u16>)
    requires p < 2, db.wf(),
    ensures
        forall|k: int| 0 <= k < r@.len() ==> is_res_target(db, &game.players[p as int], kinds@, exclude, #[trigger] r@[k]),
        forall|c: u16| is_res_target(db, &game.players[p as int], kinds@, exclude, c) ==> r@.contains(c),
        forall|a: int, b: int| 0 <= a < b < r@.len() ==> r@[a] < r@[b],
{
    let n = db.projects.len();
    let mut out: Vec<u16> = Vec::new();
    let mut c: usize = 0;
    while c < n
        invariant
            c <= n, n == db.projects@.len(), n <= 65536, p < 2,
            forall|k: int| 0 <= k < out@.len() ==> is_res_target(db, &game.players[p as int], kinds@, exclude, #[trigger] out@[k]),
            forall|k: int| 0 <= k < out@.len() ==> (out@[k] as int) < c,
            forall|x: u16| (x as int) < c && is_res_target(db, &game.players[p as int], kinds@, exclude, x) ==> out@.contains(x),
            forall|a: int, b: int| 0 <= a < b < out@.len() ==> out@[a] < out@[b],
        decreases n - c,
    {
        let id = c as u16;
        let ok = game.players[p].card_resources.contains_key(&id) && Some(id) != exclude && match db.projects[c].holds() {
            Some(k) => kind_in(kinds, k),
            None => false,
        };
        if ok {
            let ghost before = out@;
            out.push(id);
            proof {
                assert forall|x: u16| (x as int) < c + 1 && is_res_target(db, &game.players[p as int], kinds@, exclude, x) implies out@.contains(x) by {
                    if x == id { assert(out@[out@.len() - 1] == x); }
                    else { assert(before.contains(x)); let k = choose|k: int| 0 <= k < before.len() && before[k] == x; assert(out@[k] == x); }
                }
            }
        } else {
            proof {
                assert forall|x: u16| (x as int) < c + 1 && is_res_target(db, &game.players[p as int], kinds@, exclude, x) implies out@.contains(x) by {
                    if x == id { assert(false); }
                }
            }
        }
        c = c + 1;
    }
    out
}

/// The carriers of player `p` that accept one of `kinds` and hold at least
/// `n` resources, by increasing id.
pub fn res_sources(game: &GameState, db: &CardsDb, p: usize, kinds: &Vec<ResKind>, n: u32) -> (r: Vec<u16>)
    requires p < 2, db.wf(),
    ensures
        forall|k: int| 0 <= k < r@.len() ==> is_res_target(db, &game.players[p as int], kinds@, None, #[trigger] r@[k])
            && game.players[p as int].resources_on_spec(r@[k]) >= n,
        forall|c: u16| is_res_target(db, &game.players[p as int], kinds@, None, c)
            && game.players[p as int].resources_on_spec(c) >= n ==> r@.contains(c),
{
    let all = res_targets(game, db, p, kinds, None);
    let mut out: Vec<u16> = Vec::new();
    let mut i: usize = 0;
    while i < all.len()
        invariant
            i <= all@.len(), p < 2,
            forall|k: int| 0 <= k < all@.len() ==> is_res_target(db, &game.players[p as int], kinds@, None, #[trigger] all@[k]),
            forall|k: int| 0 <= k < out@.len() ==> is_res_target(db, &game.players[p as int], kinds@, None, #[trigger] out@[k])
                && game.players[p as int].resources_on_spec(out@[k]) >= n,
            forall|c: u16| is_res_target(db, &game.players[p as int], kinds@, None, c) ==> all@.contains(c),
            forall|j: int| 0 <= j < i && game.players[p as int].resources_on_spec(all@[j]) >= n ==> out@.contains(all@[j]),
        decreases all@.len() - i,
    {
        let ghost before = out@;
        if game.players[p].resources_on(all[i]) >= n {
            out.push(all[i]);
            proof {
                assert(out@[out@.len() - 1] == all@[i as int]);
                assert forall|j: int| 0 <= j < i + 1 && game.players[p as int].resources_on_spec(all@[j]) >= n
                    implies out@.contains(all@[j]) by {
                    if j < i {
                        let k = choose|k: int| 0 <= k < before.len() && before[k] == all@[j];
                        assert(out@[k] == all@[j]);
                    }
                }
            }
        }
        i = i + 1;
    }
    proof {
        assert forall|c: u16| is_res_target(db, &game.players[p as int], kinds@, None, c)
            && game.players[p as int].resources_on_spec(c) >= n implies out@.contains(c) by {
            assert(all@.contains(c));
            let j = choose|j: int| 0 <= j < all@.len() && all@[j] == c;
            assert(game.players[p as int].resources_on_spec(all@[j]) >= n);
            assert(out@.contains(all@[j]));
        }
    }
    out
}

/// Has a resource put a card to go to?
pub open spec fn put_possible(db: &CardsDb, pl: &PlayerState, self_card: u16, put: ResPut) -> bool {
    match put.target {
        ResTarget::SelfCard => pl.card_resources@.contains_key(self_card),
        ResTarget::Another => exists|c: u16| #[trigger] is_res_target(db, pl, put.kinds@, Some(self_card), c),
        ResTarget::Any => exists|c: u16| #[trigger] is_res_target(db, pl, put.kinds@, None, c),
    }
}

/// Can one effect of a branch be applied (a put has a target, a removal
/// its resources)?
pub open spec fn res_eff_playable(db: &CardsDb, pl: &PlayerState, self_card: u16, e: ResEff) -> bool {
    match e {
        ResEff::Gain(_) | ResEff::PhaseUpgrade(_) => true,
        ResEff::Put(put) => put_possible(db, pl, self_card, put),
        ResEff::RemoveSelf(n) => pl.resources_on_spec(self_card) >= n,
        ResEff::RemoveAny(kinds, n) => exists|c: u16| #[trigger] is_res_target(db, pl, kinds@, None, c)
            && pl.resources_on_spec(c) >= n,
    }
}

/// The candidates of a resource put, `self_card` being the card that
/// carries the effect: itself, another card, or any card.
pub fn put_targets(game: &GameState, db: &CardsDb, p: usize, self_card: u16, put: &ResPut) -> (r: Vec<u16>)
    requires p < 2, db.wf(),
    ensures
        forall|k: int| 0 <= k < r@.len() ==> game.players[p as int].card_resources@.contains_key(#[trigger] r@[k]),
        put.target == ResTarget::SelfCard ==> (r@.len() > 0 ==> r@ == seq![self_card]),
        (r@.len() > 0) == put_possible(db, &game.players[p as int], self_card, *put),
{
    match put.target {
        ResTarget::SelfCard => {
            if game.players[p].card_resources.contains_key(&self_card) {
                let v = vec![self_card];
                assert(v@ =~= seq![self_card]);
                v
            } else {
                Vec::new()
            }
        }
        ResTarget::Another => {
            let r = res_targets(game, db, p, &put.kinds, Some(self_card));
            proof {
                if r@.len() > 0 {
                    assert(is_res_target(db, &game.players[p as int], put.kinds@, Some(self_card), r@[0]));
                }
                if exists|c: u16| #[trigger] is_res_target(db, &game.players[p as int], put.kinds@, Some(self_card), c) {
                    let c = choose|c: u16| #[trigger] is_res_target(db, &game.players[p as int], put.kinds@, Some(self_card), c);
                    assert(r@.contains(c));
                }
            }
            r
        }
        ResTarget::Any => {
            let r = res_targets(game, db, p, &put.kinds, None);
            proof {
                if r@.len() > 0 {
                    assert(is_res_target(db, &game.players[p as int], put.kinds@, None, r@[0]));
                }
                if exists|c: u16| #[trigger] is_res_target(db, &game.players[p as int], put.kinds@, None, c) {
                    let c = choose|c: u16| #[trigger] is_res_target(db, &game.players[p as int], put.kinds@, None, c);
                    assert(r@.contains(c));
                }
            }
            r
        }
    }
}

/// Every effect of a branch can be applied.
pub open spec fn branch_playable_spec(db: &CardsDb, pl: &PlayerState, self_card: u16, branch: Vec<ResEff>) -> bool {
    forall|k: int| 0 <= k < branch@.len() ==> res_eff_playable(db, pl, self_card, #[trigger] branch@[k])
}

/// Can every effect of a branch be applied (a put has a target, a removal
/// its resources)?
pub fn branch_playable(game: &GameState, db: &CardsDb, p: usize, self_card: u16, branch: &Vec<ResEff>) -> (r: bool)
    requires p < 2, db.wf(),
    ensures
        r == forall|k: int| 0 <= k < branch@.len() ==>
            res_eff_playable(db, &game.players[p as int], self_card, #[trigger] branch@[k]),
        r == branch_playable_spec(db, &game.players[p as int], self_card, *branch),
{
    let mut i: usize = 0;
    while i < branch.len()
        invariant
            i <= branch@.len(), p < 2, db.wf(),
            forall|k: int| 0 <= k < i ==> res_eff_playable(db, &game.players[p as int], self_card, #[trigger] branch@[k]),
        decreases branch@.len() - i,
    {
        let ok = match &branch[i] {
            ResEff::Gain(_) | ResEff::PhaseUpgrade(_) => true,
            ResEff::Put(put) => put_targets(game, db, p, self_card, put).len() > 0,
            ResEff::RemoveSelf(n) => game.players[p].resources_on(self_card) >= *n,
            ResEff::RemoveAny(kinds, n) => {
                let src = res_sources(game, db, p, kinds, *n);
                proof {
                    let pl = &game.players[p as int];
                    if src@.len() > 0 {
                        assert(is_res_target(db, pl, kinds@, None, src@[0]) && pl.resources_on_spec(src@[0]) >= *n);
                    }
                    if exists|c: u16| #[trigger] is_res_target(db, pl, kinds@, None, c) && pl.resources_on_spec(c) >= *n {
                        let c = choose|c: u16| #[trigger] is_res_target(db, pl, kinds@, None, c) && pl.resources_on_spec(c) >= *n;
                        assert(src@.contains(c));
                    }
                }
                src.len() > 0
            }
        };
        if !ok {
            return false;
        }
        i = i + 1;
    }
    true
}


/// A global event a trigger may answer.
#[derive(Debug, Clone, Copy, PartialEq, Eq, Structural)]
pub enum GlobalEvent {
    Temperature,
    Ocean,
    Oxygen,
    Forest,
}

/// The gains of a global trigger if it answers `ev`.
pub open spec fn answers(t: GlobalTrigger, ev: GlobalEvent) -> bool {
    match t {
        GlobalTrigger::OnRaiseTemperature(_) => ev == GlobalEvent::Temperature,
        GlobalTrigger::OnFlipOcean(_) => ev == GlobalEvent::Ocean,
        GlobalTrigger::OnRaiseOxygen(_) => ev == GlobalEvent::Oxygen,
        GlobalTrigger::OnBuildForest(_) => ev == GlobalEvent::Forest,
    }
}

fn trigger_gains(t: &GlobalTrigger) -> (r: &Vec<TrigGain>)
    ensures r@ == global_trigger_gains(*t),
{
    match t {
        GlobalTrigger::OnRaiseTemperature(gs) => gs,
        GlobalTrigger::OnFlipOcean(gs) => gs,
        GlobalTrigger::OnRaiseOxygen(gs) => gs,
        GlobalTrigger::OnBuildForest(gs) => gs,
    }
}

fn trigger_answers(t: &GlobalTrigger, ev: GlobalEvent) -> (r: bool)
    ensures r == answers(*t, ev),
{
    match t {
        GlobalTrigger::OnRaiseTemperature(_) => ev == GlobalEvent::Temperature,
        GlobalTrigger::OnFlipOcean(_) => ev == GlobalEvent::Ocean,
        GlobalTrigger::OnRaiseOxygen(_) => ev == GlobalEvent::Oxygen,
        GlobalTrigger::OnBuildForest(_) => ev == GlobalEvent::Forest,
    }
}

/// A pending global gain: card, trigger index, gain index.
pub open spec fn pending_ok(db: &CardsDb, x: (u16, usize, usize)) -> bool {
    &&& (x.0 as int) < db.projects@.len()
    &&& db.projects@[x.0 as int].effect matches Some(e) && (x.1 as int) < e.global_triggers@.len()
        && (x.2 as int) < global_trigger_gains(e.global_triggers@[x.1 as int]).len()
}

/// Triggers « when you raise the temperature / flip an ocean / raise the
/// oxygen / gain a forest » of the acting player's cards in play.
pub fn fire_global_trigger<P: Policy>(game: &mut GameState, db: &CardsDb, p: usize, ev: GlobalEvent, policy: &mut P)
    requires p < 2, old(game).inv(db),
    ensures
        final(game).inv(db), final(game).step(old(game)),
        params_kept(final(game), old(game)),
        final(game).free_builds == old(game).free_builds && final(game).discard_payments == old(game).discard_payments,
        final(game).players[p as int].played == old(game).players[p as int].played,
        final(game).players[1 - p as int] == old(game).players[1 - p as int],
        !db.effects_on ==> *final(game) == *old(game),
    decreases 5int,
{
    if !db.effects_on {
        return;
    }
    let mut pending: Vec<(u16, usize, usize)> = Vec::new();
    let n = game.players[p].played.len();
    let mut i: usize = 0;
    while i < n
        invariant
            i <= n, p < 2, n == game.players[p as int].played@.len(), *game == *old(game), game.inv(db),
            forall|k: int| 0 <= k < pending@.len() ==> pending_ok(db, #[trigger] pending@[k]),
        decreases n - i,
    {
        let src = game.players[p].played[i];
        match &db.projects[src as usize].effect {
            Some(e) => {
                let m = e.global_triggers.len();
                let mut t: usize = 0;
                while t < m
                    invariant
                        t <= m, m == e.global_triggers@.len(),
                        (src as int) < db.projects@.len(),
                        db.projects@[src as int].effect == Some(*e),
                        forall|k: int| 0 <= k < pending@.len() ==> pending_ok(db, #[trigger] pending@[k]),
                    decreases m - t,
                {
                    if trigger_answers(&e.global_triggers[t], ev) {
                        let gs = trigger_gains(&e.global_triggers[t]);
                        let mut g: usize = 0;
                        while g < gs.len()
                            invariant
                                g <= gs@.len(), t < m, m == e.global_triggers@.len(),
                                gs@ == global_trigger_gains(e.global_triggers@[t as int]),
                                (src as int) < db.projects@.len(),
                                db.projects@[src as int].effect == Some(*e),
                                forall|k: int| 0 <= k < pending@.len() ==> pending_ok(db, #[trigger] pending@[k]),
                            decreases gs@.len() - g,
                        {
                            pending.push((src, t, g));
                            g = g + 1;
                        }
                    }
                    t = t + 1;
                }
            }
            None => {}
        }
        i = i + 1;
    }
    let mut k: usize = 0;
    while k < pending.len()
        invariant
            k <= pending@.len(), p < 2, game.inv(db), game.step(old(game)), params_kept(game, old(game)),
            game.free_builds == old(game).free_builds && game.discard_payments == old(game).discard_payments,
            game.players[p as int].played == old(game).players[p as int].played,
            game.players[1 - p as int] == old(game).players[1 - p as int],
            forall|j: int| 0 <= j < pending@.len() ==> pending_ok(db, #[trigger] pending@[j]),
        decreases pending@.len() - k,
    {
        let (src, t, g) = pending[k];
        assert(pending_ok(db, pending@[k as int]));
        match &db.projects[src as usize].effect {
            Some(e) => {
                let gs = trigger_gains(&e.global_triggers[t]);
                proof {
                    assert(crate::effects::card_sound(*e)) by {
                        assert(db.projects@[src as int].effect matches Some(x) ==> crate::effects::card_sound(x));
                    }
                    let tr = e.global_triggers@[t as int];
                    assert(gains_basic(global_trigger_gains(tr)));
                    assert(trig_gain_basic(gs@[g as int]));
                }
                apply_trig_gain(game, db, p, Some(src), &gs[g], 1, policy);
            }
            None => {}
        }
        k = k + 1;
    }
}

/// The player after a trigger gain of heat or plants received `mult`
/// times (products and sums held to the range of `i64`).
pub open spec fn trig_gain_result(pl: PlayerState, g: TrigGain, mult: i64) -> PlayerState {
    match g {
        TrigGain::Heat(n) => PlayerState { heat: clamp64(pl.heat + clamp64(n * mult)) as i64, ..pl },
        TrigGain::Plants(n) => PlayerState { plants: clamp64(pl.plants + clamp64(n * mult)) as i64, ..pl },
        _ => pl,
    }
}

/// Applies a trigger gain `mult` times (the number of tags that satisfied a
/// « per tag » trigger, 1 otherwise). `src` is the card carrying the
/// trigger; `None` for a corporation, which holds no resource.
pub fn apply_trig_gain<P: Policy>(game: &mut GameState, db: &CardsDb, p: usize, src: Option<u16>, g: &TrigGain,
    mult: i64, policy: &mut P)
    requires
        p < 2, old(game).inv(db),
        trig_gain_basic(*g),
        src matches Some(c) ==> (c as int) < db.projects@.len(),
    ensures
        final(game).inv(db), final(game).step(old(game)),
        params_kept(final(game), old(game)),
        final(game).free_builds == old(game).free_builds && final(game).discard_payments == old(game).discard_payments,
        final(game).players[p as int].played == old(game).players[p as int].played,
        final(game).players[1 - p as int] == old(game).players[1 - p as int],
        (g is Heat || g is Plants) ==> {
            &&& final(game).players[p as int] == trig_gain_result(old(game).players[p as int], *g, mult)
            &&& final(game).players[1 - p as int] == old(game).players[1 - p as int]
            &&& final(game).same_but_players(*old(game))
        },
    decreases 4int,
{
    let times_pos: i64 = if mult > 0 { mult } else { 0 };
    match g {
        TrigGain::Heat(n) => game.players[p].heat = plus(game.players[p].heat, times(*n, mult)),
        TrigGain::Plants(n) => game.players[p].plants = plus(game.players[p].plants, times(*n, mult)),
        TrigGain::Tr(n) => {
            let steps = times(*n as i64, times_pos);
            let mut k: i64 = 0;
            while k < steps
                invariant p < 2, game.inv(db), game.step(old(game)), params_kept(game, old(game)),
                    game.free_builds == old(game).free_builds && game.discard_payments == old(game).discard_payments,
                    game.players[p as int].played == old(game).players[p as int].played,
                    game.players[1 - p as int] == old(game).players[1 - p as int], 0 <= k,
                decreases steps - k,
            {
                gain_tr(game, db, p, policy);
                k = k + 1;
            }
            if src.is_none() {
                game.corp_trigger_tr = count_i64(game.corp_trigger_tr, steps);
            }
        }
        TrigGain::Draw(n) => {
            let total = times(*n as i64, mult);
            let mut k: i64 = 0;
            while k < total
                invariant p < 2, game.inv(db), game.step(old(game)), params_kept(game, old(game)),
                    game.free_builds == old(game).free_builds && game.discard_payments == old(game).discard_payments,
                    game.players[p as int].played == old(game).players[p as int].played,
                    game.players[1 - p as int] == old(game).players[1 - p as int], 0 <= k,
                decreases total - k,
            {
                draw_into_hand(game, db, p);
                k = k + 1;
            }
        }
        TrigGain::ResSelf(n) => {
            match src {
                Some(c) => {
                    let amount: u32 = if times_pos > 0xffff_ffff {
                        u32::MAX
                    } else {
                        let a: u64 = *n as u64;
                        let b: u64 = times_pos as u64;
                        assert(a * b <= 0xffff_ffff * 0xffff_ffff) by (nonlinear_arith)
                            requires a <= 0xffff_ffff, b <= 0xffff_ffff;
                        let prod: u64 = a * b;
                        if prod > 0xffff_ffff { u32::MAX } else { prod as u32 }
                    };
                    if game.players[p].card_resources.contains_key(&c) {
                        add_resources(game, db, p, c, amount);
                    }
                }
                None => {}
            }
        }
        TrigGain::Choose(branches) => {
            match src {
                Some(c) => {
                    let mut k: i64 = 0;
                    while k < times_pos
                        invariant
                            p < 2, game.inv(db), game.step(old(game)), params_kept(game, old(game)),
                            game.free_builds == old(game).free_builds && game.discard_payments == old(game).discard_payments,
                            game.players[p as int].played == old(game).players[p as int].played,
                            game.players[1 - p as int] == old(game).players[1 - p as int], 0 <= k,
                            branches_basic(branches@), (c as int) < db.projects@.len(),
                        decreases times_pos - k,
                    {
                        apply_choice(game, db, p, c, branches, policy, UpgradeSource::Build, false);
                        k = k + 1;
                    }
                }
                None => {}
            }
        }
        TrigGain::MayDiscardDraw { if_tag, draw_if, draw_else } => {
            let mut k: i64 = 0;
            while k < times_pos
                invariant p < 2, game.inv(db), game.step(old(game)), params_kept(game, old(game)),
                    game.free_builds == old(game).free_builds && game.discard_payments == old(game).discard_payments,
                    game.players[p as int].played == old(game).players[p as int].played,
                    game.players[1 - p as int] == old(game).players[1 - p as int], 0 <= k,
                decreases times_pos - k,
            {
                if game.players[p].hand.len() == 0 {
                    break;
                }
                let ctx = ChoiceContext::DiscardToDraw { card: src, tag: *if_tag, draw_if: *draw_if, draw_else: *draw_else };
                policy.observe(game, p);
                if policy.choose_option_ctx(&mut game.rng, p, &ctx) == 0 {
                    let hand = game.players[p].hand.clone();
                    policy.observe(game, p);
                    let idx = policy.discard_down(&mut game.rng, p, hand.as_slice(), 1);
                    if idx.len() > 0 && idx[0] < game.players[p].hand.len() {
                        let i = idx[0];
                        let card = game.players[p].hand[i];
                        let tags = game.players[p].tags_of(db, card);
                        let had = crate::effects::has_tag(tags.as_slice(), *if_tag);
                        if discard_from_hand(game, db, p, card) {
                            let n = if had { *draw_if } else { *draw_else };
                            let mut d: u8 = 0;
                            while d < n
                                invariant p < 2, game.inv(db), game.step(old(game)),
                                    params_kept(game, old(game)),
                                    game.free_builds == old(game).free_builds && game.discard_payments == old(game).discard_payments,
                                    game.players[p as int].played == old(game).players[p as int].played,
                                    game.players[1 - p as int] == old(game).players[1 - p as int],
                                decreases n - d,
                            {
                                draw_into_hand(game, db, p);
                                d = d + 1;
                            }
                        }
                    }
                }
                k = k + 1;
            }
        }
    }
}

/// A printed alternative « … or … »: the branches that cannot be applied
/// are filtered out, the player picks among the others when two or more
/// remain, and the branch is applied in printed order. With no playable
/// branch the whole effect is skipped.
pub fn apply_choice<P: Policy>(game: &mut GameState, db: &CardsDb, p: usize, self_card: u16,
    branches: &Vec<Vec<ResEff>>, policy: &mut P, src: UpgradeSource, full: bool)
    requires
        p < 2, old(game).inv(db),
        full || branches_basic(branches@),
        (self_card as int) < db.projects@.len(),
    ensures
        final(game).inv(db), final(game).step(old(game)),
        !full ==> params_kept(final(game), old(game)),
        final(game).free_builds == old(game).free_builds && final(game).discard_payments == old(game).discard_payments,
        final(game).players[p as int].played == old(game).players[p as int].played,
        final(game).players[1 - p as int] == old(game).players[1 - p as int],
        (forall|b: int| 0 <= b < branches@.len() ==>
            !branch_playable_spec(db, &old(game).players[p as int], self_card, #[trigger] branches@[b]))
            ==> *final(game) == (GameState { res_targets_missing: final(game).res_targets_missing, ..*old(game) }),
    decreases if full { 12int } else { 3int },
{
    let mut playable: Vec<usize> = Vec::new();
    let mut i: usize = 0;
    while i < branches.len()
        invariant
            i <= branches@.len(), p < 2, *game == *old(game), game.inv(db),
            forall|k: int| 0 <= k < playable@.len() ==> (#[trigger] playable@[k] as int) < branches@.len(),
            forall|k: int| 0 <= k < playable@.len() ==> branch_playable_spec(db, &old(game).players[p as int],
                self_card, branches@[#[trigger] playable@[k] as int]),
        decreases branches@.len() - i,
    {
        if branch_playable(game, db, p, self_card, &branches[i]) {
            playable.push(i);
        }
        i = i + 1;
    }
    proof {
        if playable@.len() > 0 {
            assert(branch_playable_spec(db, &old(game).players[p as int], self_card, branches@[playable@[0] as int]));
        }
    }
    if playable.len() == 0 {
        let mut has_put = false;
        let mut b: usize = 0;
        while b < branches.len()
            invariant b <= branches@.len(),
            decreases branches@.len() - b,
        {
            let mut e: usize = 0;
            while e < branches[b].len()
                invariant b < branches@.len(), e <= branches@[b as int]@.len(),
                decreases branches@[b as int]@.len() - e,
            {
                if branches[b][e].is_put() {
                    has_put = true;
                }
                e = e + 1;
            }
            b = b + 1;
        }
        if has_put {
            game.res_targets_missing = count(game.res_targets_missing, 1);
        }
        return;
    }
    let k = if playable.len() == 1 {
        0
    } else {
        let ctx = ChoiceContext::CardAlternative { card: self_card, source: src, branches: playable.clone() };
        policy.observe(game, p);
        let c = policy.choose_option_ctx(&mut game.rng, p, &ctx);
        if c >= playable.len() {
            return;
        }
        c
    };
    let chosen = playable[k];
    let branch = &branches[chosen];
    let mut j: usize = 0;
    while j < branch.len()
        invariant
            j <= branch@.len(), p < 2, game.inv(db), game.step(old(game)),
            !full ==> params_kept(game, old(game)),
            game.free_builds == old(game).free_builds && game.discard_payments == old(game).discard_payments,
            game.players[p as int].played == old(game).players[p as int].played,
            game.players[1 - p as int] == old(game).players[1 - p as int],
            chosen < branches@.len(), *branch == branches@[chosen as int],
            full || branches_basic(branches@),
            (self_card as int) < db.projects@.len(),
        decreases branch@.len() - j,
    {
        proof {
            if !full {
                assert(res_eff_basic(branches@[chosen as int]@[j as int]));
            }
        }
        apply_res_eff(game, db, p, self_card, &branch[j], policy, src, full);
        j = j + 1;
    }
}

/// Applies one effect that may involve resources on cards; `self_card` is
/// the card carrying the effect.
pub fn apply_res_eff<P: Policy>(game: &mut GameState, db: &CardsDb, p: usize, self_card: u16, e: &ResEff,
    policy: &mut P, src: UpgradeSource, full: bool)
    requires
        p < 2, old(game).inv(db),
        full || res_eff_basic(*e),
        (self_card as int) < db.projects@.len(),
    ensures
        final(game).inv(db), final(game).step(old(game)),
        !full ==> params_kept(final(game), old(game)),
        final(game).free_builds == old(game).free_builds && final(game).discard_payments == old(game).discard_payments,
        final(game).players[p as int].played == old(game).players[p as int].played,
        final(game).players[1 - p as int] == old(game).players[1 - p as int],
        *e matches ResEff::Gain(eff) ==> (simple_eff(eff) ==>
            final(game).players[p as int] == simple_eff_result(old(game).players[p as int], eff)
            && final(game).players[1 - p as int] == old(game).players[1 - p as int]
            && final(game).same_but_players(*old(game))),
        *e matches ResEff::PhaseUpgrade(t) ==> final(game).players[1 - p as int] == old(game).players[1 - p as int]
            && (upgrade_target_ok(t) ==> final(game).phase_upgrades_granted
                == clamp_u64(old(game).phase_upgrades_granted + 1))
            && (!upgrade_target_ok(t) ==> *final(game) == *old(game)),
        *e matches ResEff::RemoveSelf(n) ==> final(game).players[1 - p as int] == old(game).players[1 - p as int]
            && final(game).same_but_players(*old(game))
            && final(game).players[p as int].same_but_resources(old(game).players[p as int])
            && final(game).players[p as int].card_resources@ == (
                if n > 0 && old(game).players[p as int].resources_on_spec(self_card) >= n {
                    old(game).players[p as int].card_resources@.insert(self_card,
                        (old(game).players[p as int].card_resources@[self_card] - n) as u32)
                } else {
                    old(game).players[p as int].card_resources@
                }),
    decreases if full { 11int } else { 2int },
{
    match e {
        ResEff::Gain(eff) => apply_eff(game, db, p, eff, policy, full),
        ResEff::PhaseUpgrade(t) => apply_phase_upgrade(game, db, p, policy, *t, src),
        ResEff::Put(put) => {
            let cands = put_targets(game, db, p, self_card, put);
            if cands.len() == 0 {
                game.res_targets_missing = count(game.res_targets_missing, 1);
                return;
            }
            let target = match put.target {
                ResTarget::SelfCard => {
                    assert(cands@ == seq![self_card]);
                    assert(cands@[0] == self_card);
                    self_card
                }
                _ => {
                    policy.observe(game, p);
                    let i = policy.choose_res_target(&mut game.rng, p, cands.as_slice());
                    if i >= cands.len() {
                        return;
                    }
                    cands[i]
                }
            };
            assert(game.players[p as int].card_resources@.contains_key(target));
            let n: u32 = match put.amount {
                ResAmount::Fixed(n) => n,
                ResAmount::ByKind { microbe, other } => {
                    if db.projects[target as usize].holds() == Some(ResKind::Microbe) { microbe } else { other }
                }
            };
            add_resources(game, db, p, target, n);
        }
        ResEff::RemoveSelf(n) => {
            if game.players[p].resources_on(self_card) >= *n {
                remove_resources(game, db, p, self_card, *n);
            }
        }
        ResEff::RemoveAny(kinds, n) => {
            let cands = res_sources(game, db, p, kinds, *n);
            if cands.len() == 0 {
                return;
            }
            policy.observe(game, p);
            let i = policy.choose_res_source(&mut game.rng, p, cands.as_slice());
            if i >= cands.len() {
                return;
            }
            remove_resources(game, db, p, cands[i], *n);
        }
    }
}

/// Applies one gain of « If you have an Objective, gain … ».
/// The player after an objective gain in resources or production (held
/// to the range of `i64`).
pub open spec fn objective_gain_result(pl: PlayerState, g: ObjectiveGain) -> PlayerState {
    match g {
        ObjectiveGain::Mc(n) => PlayerState { mc: clamp64(pl.mc + n) as i64, ..pl },
        ObjectiveGain::Heat(n) => PlayerState { heat: clamp64(pl.heat + n) as i64, ..pl },
        ObjectiveGain::Plants(n) => PlayerState { plants: clamp64(pl.plants + n) as i64, ..pl },
        ObjectiveGain::McProd(n) => PlayerState { mc_prod: clamp64(pl.mc_prod + n) as i64, ..pl },
        ObjectiveGain::HeatProd(n) => PlayerState { heat_prod: clamp64(pl.heat_prod + n) as i64, ..pl },
        ObjectiveGain::PlantProd(n) => PlayerState { plant_prod: clamp64(pl.plant_prod + n) as i64, ..pl },
        ObjectiveGain::CardProd(n) => PlayerState { card_prod: clamp64(pl.card_prod + n) as i64, ..pl },
        _ => pl,
    }
}

pub fn apply_objective_gain<P: Policy>(game: &mut GameState, db: &CardsDb, p: usize, g: ObjectiveGain, policy: &mut P)
    requires p < 2, old(game).inv(db),
    ensures
        final(game).inv(db), final(game).step(old(game)),
        params_kept(final(game), old(game)),
        final(game).free_builds == old(game).free_builds && final(game).discard_payments == old(game).discard_payments,
        final(game).players[p as int].played == old(game).players[p as int].played,
        final(game).players[1 - p as int] == old(game).players[1 - p as int],
        !(g is Draw || g is Tr) ==> {
            &&& final(game).players[p as int] == objective_gain_result(old(game).players[p as int], g)
            &&& final(game).players[1 - p as int] == old(game).players[1 - p as int]
            &&& final(game).same_but_players(*old(game))
        },
        g matches ObjectiveGain::Draw(n) ==> final(game).players[p as int].hand@.len()
            == old(game).players[p as int].hand@.len()
            + (if n <= old(game).deck@.len() + old(game).discard@.len() { n as int }
                else { (old(game).deck@.len() + old(game).discard@.len()) as int }),
{
    match g {
        ObjectiveGain::Mc(n) => game.players[p].mc = plus(game.players[p].mc, n),
        ObjectiveGain::Heat(n) => game.players[p].heat = plus(game.players[p].heat, n),
        ObjectiveGain::Plants(n) => game.players[p].plants = plus(game.players[p].plants, n),
        ObjectiveGain::McProd(n) => game.players[p].mc_prod = plus(game.players[p].mc_prod, n),
        ObjectiveGain::HeatProd(n) => game.players[p].heat_prod = plus(game.players[p].heat_prod, n),
        ObjectiveGain::PlantProd(n) => game.players[p].plant_prod = plus(game.players[p].plant_prod, n),
        ObjectiveGain::CardProd(n) => game.players[p].card_prod = plus(game.players[p].card_prod, n),
        ObjectiveGain::Draw(n) => {
            let mut k: u8 = 0;
            let ghost mut got: int = 0;
            while k < n
                invariant
                    p < 2, game.inv(db), game.step(old(game)), params_kept(game, old(game)),
                    game.free_builds == old(game).free_builds && game.discard_payments == old(game).discard_payments,
                    game.players[p as int].played == old(game).players[p as int].played,
                    game.players[1 - p as int] == old(game).players[1 - p as int], k <= n,
                    got == (if k <= old(game).deck@.len() + old(game).discard@.len() { k as int }
                        else { (old(game).deck@.len() + old(game).discard@.len()) as int }),
                    game.deck@.len() + game.discard@.len() + got == old(game).deck@.len() + old(game).discard@.len(),
                    game.players[p as int].hand@.len() == old(game).players[p as int].hand@.len() + got,
                decreases n - k,
            {
                let r = draw_into_hand(game, db, p);
                proof { if r is Some { got = got + 1; } }
                k = k + 1;
            }
        }
        ObjectiveGain::Tr(n) => {
            let mut k: u8 = 0;
            while k < n
                invariant p < 2, game.inv(db), game.step(old(game)), params_kept(game, old(game)),
                    game.free_builds == old(game).free_builds && game.discard_payments == old(game).discard_payments,
                    game.players[p as int].played == old(game).players[p as int].played,
                    game.players[1 - p as int] == old(game).players[1 - p as int],
                decreases n - k,
            {
                gain_tr(game, db, p, policy);
                k = k + 1;
            }
        }
    }
}

/// An effect on the player's resources or production tracks alone.
pub open spec fn simple_eff(e: Eff) -> bool {
    e is Mc || e is Heat || e is Plants || e is McProd || e is HeatProd || e is PlantProd || e is CardProd
        || e is PlantsIfTags
}

/// The player after a simple effect: the amount added to the resource or
/// the production track (held to the range of `i64`); plants given only
/// with enough tags of the kind (never for the joker).
pub open spec fn simple_eff_result(pl: PlayerState, e: Eff) -> PlayerState {
    match e {
        Eff::Mc(n) => PlayerState { mc: clamp64(pl.mc + n) as i64, ..pl },
        Eff::Heat(n) => PlayerState { heat: clamp64(pl.heat + n) as i64, ..pl },
        Eff::Plants(n) => PlayerState { plants: clamp64(pl.plants + n) as i64, ..pl },
        Eff::McProd(n) => PlayerState { mc_prod: clamp64(pl.mc_prod + n) as i64, ..pl },
        Eff::HeatProd(n) => PlayerState { heat_prod: clamp64(pl.heat_prod + n) as i64, ..pl },
        Eff::PlantProd(n) => PlayerState { plant_prod: clamp64(pl.plant_prod + n) as i64, ..pl },
        Eff::CardProd(n) => PlayerState { card_prod: clamp64(pl.card_prod + n) as i64, ..pl },
        Eff::PlantsIfTags(tag, min, gain) => match crate::cards::tag_index(tag) {
            Some(i) => if pl.tag_counts[i as int] >= min as u32 {
                PlayerState { plants: clamp64(pl.plants + gain) as i64, ..pl }
            } else {
                pl
            },
            None => pl,
        },
        _ => pl,
    }
}

/// Applies one effect of the card vocabulary. `full` false: the effect
/// raises no global parameter (the effects a trigger may give).
pub fn apply_eff<P: Policy>(game: &mut GameState, db: &CardsDb, p: usize, eff: &Eff, policy: &mut P, full: bool)
    requires
        p < 2, old(game).inv(db),
        full || eff_basic(*eff),
    ensures
        final(game).inv(db), final(game).step(old(game)),
        !full ==> params_kept(final(game), old(game)),
        final(game).free_builds == old(game).free_builds && final(game).discard_payments == old(game).discard_payments,
        final(game).players[p as int].played == old(game).players[p as int].played,
        final(game).players[1 - p as int] == old(game).players[1 - p as int],
        simple_eff(*eff) ==> {
            &&& final(game).players[p as int] == simple_eff_result(old(game).players[p as int], *eff)
            &&& final(game).players[1 - p as int] == old(game).players[1 - p as int]
            &&& final(game).same_but_players(*old(game))
        },
        eff matches Eff::Draw(n) ==> final(game).players[p as int].hand@.len()
            == old(game).players[p as int].hand@.len()
            + (if n <= old(game).deck@.len() + old(game).discard@.len() { n as int }
                else { (old(game).deck@.len() + old(game).discard@.len()) as int }),
        eff matches Eff::Temperature(n) ==> (old(game).snap_temperature < TEMPERATURE_MAX ==> final(game).temperature
            == min_int(old(game).temperature + *n as int, TEMPERATURE_MAX as int)),
        eff matches Eff::Oxygen(n) ==> (old(game).snap_oxygen < OXYGEN_MAX ==> final(game).oxygen
            == min_int(old(game).oxygen + *n as int, OXYGEN_MAX as int)),
        eff matches Eff::Ocean(n) ==> (old(game).snap_oceans < NUM_OCEANS ==> final(game).oceans_revealed
            == min_int(old(game).oceans_revealed + *n as int, NUM_OCEANS as int)),
        eff matches Eff::Temperature(n) ==> (n > 0 && old(game).snap_temperature < TEMPERATURE_MAX
            && old(game).temperature < TEMPERATURE_MAX ==> final(game).temperature >= old(game).temperature + 1),
        eff matches Eff::Oxygen(n) ==> (n > 0 && old(game).snap_oxygen < OXYGEN_MAX
            && old(game).oxygen < OXYGEN_MAX ==> final(game).oxygen >= old(game).oxygen + 1),
        eff matches Eff::Ocean(n) ==> (n > 0 && old(game).snap_oceans < NUM_OCEANS
            && old(game).oceans_revealed < NUM_OCEANS ==> final(game).oceans_revealed >= old(game).oceans_revealed + 1),
        eff matches Eff::Infrastructure(n) ==> (n > 0 && old(game).snap_infrastructure < INFRASTRUCTURE_MAX
            && old(game).infrastructure < INFRASTRUCTURE_MAX ==> final(game).infrastructure >= old(game).infrastructure + 1),
        eff matches Eff::Tr(n) ==> (n > 0 && old(game).players[p as int].tr_can_rise() ==>
            final(game).players[p as int].tr_increments >= old(game).players[p as int].tr_increments + 1),
        eff matches Eff::Forest(n) ==> (n > 0 && old(game).players[p as int].forests < i64::MAX ==>
            final(game).players[p as int].forests >= old(game).players[p as int].forests + 1),
    decreases if full { 10int } else { 1int },
{
    match eff {
        Eff::Mc(n) => game.players[p].mc = plus(game.players[p].mc, *n),
        Eff::Heat(n) => game.players[p].heat = plus(game.players[p].heat, *n),
        Eff::Plants(n) => game.players[p].plants = plus(game.players[p].plants, *n),
        Eff::Draw(n) => {
            let mut k: u8 = 0;
            let ghost mut got: int = 0;
            while k < *n
                invariant
                    p < 2, game.inv(db), game.step(old(game)), !full ==> params_kept(game, old(game)),
                    game.free_builds == old(game).free_builds && game.discard_payments == old(game).discard_payments,
                    game.players[p as int].played == old(game).players[p as int].played,
                    game.players[1 - p as int] == old(game).players[1 - p as int], k <= *n,
                    got == (if k <= old(game).deck@.len() + old(game).discard@.len() { k as int }
                        else { (old(game).deck@.len() + old(game).discard@.len()) as int }),
                    game.deck@.len() + game.discard@.len() + got == old(game).deck@.len() + old(game).discard@.len(),
                    game.players[p as int].hand@.len() == old(game).players[p as int].hand@.len() + got,
                decreases *n - k,
            {
                let r = draw_into_hand(game, db, p);
                proof { if r is Some { got = got + 1; } }
                k = k + 1;
            }
        }
        Eff::McProd(n) => game.players[p].mc_prod = plus(game.players[p].mc_prod, *n),
        Eff::HeatProd(n) => game.players[p].heat_prod = plus(game.players[p].heat_prod, *n),
        Eff::PlantProd(n) => game.players[p].plant_prod = plus(game.players[p].plant_prod, *n),
        Eff::CardProd(n) => game.players[p].card_prod = plus(game.players[p].card_prod, *n),
        Eff::Temperature(n) => {
            let mut k: u8 = 0;
            while k < *n
                invariant
                    p < 2, game.inv(db), game.step(old(game)), !full ==> params_kept(game, old(game)),
                    game.free_builds == old(game).free_builds && game.discard_payments == old(game).discard_payments,
                    game.players[p as int].played == old(game).players[p as int].played,
                    game.players[1 - p as int] == old(game).players[1 - p as int], full,
                    k > 0 && old(game).snap_temperature < TEMPERATURE_MAX && old(game).temperature < TEMPERATURE_MAX ==> game.temperature >= old(game).temperature + 1,
                    old(game).snap_temperature < TEMPERATURE_MAX ==> game.temperature == min_int(old(game).temperature + k, TEMPERATURE_MAX as int),
                    k <= *n,
                decreases *n - k,
            {
                raise_temperature(game, db, p, policy);
                k = k + 1;
            }
        }
        Eff::Oxygen(n) => {
            let mut k: u8 = 0;
            while k < *n
                invariant
                    p < 2, game.inv(db), game.step(old(game)), !full ==> params_kept(game, old(game)),
                    game.free_builds == old(game).free_builds && game.discard_payments == old(game).discard_payments,
                    game.players[p as int].played == old(game).players[p as int].played,
                    game.players[1 - p as int] == old(game).players[1 - p as int], full,
                    k > 0 && old(game).snap_oxygen < OXYGEN_MAX && old(game).oxygen < OXYGEN_MAX ==> game.oxygen >= old(game).oxygen + 1,
                    old(game).snap_oxygen < OXYGEN_MAX ==> game.oxygen == min_int(old(game).oxygen + k, OXYGEN_MAX as int),
                    k <= *n,
                decreases *n - k,
            {
                raise_oxygen(game, db, p, policy);
                k = k + 1;
            }
        }
        Eff::Ocean(n) => {
            let mut k: u8 = 0;
            while k < *n
                invariant
                    p < 2, game.inv(db), game.step(old(game)), !full ==> params_kept(game, old(game)),
                    game.free_builds == old(game).free_builds && game.discard_payments == old(game).discard_payments,
                    game.players[p as int].played == old(game).players[p as int].played,
                    game.players[1 - p as int] == old(game).players[1 - p as int], full,
                    k > 0 && old(game).snap_oceans < NUM_OCEANS && old(game).oceans_revealed < NUM_OCEANS ==> game.oceans_revealed >= old(game).oceans_revealed + 1,
                    old(game).snap_oceans < NUM_OCEANS ==> game.oceans_revealed == min_int(old(game).oceans_revealed + k, NUM_OCEANS as int),
                    k <= *n,
                decreases *n - k,
            {
                reveal_ocean(game, db, p, policy);
                k = k + 1;
            }
        }
        Eff::Tr(n) => {
            let mut k: u8 = 0;
            while k < *n
                invariant
                    p < 2, game.inv(db), game.step(old(game)), !full ==> params_kept(game, old(game)),
                    game.free_builds == old(game).free_builds && game.discard_payments == old(game).discard_payments,
                    game.players[p as int].played == old(game).players[p as int].played,
                    game.players[1 - p as int] == old(game).players[1 - p as int],
                    k > 0 && old(game).players[p as int].tr_can_rise() ==>
                        game.players[p as int].tr_increments >= old(game).players[p as int].tr_increments + 1,
                    k == 0 ==> *game == *old(game),
                decreases *n - k,
            {
                gain_tr(game, db, p, policy);
                k = k + 1;
            }
        }
        Eff::Infrastructure(n) => {
            let mut k: u8 = 0;
            while k < *n
                invariant
                    p < 2, game.inv(db), game.step(old(game)), !full ==> params_kept(game, old(game)),
                    game.free_builds == old(game).free_builds && game.discard_payments == old(game).discard_payments,
                    game.players[p as int].played == old(game).players[p as int].played,
                    game.players[1 - p as int] == old(game).players[1 - p as int],
                    k > 0 && old(game).snap_infrastructure < INFRASTRUCTURE_MAX && old(game).infrastructure < INFRASTRUCTURE_MAX
                        ==> game.infrastructure >= old(game).infrastructure + 1,
                decreases *n - k,
            {
                raise_infrastructure(game, db, p, policy);
                k = k + 1;
            }
        }
        Eff::PlantsIfTags(tag, min, gain) => {
            match tag.index() {
                Some(i) => {
                    if game.players[p].tag_counts[i] >= *min as u32 {
                        game.players[p].plants = plus(game.players[p].plants, *gain);
                    }
                }
                None => {}
            }
        }
        Eff::TrPerTag(tag) => {
            let steps: u32 = match tag.index() {
                Some(i) => game.players[p].tag_counts[i],
                None => 0,
            };
            let mut k: u32 = 0;
            while k < steps
                invariant p < 2, game.inv(db), game.step(old(game)), !full ==> params_kept(game, old(game)),
                    game.free_builds == old(game).free_builds && game.discard_payments == old(game).discard_payments,
                    game.players[p as int].played == old(game).players[p as int].played,
                    game.players[1 - p as int] == old(game).players[1 - p as int],
                decreases steps - k,
            {
                gain_tr(game, db, p, policy);
                k = k + 1;
            }
            game.tr_from_tags = count(game.tr_from_tags, steps as u64);
        }
        Eff::Forest(n) => {
            let mut k: u8 = 0;
            while k < *n
                invariant
                    p < 2, game.inv(db), game.step(old(game)), !full ==> params_kept(game, old(game)),
                    game.free_builds == old(game).free_builds && game.discard_payments == old(game).discard_payments,
                    game.players[p as int].played == old(game).players[p as int].played,
                    game.players[1 - p as int] == old(game).players[1 - p as int], full,
                    k > 0 && old(game).players[p as int].forests < i64::MAX ==> game.players[p as int].forests >= old(game).players[p as int].forests + 1,
                decreases *n - k,
            {
                gain_forest(game, db, p, policy);
                k = k + 1;
            }
        }
        Eff::DrawDiscard { draw, discard, from_drawn } => {
            draw_then_discard(game, db, p, *draw, *discard, *from_drawn, policy);
        }
        Eff::IfObjective(gains) => {
            if !has_objective(game, p) {
                return;
            }
            game.objective_condition_hits = count(game.objective_condition_hits, 1);
            let mut k: usize = 0;
            while k < gains.len()
                invariant k <= gains@.len(), p < 2, game.inv(db), game.step(old(game)),
                    !full ==> params_kept(game, old(game)),
                    game.free_builds == old(game).free_builds && game.discard_payments == old(game).discard_payments,
                    game.players[p as int].played == old(game).players[p as int].played,
                    game.players[1 - p as int] == old(game).players[1 - p as int],
                decreases gains@.len() - k,
            {
                apply_objective_gain(game, db, p, gains[k], policy);
                k = k + 1;
            }
        }
    }
}

/// How many of `n` draws find a card: the draw pile and the discard pile
/// (reshuffled) hold that many.
pub open spec fn drawable(g: &GameState, n: int) -> int {
    if n <= g.deck@.len() + g.discard@.len() { n } else { (g.deck@.len() + g.discard@.len()) as int }
}

/// « Draw n cards, then discard d »: the drawn cards enter the hand first;
/// « keep one of them » discards among the drawn cards only (and counts the
/// cards kept), « then discard d cards » among the whole hand.
pub fn draw_then_discard<P: Policy>(game: &mut GameState, db: &CardsDb, p: usize, draw: u8, discard: u8,
    from_drawn: bool, policy: &mut P)
    requires p < 2, old(game).inv(db),
    ensures
        final(game).inv(db), final(game).step(old(game)),
        params_kept(final(game), old(game)),
        final(game).free_builds == old(game).free_builds && final(game).discard_payments == old(game).discard_payments,
        final(game).players[p as int].played == old(game).players[p as int].played,
        final(game).players[1 - p as int] == old(game).players[1 - p as int],
        final(game).players[p as int].same_but_hand(old(game).players[p as int]),
        final(game).players[p as int].hand@.len() <= old(game).players[p as int].hand@.len()
            + drawable(old(game), draw as int),
        !from_drawn ==> final(game).players[p as int].hand@.len() + discard >= old(game).players[p as int].hand@.len()
            + drawable(old(game), draw as int),
        from_drawn ==> final(game).players[p as int].hand@.len() >= old(game).players[p as int].hand@.len()
            + (if draw <= discard { 0 } else if drawable(old(game), draw as int) > draw - discard { draw - discard }
                else { drawable(old(game), draw as int) }),
{
    let mut drawn: Vec<u16> = Vec::new();
    let mut k: u8 = 0;
    while k < draw
        invariant
            p < 2, game.inv(db), game.step(old(game)), params_kept(game, old(game)),
            game.free_builds == old(game).free_builds && game.discard_payments == old(game).discard_payments,
            game.players[p as int].played == old(game).players[p as int].played, k <= draw,
            drawn@.len() == drawable(old(game), k as int),
            game.deck@.len() + game.discard@.len() + drawn@.len() == old(game).deck@.len() + old(game).discard@.len(),
            game.players[p as int].hand@.len() == old(game).players[p as int].hand@.len() + drawn@.len(),
            game.players[1 - p as int] == old(game).players[1 - p as int],
            game.players[p as int].same_but_hand(old(game).players[p as int]),
        decreases draw - k,
    {
        match draw_into_hand(game, db, p) {
            Some(c) => drawn.push(c),
            None => {}
        }
        k = k + 1;
    }
    let ghost h1 = game.players[p as int].hand@.len();
    let ghost got = drawn@.len();
    let cands: Vec<u16> = if from_drawn { drawn } else { game.players[p].hand.clone() };
    let n: usize = if from_drawn {
        let keep: usize = if draw > discard { (draw - discard) as usize } else { 0 };
        if cands.len() > keep { cands.len() - keep } else { 0 }
    } else {
        if (discard as usize) < cands.len() { discard as usize } else { cands.len() }
    };
    if n == 0 {
        return;
    }
    policy.observe(game, p);
    let idx = policy.discard_down(&mut game.rng, p, cands.as_slice(), n);
    let mut j: usize = 0;
    while j < idx.len() && j < n
        invariant
            p < 2, game.inv(db), game.step(old(game)), params_kept(game, old(game)),
            game.free_builds == old(game).free_builds && game.discard_payments == old(game).discard_payments,
            game.players[p as int].played == old(game).players[p as int].played, j <= n,
            game.players[p as int].hand@.len() <= h1,
            game.players[p as int].hand@.len() + j >= h1,
            game.players[1 - p as int] == old(game).players[1 - p as int],
            game.players[p as int].same_but_hand(old(game).players[p as int]),
        decreases idx@.len() - j,
    {
        let i = idx[j];
        if i < cands.len() {
            if discard_from_hand(game, db, p, cands[i]) {
                game.draw_discard_discards = count(game.draw_discard_discards, 1);
            }
        }
        j = j + 1;
    }
}

/// Oxygen rises one step, capped on the phase snapshot: TR granted when the
/// snapshot allows it, the level itself held at its maximum; then the
/// « when you raise oxygen » triggers of the acting player.
pub fn raise_oxygen<P: Policy>(game: &mut GameState, db: &CardsDb, p: usize, policy: &mut P)
    requires p < 2, old(game).inv(db),
    ensures
        final(game).inv(db), final(game).step(old(game)),
        old(game).snap_oxygen < OXYGEN_MAX ==> final(game).oxygen
            == (if old(game).oxygen < OXYGEN_MAX { old(game).oxygen + 1 } else { old(game).oxygen as int })
            && final(game).temperature == old(game).temperature && final(game).oceans_revealed == old(game).oceans_revealed,
        final(game).free_builds == old(game).free_builds && final(game).discard_payments == old(game).discard_payments,
        final(game).players[p as int].played == old(game).players[p as int].played,
        final(game).players[1 - p as int] == old(game).players[1 - p as int],
        old(game).snap_oxygen >= OXYGEN_MAX ==> *final(game) == *old(game),
        !db.effects_on ==> resources_kept(final(game), old(game))
            && final(game).players[1 - p as int] == old(game).players[1 - p as int],
        old(game).snap_oxygen < OXYGEN_MAX && old(game).oxygen < OXYGEN_MAX ==> final(game).oxygen >= old(game).oxygen + 1,
        old(game).snap_oxygen < OXYGEN_MAX && old(game).players[p as int].tr_can_rise() ==>
            final(game).players[p as int].tr_increments >= old(game).players[p as int].tr_increments + 1,
    decreases 6int,
{
    if game.snap_oxygen >= OXYGEN_MAX {
        return;
    }
    if game.oxygen < OXYGEN_MAX {
        game.oxygen = game.oxygen + 1;
    }
    gain_tr(game, db, p, policy);
    fire_global_trigger(game, db, p, GlobalEvent::Oxygen, policy);
}

/// Temperature rises one step (same caps), then the « when you raise the
/// temperature » triggers.
pub fn raise_temperature<P: Policy>(game: &mut GameState, db: &CardsDb, p: usize, policy: &mut P)
    requires p < 2, old(game).inv(db),
    ensures
        final(game).inv(db), final(game).step(old(game)),
        old(game).snap_temperature < TEMPERATURE_MAX ==> final(game).temperature
            == (if old(game).temperature < TEMPERATURE_MAX { old(game).temperature + 1 } else { old(game).temperature as int })
            && final(game).oxygen == old(game).oxygen && final(game).oceans_revealed == old(game).oceans_revealed,
        final(game).free_builds == old(game).free_builds && final(game).discard_payments == old(game).discard_payments,
        final(game).players[p as int].played == old(game).players[p as int].played,
        final(game).players[1 - p as int] == old(game).players[1 - p as int],
        old(game).snap_temperature >= TEMPERATURE_MAX ==> *final(game) == *old(game),
        !db.effects_on ==> resources_kept(final(game), old(game))
            && final(game).players[1 - p as int] == old(game).players[1 - p as int],
        old(game).snap_temperature < TEMPERATURE_MAX && old(game).temperature < TEMPERATURE_MAX ==>
            final(game).temperature >= old(game).temperature + 1,
        old(game).snap_temperature < TEMPERATURE_MAX && old(game).players[p as int].tr_can_rise() ==>
            final(game).players[p as int].tr_increments >= old(game).players[p as int].tr_increments + 1,
    decreases 6int,
{
    if game.snap_temperature >= TEMPERATURE_MAX {
        return;
    }
    if game.temperature < TEMPERATURE_MAX {
        game.temperature = game.temperature + 1;
    }
    gain_tr(game, db, p, policy);
    fire_global_trigger(game, db, p, GlobalEvent::Temperature, policy);
}

/// Flips an ocean: the tile's bonus and one TR. Past the ninth in the phase
/// that reached it, the bonus of the last tile flipped.
pub fn reveal_ocean<P: Policy>(game: &mut GameState, db: &CardsDb, p: usize, policy: &mut P)
    requires p < 2, old(game).inv(db),
    ensures
        final(game).inv(db), final(game).step(old(game)),
        old(game).snap_oceans < NUM_OCEANS ==> final(game).oceans_revealed
            == (if old(game).oceans_revealed < NUM_OCEANS { old(game).oceans_revealed + 1 } else { old(game).oceans_revealed as int })
            && final(game).temperature == old(game).temperature && final(game).oxygen == old(game).oxygen,
        final(game).free_builds == old(game).free_builds && final(game).discard_payments == old(game).discard_payments,
        final(game).players[p as int].played == old(game).players[p as int].played,
        final(game).players[1 - p as int] == old(game).players[1 - p as int],
        old(game).snap_oceans >= NUM_OCEANS ==> *final(game) == *old(game),
        !db.effects_on && tiles_nonneg(old(game)) ==>
            final(game).players[p as int].heat == old(game).players[p as int].heat
            && final(game).players[p as int].plants >= old(game).players[p as int].plants,
        old(game).snap_oceans < NUM_OCEANS && old(game).oceans_revealed < NUM_OCEANS ==>
            final(game).oceans_revealed >= old(game).oceans_revealed + 1,
        old(game).snap_oceans < NUM_OCEANS && old(game).players[p as int].tr_can_rise() ==>
            final(game).players[p as int].tr_increments >= old(game).players[p as int].tr_increments + 1,
    decreases 6int,
{
    if game.snap_oceans >= NUM_OCEANS {
        return;
    }
    let tile = if game.oceans_revealed < NUM_OCEANS {
        let t = game.oceans[game.oceans_revealed as usize];
        game.oceans_revealed = game.oceans_revealed + 1;
        t
    } else {
        game.oceans[(NUM_OCEANS - 1) as usize]
    };
    game.players[p].mc = plus(game.players[p].mc, tile.mc);
    game.players[p].plants = plus(game.players[p].plants, tile.plants);
    let ghost g1 = *game;
    let mut k: u8 = 0;
    while k < tile.cards
        invariant
            p < 2, game.inv(db), game.step(old(game)),
            game.free_builds == old(game).free_builds && game.discard_payments == old(game).discard_payments,
            game.players[p as int].played == old(game).players[p as int].played,
            game.players[1 - p as int] == old(game).players[1 - p as int],
            game.oceans_revealed >= g1.oceans_revealed,
            game.players[p as int].tr_increments == g1.players[p as int].tr_increments,
            game.players[p as int].tr == g1.players[p as int].tr,
            game.players[p as int].tr_decrements == g1.players[p as int].tr_decrements,
            game.players[p as int].heat == g1.players[p as int].heat,
            params_kept(game, &g1),
            game.players[p as int].plants == g1.players[p as int].plants,
        decreases tile.cards - k,
    {
        draw_into_hand(game, db, p);
        k = k + 1;
    }
    gain_tr(game, db, p, policy);
    fire_global_trigger(game, db, p, GlobalEvent::Ocean, policy);
}

/// Infrastructure rises one step (same caps): one TR and one card.
pub fn raise_infrastructure<P: Policy>(game: &mut GameState, db: &CardsDb, p: usize, policy: &mut P)
    requires p < 2, old(game).inv(db),
    ensures
        final(game).inv(db), final(game).step(old(game)),
        params_kept(final(game), old(game)),
        final(game).free_builds == old(game).free_builds && final(game).discard_payments == old(game).discard_payments,
        final(game).players[p as int].played == old(game).players[p as int].played,
        final(game).players[1 - p as int] == old(game).players[1 - p as int],
        old(game).snap_infrastructure >= INFRASTRUCTURE_MAX ==> *final(game) == *old(game),
        old(game).snap_infrastructure < INFRASTRUCTURE_MAX && old(game).infrastructure < INFRASTRUCTURE_MAX ==>
            final(game).infrastructure >= old(game).infrastructure + 1,
        old(game).snap_infrastructure < INFRASTRUCTURE_MAX && old(game).players[p as int].tr_can_rise() ==>
            final(game).players[p as int].tr_increments >= old(game).players[p as int].tr_increments + 1,
{
    if game.snap_infrastructure >= INFRASTRUCTURE_MAX {
        return;
    }
    if game.infrastructure < INFRASTRUCTURE_MAX {
        game.infrastructure = game.infrastructure + 1;
    }
    gain_tr(game, db, p, policy);
    draw_into_hand(game, db, p);
}

/// Gains ONE forest VP, the one way of the engine: the token, one step of
/// oxygen (so one TR and the oxygen triggers), and the « when you gain a
/// forest » triggers. The payment, if any, is the caller's.
pub fn gain_forest<P: Policy>(game: &mut GameState, db: &CardsDb, p: usize, policy: &mut P)
    requires p < 2, old(game).inv(db),
    ensures
        final(game).inv(db), final(game).step(old(game)),
        final(game).free_builds == old(game).free_builds && final(game).discard_payments == old(game).discard_payments,
        final(game).players[p as int].played == old(game).players[p as int].played,
        final(game).players[1 - p as int] == old(game).players[1 - p as int],
        !db.effects_on ==> resources_kept(final(game), old(game))
            && final(game).players[1 - p as int] == old(game).players[1 - p as int],
        old(game).players[p as int].forests < i64::MAX ==>
            final(game).players[p as int].forests >= old(game).players[p as int].forests + 1,
    decreases 7int,
{
    game.players[p].forests = plus(game.players[p].forests, 1);
    raise_oxygen(game, db, p, policy);
    fire_global_trigger(game, db, p, GlobalEvent::Forest, policy);
}


/// A copy of a list of card ids.
pub fn copy_ids(v: &Vec<u16>) -> (r: Vec<u16>)
    ensures r@ == v@,
{
    let mut out: Vec<u16> = Vec::new();
    let mut i: usize = 0;
    while i < v.len()
        invariant i <= v@.len(), out@ == v@.subrange(0, i as int),
        decreases v@.len() - i,
    {
        out.push(v[i]);
        proof { assert(out@ =~= v@.subrange(0, i + 1)); }
        i = i + 1;
    }
    proof { assert(v@.subrange(0, v@.len() as int) =~= v@); }
    out
}

// ------------------------------------------------------------- joker tags

/// The joker of the card has its token (or there is nothing to choose:
/// effect layer off, or no joker on the card).
pub open spec fn joker_settled(db: &CardsDb, pl: &PlayerState, card_id: u16) -> bool {
    !db.effects_on || !seq_contains_joker(db.projects@[card_id as int].tags@) || pl.joker_tags@.contains_key(card_id)
}

/// Puts the tag token on the joker of `card_id`, if it has one and none yet:
/// the player picks the tag, once and for all.
pub fn ensure_joker_tag<P: Policy>(game: &mut GameState, db: &CardsDb, p: usize, card_id: u16, policy: &mut P)
    requires p < 2, old(game).inv(db), (card_id as int) < db.projects@.len(),
    ensures
        final(game).inv(db), final(game).step(old(game)),
        final(game).free_builds == old(game).free_builds && final(game).discard_payments == old(game).discard_payments,
        joker_settled(db, &final(game).players[p as int], card_id),
        joker_settled(db, &old(game).players[p as int], card_id) ==> *final(game) == *old(game),
        forall|k: u16| old(game).players[p as int].joker_tags@.contains_key(k) ==>
            final(game).players[p as int].joker_tags@.contains_key(k),
        final(game).players[p as int].same_but_jokers(old(game).players[p as int]),
        final(game).players[1 - p as int] == old(game).players[1 - p as int],
        final(game).same_but_players(*old(game)),
{
    if !db.effects_on || !crate::flow::has_joker_tag(db, card_id) {
        return;
    }
    if game.players[p].joker_tags.contains_key(&card_id) {
        return;
    }
    let counts = game.players[p].tag_counts;
    policy.observe(game, p);
    let i = policy.pick_joker_tag(&mut game.rng, p, card_id, &counts);
    let choices = joker_tag_choices();
    let tag = choices[i];
    game.players[p].joker_tags.insert(card_id, tag);
    game.joker_tag_choices = count(game.joker_tag_choices, 1);
}

/// Puts the token on every joker of the hand of player `p`: affordability
/// then judges each joker card on its real tag, as the payment will.
pub fn resolve_hand_jokers<P: Policy>(game: &mut GameState, db: &CardsDb, p: usize, policy: &mut P)
    requires p < 2, old(game).inv(db),
    ensures
        final(game).inv(db), final(game).step(old(game)),
        forall|k: int| 0 <= k < final(game).players[p as int].hand@.len() ==>
            joker_settled(db, &final(game).players[p as int], #[trigger] final(game).players[p as int].hand@[k]),
        final(game).players[p as int].same_but_jokers(old(game).players[p as int]),
        final(game).players[1 - p as int] == old(game).players[1 - p as int],
        final(game).same_but_players(*old(game)),
{
    if !db.effects_on {
        return;
    }
    let hand = copy_ids(&game.players[p].hand);
    let mut i: usize = 0;
    while i < hand.len()
        invariant
            i <= hand@.len(), p < 2, db.effects_on,
            game.inv(db), game.step(old(game)),
            hand@ == game.players[p as int].hand@,
            forall|k: int| 0 <= k < i ==> joker_settled(db, &game.players[p as int], #[trigger] hand@[k]),
            game.players[p as int].same_but_jokers(old(game).players[p as int]),
            game.players[1 - p as int] == old(game).players[1 - p as int],
            game.same_but_players(*old(game)),
        decreases hand@.len() - i,
    {
        proof { assert(ids_ok(game.players[p as int].hand@, db.projects@.len() as int)); }
        ensure_joker_tag(game, db, p, hand[i], policy);
        i = i + 1;
    }
}

// --------------------------------------------------------- affordability

/// The fixed discount of a build: phase discount, modifier armed for the
/// next card, and the reductions of the cards in play.
pub open spec fn fixed_discount(discount: i64, armed: i64, card_disc: i64) -> i64 {
    clamp64(clamp64(discount + armed) + card_disc) as i64
}

/// The discount once the paid reductions (resources, plants) are used.
pub open spec fn discounted(fixed: i64, microbe: Option<(u16, u32, i64)>, plant: Option<(i64, i64)>) -> i64 {
    let d: i64 = match microbe { Some(m) => clamp64(fixed + m.2) as i64, None => fixed };
    match plant { Some(q) => clamp64(d + q.1) as i64, None => d }
}

/// Can player `p` pay for the card at hand index `idx` under `grant`, with
/// every reduction available to them (fixed, paid with resources, paid
/// with plants), MC and heat where allowed, and the other cards of the hand
/// discarded at their rate?
pub open spec fn pay_ok(game: &GameState, db: &CardsDb, p: int, idx: int, discount: i64, grant: BuildGrant) -> bool {
    let pl = &game.players[p];
    let c = pl.hand@[idx];
    let price: i64 = if grant.free { 0 } else { db.projects@[c as int].price };
    let fixed = fixed_discount(discount, pl.next_card_mod.discount, card_discount_spec(db, pl, c));
    let total = discounted(fixed, microbe_discount_spec(db, pl),
        plant_discount_with_spec(db, pl, c, plant_reduction_spec(db, pl.played@)));
    payable_spec(spendable_spec(db, pl, reserved_spec(db, c, true)) as int, pl.hand@.len() as int,
        effective_cost_spec(price, total) as int, discard_rate_spec(db, pl) as int)
}

/// The payment test, computed: the same reductions as the payment, in the
/// same order.
pub fn build_payable(game: &GameState, db: &CardsDb, p: usize, idx: usize, discount: i64, grant: &BuildGrant) -> (r: bool)
    requires p < 2, game.inv(db), idx < game.players[p as int].hand@.len(),
    ensures r == pay_ok(game, db, p as int, idx as int, discount, *grant),
{
    let pl = &game.players[p];
    let c = pl.hand[idx];
    let price: i64 = if grant.free { 0 } else { db.projects[c as usize].price };
    let fixed = plus(plus(discount, pl.next_card_mod.discount), card_discount(game, db, p, c));
    let mut total = fixed;
    match microbe_discount(game, db, p) {
        Some((_, _, amount)) => total = plus(total, amount),
        None => {}
    }
    let declared = plant_reduction(db, pl);
    match plant_discount_with(game, db, p, c, declared) {
        Some((_, amount)) => total = plus(total, amount),
        None => {}
    }
    let cost = effective_cost(price, total);
    let mc = spendable_mc_reserving(db, pl, heat_reserved_by(db, c));
    payable(mc, pl.hand.len(), cost, discard_mc_rate(db, pl))
}

/// Hand indices that can be built under `grant`: colour and printed price
/// allowed, payment possible (every reduction counted), requirements met on
/// the phase snapshot. A card refused by the snapshot only is counted in
/// `prereq_snapshot_blocks`.
/// Is card `i` of the hand buildable now under `grant`: admitted, payable,
/// its requirements met on the phase's snapshot?
pub open spec fn buildable_at(g: &GameState, db: &CardsDb, p: int, i: int, discount: i64, grant: BuildGrant) -> bool {
    let c = g.players[p].hand@[i];
    &&& grant.admits_spec(db.projects@[c as int].color, db.projects@[c as int].price)
    &&& pay_ok(g, db, p, i, discount, grant)
    &&& reqs_ok_spec(g, db, p, c, g.snap_temperature, g.snap_oxygen, g.snap_oceans)
}

pub fn affordable(game: &mut GameState, db: &CardsDb, p: usize, grant: &BuildGrant, discount: i64) -> (r: Vec<usize>)
    requires p < 2, old(game).inv(db),
    ensures
        forall|i: int| 0 <= i < old(game).players[p as int].hand@.len() ==>
            (r@.contains(i as usize) <==> #[trigger] buildable_at(old(game), db, p as int, i, discount, *grant)),
        forall|k: int, l: int| 0 <= k < l < r@.len() ==> r@[k] < r@[l],
        final(game).players == old(game).players,
        final(game).same_but_players(*old(game)),
        final(game).inv(db), final(game).step(old(game)),
        forall|k: int| 0 <= k < r@.len() ==> {
            &&& (#[trigger] r@[k] as int) < final(game).players[p as int].hand@.len()
            &&& grant.admits_spec(db.projects@[final(game).players[p as int].hand@[r@[k] as int] as int].color,
                    db.projects@[final(game).players[p as int].hand@[r@[k] as int] as int].price)
            &&& pay_ok(final(game), db, p as int, r@[k] as int, discount, *grant)
        },
{
    let hand_len = game.players[p].hand.len();
    let mut out: Vec<usize> = Vec::new();
    let mut blocked: u64 = 0;
    let mut i: usize = 0;
    while i < hand_len
        invariant
            i <= hand_len, hand_len == game.players[p as int].hand@.len(), p < 2,
            *game == *old(game), game.inv(db),
            forall|k: int| 0 <= k < out@.len() ==> (#[trigger] out@[k] as int) < i,
            forall|k: int, l: int| 0 <= k < l < out@.len() ==> out@[k] < out@[l],
            forall|j: int| 0 <= j < i ==> (out@.contains(j as usize) <==> #[trigger] buildable_at(old(game), db, p as int, j, discount, *grant)),
            forall|k: int| 0 <= k < out@.len() ==> {
                &&& (#[trigger] out@[k] as int) < game.players[p as int].hand@.len()
                &&& grant.admits_spec(db.projects@[game.players[p as int].hand@[out@[k] as int] as int].color,
                        db.projects@[game.players[p as int].hand@[out@[k] as int] as int].price)
                &&& pay_ok(game, db, p as int, out@[k] as int, discount, *grant)
            },
        decreases hand_len - i,
    {
        let c = game.players[p].hand[i];
        proof { assert(ids_ok(game.players[p as int].hand@, db.projects@.len() as int)); }
        let card = &db.projects[c as usize];
        let ghost before = out@;
        if grant.admits(card.color, card.price) && build_payable(game, db, p, i, discount, grant) {
            if requirements_met(game, db, p, c) {
                out.push(i);
            } else if requirements_met_now(game, db, p, c) {
                blocked = count(blocked, 1);
            }
        }
        proof {
            assert forall|j: int| 0 <= j < i + 1 implies (out@.contains(j as usize) <==> #[trigger] buildable_at(old(game), db, p as int, j, discount, *grant)) by {
                if out@.contains(j as usize) {
                    let m = choose|m: int| 0 <= m < out@.len() && out@[m] == j as usize;
                    if m < before.len() { assert(before[m] == j as usize); }
                }
                if j < i && before.contains(j as usize) {
                    let m = choose|m: int| 0 <= m < before.len() && before[m] == j as usize;
                    assert(out@[m] == j as usize);
                }
                if j == i && out@.len() > before.len() {
                    assert(out@[before.len() as int] == i);
                }
            }
        }
        i = i + 1;
    }
    game.prereq_snapshot_blocks = count(game.prereq_snapshot_blocks, blocked);
    out
}


// ------------------------------------------------------------ the payment

proof fn lemma_pay_res_reds(db: &CardsDb, res: Map<u16, u32>, owned: u16, reds: Seq<Reduction>)
    requires forall|i: int| 0 <= i < reds.len() ==> reduction_sound(#[trigger] reds[i]),
    ensures
        pay_res_in_reds(db, res, owned, reds) matches Some(x) ==>
            x.0 == owned && x.2 >= 0 && crate::flow::res_on(res, owned) >= x.1,
    decreases reds.len(),
{
    if reds.len() > 0 {
        assert(reduction_sound(reds[0]));
        assert forall|i: int| 0 <= i < reds.drop_first().len() implies reduction_sound(#[trigger] reds.drop_first()[i]) by {
            assert(reds.drop_first()[i] == reds[i + 1]);
        }
        lemma_pay_res_reds(db, res, owned, reds.drop_first());
    }
}

proof fn lemma_pay_res_cards(db: &CardsDb, res: Map<u16, u32>, played: Seq<u16>)
    requires db_ok(db), ids_ok(played, db.projects@.len() as int),
    ensures
        pay_res_in_cards(db, res, played) matches Some(x) ==>
            x.2 >= 0 && crate::flow::res_on(res, x.0) >= x.1,
    decreases played.len(),
{
    if played.len() > 0 {
        let c = played[0];
        assert((c as int) < db.projects@.len());
        match db.projects@[c as int].effect {
            Some(e) => {
                assert(db.projects@[c as int].effect matches Some(x) ==> crate::effects::card_sound(x));
                lemma_pay_res_reds(db, res, c, e.reductions@);
            }
            None => {}
        }
        assert(ids_ok(played.drop_first(), db.projects@.len() as int)) by {
            assert forall|i: int| 0 <= i < played.drop_first().len() implies (played.drop_first()[i] as int) < db.projects@.len() by {
                assert(played.drop_first()[i] == played[i + 1]);
            }
        }
        lemma_pay_res_cards(db, res, played.drop_first());
    }
}

proof fn lemma_pay_plants_reds(reds: Seq<Reduction>)
    requires forall|i: int| 0 <= i < reds.len() ==> reduction_sound(#[trigger] reds[i]),
    ensures pay_plants_in_reds(reds) matches Some(x) ==> x.1 >= 0,
    decreases reds.len(),
{
    if reds.len() > 0 {
        assert(reduction_sound(reds[0]));
        assert forall|i: int| 0 <= i < reds.drop_first().len() implies reduction_sound(#[trigger] reds.drop_first()[i]) by {
            assert(reds.drop_first()[i] == reds[i + 1]);
        }
        lemma_pay_plants_reds(reds.drop_first());
    }
}

proof fn lemma_pay_plants_cards(db: &CardsDb, played: Seq<u16>)
    requires db_ok(db), ids_ok(played, db.projects@.len() as int),
    ensures pay_plants_in_cards(db, played) matches Some(x) ==> x.1 >= 0,
    decreases played.len(),
{
    if played.len() > 0 {
        let c = played[0];
        assert((c as int) < db.projects@.len());
        match db.projects@[c as int].effect {
            Some(e) => {
                assert(db.projects@[c as int].effect matches Some(x) ==> crate::effects::card_sound(x));
                lemma_pay_plants_reds(e.reductions@);
            }
            None => {}
        }
        assert(ids_ok(played.drop_first(), db.projects@.len() as int)) by {
            assert forall|i: int| 0 <= i < played.drop_first().len() implies (played.drop_first()[i] as int) < db.projects@.len() by {
                assert(played.drop_first()[i] == played[i + 1]);
            }
        }
        lemma_pay_plants_cards(db, played.drop_first());
    }
}

/// A bigger discount never makes a card dearer.
proof fn lemma_cost_mono(price: i64, d1: i64, d2: i64)
    requires d1 <= d2,
    ensures effective_cost_spec(price, d2) <= effective_cost_spec(price, d1),
{
}

/// The paid reductions of a build: resources on a card, plants from the
/// reserve. Each is the player's choice, offered only when the card stays
/// payable without it. Returns the total discount and what to pay.
fn decide_paid_discounts<P: Policy>(game: &mut GameState, db: &CardsDb, p: usize, card_id: u16, price: i64,
    fixed: i64, hl: usize, s_mc: i64, rate: i64, policy: &mut P) -> (r: (i64, Option<(u16, u32)>, Option<i64>))
    requires
        p < 2, old(game).inv(db), (card_id as int) < db.projects@.len(),
        payable_spec(s_mc as int, hl as int, effective_cost_spec(price, discounted(fixed,
            microbe_discount_spec(db, &old(game).players[p as int]),
            plant_discount_with_spec(db, &old(game).players[p as int], card_id,
                plant_reduction_spec(db, old(game).players[p as int].played@)))) as int, rate as int),
    ensures
        final(game).players == old(game).players,
        final(game).same_but_players(*old(game)),
        final(game).inv(db), final(game).step(old(game)),
        final(game).free_builds == old(game).free_builds && final(game).discard_payments == old(game).discard_payments,
        payable_spec(s_mc as int, hl as int, effective_cost_spec(price, r.0) as int, rate as int),
        r.1 matches Some(x) ==> (microbe_discount_spec(db, &old(game).players[p as int]) matches Some(m)
            && m.0 == x.0 && m.1 == x.1),
        r.2 matches Some(n) ==> (plant_discount_with_spec(db, &old(game).players[p as int], card_id,
            plant_reduction_spec(db, old(game).players[p as int].played@)) matches Some(q) && q.0 == n),
{
    let ghost pl0 = game.players[p as int];
    proof {
        lemma_pay_res_cards(db, pl0.card_resources@, pl0.played@);
        lemma_pay_plants_cards(db, pl0.played@);
    }
    let ghost microbe = microbe_discount_spec(db, &pl0);
    let ghost d_m: i64 = discounted(fixed, microbe, None);
    let mut total = fixed;
    let mut pay_with_resources: Option<(u16, u32)> = None;
    match microbe_discount(game, db, p) {
        Some((src, cnt, amount)) => {
            let cost_without = effective_cost(price, total);
            let can_decline = payable(s_mc, hl, cost_without, rate);
            let use_it = if can_decline {
                let ctx = ChoiceContext::MicrobeDiscount { card: card_id, holder: src, count: cnt, amount };
                policy.observe(game, p);
                policy.choose_option_ctx(&mut game.rng, p, &ctx) == 0
            } else {
                true
            };
            if use_it {
                pay_with_resources = Some((src, cnt));
                proof { lemma_cost_mono(price, total, clamp64(total + amount) as i64); }
                total = plus(total, amount);
            }
        }
        None => {}
    }
    let ghost t1 = total;
    assert(payable_spec(s_mc as int, hl as int, effective_cost_spec(price, t1) as int, rate as int) || t1 == d_m);
    let mut pay_with_plants: Option<i64> = None;
    let declared = plant_reduction(db, &game.players[p]);
    match plant_discount_with(game, db, p, card_id, declared) {
        Some((plants, amount)) => {
            let cost_without = effective_cost(price, total);
            let can_decline = payable(s_mc, hl, cost_without, rate);
            let use_it = if can_decline {
                let ctx = ChoiceContext::PlantDiscount { card: card_id, plants, amount };
                policy.observe(game, p);
                policy.choose_option_ctx(&mut game.rng, p, &ctx) == 0
            } else {
                true
            };
            if use_it {
                pay_with_plants = Some(plants);
                proof { lemma_cost_mono(price, total, clamp64(total + amount) as i64); }
                total = plus(total, amount);
            }
        }
        None => {}
    }
    (total, pay_with_resources, pay_with_plants)
}

/// `d` is `d0` with the last `n` cards of `hand` put on it, the last card
/// of the hand first.
pub open spec fn paid_to_discard(d: Seq<u16>, d0: Seq<u16>, hand: Seq<u16>, n: int) -> bool {
    &&& d.len() == d0.len() + n
    &&& d.subrange(0, d0.len() as int) == d0
    &&& forall|i: int| d0.len() <= i < d.len() ==> #[trigger] d[i] == hand[hand.len() - 1 - (i - d0.len())]
}

/// Pays `cost` MC for a card: the player may use heat where the
/// corporation allows it (asked only when the card stays payable without),
/// then completes with cards of the hand discarded at the rate. Returns
/// the number of cards discarded.
#[verifier::rlimit(80)]
#[verifier::spinoff_prover]
fn pay_mc_cost<P: Policy>(game: &mut GameState, db: &CardsDb, p: usize, card_id: u16, cost: i64, reserved: i64,
    rate: i64, hl: usize, s_mc: i64, policy: &mut P) -> (r: usize)
    requires
        p < 2, old(game).inv(db), cost >= 0,
        old(game).players[p as int].hand@.len() + 1 == hl,
        s_mc == spendable_spec(db, &old(game).players[p as int], reserved),
        rate == discard_rate_spec(db, &old(game).players[p as int]),
        payable_spec(s_mc as int, hl as int, cost as int, rate as int),
    ensures
        final(game).inv(db), final(game).step(old(game)),
        final(game).players[p as int].played == old(game).players[p as int].played,
        final(game).players[p as int].plants == old(game).players[p as int].plants,
        final(game).players[p as int].card_resources@ == old(game).players[p as int].card_resources@,
        final(game).players[p as int].joker_tags@ == old(game).players[p as int].joker_tags@,
        final(game).players[p as int].tag_counts == old(game).players[p as int].tag_counts,
        final(game).players[p as int].color_counts == old(game).players[p as int].color_counts,
        final(game).players[p as int].next_card_mod == old(game).players[p as int].next_card_mod,
        final(game).players[p as int].pending_builds == old(game).players[p as int].pending_builds,
        final(game).players[1 - p as int] == old(game).players[1 - p as int],
        old(game).players[p as int].mc >= cost ==> r == 0 && final(game).players[p as int].mc == old(game).players[p as int].mc - cost
            && final(game).players[p as int].heat == old(game).players[p as int].heat,
        final(game).players[p as int].mc >= 0,
        final(game).players[p as int].heat <= old(game).players[p as int].heat,
        r <= old(game).players[p as int].hand@.len(),
        final(game).players[p as int].hand@ == old(game).players[p as int].hand@.subrange(0,
            old(game).players[p as int].hand@.len() - r),
        final(game).free_builds == old(game).free_builds,
        final(game).discard_payments == clamp_u64(old(game).discard_payments + r),
        paid_to_discard(final(game).discard@, old(game).discard@, old(game).players[p as int].hand@, r as int),
{
    let ghost pl0 = game.players[p as int];
    let ghost d0 = game.discard@;
    if heat_as_mc(db, &game.players[p]) && game.players[p].mc < cost {
        let can_decline = payable(game.players[p].mc, game.players[p].hand.len() + 1, cost, rate);
        let use_heat = if can_decline {
            let ctx = ChoiceContext::HeatAsMc { card: card_id, cost };
            policy.observe(game, p);
            policy.choose_option_ctx(&mut game.rng, p, &ctx) == 0
        } else {
            true
        };
        if use_heat {
            top_up_mc_with_heat_reserving(game, db, p, cost, reserved);
        }
    }
    let mut discarded: usize = 0;
    let m1 = game.players[p].mc;
    if m1 < cost {
        let len = game.players[p].hand.len();
        assert(m1 as int + rate as int * len as int >= cost as int);
        assert(rate > 0) by (nonlinear_arith)
            requires m1 < cost, m1 as int + rate as int * len as int >= cost as int, len >= 0;
        let hand = game.players[p].hand.clone();
        policy.observe(game, p);
        let n = policy.discard_payment_count(&mut game.rng, p, m1, cost, hand.as_slice(), rate);
        let bonus = discard_bonus_per_card(db, &game.players[p]);
        let mut k: usize = 0;
        proof {
            assert(game.discard@ == d0);
            assert(d0.subrange(0, d0.len() as int) =~= d0);
        }
        while k < n
            invariant
                k <= n, n <= len, p < 2, rate > 0, len == pl0.hand@.len(),
                game.players[p as int].hand@ == pl0.hand@.subrange(0, len - k),
                game.players[p as int].heat <= pl0.heat,
                game.players[p as int].hand@.len() == len - k,
                m1 as int + rate as int * n as int >= cost as int,
                game.players[p as int].mc as int >= (if m1 as int + rate as int * k as int > i64::MAX as int { i64::MAX as int } else { m1 as int + rate as int * k as int }),
                game.inv(db), game.step(old(game)),
                game.players[p as int].played == pl0.played,
                game.players[p as int].plants == pl0.plants,
                game.players[p as int].card_resources@ == pl0.card_resources@,
                game.players[p as int].joker_tags@ == pl0.joker_tags@,
                game.players[p as int].tag_counts == pl0.tag_counts,
                game.players[p as int].color_counts == pl0.color_counts,
                game.players[p as int].next_card_mod == pl0.next_card_mod,
                game.players[p as int].pending_builds == pl0.pending_builds,
                game.players[1 - p as int] == old(game).players[1 - p as int],
                game.free_builds == old(game).free_builds,
                game.discard_payments == old(game).discard_payments,
                paid_to_discard(game.discard@, d0, pl0.hand@, k as int),
            decreases n - k,
        {
            let card = game.players[p].hand.pop().unwrap();
            proof {
                assert(game.players[p as int].hand@ =~= pl0.hand@.subrange(0, len - k - 1));
            }
            let ghost dk = game.discard@;
            game.discard.push(card);
            proof {
                assert(game.discard@.subrange(0, d0.len() as int) =~= dk.subrange(0, d0.len() as int));
                assert(card == pl0.hand@[len - 1 - k]);
                assert forall|i: int| d0.len() <= i < game.discard@.len() implies
                    #[trigger] game.discard@[i] == pl0.hand@[pl0.hand@.len() - 1 - (i - d0.len())] by {
                    if i < game.discard@.len() - 1 {
                        assert(game.discard@[i] == game.discard@.drop_last()[i]);
                    }
                }
            }
            game.players[p].mc = plus(game.players[p].mc, rate);
            game.discard_bonus_mc = count(game.discard_bonus_mc, bonus);
            proof {
                assert(rate as int * (k + 1) == rate as int * k + rate) by (nonlinear_arith);
            }
            k = k + 1;
        }
        assert(game.players[p as int].mc >= cost);
        discarded = n;
        game.discard_payments = count(game.discard_payments, n as u64);
    } else {
        proof {
            assert(game.discard@ == d0);
            assert(d0.subrange(0, d0.len() as int) =~= d0);
        }
    }
    game.players[p].mc = game.players[p].mc - cost;
    discarded
}


// ------------------------------------------------------------- building

/// The build steps of a card, in printed order.
pub fn apply_res_steps<P: Policy>(game: &mut GameState, db: &CardsDb, p: usize, self_card: u16,
    steps: &Vec<ResStep>, policy: &mut P, src: UpgradeSource)
    requires p < 2, old(game).inv(db), (self_card as int) < db.projects@.len(),
    ensures
        final(game).inv(db), final(game).step(old(game)),
        final(game).free_builds == old(game).free_builds && final(game).discard_payments == old(game).discard_payments,
        final(game).players[p as int].played == old(game).players[p as int].played,
        final(game).players[1 - p as int] == old(game).players[1 - p as int],
        steps@.len() == 0 ==> *final(game) == *old(game),
{
    let mut i: usize = 0;
    while i < steps.len()
        invariant
            i <= steps@.len(), p < 2, game.inv(db), game.step(old(game)),
            game.free_builds == old(game).free_builds && game.discard_payments == old(game).discard_payments,
            game.players[p as int].played == old(game).players[p as int].played,
            game.players[1 - p as int] == old(game).players[1 - p as int],
            (self_card as int) < db.projects@.len(),
            steps@.len() == 0 ==> *game == *old(game),
        decreases steps@.len() - i,
    {
        match &steps[i] {
            ResStep::Do(e) => apply_res_eff(game, db, p, self_card, e, policy, src, true),
            ResStep::Choose(branches) => apply_choice(game, db, p, self_card, branches, policy, src, true),
        }
        i = i + 1;
    }
}

/// The spendings of a card's requirements (« Requires you to spend … »),
/// then its effects, then its resource effects in printed order.
pub fn apply_card_effects<P: Policy>(game: &mut GameState, db: &CardsDb, p: usize, card_id: u16, policy: &mut P)
    requires p < 2, old(game).inv(db), (card_id as int) < db.projects@.len(),
    ensures
        final(game).inv(db), final(game).step(old(game)),
        final(game).free_builds == old(game).free_builds && final(game).discard_payments == old(game).discard_payments,
        final(game).players[p as int].played == old(game).players[p as int].played,
        final(game).players[1 - p as int] == old(game).players[1 - p as int],
        db.projects@[card_id as int].effect is None ==> *final(game) == *old(game),
{
    let spec = match &db.projects[card_id as usize].effect {
        Some(s) => s,
        None => return,
    };
    let mut i: usize = 0;
    while i < spec.reqs.len()
        invariant i <= spec.reqs@.len(), p < 2, game.inv(db), game.step(old(game)),
            game.free_builds == old(game).free_builds && game.discard_payments == old(game).discard_payments,
            game.players[p as int].played == old(game).players[p as int].played,
            game.players[1 - p as int] == old(game).players[1 - p as int],
        decreases spec.reqs@.len() - i,
    {
        match spec.reqs[i] {
            Req::SpendHeat(n) => {
                if game.players[p].heat >= n {
                    game.players[p].heat = minus(game.players[p].heat, n);
                }
            }
            Req::SpendPlants(n) => {
                if game.players[p].plants >= n {
                    game.players[p].plants = minus(game.players[p].plants, n);
                }
            }
            Req::SpendTr(n) => {
                if n >= 0 && game.players[p].tr >= n {
                    game.players[p].spend_tr(n);
                }
            }
            _ => {}
        }
        i = i + 1;
    }
    let mut j: usize = 0;
    while j < spec.effects.len()
        invariant j <= spec.effects@.len(), p < 2, game.inv(db), game.step(old(game)),
            game.free_builds == old(game).free_builds && game.discard_payments == old(game).discard_payments,
            game.players[p as int].played == old(game).players[p as int].played,
            game.players[1 - p as int] == old(game).players[1 - p as int],
        decreases spec.effects@.len() - j,
    {
        apply_eff(game, db, p, &spec.effects[j], policy, true);
        j = j + 1;
    }
    apply_res_steps(game, db, p, card_id, &spec.on_build, policy, UpgradeSource::Build);
}

/// Applies the gains of one play trigger `mult` times.
pub(crate) fn apply_trigger_gains<P: Policy>(game: &mut GameState, db: &CardsDb, p: usize, src: Option<u16>,
    trig: &PlayTrigger, mult: i64, policy: &mut P)
    requires
        p < 2, old(game).inv(db),
        gains_basic(trig.gains@),
        src matches Some(c) ==> (c as int) < db.projects@.len(),
    ensures final(game).inv(db), final(game).step(old(game)),
        params_kept(final(game), old(game)),
        final(game).free_builds == old(game).free_builds && final(game).discard_payments == old(game).discard_payments,
        final(game).players[p as int].played == old(game).players[p as int].played,
        final(game).players[1 - p as int] == old(game).players[1 - p as int],
{
    let mut k: usize = 0;
    while k < trig.gains.len()
        invariant
            k <= trig.gains@.len(), p < 2, game.inv(db), game.step(old(game)), params_kept(game, old(game)),
            game.free_builds == old(game).free_builds && game.discard_payments == old(game).discard_payments,
            game.players[p as int].played == old(game).players[p as int].played,
            game.players[1 - p as int] == old(game).players[1 - p as int],
            gains_basic(trig.gains@),
            src matches Some(c) ==> (c as int) < db.projects@.len(),
        decreases trig.gains@.len() - k,
    {
        assert(trig_gain_basic(trig.gains@[k as int]));
        apply_trig_gain(game, db, p, src, &trig.gains[k], mult, policy);
        k = k + 1;
    }
}

/// « When you play a [tag] … »: the triggers of the corporation and of the
/// cards in play of player `p`, on the tags of the card just played as the
/// player sees them (the card itself only if its trigger includes it).
pub fn fire_play_triggers<P: Policy>(game: &mut GameState, db: &CardsDb, p: usize, played_id: u16, policy: &mut P)
    requires p < 2, old(game).inv(db), (played_id as int) < db.projects@.len(),
    ensures final(game).inv(db), final(game).step(old(game)),
        final(game).free_builds == old(game).free_builds && final(game).discard_payments == old(game).discard_payments,
        final(game).players[p as int].played == old(game).players[p as int].played,
        final(game).players[1 - p as int] == old(game).players[1 - p as int],
{
    let played_tags = game.players[p].tags_of(db, played_id);
    match corp_effects(db, &game.players[p]) {
        Some(spec) => {
            let ghost c = game.players[p as int].corporation->Some_0;
            proof {
                assert(db.corporations@[c as int].effect matches Some(x) ==> corp_sound(x));
            }
            let mut t: usize = 0;
            while t < spec.play_triggers.len()
                invariant
                    t <= spec.play_triggers@.len(), p < 2, game.inv(db), game.step(old(game)),
                    game.free_builds == old(game).free_builds && game.discard_payments == old(game).discard_payments,
                    game.players[p as int].played == old(game).players[p as int].played,
                    game.players[1 - p as int] == old(game).players[1 - p as int],
                    corp_sound(*spec),
                decreases spec.play_triggers@.len() - t,
            {
                let trig = &spec.play_triggers[t];
                let matched = trig.cond.matched_tags(played_tags.as_slice());
                if matched > 0 {
                    let mult: i64 = if trig.scale_by_matched_tags { if matched as u64 > 0x7fff_ffff_ffff_ffffu64 { i64::MAX } else { matched as i64 } } else { 1 };
                    proof {
                        assert forall|k: int| 0 <= k < trig.gains@.len() implies trig_gain_basic(#[trigger] trig.gains@[k]) by {
                            assert(corp_gain_ok(spec.play_triggers@[t as int].gains@[k]));
                        }
                    }
                    apply_trigger_gains(game, db, p, None, trig, mult, policy);
                }
                t = t + 1;
            }
        }
        None => {}
    }
    let sources = copy_ids(&game.players[p].played);
    let mut i: usize = 0;
    while i < sources.len()
        invariant
            i <= sources@.len(), p < 2, game.inv(db), game.step(old(game)),
            game.free_builds == old(game).free_builds && game.discard_payments == old(game).discard_payments,
            game.players[p as int].played == old(game).players[p as int].played,
            game.players[1 - p as int] == old(game).players[1 - p as int],
            ids_ok(sources@, db.projects@.len() as int),
            (played_id as int) < db.projects@.len(),
        decreases sources@.len() - i,
    {
        let src = sources[i];
        match &db.projects[src as usize].effect {
            Some(spec) => {
                proof {
                    assert(db.projects@[src as int].effect matches Some(x) ==> crate::effects::card_sound(x));
                }
                let mut t: usize = 0;
                while t < spec.play_triggers.len()
                    invariant
                        t <= spec.play_triggers@.len(), p < 2, game.inv(db), game.step(old(game)),
                        game.free_builds == old(game).free_builds && game.discard_payments == old(game).discard_payments,
                        game.players[p as int].played == old(game).players[p as int].played,
                        game.players[1 - p as int] == old(game).players[1 - p as int],
                        crate::effects::card_sound(*spec), (src as int) < db.projects@.len(),
                    decreases spec.play_triggers@.len() - t,
                {
                    let trig = &spec.play_triggers[t];
                    if !(src == played_id && !trig.include_self) {
                        let matched = trig.cond.matched_tags(played_tags.as_slice());
                        if matched > 0 {
                            let mult: i64 = if trig.scale_by_matched_tags { if matched as u64 > 0x7fff_ffff_ffff_ffffu64 { i64::MAX } else { matched as i64 } } else { 1 };
                            apply_trigger_gains(game, db, p, Some(src), trig, mult, policy);
                        }
                    }
                    t = t + 1;
                }
            }
            None => {}
        }
        i = i + 1;
    }
}

/// What the card that just entered play grants: extra builds in this
/// phase, and/or a modifier for the next card.
pub fn grant_from_card(game: &mut GameState, db: &CardsDb, p: usize, card_id: u16)
    requires p < 2, old(game).inv(db), (card_id as int) < db.projects@.len(),
    ensures
        final(game).inv(db), final(game).step(old(game)),
        final(game).players[p as int].played == old(game).players[p as int].played,
        final(game).free_builds == old(game).free_builds && final(game).discard_payments == old(game).discard_payments,
        final(game).players[1 - p as int] == old(game).players[1 - p as int],
        !db.effects_on ==> *final(game) == *old(game),
        ({
            let o = old(game).players[p as int];
            let f = final(game).players[p as int];
            match db.projects@[card_id as int].effect {
                Some(e) if db.effects_on => {
                    &&& f.pending_builds@ == o.pending_builds@ + e.grants@
                    &&& f.next_card_mod == (match e.next_card {
                        Some(m) => NextCardMod { discount: clamp64(o.next_card_mod.discount + m.discount) as i64,
                            color_flex: o.next_card_mod.color_flex || m.color_flex },
                        None => o.next_card_mod,
                    })
                },
                _ => f.pending_builds == o.pending_builds && f.next_card_mod == o.next_card_mod,
            }
        }),
{
    if !db.effects_on {
        return;
    }
    let spec = match &db.projects[card_id as usize].effect {
        Some(s) => s,
        None => return,
    };
    let mut i: usize = 0;
    while i < spec.grants.len()
        invariant
            i <= spec.grants@.len(), p < 2, game.inv(db), game.step(old(game)),
            game.players[p as int].played == old(game).players[p as int].played,
            game.free_builds == old(game).free_builds && game.discard_payments == old(game).discard_payments,
            game.players[p as int].pending_builds@ == old(game).players[p as int].pending_builds@ + spec.grants@.subrange(0, i as int),
            game.players[p as int].next_card_mod == old(game).players[p as int].next_card_mod,
            game.players[1 - p as int] == old(game).players[1 - p as int],
        decreases spec.grants@.len() - i,
    {
        proof {
            assert(old(game).players[p as int].pending_builds@ + spec.grants@.subrange(0, i as int + 1)
                =~= (old(game).players[p as int].pending_builds@ + spec.grants@.subrange(0, i as int)).push(spec.grants@[i as int]));
        }
        game.players[p].pending_builds.push(spec.grants[i]);
        game.extra_builds_granted = count(game.extra_builds_granted, 1);
        i = i + 1;
    }
    match spec.next_card {
        Some(m) => {
            game.players[p].next_card_mod.discount = plus(game.players[p].next_card_mod.discount, m.discount);
            game.players[p].next_card_mod.color_flex = game.players[p].next_card_mod.color_flex || m.color_flex;
            game.next_card_mods_armed = count(game.next_card_mods_armed, 1);
        }
        None => {}
    }
    proof {
        assert(spec.grants@.subrange(0, spec.grants@.len() as int) =~= spec.grants@);
    }
}

/// Two players with the same money, cards in play, corporation, know-how,
/// joker tokens and resources pay the same price for a card.
proof fn lemma_same_pricing(db: &CardsDb, a: &PlayerState, b: &PlayerState, c: u16, reserved: i64)
    requires
        a.mc == b.mc, a.heat == b.heat, a.plants == b.plants,
        a.played == b.played, a.corporation == b.corporation,
        a.steel_capacity == b.steel_capacity, a.titanium_capacity == b.titanium_capacity,
        a.joker_tags@ == b.joker_tags@, a.card_resources@ == b.card_resources@,
    ensures
        spendable_spec(db, a, reserved) == spendable_spec(db, b, reserved),
        card_discount_spec(db, a, c) == card_discount_spec(db, b, c),
        microbe_discount_spec(db, a) == microbe_discount_spec(db, b),
        plant_discount_with_spec(db, a, c, plant_reduction_spec(db, a.played@))
            == plant_discount_with_spec(db, b, c, plant_reduction_spec(db, b.played@)),
        discard_rate_spec(db, a) == discard_rate_spec(db, b),
{
    assert(a.tags_of_spec(db, c) =~= b.tags_of_spec(db, c));
}

/// Takes the card at hand index `idx` out of the hand and pays for it:
/// every reduction (phase discount, modifier armed for this card, cards in
/// play, the paid reductions the player chooses); a free grant costs
/// nothing; MC, heat where allowed, then cards discarded at their rate.
#[verifier::rlimit(60)]
fn take_and_pay<P: Policy>(game: &mut GameState, db: &CardsDb, p: usize, idx: usize, discount: i64,
    grant: &BuildGrant, policy: &mut P) -> (r: (u16, usize))
    requires
        p < 2, old(game).inv(db),
        idx < old(game).players[p as int].hand@.len(),
        joker_settled(db, &old(game).players[p as int], old(game).players[p as int].hand@[idx as int]),
        pay_ok(old(game), db, p as int, idx as int, discount, *grant),
    ensures
        final(game).inv(db), final(game).moves(old(game)),
        final(game).cards_total() + 1 == old(game).cards_total(),
        r.0 == old(game).players[p as int].hand@[idx as int],
        (r.0 as int) < db.projects@.len(),
        final(game).players[p as int].played == old(game).players[p as int].played,
        r.1 < old(game).players[p as int].hand@.len(),
        final(game).players[p as int].hand@ == old(game).players[p as int].hand@.remove(idx as int)
            .subrange(0, old(game).players[p as int].hand@.len() - 1 - r.1),
        final(game).free_builds == (if grant.free { clamp_u64(old(game).free_builds + 1) }
            else { old(game).free_builds as int }),
        final(game).discard_payments == clamp_u64(old(game).discard_payments + r.1),
        paid_to_discard(final(game).discard@, old(game).discard@,
            old(game).players[p as int].hand@.remove(idx as int), r.1 as int),
        final(game).players[1 - p as int] == old(game).players[1 - p as int],
{
    let ghost pl0 = game.players[p as int];
    let hand_len_before = game.players[p].hand.len();
    let card_id = game.players[p].hand.remove(idx);
    proof {
        assert(ids_ok(game.players[p as int].hand@, db.projects@.len() as int)) by {
            assert forall|k: int| 0 <= k < game.players[p as int].hand@.len() implies
                (game.players[p as int].hand@[k] as int) < db.projects@.len() by {
                if k < idx { assert(game.players[p as int].hand@[k] == pl0.hand@[k]); }
                else { assert(game.players[p as int].hand@[k] == pl0.hand@[k + 1]); }
            }
        }
        assert(card_id == pl0.hand@[idx as int]);
        assert((card_id as int) < db.projects@.len());
    }
    ensure_joker_tag(game, db, p, card_id, policy);
    let armed = game.players[p].next_card_mod;
    game.players[p].next_card_mod = NextCardMod::none();
    if !armed.is_empty() {
        game.next_card_mods_used = count(game.next_card_mods_used, 1);
    }
    let fixed = plus(plus(discount, armed.discount), card_discount(game, db, p, card_id));
    let price: i64 = if grant.free {
        game.free_builds = count(game.free_builds, 1);
        0
    } else {
        db.projects[card_id as usize].price
    };
    let reserved_heat = heat_reserved_by(db, card_id);
    let rate = discard_mc_rate(db, &game.players[p]);
    let s_mc = spendable_mc_reserving(db, &game.players[p], reserved_heat);
    proof {
        lemma_same_pricing(db, &game.players[p as int], &pl0, card_id, reserved_heat);
    }
    let (total, pay_with_resources, pay_with_plants) =
        decide_paid_discounts(game, db, p, card_id, price, fixed, hand_len_before, s_mc, rate, policy);
    let cost = effective_cost(price, total);
    let ghost h1 = game.players[p as int].hand@;
    assert(h1 == pl0.hand@.remove(idx as int));
    let ghost d1 = game.discard@;
    assert(d1 == old(game).discard@);
    let discarded = pay_mc_cost(game, db, p, card_id, cost, reserved_heat, rate, hand_len_before, s_mc, policy);
    let ghost h2 = game.players[p as int].hand@;
    let ghost d2 = game.discard@;
    match pay_with_resources {
        Some((src, cnt)) => {
            proof { lemma_pay_res_cards(db, pl0.card_resources@, pl0.played@); }
            remove_resources(game, db, p, src, cnt);
        }
        None => {}
    }
    match pay_with_plants {
        Some(n) => {
            if game.players[p].plants >= n {
                game.players[p].plants = minus(game.players[p].plants, n);
            }
        }
        None => {}
    }
    assert(game.players[p as int].hand@ == h2);
    assert(game.discard@ == d2);
    (card_id, discarded)
}

/// Builds the card at hand index `idx` under `grant`: the card is paid
/// for (`take_and_pay`), enters play, the know-how is refreshed, its
/// effects and the play triggers apply, and what it grants is recorded.
/// Returns the number of cards discarded to pay.
#[verifier::rlimit(60)]
pub fn build_card_granted<P: Policy>(game: &mut GameState, db: &CardsDb, p: usize, idx: usize, discount: i64,
    grant: &BuildGrant, policy: &mut P) -> (r: usize)
    requires
        p < 2, old(game).inv(db),
        idx < old(game).players[p as int].hand@.len(),
        joker_settled(db, &old(game).players[p as int], old(game).players[p as int].hand@[idx as int]),
        pay_ok(old(game), db, p as int, idx as int, discount, *grant),
    ensures
        final(game).inv(db), final(game).step(old(game)),
        old(game).players[p as int].played@.len() < final(game).players[p as int].played@.len(),
        final(game).players[p as int].played@[old(game).players[p as int].played@.len() as int]
            == old(game).players[p as int].hand@[idx as int],
        r < old(game).players[p as int].hand@.len(),
        !db.effects_on ==> final(game).players[p as int].hand@ == old(game).players[p as int].hand@
            .remove(idx as int).subrange(0, old(game).players[p as int].hand@.len() - 1 - r)
            && paid_to_discard(final(game).discard@, old(game).discard@,
                old(game).players[p as int].hand@.remove(idx as int), r as int),
        final(game).players[p as int].played@ == old(game).players[p as int].played@
            .push(old(game).players[p as int].hand@[idx as int]),
        final(game).free_builds == (if grant.free { clamp_u64(old(game).free_builds + 1) }
            else { old(game).free_builds as int }),
        final(game).discard_payments == clamp_u64(old(game).discard_payments + r),
        final(game).players[1 - p as int] == old(game).players[1 - p as int],
{
    let (card_id, discarded) = take_and_pay(game, db, p, idx, discount, grant, policy);
    let ghost g1 = *game;
    let ghost at = old(game).players[p as int].played@.len() as int;
    if game.players[p].put_in_play(card_id, db) {
        game.joker_tag_hits = count(game.joker_tag_hits, 1);
    }
    refresh_capacities(game, db, p);
    let ghost g2 = *game;
    assert(g2.players[p as int].played@ == g1.players[p as int].played@.push(card_id));
    assert(g2.free_builds == g1.free_builds && g2.discard_payments == g1.discard_payments);
    assert(g2.players[1 - p as int] == g1.players[1 - p as int]);
    if !db.projects[card_id as usize].effets_geres() && db.effects_on {
        game.cards_effects_unhandled = count(game.cards_effects_unhandled, 1);
    }
    if db.effects_on {
        init_card_resources(game, db, p, card_id);
        apply_card_effects(game, db, p, card_id, policy);
        fire_play_triggers(game, db, p, card_id, policy);
    }
    let ghost g3 = *game;
    assert(g3.players[p as int].played == g2.players[p as int].played);
    assert(g3.free_builds == g2.free_builds && g3.discard_payments == g2.discard_payments);
    assert(g3.players[1 - p as int] == g2.players[1 - p as int]);
    assert(!db.effects_on ==> g3.discard == g2.discard && g3.players[p as int].hand == g2.players[p as int].hand);
    grant_from_card(game, db, p, card_id);
    proof {
        assert(game.players[p as int].played@[at] == card_id);
    }
    discarded
}


// ---------------------------------------------------------------- actions

/// Is `x` in `v`?
pub fn contains_id(v: &Vec<u16>, x: u16) -> (r: bool)
    ensures r == v@.contains(x),
{
    let mut i: usize = 0;
    while i < v.len()
        invariant i <= v@.len(), forall|k: int| 0 <= k < i ==> v@[k] != x,
        decreases v@.len() - i,
    {
        if v[i] == x {
            assert(v@[i as int] == x);
            return true;
        }
        i = i + 1;
    }
    false
}

/// Reveals the top `n` cards of the pile (drawn the usual way, discard
/// reshuffled if needed); the player takes up to `take` of those matching
/// the printed filter; the others go to the discard pile for
/// `mc_per_discarded` MC each.
pub fn reveal_top<P: Policy>(game: &mut GameState, db: &CardsDb, p: usize, r: &Reveal, policy: &mut P)
    requires p < 2, old(game).inv(db),
    ensures
        final(game).players[p as int].heat == old(game).players[p as int].heat,
        final(game).players[p as int].plants == old(game).players[p as int].plants,
        final(game).inv(db), final(game).step(old(game)),
        final(game).players[1 - p as int] == old(game).players[1 - p as int],
        ({
            let avail = old(game).deck@.len() + old(game).discard@.len();
            let seen: int = if r.n <= avail { r.n as int } else { avail as int };
            &&& final(game).cards_revealed == (if seen == 0 { old(game).cards_revealed as int }
                else { clamp_u64(old(game).cards_revealed + seen) })
            &&& old(game).deck@.len() >= r.n ==> final(game).deck@ == old(game).deck@.subrange(0, old(game).deck@.len() - r.n)
        }),
{
    let mut revealed: Vec<u16> = Vec::new();
    let mut k: u8 = 0;
    let ghost avail: int = (old(game).deck@.len() + old(game).discard@.len()) as int;
    while k < r.n
        invariant_except_break
            revealed@.len() == k,
            old(game).deck@.len() >= k ==> game.deck@ == old(game).deck@.subrange(0, old(game).deck@.len() - k),
        invariant
            p < 2, game.inv(db), game.moves(old(game)), k <= r.n,
            game.cards_total() + revealed@.len() == old(game).cards_total(),
            ids_ok(revealed@, db.projects@.len() as int),
            game.players == old(game).players,
            avail == old(game).deck@.len() + old(game).discard@.len(),
            game.deck@.len() + game.discard@.len() + revealed@.len() == avail,
            game.cards_revealed == old(game).cards_revealed,
        ensures
            revealed@.len() == (if r.n <= avail { r.n as int } else { avail }),
            old(game).deck@.len() >= r.n ==> game.deck@ == old(game).deck@.subrange(0, old(game).deck@.len() - r.n),
        decreases r.n - k,
    {
        let ghost d = game.deck@;
        match draw_card(game) {
            Some(c) => revealed.push(c),
            None => break,
        }
        proof {
            if old(game).deck@.len() >= k + 1 {
                assert(game.deck@ =~= old(game).deck@.subrange(0, old(game).deck@.len() - k - 1));
            }
        }
        k = k + 1;
    }
    if revealed.len() == 0 {
        return;
    }
    let ghost deck_now = game.deck@;
    game.cards_revealed = count(game.cards_revealed, revealed.len() as u64);
    let mut cands: Vec<u16> = Vec::new();
    let mut i: usize = 0;
    while i < revealed.len()
        invariant i <= revealed@.len(), ids_ok(revealed@, db.projects@.len() as int),
        decreases revealed@.len() - i,
    {
        if reveal_matches(&db.projects[revealed[i] as usize], &r.keep) {
            cands.push(revealed[i]);
        }
        i = i + 1;
    }
    let take: usize = if (r.take as usize) < cands.len() { r.take as usize } else { cands.len() };
    policy.observe(game, p);
    let idx = policy.reveal_pick(&mut game.rng, p, revealed.as_slice(), cands.as_slice(), take, &r.keep);
    let mut kept: Vec<u16> = Vec::new();
    let mut j: usize = 0;
    while j < idx.len() && j < take
        invariant j <= idx@.len(),
        decreases idx@.len() - j,
    {
        if idx[j] < cands.len() {
            kept.push(cands[idx[j]]);
        }
        j = j + 1;
    }
    let mut m: usize = 0;
    while m < revealed.len()
        invariant
            m <= revealed@.len(), p < 2, game.inv(db), game.moves(old(game)),
            game.cards_total() + revealed@.len() - m == old(game).cards_total(),
            ids_ok(revealed@, db.projects@.len() as int),
            game.deck@ == deck_now,
            game.cards_revealed == count_spec_rev(old(game).cards_revealed, revealed@.len()),
            game.players[1 - p as int] == old(game).players[1 - p as int],
            game.players[p as int].heat == old(game).players[p as int].heat,
            game.players[p as int].plants == old(game).players[p as int].plants,
        decreases revealed@.len() - m,
    {
        let c = revealed[m];
        if contains_id(&kept, c) {
            game.players[p].hand.push(c);
        } else {
            game.discard.push(c);
            game.players[p].mc = plus(game.players[p].mc, r.mc_per_discarded);
        }
        m = m + 1;
    }
}

/// A counter raised by `n` (held at the top of `u64`).
pub open spec fn count_spec_rev(x: u64, n: nat) -> u64 {
    clamp_u64(x + n) as u64
}

/// The player after an action's gain of plants, MC or heat (held to the
/// range of `i64`).
pub open spec fn action_eff_result(pl: PlayerState, e: ActionEff) -> PlayerState {
    match e {
        ActionEff::Plants(n) => PlayerState { plants: clamp64(pl.plants + n) as i64, ..pl },
        ActionEff::Mc(n) => PlayerState { mc: clamp64(pl.mc + n) as i64, ..pl },
        ActionEff::Heat(n) => PlayerState { heat: clamp64(pl.heat + n) as i64, ..pl },
        _ => pl,
    }
}

/// Applies one effect of a card action.
pub fn apply_action_eff<P: Policy>(game: &mut GameState, db: &CardsDb, p: usize, e: &ActionEff, policy: &mut P)
    requires p < 2, old(game).inv(db),
    ensures
        final(game).inv(db), final(game).step(old(game)),
        final(game).players[1 - p as int] == old(game).players[1 - p as int],
        (e is Plants || e is Mc || e is Heat) ==> {
            &&& final(game).players[p as int] == action_eff_result(old(game).players[p as int], *e)
            &&& final(game).players[1 - p as int] == old(game).players[1 - p as int]
            &&& final(game).same_but_players(*old(game))
        },
        e matches ActionEff::Draw(n) ==> final(game).players[p as int].hand@.len()
            == old(game).players[p as int].hand@.len()
            + (if n <= old(game).deck@.len() + old(game).discard@.len() { n as int }
                else { (old(game).deck@.len() + old(game).discard@.len()) as int }),
        e matches ActionEff::Oxygen(n) ==> (n > 0 && old(game).snap_oxygen < OXYGEN_MAX
            && old(game).oxygen < OXYGEN_MAX ==> final(game).oxygen >= old(game).oxygen + 1),
        e matches ActionEff::Temperature(n) ==> (n > 0 && old(game).snap_temperature < TEMPERATURE_MAX
            && old(game).temperature < TEMPERATURE_MAX ==> final(game).temperature >= old(game).temperature + 1),
{
    match e {
        ActionEff::Draw(n) => {
            let mut k: u8 = 0;
            let ghost mut got: int = 0;
            while k < *n
                invariant
                    p < 2, game.inv(db), game.step(old(game)),
                    game.players[1 - p as int] == old(game).players[1 - p as int], k <= *n,
                    got == (if k <= old(game).deck@.len() + old(game).discard@.len() { k as int }
                        else { (old(game).deck@.len() + old(game).discard@.len()) as int }),
                    game.deck@.len() + game.discard@.len() + got == old(game).deck@.len() + old(game).discard@.len(),
                    game.players[p as int].hand@.len() == old(game).players[p as int].hand@.len() + got,
                decreases *n - k,
            {
                let r = draw_into_hand(game, db, p);
                proof { if r is Some { got = got + 1; } }
                k = k + 1;
            }
        }
        ActionEff::Plants(n) => game.players[p].plants = plus(game.players[p].plants, *n),
        ActionEff::Mc(n) => game.players[p].mc = plus(game.players[p].mc, *n),
        ActionEff::Heat(n) => game.players[p].heat = plus(game.players[p].heat, *n),
        ActionEff::Tr(n) => {
            let mut k: u8 = 0;
            while k < *n
                invariant p < 2, game.inv(db), game.step(old(game)),
                    game.players[1 - p as int] == old(game).players[1 - p as int],
                decreases *n - k,
            {
                gain_tr(game, db, p, policy);
                k = k + 1;
            }
        }
        ActionEff::Oxygen(n) => {
            let mut k: u8 = 0;
            while k < *n
                invariant
                    p < 2, game.inv(db), game.step(old(game)),
                    game.players[1 - p as int] == old(game).players[1 - p as int],
                    k > 0 && old(game).snap_oxygen < OXYGEN_MAX && old(game).oxygen < OXYGEN_MAX
                        ==> game.oxygen >= old(game).oxygen + 1,
                decreases *n - k,
            {
                raise_oxygen(game, db, p, policy);
                k = k + 1;
            }
        }
        ActionEff::Temperature(n) => {
            let mut k: u8 = 0;
            while k < *n
                invariant
                    p < 2, game.inv(db), game.step(old(game)),
                    game.players[1 - p as int] == old(game).players[1 - p as int],
                    k > 0 && old(game).snap_temperature < TEMPERATURE_MAX && old(game).temperature < TEMPERATURE_MAX
                        ==> game.temperature >= old(game).temperature + 1,
                decreases *n - k,
            {
                raise_temperature(game, db, p, policy);
                k = k + 1;
            }
        }
        ActionEff::Reveal(r) => reveal_top(game, db, p, r, policy),
        ActionEff::Ocean(n) => {
            let mut k: u8 = 0;
            while k < *n
                invariant p < 2, game.inv(db), game.step(old(game)),
                    game.players[1 - p as int] == old(game).players[1 - p as int],
                decreases *n - k,
            {
                reveal_ocean(game, db, p, policy);
                k = k + 1;
            }
        }
        ActionEff::Forest(n) => {
            let mut k: u8 = 0;
            while k < *n
                invariant p < 2, game.inv(db), game.step(old(game)),
                    game.players[1 - p as int] == old(game).players[1 - p as int],
                decreases *n - k,
            {
                gain_forest(game, db, p, policy);
                k = k + 1;
            }
        }
        ActionEff::PhaseUpgrade => apply_phase_upgrade(game, db, p, policy, None, UpgradeSource::Action),
        ActionEff::DrawDiscard { draw, discard, from_drawn } => {
            draw_then_discard(game, db, p, *draw, *discard, *from_drawn, policy);
            game.draw_then_discard_uses = count(game.draw_then_discard_uses, 1);
        }
    }
}

/// Can the printed effects of an action still produce something? Flipping
/// an ocean when none is left (on the phase snapshot) is no action.
pub fn action_effs_possible(game: &GameState, effect: &Vec<ActionEff>) -> (r: bool)
    ensures r == !(exists|i: int| 0 <= i < effect@.len() && effect@[i] is Ocean && game.snap_oceans >= NUM_OCEANS),
{
    let mut i: usize = 0;
    while i < effect.len()
        invariant i <= effect@.len(), forall|k: int| 0 <= k < i ==> !(effect@[k] is Ocean && game.snap_oceans >= NUM_OCEANS),
        decreases effect@.len() - i,
    {
        match &effect[i] {
            ActionEff::Ocean(_) => {
                if game.snap_oceans >= NUM_OCEANS {
                    return false;
                }
            }
            _ => {}
        }
        i = i + 1;
    }
    true
}

/// No card among `played` reacts to the use of an action.
pub open spec fn no_action_triggers(db: &CardsDb, played: Seq<u16>) -> bool {
    forall|i: int| 0 <= i < played.len() ==>
        ((#[trigger] db.projects@[played[i] as int]).effect matches Some(e) ==> e.action_trigger@.len() == 0)
}

/// « When you use an "Action:" effect on one of your cards »: after an
/// activation that really applied, the action triggers of the cards in play.
pub fn fire_card_action_triggers<P: Policy>(game: &mut GameState, db: &CardsDb, p: usize, policy: &mut P)
    requires p < 2, old(game).inv(db),
    ensures
        final(game).inv(db), final(game).step(old(game)),
        final(game).players[1 - p as int] == old(game).players[1 - p as int],
        no_action_triggers(db, old(game).players[p as int].played@) ==> *final(game) == *old(game),
{
    let sources = copy_ids(&game.players[p].played);
    let mut i: usize = 0;
    while i < sources.len()
        invariant
            i <= sources@.len(), p < 2, game.inv(db), game.step(old(game)),
            game.players[1 - p as int] == old(game).players[1 - p as int],
            ids_ok(sources@, db.projects@.len() as int),
            sources@ == old(game).players[p as int].played@,
            no_action_triggers(db, sources@) ==> *game == *old(game),
        decreases sources@.len() - i,
    {
        match &db.projects[sources[i] as usize].effect {
            Some(spec) => {
                proof {
                    assert(db.projects@[sources@[i as int] as int].effect == Some(*spec));
                }
                let mut k: usize = 0;
                while k < spec.action_trigger.len()
                    invariant k <= spec.action_trigger@.len(), p < 2, game.inv(db), game.step(old(game)),
                        game.players[1 - p as int] == old(game).players[1 - p as int],
                        no_action_triggers(db, sources@) ==> spec.action_trigger@.len() == 0 && *game == *old(game),
                    decreases spec.action_trigger@.len() - k,
                {
                    match &spec.action_trigger[k] {
                        ActionEff::Mc(n) => game.action_mc_bonuses = count_i64(game.action_mc_bonuses, *n),
                        _ => {}
                    }
                    apply_action_eff(game, db, p, &spec.action_trigger[k], policy);
                    k = k + 1;
                }
            }
            None => {}
        }
        i = i + 1;
    }
}

/// Can the player pay this cost item now?
pub open spec fn cost_payable_spec(g: &GameState, db: &CardsDb, p: int, c: ActionCost) -> bool {
    let pl = g.players[p];
    match c {
        ActionCost::Heat(n) => pl.heat >= n,
        ActionCost::Mc(n) => spendable_spec(db, &pl, 0) >= n,
        ActionCost::Plants(n) => pl.plants >= n,
        ActionCost::DiscardCard(n) => pl.hand@.len() >= n,
        ActionCost::Tr(n) => pl.tr >= n,
        ActionCost::McPerCapacity { .. } => spendable_spec(db, &pl, 0) >= action_mc_cost_spec(&pl, c),
    }
}

fn cost_payable(game: &GameState, db: &CardsDb, p: usize, c: ActionCost) -> (r: bool)
    requires p < 2, game.inv(db),
    ensures r == cost_payable_spec(game, db, p as int, c),
{
    match c {
        ActionCost::Heat(n) => game.players[p].heat >= n,
        ActionCost::Mc(n) => spendable_mc(db, &game.players[p]) >= n,
        ActionCost::Plants(n) => game.players[p].plants >= n,
        ActionCost::DiscardCard(n) => game.players[p].hand.len() >= n as usize,
        ActionCost::Tr(n) => game.players[p].tr >= n as i64,
        ActionCost::McPerCapacity { .. } => spendable_mc(db, &game.players[p]) >= action_mc_cost(&game.players[p], c),
    }
}

/// Pays one cost item (MC may come from heat where the corporation allows it).
/// The player after paying a cost item in resources: heat or plants
/// taken; MC taken after the heat that tops it up where the corporation
/// allows it (all held to the range of `i64`).
pub open spec fn paid_item(db: &CardsDb, pl: PlayerState, c: ActionCost) -> PlayerState {
    match c {
        ActionCost::Heat(n) => PlayerState { heat: clamp64(pl.heat - n) as i64, ..pl },
        ActionCost::Plants(n) => PlayerState { plants: clamp64(pl.plants - n) as i64, ..pl },
        _ => {
            let m = action_mc_cost_spec(&pl, c);
            let t = top_up_spec(db, &pl, m, 0);
            PlayerState { heat: (pl.heat - t) as i64, mc: clamp64(pl.mc + t - m) as i64, ..pl }
        },
    }
}

fn pay_cost_item<P: Policy>(game: &mut GameState, db: &CardsDb, p: usize, c: ActionCost, policy: &mut P)
    requires p < 2, old(game).inv(db),
    ensures
        final(game).inv(db), final(game).step(old(game)),
        (c is Heat || c is Plants || c is Mc || c is McPerCapacity) ==> {
            let want = paid_item(db, old(game).players[p as int], c);
            &&& final(game).players[p as int].mc == want.mc
            &&& final(game).players[p as int].heat == want.heat
            &&& final(game).players[p as int].plants == want.plants
            &&& final(game).players[p as int].same_but_money(old(game).players[p as int])
            &&& final(game).players[1 - p as int] == old(game).players[1 - p as int]
            &&& final(game).same_but_players(*old(game))
        },
{
    match c {
        ActionCost::Heat(n) => game.players[p].heat = minus(game.players[p].heat, n),
        ActionCost::Mc(n) => {
            top_up_mc_with_heat(game, db, p, n);
            game.players[p].mc = minus(game.players[p].mc, n);
        }
        ActionCost::McPerCapacity { .. } => {
            let n = action_mc_cost(&game.players[p], c);
            top_up_mc_with_heat(game, db, p, n);
            game.players[p].mc = minus(game.players[p].mc, n);
        }
        ActionCost::Plants(n) => game.players[p].plants = minus(game.players[p].plants, n),
        ActionCost::Tr(n) => {
            if game.players[p].tr >= n as i64 {
                game.players[p].spend_tr(n as i64);
            }
        }
        ActionCost::DiscardCard(n) => {
            if (n as usize) <= game.players[p].hand.len() {
                let hand = copy_ids(&game.players[p].hand);
                policy.observe(game, p);
                let idx = policy.discard_down(&mut game.rng, p, hand.as_slice(), n as usize);
                let mut j: usize = 0;
                while j < idx.len() && j < n as usize
                    invariant p < 2, game.inv(db), game.step(old(game)),
                    decreases idx@.len() - j,
                {
                    if idx[j] < hand.len() && discard_from_hand(game, db, p, hand[idx[j]]) {
                        game.action_discard_costs = count(game.action_discard_costs, 1);
                    }
                    j = j + 1;
                }
            }
        }
    }
}

/// Is the phase bonus of an action on for this player: the phase they
/// chose (0 = any) and, where asked, an upgraded Phase card revealed?
pub open spec fn bonus_on(pl: &PlayerState, b: PhaseBonus) -> bool {
    (b.phase == 0 || pl.chosen_phase == b.phase)
        && (!b.require_upgraded || pl.phase_upgrade_spec(pl.chosen_phase) is Some)
}

fn bonus_applies(pl: &PlayerState, b: &PhaseBonus) -> (r: bool)
    ensures r == bonus_on(pl, *b),
{
    (b.phase == 0 || pl.chosen_phase == b.phase)
        && (!b.require_upgraded || pl.phase_upgrade(pl.chosen_phase).is_some())
}

/// The cost a fixed action asks: the one its phase bonus puts in place of
/// the printed one, where the bonus is on and names one.
pub open spec fn action_cost(pl: &PlayerState, cost: Seq<ActionCost>, phase_bonus: Option<PhaseBonus>) -> Seq<ActionCost> {
    match phase_bonus {
        Some(b) => if bonus_on(pl, b) && b.cost is Some { b.cost->0@ } else { cost },
        None => cost,
    }
}

/// The cost a fixed action pays under the bonus it was handed.
pub open spec fn chosen_cost(cost: Seq<ActionCost>, bonus: Option<&PhaseBonus>) -> Seq<ActionCost> {
    match bonus {
        Some(b) => if b.cost is Some { b.cost->0@ } else { cost },
        None => cost,
    }
}

/// A fixed action applies when none of its effects flips an ocean past the
/// maximum and each item of its cost can be paid.
pub open spec fn fixed_action_ok(g: &GameState, db: &CardsDb, p: int, cost: Seq<ActionCost>, effect: Seq<ActionEff>) -> bool {
    &&& !(exists|i: int| 0 <= i < effect.len() && effect[i] is Ocean && g.snap_oceans >= NUM_OCEANS)
    &&& forall|i: int| 0 <= i < cost.len() ==> cost_payable_spec(g, db, p, #[trigger] cost[i])
}

/// MC asked by « flip an ocean, `base` less one per `per_tag` tag ».
pub open spec fn flip_ocean_cost(pl: &PlayerState, base: i64, per_tag: Tag) -> int {
    let n: int = match tag_index(per_tag) {
        Some(i) => pl.tag_counts[i as int] as int,
        None => 0,
    };
    let c = clamp64(base - n);
    if c > 0 { c } else { 0 }
}

/// MC asked by « raise the temperature for `base`, less `reduction` with
/// `threshold` blue cards ».
pub open spec fn raise_temp_cost(pl: &PlayerState, base: i64, threshold: u32, reduction: i64) -> int {
    clamp64(base - if pl.color_counts[color_index(Color::Blue) as int] >= threshold { reduction as int } else { 0 })
}

/// What must hold for an activation to apply: something to spend, a
/// payable cost, a global parameter not yet at its maximum, a playable
/// alternative.
pub open spec fn activation_possible(g: &GameState, db: &CardsDb, p: int, src: ActionSource, action: Action,
    phase_bonus: Option<PhaseBonus>) -> bool {
    let pl = g.players[p];
    match action {
        Action::Fixed { cost, effect } => fixed_action_ok(g, db, p, action_cost(&pl, cost@, phase_bonus), effect@),
        Action::SpendUpTo { spend, gain, cap } => action_res_spec(&pl, spend) >= 1 && cap >= 1,
        Action::HeatToMc => pl.heat >= 1,
        Action::FlipOceanTagDiscount { base, per_tag } =>
            g.snap_oceans < NUM_OCEANS && spendable_spec(db, &pl, 0) >= flip_ocean_cost(&pl, base, per_tag),
        Action::RaiseTempBlueDiscount { base, threshold, reduction } =>
            g.snap_temperature < TEMPERATURE_MAX
                && spendable_spec(db, &pl, 0) >= raise_temp_cost(&pl, base, threshold, reduction),
        Action::DiscardDraw(cap) => pl.hand@.len() >= 1 && cap >= 1,
        Action::Res(branches) => match src {
            ActionSource::Card(c) => exists|k: int| 0 <= k < branches@.len() &&
                #[trigger] branch_playable_spec(db, &pl, c, branches@[k]),
            ActionSource::Corp => false,
        },
    }
}

/// The activations where no choice of the policy can refuse: a fixed
/// action, the ocean flip, the temperature raise.
pub open spec fn activation_forced(action: Action) -> bool {
    action is Fixed || action is FlipOceanTagDiscount || action is RaiseTempBlueDiscount
}

/// The phase bonus that counts: the one handed, where it is on for the
/// player; none otherwise.
pub open spec fn effective_bonus(pl: &PlayerState, phase_bonus: Option<PhaseBonus>) -> Option<PhaseBonus> {
    match phase_bonus {
        Some(b) => if bonus_on(pl, b) { Some(b) } else { None },
        None => None,
    }
}

/// The player after paying the cost items `cs` in order (`paid_item`).
pub open spec fn pay_all(db: &CardsDb, pl: PlayerState, cs: Seq<ActionCost>) -> PlayerState
    decreases cs.len(),
{
    if cs.len() == 0 { pl } else { paid_item(db, pay_all(db, pl, cs.drop_last()), cs.last()) }
}

/// The player after the gains `es` in order (`action_eff_result`).
pub open spec fn gain_all(pl: PlayerState, es: Seq<ActionEff>) -> PlayerState
    decreases es.len(),
{
    if es.len() == 0 { pl } else { action_eff_result(gain_all(pl, es.drop_last()), es.last()) }
}

/// A cost in heat, plants or MC.
pub open spec fn simple_cost(c: ActionCost) -> bool {
    c is Heat || c is Plants || c is Mc || c is McPerCapacity
}

/// A gain of heat, plants or MC.
pub open spec fn simple_gain(e: ActionEff) -> bool {
    e is Plants || e is Mc || e is Heat
}

/// A fixed action whose cost (under the bonus) and gains (the bonus's
/// extra gains included) are all in heat, plants or MC.
pub open spec fn fixed_simple(cost: Seq<ActionCost>, effect: Seq<ActionEff>, bonus: Option<PhaseBonus>) -> bool {
    &&& forall|i: int| 0 <= i < fixed_chosen(cost, bonus).len() ==> simple_cost(#[trigger] fixed_chosen(cost, bonus)[i])
    &&& forall|i: int| 0 <= i < effect.len() ==> simple_gain(#[trigger] effect[i])
    &&& forall|i: int| 0 <= i < fixed_extra(bonus).len() ==> simple_gain(#[trigger] fixed_extra(bonus)[i])
}

/// The cost a fixed action pays: the bonus's where it names one.
pub open spec fn fixed_chosen(cost: Seq<ActionCost>, bonus: Option<PhaseBonus>) -> Seq<ActionCost> {
    match bonus { Some(b) => if b.cost is Some { b.cost->0@ } else { cost }, None => cost }
}

/// The bonus's extra gains.
pub open spec fn fixed_extra(bonus: Option<PhaseBonus>) -> Seq<ActionEff> {
    match bonus { Some(b) => b.extra@, None => Seq::empty() }
}

/// The player after a fixed action: the cost (the bonus's in its place
/// where it names one) paid, the printed gains, then the bonus's extra gains.
pub open spec fn fixed_result(db: &CardsDb, pl: PlayerState, cost: Seq<ActionCost>, effect: Seq<ActionEff>,
    bonus: Option<PhaseBonus>) -> PlayerState {
    gain_all(gain_all(pay_all(db, pl, fixed_chosen(cost, bonus)), effect), fixed_extra(bonus))
}

/// Same MC, heat and plants, and nothing else differs (the tables of
/// resources and jokers compared by their contents).
pub open spec fn money_eq(a: PlayerState, b: PlayerState) -> bool {
    &&& a.mc == b.mc && a.heat == b.heat && a.plants == b.plants
    &&& a.same_but_money(b)
}

proof fn lemma_paid_item_eq(db: &CardsDb, a: PlayerState, b: PlayerState, c: ActionCost)
    requires money_eq(a, b),
    ensures money_eq(paid_item(db, a, c), paid_item(db, b, c)),
{
    assert(action_mc_cost_spec(&a, c) == action_mc_cost_spec(&b, c));
    assert(top_up_spec(db, &a, action_mc_cost_spec(&a, c), 0) == top_up_spec(db, &b, action_mc_cost_spec(&b, c), 0));
}

proof fn lemma_gain_eq(a: PlayerState, b: PlayerState, e: ActionEff)
    requires money_eq(a, b),
    ensures money_eq(action_eff_result(a, e), action_eff_result(b, e)),
{
}

/// The bonus handed to a fixed action, as a value.
pub open spec fn bonus_value(bonus: Option<&PhaseBonus>) -> Option<PhaseBonus> {
    match bonus { Some(b) => Some(*b), None => None }
}

/// A fixed action: the printed cost (or the one the phase bonus puts in
/// its place) must be payable and the printed effects possible; then the
/// cost is paid, the effects and the bonus's extra effects apply.
fn apply_fixed_action<P: Policy>(game: &mut GameState, db: &CardsDb, p: usize, cost: &Vec<ActionCost>,
    effect: &Vec<ActionEff>, bonus: Option<&PhaseBonus>, policy: &mut P) -> (r: bool)
    requires p < 2, old(game).inv(db),
    ensures
        final(game).inv(db), final(game).step(old(game)),
        !r ==> final(game).players == old(game).players && final(game).same_but_players(*old(game)),
        !r ==> *final(game) == (GameState { rng: final(game).rng, ..*old(game) }),
        r == fixed_action_ok(old(game), db, p as int, chosen_cost(cost@, bonus), effect@),
        r && fixed_simple(cost@, effect@, bonus_value(bonus)) ==>
            money_eq(final(game).players[p as int], fixed_result(db, old(game).players[p as int], cost@, effect@, bonus_value(bonus)))
            && final(game).players[1 - p as int] == old(game).players[1 - p as int]
            && final(game).players[p as int].played == old(game).players[p as int].played,
{
    let to_pay: &Vec<ActionCost> = match bonus {
        Some(b) => match &b.cost {
            Some(c) => c,
            None => cost,
        },
        None => cost,
    };
    if !action_effs_possible(game, effect) {
        return false;
    }
    let ghost chosen = chosen_cost(cost@, bonus);
    assert(to_pay@ == chosen);
    let mut i: usize = 0;
    while i < to_pay.len()
        invariant
            i <= to_pay@.len(), p < 2, game.inv(db), *game == *old(game), to_pay@ == chosen,
            chosen == chosen_cost(cost@, bonus),
            !(exists|x: int| 0 <= x < effect@.len() && effect@[x] is Ocean && old(game).snap_oceans >= NUM_OCEANS),
            forall|k: int| 0 <= k < i ==> cost_payable_spec(game, db, p as int, #[trigger] chosen[k]),
        decreases to_pay@.len() - i,
    {
        if !cost_payable(game, db, p, to_pay[i]) {
            assert(!cost_payable_spec(game, db, p as int, chosen[i as int]));
            return false;
        }
        i = i + 1;
    }
    let ghost simple = fixed_simple(cost@, effect@, bonus_value(bonus));
    let ghost pl0 = old(game).players[p as int];
    proof {
        assert(chosen == fixed_chosen(cost@, bonus_value(bonus)));
        assert(chosen.take(0) =~= Seq::<ActionCost>::empty());
        assert(effect@.take(0) =~= Seq::<ActionEff>::empty());
    }
    let mut j: usize = 0;
    while j < to_pay.len()
        invariant j <= to_pay@.len(), p < 2, game.inv(db), game.step(old(game)),
            fixed_action_ok(old(game), db, p as int, chosen_cost(cost@, bonus), effect@),
            to_pay@ == chosen, pl0 == old(game).players[p as int],
            simple == fixed_simple(cost@, effect@, bonus_value(bonus)),
            simple ==> forall|i: int| 0 <= i < chosen.len() ==> simple_cost(#[trigger] chosen[i]),
            simple ==> money_eq(game.players[p as int], pay_all(db, pl0, chosen.take(j as int)))
                && game.players[1 - p as int] == old(game).players[1 - p as int]
                && game.players[p as int].played == old(game).players[p as int].played,
        decreases to_pay@.len() - j,
    {
        proof {
            assert(chosen.take(j + 1).drop_last() =~= chosen.take(j as int));
            if simple { assert(simple_cost(chosen[j as int])); }
        }
        let ghost pre = game.players[p as int];
        pay_cost_item(game, db, p, to_pay[j], policy);
        proof {
            if simple {
                assert(money_eq(game.players[p as int], paid_item(db, pre, chosen[j as int])));
                lemma_paid_item_eq(db, pre, pay_all(db, pl0, chosen.take(j as int)), chosen[j as int]);
            }
        }
        j = j + 1;
    }
    proof { assert(chosen.take(chosen.len() as int) =~= chosen); }
    let ghost paid = pay_all(db, pl0, chosen);
    let mut k: usize = 0;
    while k < effect.len()
        invariant k <= effect@.len(), p < 2, game.inv(db), game.step(old(game)),
            fixed_action_ok(old(game), db, p as int, chosen_cost(cost@, bonus), effect@),
            simple == fixed_simple(cost@, effect@, bonus_value(bonus)),
            simple ==> money_eq(game.players[p as int], gain_all(paid, effect@.take(k as int)))
                && game.players[1 - p as int] == old(game).players[1 - p as int]
                && game.players[p as int].played == old(game).players[p as int].played,
        decreases effect@.len() - k,
    {
        proof {
            assert(effect@.take(k + 1).drop_last() =~= effect@.take(k as int));
            if simple { assert(simple_gain(effect@[k as int])); }
        }
        let ghost pre = game.players[p as int];
        apply_action_eff(game, db, p, &effect[k], policy);
        proof {
            if simple {
                lemma_gain_eq(pre, gain_all(paid, effect@.take(k as int)), effect@[k as int]);
            }
        }
        k = k + 1;
    }
    proof { assert(effect@.take(effect@.len() as int) =~= effect@); }
    let ghost gained = gain_all(paid, effect@);
    match bonus {
        Some(b) => {
            let mut x: usize = 0;
            let mut mc: i64 = 0;
            proof {
                assert(bonus_value(bonus) == Some(*b));
                assert(fixed_extra(bonus_value(bonus)) == b.extra@);
                assert(b.extra@.take(0) =~= Seq::<ActionEff>::empty());
            }
            while x < b.extra.len()
                invariant x <= b.extra@.len(), p < 2, game.inv(db), game.step(old(game)),
                    fixed_action_ok(old(game), db, p as int, chosen_cost(cost@, bonus), effect@),
                    bonus == Some(b),
                    simple == fixed_simple(cost@, effect@, bonus_value(bonus)),
                    simple ==> forall|i: int| 0 <= i < b.extra@.len() ==> simple_gain(#[trigger] b.extra@[i]),
                    simple ==> money_eq(game.players[p as int], gain_all(gained, b.extra@.take(x as int)))
                        && game.players[1 - p as int] == old(game).players[1 - p as int]
                        && game.players[p as int].played == old(game).players[p as int].played,
                decreases b.extra@.len() - x,
            {
                proof {
                    assert(b.extra@.take(x + 1).drop_last() =~= b.extra@.take(x as int));
                    if simple { assert(simple_gain(b.extra@[x as int])); }
                }
                match &b.extra[x] {
                    ActionEff::Mc(n) => mc = plus(mc, *n),
                    _ => {}
                }
                let ghost pre = game.players[p as int];
                apply_action_eff(game, db, p, &b.extra[x], policy);
                proof {
                    if simple {
                        lemma_gain_eq(pre, gain_all(gained, b.extra@.take(x as int)), b.extra@[x as int]);
                    }
                }
                x = x + 1;
            }
            proof { assert(b.extra@.take(b.extra@.len() as int) =~= b.extra@); }
            game.action_phase_bonuses = count(game.action_phase_bonuses, 1);
            if b.phase != 0 {
                game.action_phase_self_bonus = count_i64(game.action_phase_self_bonus, mc);
            }
            if b.require_upgraded {
                game.upgraded_reveal_bonuses = count(game.upgraded_reveal_bonuses, 1);
            }
        }
        None => {
            proof { assert(gain_all(gained, Seq::<ActionEff>::empty()) == gained); }
        }
    }
    true
}

/// « Spend up to `cap` of a resource to gain that amount of another »: the
/// amounts 1..=N the player can pay are the options.
fn apply_spend_up_to<P: Policy>(game: &mut GameState, db: &CardsDb, p: usize, src: ActionSource,
    spend: ActionRes, gain: ActionRes, cap: i64, policy: &mut P) -> (r: bool)
    requires p < 2, old(game).inv(db),
    ensures
        final(game).inv(db), final(game).step(old(game)),
        !r ==> final(game).players == old(game).players && final(game).same_but_players(*old(game)),
        !r ==> *final(game) == (GameState { rng: final(game).rng, ..*old(game) }),
        r ==> action_res_spec(&old(game).players[p as int], spend) >= 1 && cap >= 1,
        r ==> exists|amt: i64| 1 <= amt <= cap && amt <= action_res_spec(&old(game).players[p as int], spend)
            && #[trigger] spent_and_gained(old(game).players[p as int], final(game).players[p as int], spend, gain, amt),
        r ==> final(game).players[1 - p as int] == old(game).players[1 - p as int] && final(game).same_but_players(*old(game)),
{
    let have = action_res_get(&game.players[p], spend);
    let branches = if have < cap { have } else { cap };
    if branches <= 0 {
        return false;
    }
    let k: i64 = if branches == 1 {
        0
    } else {
        let ctx = ChoiceContext::SpendAmount { source: src, spend, gain, max: branches };
        policy.observe(game, p);
        let c = policy.choose_option_ctx(&mut game.rng, p, &ctx);
        if c as u64 >= branches as u64 {
            return false;
        }
        c as i64
    };
    let amt = k + 1;
    let ghost o = game.players[p as int];
    action_res_add(&mut game.players[p], spend, -amt);
    action_res_add(&mut game.players[p], gain, amt);
    assert(spent_and_gained(o, game.players[p as int], spend, gain, amt));
    true
}

/// The player after turning `amt` heat into as much MC.
pub open spec fn heat_to_mc_result(pl: PlayerState, amt: i64) -> PlayerState {
    PlayerState { heat: (pl.heat - amt) as i64, mc: clamp64(pl.mc + amt) as i64, ..pl }
}

/// `b` is `a` after spending `amt` of `spend` to gain `amt` of `gain`.
pub open spec fn spent_and_gained(a: PlayerState, b: PlayerState, spend: ActionRes, gain: ActionRes, amt: i64) -> bool {
    &&& b.same_but_money(a)
    &&& spend != gain ==> action_res_spec(&b, spend) == clamp64(action_res_spec(&a, spend) - amt)
        && action_res_spec(&b, gain) == clamp64(action_res_spec(&a, gain) + amt)
    &&& (spend != ActionRes::Heat && gain != ActionRes::Heat) ==> b.heat == a.heat
    &&& (spend != ActionRes::Mc && gain != ActionRes::Mc) ==> b.mc == a.mc
    &&& (spend != ActionRes::Plants && gain != ActionRes::Plants) ==> b.plants == a.plants
}

/// « Spend any amount of heat to gain that amount of MC ».
fn apply_heat_to_mc<P: Policy>(game: &mut GameState, db: &CardsDb, p: usize, policy: &mut P) -> (r: bool)
    requires p < 2, old(game).inv(db),
    ensures
        final(game).inv(db), final(game).step(old(game)),
        !r ==> final(game).players == old(game).players && final(game).same_but_players(*old(game)),
        !r ==> *final(game) == (GameState { rng: final(game).rng, ..*old(game) }),
        r ==> old(game).players[p as int].heat >= 1,
        r ==> exists|amt: i64| 1 <= amt <= old(game).players[p as int].heat
            && final(game).players[p as int] == #[trigger] heat_to_mc_result(old(game).players[p as int], amt),
        r ==> final(game).players[1 - p as int] == old(game).players[1 - p as int] && final(game).same_but_players(*old(game)),
{
    let max = game.players[p].heat;
    policy.observe(game, p);
    let raw = policy.action_amount(&mut game.rng, p, max);
    let amt = if raw < 0 { 0 } else if raw > max { max } else { raw };
    if amt <= 0 {
        return false;
    }
    let ghost o = game.players[p as int];
    game.players[p].heat = game.players[p].heat - amt;
    game.players[p].mc = plus(game.players[p].mc, amt);
    assert(game.players[p as int] == heat_to_mc_result(o, amt));
    true
}

/// « Spend `base` MC, 1 less per tag of a kind, to flip an ocean ».
fn apply_flip_ocean<P: Policy>(game: &mut GameState, db: &CardsDb, p: usize, base: i64, per_tag: Tag, policy: &mut P) -> (r: bool)
    requires p < 2, old(game).inv(db),
    ensures
        final(game).inv(db), final(game).step(old(game)),
        !r ==> final(game).players == old(game).players && final(game).same_but_players(*old(game)),
        !r ==> *final(game) == (GameState { rng: final(game).rng, ..*old(game) }),
        r == (old(game).snap_oceans < NUM_OCEANS
            && spendable_spec(db, &old(game).players[p as int], 0) >= flip_ocean_cost(&old(game).players[p as int], base, per_tag)),
{
    if game.snap_oceans >= NUM_OCEANS {
        return false;
    }
    let n: i64 = match per_tag.index() {
        Some(i) => game.players[p].tag_counts[i] as i64,
        None => 0,
    };
    let c = minus(base, n);
    let cost = if c > 0 { c } else { 0 };
    if spendable_mc(db, &game.players[p]) < cost {
        return false;
    }
    top_up_mc_with_heat(game, db, p, cost);
    game.players[p].mc = minus(game.players[p].mc, cost);
    reveal_ocean(game, db, p, policy);
    true
}

/// « Spend `base` MC (less `reduction` with `threshold` blue cards) to
/// raise the temperature ».
fn apply_raise_temp<P: Policy>(game: &mut GameState, db: &CardsDb, p: usize, base: i64, threshold: u32,
    reduction: i64, policy: &mut P) -> (r: bool)
    requires p < 2, old(game).inv(db),
    ensures
        final(game).inv(db), final(game).step(old(game)),
        !r ==> final(game).players == old(game).players && final(game).same_but_players(*old(game)),
        !r ==> *final(game) == (GameState { rng: final(game).rng, ..*old(game) }),
        r == (old(game).snap_temperature < TEMPERATURE_MAX
            && spendable_spec(db, &old(game).players[p as int], 0)
                >= raise_temp_cost(&old(game).players[p as int], base, threshold, reduction)),
{
    if game.snap_temperature >= TEMPERATURE_MAX {
        return false;
    }
    let blue = game.players[p].played_count(Color::Blue);
    let cost = minus(base, if blue >= threshold { reduction } else { 0 });
    if spendable_mc(db, &game.players[p]) < cost {
        return false;
    }
    top_up_mc_with_heat(game, db, p, cost);
    game.players[p].mc = minus(game.players[p].mc, cost);
    raise_temperature(game, db, p, policy);
    true
}

/// « Discard up to `cap` cards, draw that many »: the cards leave the hand
/// at random, then as many are drawn.
fn apply_discard_draw<P: Policy>(game: &mut GameState, db: &CardsDb, p: usize, cap: i64, policy: &mut P) -> (r: bool)
    requires p < 2, old(game).inv(db),
    ensures
        final(game).inv(db), final(game).step(old(game)),
        !r ==> final(game).players == old(game).players && final(game).same_but_players(*old(game)),
        !r ==> *final(game) == (GameState { rng: final(game).rng, ..*old(game) }),
        r ==> old(game).players[p as int].hand@.len() >= 1 && cap >= 1,
        r ==> final(game).players[p as int].hand@.len() == old(game).players[p as int].hand@.len(),
        r ==> final(game).discard@.len() + final(game).deck@.len() == old(game).discard@.len() + old(game).deck@.len(),
{
    let len = game.players[p].hand.len();
    let len64: i64 = if len as u64 > 0x7fff_ffff_ffff_ffffu64 { i64::MAX } else { len as i64 };
    let max = if len64 < cap { len64 } else { cap };
    policy.observe(game, p);
    let raw = policy.action_amount(&mut game.rng, p, max);
    let amt = if raw < 0 { 0 } else if raw > max { max } else { raw };
    if amt <= 0 {
        return false;
    }
    let mut k: i64 = 0;
    while k < amt
        invariant
            0 <= k <= amt, amt <= len, p < 2,
            game.inv(db), game.moves(old(game)),
            game.players[p as int].hand@.len() == len - k, len == old(game).players[p as int].hand@.len(),
            game.deck == old(game).deck, game.discard@.len() == old(game).discard@.len() + k,
            game.cards_total() == old(game).cards_total(),
        decreases amt - k,
    {
        let n = game.players[p].hand.len();
        let i = below(&mut game.rng, n);
        let ghost h = game.players[p as int].hand@;
        let card = game.players[p].hand.remove(i);
        game.discard.push(card);
        proof {
            assert(ids_ok(game.players[p as int].hand@, db.projects@.len() as int)) by {
                assert forall|x: int| 0 <= x < game.players[p as int].hand@.len() implies
                    (game.players[p as int].hand@[x] as int) < db.projects@.len() by {
                    if x < i { assert(game.players[p as int].hand@[x] == h[x]); }
                    else { assert(game.players[p as int].hand@[x] == h[x + 1]); }
                }
            }
        }
        k = k + 1;
    }
    let mut d: i64 = 0;
    while d < amt
        invariant
            p < 2, game.inv(db), game.step(old(game)), 0 <= d <= amt, amt <= len,
            len == old(game).players[p as int].hand@.len(),
            game.players[p as int].hand@.len() == len - amt + d,
            game.deck@.len() + game.discard@.len() == old(game).deck@.len() + old(game).discard@.len() + amt - d,
        decreases amt - d,
    {
        let got = draw_into_hand(game, db, p);
        assert(got is Some);
        d = d + 1;
    }
    true
}

/// An action with resources: a printed alternative whose branches that
/// cannot apply are filtered out; a corporation holds no resource.
fn apply_res_action<P: Policy>(game: &mut GameState, db: &CardsDb, p: usize, src: ActionSource,
    branches: &Vec<Vec<ResEff>>, policy: &mut P) -> (r: bool)
    requires
        p < 2, old(game).inv(db),
        src matches ActionSource::Card(c) ==> (c as int) < db.projects@.len(),
    ensures
        final(game).inv(db), final(game).step(old(game)),
        !r ==> final(game).players == old(game).players && final(game).same_but_players(*old(game)),
        !r ==> *final(game) == (GameState { rng: final(game).rng, ..*old(game) }),
        r ==> match src {
            ActionSource::Card(c) => exists|k: int| 0 <= k < branches@.len() &&
                #[trigger] branch_playable_spec(db, &old(game).players[p as int], c, branches@[k]),
            ActionSource::Corp => false,
        },
{
    let card_id = match src {
        ActionSource::Card(c) => c,
        ActionSource::Corp => return false,
    };
    let mut playable: Vec<usize> = Vec::new();
    let mut i: usize = 0;
    while i < branches.len()
        invariant
            i <= branches@.len(), p < 2, game.inv(db), *game == *old(game),
            forall|k: int| 0 <= k < playable@.len() ==> (#[trigger] playable@[k] as int) < branches@.len(),
            forall|k: int| 0 <= k < playable@.len() ==>
                branch_playable_spec(db, &old(game).players[p as int], card_id, branches@[#[trigger] playable@[k] as int]),
        decreases branches@.len() - i,
    {
        if branch_playable(game, db, p, card_id, &branches[i]) {
            playable.push(i);
        }
        i = i + 1;
    }
    if playable.len() == 0 {
        return false;
    }
    proof {
        let w = playable@[0] as int;
        assert(branch_playable_spec(db, &old(game).players[p as int], card_id, branches@[w]));
    }
    let k = if playable.len() == 1 {
        0
    } else {
        let ctx = ChoiceContext::ActionAlternative { card: card_id, branches: playable.clone() };
        policy.observe(game, p);
        let c = policy.choose_option_ctx(&mut game.rng, p, &ctx);
        if c >= playable.len() {
            return false;
        }
        c
    };
    let branch = &branches[playable[k]];
    let mut j: usize = 0;
    while j < branch.len()
        invariant
            j <= branch@.len(), p < 2, game.inv(db), game.step(old(game)),
            (card_id as int) < db.projects@.len(),
        decreases branch@.len() - j,
    {
        apply_res_eff(game, db, p, card_id, &branch[j], policy, UpgradeSource::Action, true);
        j = j + 1;
    }
    true
}

/// The body of an activation, for a blue card or a corporation: the phase
/// bonus is on when the ACTING player chose the phase it names (and revealed
/// an upgraded Phase card where asked); the action applies by its kind;
/// an activation that really applied sets off the « when you use an
/// action » triggers. True when an effect really applied.
pub fn apply_action_spec<P: Policy>(game: &mut GameState, db: &CardsDb, p: usize, src: ActionSource,
    action: &Action, phase_bonus: &Option<PhaseBonus>, policy: &mut P) -> (r: bool)
    requires
        p < 2, old(game).inv(db),
        src matches ActionSource::Card(c) ==> (c as int) < db.projects@.len(),
    ensures
        final(game).inv(db), final(game).step(old(game)),
        !r ==> final(game).players == old(game).players && final(game).same_but_players(*old(game)),
        !r ==> *final(game) == (GameState { rng: final(game).rng, ..*old(game) }),
        r ==> activation_possible(old(game), db, p as int, src, *action, *phase_bonus),
        activation_forced(*action) ==> (r == activation_possible(old(game), db, p as int, src, *action, *phase_bonus)),
        *action matches Action::Fixed { cost, effect } ==> (r
            && fixed_simple(cost@, effect@, effective_bonus(&old(game).players[p as int], *phase_bonus))
            && no_action_triggers(db, old(game).players[p as int].played@) ==>
            money_eq(final(game).players[p as int], fixed_result(db, old(game).players[p as int], cost@, effect@,
                effective_bonus(&old(game).players[p as int], *phase_bonus)))
            && final(game).players[1 - p as int] == old(game).players[1 - p as int]),
{
    let bonus: Option<&PhaseBonus> = match phase_bonus {
        Some(b) => if bonus_applies(&game.players[p], b) { Some(b) } else { None },
        None => None,
    };
    assert(bonus_value(bonus) == effective_bonus(&old(game).players[p as int], *phase_bonus));
    let applied = match action {
        Action::Fixed { cost, effect } => apply_fixed_action(game, db, p, cost, effect, bonus, policy),
        Action::SpendUpTo { spend, gain, cap } => apply_spend_up_to(game, db, p, src, *spend, *gain, *cap, policy),
        Action::HeatToMc => apply_heat_to_mc(game, db, p, policy),
        Action::FlipOceanTagDiscount { base, per_tag } => apply_flip_ocean(game, db, p, *base, *per_tag, policy),
        Action::RaiseTempBlueDiscount { base, threshold, reduction } =>
            apply_raise_temp(game, db, p, *base, *threshold, *reduction, policy),
        Action::DiscardDraw(cap) => apply_discard_draw(game, db, p, *cap, policy),
        Action::Res(branches) => apply_res_action(game, db, p, src, branches, policy),
    };
    if applied {
        fire_card_action_triggers(game, db, p, policy);
    }
    applied
}

/// A phase bonus that is not on for the player counts as no bonus: the
/// activation is possible exactly when it is with none, and the bonus
/// that counts is none.
pub proof fn lemma_inapplicable_bonus(g: &GameState, db: &CardsDb, p: int, src: ActionSource, action: Action,
    b: PhaseBonus)
    requires !bonus_on(&g.players[p], b),
    ensures
        activation_possible(g, db, p, src, action, Some(b)) == activation_possible(g, db, p, src, action, None),
        effective_bonus(&g.players[p], Some(b)) is None,
{
}

/// Can the action printed on blue card `c` apply now (see
/// `activation_possible`)? False for a card without one.
pub open spec fn blue_action_possible(g: &GameState, db: &CardsDb, p: int, c: u16) -> bool {
    match db.projects@[c as int].effect {
        Some(s) => match s.action {
            Some(a) => activation_possible(g, db, p, ActionSource::Card(c), a, s.phase_bonus),
            None => false,
        },
        None => false,
    }
}

/// Is the action printed on blue card `c` one that no policy choice can refuse?
pub open spec fn blue_action_forced(db: &CardsDb, c: u16) -> bool {
    match db.projects@[c as int].effect {
        Some(s) => match s.action {
            Some(a) => activation_forced(a),
            None => true,
        },
        None => true,
    }
}

/// Can the action of the player's corporation apply now? False for a
/// corporation without one.
pub open spec fn corp_action_possible(g: &GameState, db: &CardsDb, p: int) -> bool {
    match corp_spec(db, g.players[p].corporation) {
        Some(s) => match s.action {
            Some(a) => activation_possible(g, db, p, ActionSource::Corp, a, s.phase_bonus),
            None => false,
        },
        None => false,
    }
}

/// Is the action of the player's corporation one that no policy choice can refuse?
pub open spec fn corp_action_forced(g: &GameState, db: &CardsDb, p: int) -> bool {
    match corp_spec(db, g.players[p].corporation) {
        Some(s) => match s.action {
            Some(a) => activation_forced(a),
            None => true,
        },
        None => true,
    }
}

/// The action printed on card `c` is a fixed action paid and gained in heat,
/// plants or MC, under the phase bonus that counts for the player.
pub open spec fn blue_fixed_simple(db: &CardsDb, pl: &PlayerState, c: u16) -> bool {
    match db.projects@[c as int].effect {
        Some(s) => match s.action {
            Some(Action::Fixed { cost, effect }) => fixed_simple(cost@, effect@, effective_bonus(pl, s.phase_bonus)),
            _ => false,
        },
        None => false,
    }
}

/// The player after the fixed action printed on card `c` (`fixed_result`).
pub open spec fn blue_fixed_result(db: &CardsDb, pl: PlayerState, c: u16) -> PlayerState {
    match db.projects@[c as int].effect {
        Some(s) => match s.action {
            Some(Action::Fixed { cost, effect }) => fixed_result(db, pl, cost@, effect@, effective_bonus(&pl, s.phase_bonus)),
            _ => pl,
        },
        None => pl,
    }
}

/// The action of a blue card in play: true when an effect really applied
/// (cost paid, effect produced); false when the card has no action, when
/// its cost cannot be paid, or when a variable amount is zero.
pub fn apply_blue_action<P: Policy>(game: &mut GameState, db: &CardsDb, p: usize, card_id: u16, policy: &mut P) -> (r: bool)
    requires p < 2, old(game).inv(db), (card_id as int) < db.projects@.len(),
    ensures
        final(game).inv(db), final(game).step(old(game)),
        !r ==> final(game).players == old(game).players && final(game).same_but_players(*old(game)),
        !r ==> *final(game) == (GameState { rng: final(game).rng, ..*old(game) }),
        r ==> blue_action_possible(old(game), db, p as int, card_id),
        blue_action_forced(db, card_id) ==> (r == blue_action_possible(old(game), db, p as int, card_id)),
        r && blue_fixed_simple(db, &old(game).players[p as int], card_id)
            && no_action_triggers(db, old(game).players[p as int].played@) ==>
            money_eq(final(game).players[p as int], blue_fixed_result(db, old(game).players[p as int], card_id))
            && final(game).players[1 - p as int] == old(game).players[1 - p as int],
{
    let spec = match &db.projects[card_id as usize].effect {
        Some(s) => s,
        None => return false,
    };
    match &spec.action {
        Some(action) => apply_action_spec(game, db, p, ActionSource::Card(card_id), action, &spec.phase_bonus, policy),
        None => false,
    }
}

/// The action of the player's corporation, through the same body.
pub fn apply_corp_action<P: Policy>(game: &mut GameState, db: &CardsDb, p: usize, policy: &mut P) -> (r: bool)
    requires p < 2, old(game).inv(db),
    ensures
        final(game).inv(db), final(game).step(old(game)),
        !r ==> final(game).players == old(game).players && final(game).same_but_players(*old(game)),
        !r ==> *final(game) == (GameState { rng: final(game).rng, ..*old(game) }),
        r ==> corp_action_possible(old(game), db, p as int),
        corp_action_forced(old(game), db, p as int) ==> (r == corp_action_possible(old(game), db, p as int)),
{
    let spec = match corp_effects(db, &game.players[p]) {
        Some(s) => s,
        None => return false,
    };
    match &spec.action {
        Some(action) => apply_action_spec(game, db, p, ActionSource::Corp, action, &spec.phase_bonus, policy),
        None => false,
    }
}

} // verus!
