//! The five phases of a round and the round itself: the standard actions
//! of the Action phase and the options offered, the selector bonuses of
//! the Phase cards, the extra builds, production and research.

use vstd::prelude::*;
use vstd::multiset::Multiset;
use crate::arith::{plus, minus, count, count_i64};
use crate::cards::CardsDb;
use crate::effects::{BuildGrant, grant_color};
use crate::flow::{corp_spec, spendable_spec, spendable_mc, forest_plant_cost, forest_plant_cost_spec,
    standard_mc_cost, standard_cost_spec, standard_discount_spec, standard_action_discount,
    standard_mc_cost_with, discard_mc_rate, discard_bonus_per_card, corp_effects};
use crate::policy::{ActionOpt, Policy};
use crate::state::{GameState, FOREST_MC_COST, TEMPERATURE_HEAT_COST, TEMPERATURE_MC_COST, OCEAN_MC_COST,
    TEMPERATURE_MAX, NUM_OCEANS};
use crate::turn::{top_up_mc_with_heat, top_up_spec, gain_forest, resolve_hand_jokers, affordable,
    build_card_granted, joker_settled, pay_ok, draw_into_hand};
use crate::flow::{SelectorBonus, selector_bonus, selector_bonus_ok};
use crate::effects::{SelectorGrant, grant_colors, grant_development, grant_construction};
use crate::policy::{ChoiceContext, ConstructionBonus, RandomPolicy};
use crate::state::{PlayerState, ids_ok, OXYGEN_MAX, MilestoneSlot, MilestoneKind, HAND_LIMIT};
use crate::policy::distinct_below;
use crate::effects::NextCardMod;
use crate::flow::{allowed_phases, discard_rate_spec, research_draw_keep_spec};
use crate::arith::clamp64;
use crate::cards::{Color, color_index};
use crate::flow::{derived_production, derived_production_spec, card_production, card_production_spec,
    research_base, research_draw_keep, milestone_value, milestone_value_spec, milestone_goal, milestone_goal_spec};
use crate::turn::{draw_card, apply_eff};
use crate::turn::{hp_nonneg, tiles_nonneg};
use crate::flow::{activable_blue, activable_blue_spec};
use crate::turn::{reveal_top, apply_blue_action, apply_corp_action, raise_temperature, reveal_ocean, copy_ids};

verus! {

// ------------------------------------------------------- standard actions

/// Pays a standard action priced `base` MC, at the player's reduced price
/// (heat converted first where the corporation allows it). The reduction
/// is counted where it is granted.
pub fn pay_standard_mc(game: &mut GameState, db: &CardsDb, p: usize, base: i64)
    requires
        p < 2, old(game).inv(db),
        spendable_spec(db, &old(game).players[p as int], 0)
            >= standard_cost_spec(base, standard_discount_spec(db, old(game).players[p as int].played@)),
    ensures
        final(game).inv(db), final(game).step(old(game)),
        ({
            let o = old(game).players[p as int];
            let cost = standard_cost_spec(base, standard_discount_spec(db, o.played@));
            let used = top_up_spec(db, &o, cost, 0);
            &&& final(game).players[p as int].mc == o.mc + used - cost
            &&& final(game).players[p as int].heat == o.heat - used
            &&& final(game).players[p as int].plants == o.plants
            &&& final(game).players[p as int].same_but_money(o)
        }),
        final(game).players[1 - p as int] == old(game).players[1 - p as int],
{
    let cost = standard_mc_cost(db, &game.players[p], base);
    if cost < base {
        game.standard_action_discounts = count(game.standard_action_discounts, 1);
    }
    top_up_mc_with_heat(game, db, p, cost);
    game.players[p].mc = game.players[p].mc - cost;
}

/// The forest standard action: 8 plants (less the corporation's rebate) or
/// 20 MC (at the player's reduced price), then one forest gained through
/// the one way of the engine.
pub fn build_forest<P: Policy>(game: &mut GameState, db: &CardsDb, p: usize, with_plants: bool, policy: &mut P)
    requires
        p < 2, old(game).inv(db),
        with_plants ==> old(game).players[p as int].plants
            >= forest_plant_cost_spec(db, old(game).players[p as int].corporation),
        !with_plants ==> spendable_spec(db, &old(game).players[p as int], 0)
            >= standard_cost_spec(FOREST_MC_COST, standard_discount_spec(db, old(game).players[p as int].played@)),
    ensures
        final(game).inv(db), final(game).step(old(game)),
        final(game).players[1 - p as int] == old(game).players[1 - p as int],
        old(game).players[p as int].forests < i64::MAX ==>
            final(game).players[p as int].forests >= old(game).players[p as int].forests + 1,
        !db.effects_on && !with_plants ==> final(game).players[p as int].plants == old(game).players[p as int].plants
            && (old(game).players[p as int].heat >= 0 ==> final(game).players[p as int].heat >= 0),
        !db.effects_on && with_plants ==> final(game).players[p as int].plants
                == old(game).players[p as int].plants - forest_plant_cost_spec(db, old(game).players[p as int].corporation)
            && final(game).players[p as int].heat == old(game).players[p as int].heat
            && final(game).players[1 - p as int] == old(game).players[1 - p as int],
{
    if with_plants {
        let cost = forest_plant_cost(db, &game.players[p]);
        game.players[p].plants = game.players[p].plants - cost;
        if cost < crate::state::FOREST_PLANT_COST {
            game.corp_forest_rebates = count(game.corp_forest_rebates, 1);
        }
    } else {
        pay_standard_mc(game, db, p, FOREST_MC_COST);
    }
    gain_forest(game, db, p, policy);
}

/// Is option `o` available to player `p` in the Action phase? Blue cards
/// from `blue` (the activations left), the corporation's action when one
/// is printed and its activation is left; the standard actions at the
/// player's prices (heat counted as MC where allowed), the temperature and
/// the oceans judged on the phase snapshot; selling a card with a hand.
pub open spec fn offered(game: &GameState, db: &CardsDb, p: int, blue: Seq<u16>, corp_left: bool, o: ActionOpt) -> bool {
    let pl = &game.players[p];
    let mc = spendable_spec(db, pl, 0);
    let d = standard_discount_spec(db, pl.played@);
    match o {
        ActionOpt::CorpAction => corp_left && (corp_spec(db, pl.corporation) matches Some(e) && e.action is Some),
        ActionOpt::BlueAction(c) => blue.contains(c),
        ActionOpt::ForestWithPlants => pl.plants >= forest_plant_cost_spec(db, pl.corporation),
        ActionOpt::ForestWithMc => mc >= standard_cost_spec(FOREST_MC_COST, d),
        ActionOpt::TemperatureWithHeat => pl.heat >= TEMPERATURE_HEAT_COST && game.snap_temperature < TEMPERATURE_MAX,
        ActionOpt::TemperatureWithMc => mc >= standard_cost_spec(TEMPERATURE_MC_COST, d)
            && game.snap_temperature < TEMPERATURE_MAX,
        ActionOpt::OceanWithMc => mc >= standard_cost_spec(OCEAN_MC_COST, d) && game.snap_oceans < NUM_OCEANS,
        ActionOpt::SellCard => pl.hand@.len() > 0,
    }
}

/// `opt` if `cond`, else nothing.
pub open spec fn opt_if(cond: bool, opt: ActionOpt) -> Seq<ActionOpt> {
    if cond { seq![opt] } else { Seq::empty() }
}

/// The options of the Action phase, in the order they are offered: the
/// corporation's action, the blue cards, forest (plants, MC), temperature
/// (heat, MC), ocean, selling a card.
pub open spec fn options_spec(game: &GameState, db: &CardsDb, p: int, blue: Seq<u16>, corp_left: bool) -> Seq<ActionOpt> {
    let o = |x: ActionOpt| offered(game, db, p, blue, corp_left, x);
    opt_if(o(ActionOpt::CorpAction), ActionOpt::CorpAction)
        + blue.map_values(|c: u16| ActionOpt::BlueAction(c))
        + opt_if(o(ActionOpt::ForestWithPlants), ActionOpt::ForestWithPlants)
        + opt_if(o(ActionOpt::ForestWithMc), ActionOpt::ForestWithMc)
        + opt_if(o(ActionOpt::TemperatureWithHeat), ActionOpt::TemperatureWithHeat)
        + opt_if(o(ActionOpt::TemperatureWithMc), ActionOpt::TemperatureWithMc)
        + opt_if(o(ActionOpt::OceanWithMc), ActionOpt::OceanWithMc)
        + opt_if(o(ActionOpt::SellCard), ActionOpt::SellCard)
}

/// Pushes `opt` when `cond` holds.
fn push_if(out: &mut Vec<ActionOpt>, cond: bool, opt: ActionOpt)
    ensures final(out)@ == old(out)@ + opt_if(cond, opt),
{
    if cond {
        out.push(opt);
    } else {
        proof { assert(old(out)@ + Seq::<ActionOpt>::empty() =~= old(out)@); }
    }
}

/// The options offered to player `p` in the Action phase. An option is
/// offered exactly when it is available: the thresholds are the prices
/// the payment will use.
pub fn action_options(game: &GameState, db: &CardsDb, p: usize, blue: &Vec<u16>, corp_left: bool) -> (r: Vec<ActionOpt>)
    requires p < 2, game.inv(db),
    ensures
        r@ == options_spec(game, db, p as int, blue@, corp_left),
        forall|o: ActionOpt| r@.contains(o) <==> offered(game, db, p as int, blue@, corp_left, o),
{
    let pl = &game.players[p];
    let corp_action = match corp_effects(db, pl) {
        Some(s) => s.action.is_some(),
        None => false,
    };
    let mc = spendable_mc(db, pl);
    let d = standard_action_discount(db, pl);
    let c0 = corp_left && corp_action;
    let c2 = pl.plants >= forest_plant_cost(db, pl);
    let c3 = mc >= standard_mc_cost_with(FOREST_MC_COST, d);
    let c4 = pl.heat >= TEMPERATURE_HEAT_COST && game.snap_temperature < TEMPERATURE_MAX;
    let c5 = mc >= standard_mc_cost_with(TEMPERATURE_MC_COST, d) && game.snap_temperature < TEMPERATURE_MAX;
    let c6 = mc >= standard_mc_cost_with(OCEAN_MC_COST, d) && game.snap_oceans < NUM_OCEANS;
    let c7 = pl.hand.len() > 0;
    let out = options_list(blue, c0, c2, c3, c4, c5, c6, c7);
    proof {
        let of = |x: ActionOpt| offered(game, db, p as int, blue@, corp_left, x);
        assert(c0 == of(ActionOpt::CorpAction));
        assert(c2 == of(ActionOpt::ForestWithPlants));
        assert(c3 == of(ActionOpt::ForestWithMc));
        assert(c4 == of(ActionOpt::TemperatureWithHeat));
        assert(c5 == of(ActionOpt::TemperatureWithMc));
        assert(c6 == of(ActionOpt::OceanWithMc));
        assert(c7 == of(ActionOpt::SellCard));
        assert forall|o: ActionOpt| out@.contains(o) <==> offered(game, db, p as int, blue@, corp_left, o) by {
            lemma_options_contain(game, db, p as int, blue@, corp_left, o);
        }
    }
    out
}

/// The list of options from the availability of each kind.
fn options_list(blue: &Vec<u16>, c0: bool, c2: bool, c3: bool, c4: bool, c5: bool, c6: bool, c7: bool)
    -> (r: Vec<ActionOpt>)
    ensures
        r@ == opt_if(c0, ActionOpt::CorpAction)
            + blue@.map_values(|c: u16| ActionOpt::BlueAction(c))
            + opt_if(c2, ActionOpt::ForestWithPlants)
            + opt_if(c3, ActionOpt::ForestWithMc)
            + opt_if(c4, ActionOpt::TemperatureWithHeat)
            + opt_if(c5, ActionOpt::TemperatureWithMc)
            + opt_if(c6, ActionOpt::OceanWithMc)
            + opt_if(c7, ActionOpt::SellCard),
{
    let mut out: Vec<ActionOpt> = Vec::new();
    push_if(&mut out, c0, ActionOpt::CorpAction);
    let ghost start = out@;
    let mut i: usize = 0;
    while i < blue.len()
        invariant
            i <= blue@.len(),
            out@ == start + blue@.subrange(0, i as int).map_values(|c: u16| ActionOpt::BlueAction(c)),
        decreases blue@.len() - i,
    {
        out.push(ActionOpt::BlueAction(blue[i]));
        proof {
            assert(blue@.subrange(0, i + 1).map_values(|c: u16| ActionOpt::BlueAction(c))
                =~= blue@.subrange(0, i as int).map_values(|c: u16| ActionOpt::BlueAction(c))
                    .push(ActionOpt::BlueAction(blue@[i as int])));
        }
        i = i + 1;
    }
    proof { assert(blue@.subrange(0, blue@.len() as int) =~= blue@); }
    push_if(&mut out, c2, ActionOpt::ForestWithPlants);
    push_if(&mut out, c3, ActionOpt::ForestWithMc);
    push_if(&mut out, c4, ActionOpt::TemperatureWithHeat);
    push_if(&mut out, c5, ActionOpt::TemperatureWithMc);
    push_if(&mut out, c6, ActionOpt::OceanWithMc);
    push_if(&mut out, c7, ActionOpt::SellCard);
    out
}

/// Membership in a concatenation is membership in one of its parts.
proof fn lemma_concat_contains(a: Seq<ActionOpt>, b: Seq<ActionOpt>, o: ActionOpt)
    ensures (a + b).contains(o) <==> (a.contains(o) || b.contains(o)),
{
    let s = a + b;
    if s.contains(o) {
        let i = choose|i: int| 0 <= i < s.len() && s[i] == o;
        if i >= a.len() {
            assert(b[i - a.len()] == o);
        }
    }
    if a.contains(o) {
        let i = choose|i: int| 0 <= i < a.len() && a[i] == o;
        assert(s[i] == o);
    }
    if b.contains(o) {
        let i = choose|i: int| 0 <= i < b.len() && b[i] == o;
        assert(s[a.len() + i] == o);
    }
}

/// `opt_if(c, x)` holds `o` exactly when `c` holds and `o` is `x`.
proof fn lemma_opt_if_contains(c: bool, x: ActionOpt, o: ActionOpt)
    ensures opt_if(c, x).contains(o) <==> (c && o == x),
{
    if c && o == x {
        assert(opt_if(c, x)[0] == o);
    }
}

/// An option is in the list exactly when it is offered.
proof fn lemma_options_contain(game: &GameState, db: &CardsDb, p: int, blue: Seq<u16>, corp_left: bool, o: ActionOpt)
    ensures options_spec(game, db, p, blue, corp_left).contains(o) <==> offered(game, db, p, blue, corp_left, o),
{
    let of = |x: ActionOpt| offered(game, db, p, blue, corp_left, x);
    let a0 = opt_if(of(ActionOpt::CorpAction), ActionOpt::CorpAction);
    let b = blue.map_values(|c: u16| ActionOpt::BlueAction(c));
    let a2 = opt_if(of(ActionOpt::ForestWithPlants), ActionOpt::ForestWithPlants);
    let a3 = opt_if(of(ActionOpt::ForestWithMc), ActionOpt::ForestWithMc);
    let a4 = opt_if(of(ActionOpt::TemperatureWithHeat), ActionOpt::TemperatureWithHeat);
    let a5 = opt_if(of(ActionOpt::TemperatureWithMc), ActionOpt::TemperatureWithMc);
    let a6 = opt_if(of(ActionOpt::OceanWithMc), ActionOpt::OceanWithMc);
    let a7 = opt_if(of(ActionOpt::SellCard), ActionOpt::SellCard);
    lemma_concat_contains(a0, b, o);
    lemma_concat_contains(a0 + b, a2, o);
    lemma_concat_contains(a0 + b + a2, a3, o);
    lemma_concat_contains(a0 + b + a2 + a3, a4, o);
    lemma_concat_contains(a0 + b + a2 + a3 + a4, a5, o);
    lemma_concat_contains(a0 + b + a2 + a3 + a4 + a5, a6, o);
    lemma_concat_contains(a0 + b + a2 + a3 + a4 + a5 + a6, a7, o);
    lemma_opt_if_contains(of(ActionOpt::CorpAction), ActionOpt::CorpAction, o);
    lemma_opt_if_contains(of(ActionOpt::ForestWithPlants), ActionOpt::ForestWithPlants, o);
    lemma_opt_if_contains(of(ActionOpt::ForestWithMc), ActionOpt::ForestWithMc, o);
    lemma_opt_if_contains(of(ActionOpt::TemperatureWithHeat), ActionOpt::TemperatureWithHeat, o);
    lemma_opt_if_contains(of(ActionOpt::TemperatureWithMc), ActionOpt::TemperatureWithMc, o);
    lemma_opt_if_contains(of(ActionOpt::OceanWithMc), ActionOpt::OceanWithMc, o);
    lemma_opt_if_contains(of(ActionOpt::SellCard), ActionOpt::SellCard, o);
    // The blue part holds exactly the blue actions of `blue`.
    assert(b.contains(o) <==> (o matches ActionOpt::BlueAction(c) && blue.contains(c))) by {
        if b.contains(o) {
            let i = choose|i: int| 0 <= i < b.len() && b[i] == o;
            assert(blue[i] == o->BlueAction_0);
        }
        if let ActionOpt::BlueAction(c) = o {
            if blue.contains(c) {
                let i = choose|i: int| 0 <= i < blue.len() && blue[i] == c;
                assert(b[i] == o);
            }
        }
    }
}


// ------------------------------------------------------- selector bonuses

/// The selector bonus of `phase` as the phase in play reads it; the use of
/// an upgraded Phase card is counted here, and only here.
pub fn selector_bonus_applied(game: &mut GameState, db: &CardsDb, p: usize, phase: u8) -> (r: SelectorBonus)
    requires p < 2, old(game).inv(db),
    ensures
        selector_bonus_ok(db, &old(game).players[p as int], phase, r),
        final(game).players == old(game).players,
        final(game).same_but_players(*old(game)),
        final(game).inv(db), final(game).step(old(game)),
{
    let b = selector_bonus(db, &game.players[p], phase);
    if b.upgraded.is_some() {
        game.upgraded_bonus_applied = count(game.upgraded_bonus_applied, 1);
    }
    b
}

/// The branch of a selector bonus that applies: the only one, or the one
/// the policy picks when the Phase card prints a « or ».
pub fn selector_branch<P: Policy>(game: &mut GameState, b: &SelectorBonus, p: usize, policy: &mut P) -> (r: usize)
    requires b.spec.branches@.len() >= 1,
    ensures
        r < b.spec.branches@.len(),
        b.spec.branches@.len() == 1 ==> r == 0,
        final(game).players == old(game).players,
        final(game).same_but_players(*old(game)),
        final(game).cards_total() == old(game).cards_total(),
        final(game).moves(old(game)),
{
    let n = b.spec.branches.len();
    if n < 2 {
        return 0;
    }
    let ctx = ChoiceContext::SelectorBonus {
        phase: b.phase,
        variant: b.upgraded,
        card_name: b.spec.name,
        branches: n,
    };
    policy.observe(game, p);
    let i = policy.choose_option_ctx(&mut game.rng, p, &ctx);
    if i < n { i } else { n - 1 }
}

/// The selector bonus holds at least one branch.
proof fn lemma_bonus_has_branch(db: &CardsDb, pl: &PlayerState, phase: u8, b: SelectorBonus)
    requires selector_bonus_ok(db, pl, phase, b),
    ensures b.spec.branches@.len() >= 1, b.spec.branches@.len() <= 2,
{
}

/// The builds an upgraded Phase card grants go to the one queue of extra
/// builds, exercised by `drain_pending_builds`.
pub fn grant_selector_builds(game: &mut GameState, db: &CardsDb, p: usize, g: &SelectorGrant)
    requires p < 2, old(game).inv(db),
    ensures
        final(game).inv(db), final(game).step(old(game)),
        final(game).players[p as int].pending_builds@ == old(game).players[p as int].pending_builds@ + g.builds@,
{
    let ghost pb0 = game.players[p as int].pending_builds@;
    let mut i: usize = 0;
    while i < g.builds.len()
        invariant
            i <= g.builds@.len(), p < 2, game.inv(db), game.step(old(game)),
            game.players[p as int].pending_builds@ == pb0 + g.builds@.subrange(0, i as int),
        decreases g.builds@.len() - i,
    {
        game.players[p].pending_builds.push(g.builds[i]);
        game.extra_builds_granted = count(game.extra_builds_granted, 1);
        game.upgraded_extra_builds = count(game.upgraded_extra_builds, 1);
        proof {
            assert(g.builds@.subrange(0, i + 1) =~= g.builds@.subrange(0, i as int).push(g.builds@[i as int]));
        }
        i = i + 1;
    }
    proof { assert(g.builds@.subrange(0, g.builds@.len() as int) =~= g.builds@); }
}

// ------------------------------------------------------------- building

/// Extra builds a player may exercise in one phase: beyond, the queue is
/// dropped (a card that granted itself a build again and again).
pub const MAX_EXTRA_BUILDS_PER_PHASE: usize = 8;

/// Builds the card at hand index `idx` under a permission of any colour:
/// the same one way of building and paying as every build. The card's
/// joker tag must be settled and the card payable.
pub fn build_card_with<P: Policy>(game: &mut GameState, db: &CardsDb, p: usize, idx: usize, discount: i64,
    policy: &mut P) -> (r: usize)
    requires
        p < 2, old(game).inv(db),
        idx < old(game).players[p as int].hand@.len(),
        joker_settled(db, &old(game).players[p as int], old(game).players[p as int].hand@[idx as int]),
        pay_ok(old(game), db, p as int, idx as int, discount, grant_color(true, true, true)),
    ensures
        final(game).inv(db), final(game).step(old(game)),
        old(game).players[p as int].played@.len() < final(game).players[p as int].played@.len(),
        final(game).players[p as int].played@[old(game).players[p as int].played@.len() as int]
            == old(game).players[p as int].hand@[idx as int],
{
    let any = grant_colors(true, true, true);
    build_card_granted(game, db, p, idx, discount, &any, policy)
}

/// The same with the default payment rule of the random policy.
pub fn build_card(game: &mut GameState, db: &CardsDb, p: usize, idx: usize, discount: i64) -> (r: usize)
    requires
        p < 2, old(game).inv(db),
        idx < old(game).players[p as int].hand@.len(),
        joker_settled(db, &old(game).players[p as int], old(game).players[p as int].hand@[idx as int]),
        pay_ok(old(game), db, p as int, idx as int, discount, grant_color(true, true, true)),
    ensures
        final(game).inv(db), final(game).step(old(game)),
        old(game).players[p as int].played@.len() < final(game).players[p as int].played@.len(),
        final(game).players[p as int].played@[old(game).players[p as int].played@.len() as int]
            == old(game).players[p as int].hand@[idx as int],
{
    let mut default = RandomPolicy;
    build_card_with(game, db, p, idx, discount, &mut default)
}

/// One build under `grant`: jokers of the hand settled, the affordable
/// cards listed, the policy's pick built (or none).
fn build_one<P: Policy>(game: &mut GameState, db: &CardsDb, p: usize, grant: &BuildGrant, discount: i64,
    policy: &mut P) -> (built: bool)
    requires p < 2, old(game).inv(db),
    ensures
        final(game).inv(db), final(game).step(old(game)),
        built ==> old(game).players[p as int].played@.len() < final(game).players[p as int].played@.len()
            && old(game).players[p as int].hand@.contains(
                final(game).players[p as int].played@[old(game).players[p as int].played@.len() as int]),
        !built ==> final(game).players[p as int].played == old(game).players[p as int].played
            && final(game).players[p as int].hand == old(game).players[p as int].hand,
{
    resolve_hand_jokers(game, db, p, policy);
    let opts = affordable(game, db, p, grant, discount);
    policy.observe(game, p);
    match policy.choose_build(&mut game.rng, p, opts.as_slice()) {
        Some(idx) => {
            proof {
                let k = choose|k: int| 0 <= k < opts@.len() && opts@[k] == idx;
                assert(opts@[k] == idx);
            }
            let ghost g1 = *game;
            build_card_granted(game, db, p, idx, discount, grant, policy);
            proof {
                assert(g1.players[p as int].hand@[idx as int] == old(game).players[p as int].hand@[idx as int]);
                assert(old(game).players[p as int].hand@.contains(old(game).players[p as int].hand@[idx as int]));
            }
            true
        }
        None => false,
    }
}

/// Exercises the pending extra builds while there are some and the player
/// wants them: a card built this way may grant another one. The phase
/// discount goes to the ordinary build only, never to a free one.
pub fn drain_pending_builds<P: Policy>(game: &mut GameState, db: &CardsDb, p: usize, discount: i64, policy: &mut P)
    requires p < 2, old(game).inv(db),
    ensures
        final(game).inv(db), final(game).step(old(game)),
        final(game).players[p as int].pending_builds@.len() == 0,
{
    let mut exercised: usize = 0;
    while exercised < MAX_EXTRA_BUILDS_PER_PHASE
        invariant p < 2, game.inv(db), game.step(old(game)), exercised <= MAX_EXTRA_BUILDS_PER_PHASE,
        decreases MAX_EXTRA_BUILDS_PER_PHASE - exercised,
    {
        let grant = match game.players[p].pending_builds.pop() {
            Some(g) => g,
            None => return,
        };
        exercised = exercised + 1;
        let disc = if grant.free { 0 } else { discount };
        if build_one(game, db, p, &grant, disc, policy) {
            game.extra_builds_used = count(game.extra_builds_used, 1);
        }
    }
    game.players[p].pending_builds.clear();
}

/// Draws up to `n` cards into player `p`'s hand; returns how many came.
fn draw_to_hand(game: &mut GameState, db: &CardsDb, p: usize, n: u64) -> (r: u64)
    requires p < 2, old(game).inv(db),
    ensures
        final(game).inv(db), final(game).step(old(game)), r <= n,
        r == (if n <= old(game).deck@.len() + old(game).discard@.len() { n as int }
            else { (old(game).deck@.len() + old(game).discard@.len()) as int }),
        final(game).players[p as int].hand@.len() == old(game).players[p as int].hand@.len() + r,
        final(game).players[p as int].hand@.subrange(0, old(game).players[p as int].hand@.len() as int)
            == old(game).players[p as int].hand@,
        final(game).players[p as int].same_but_hand(old(game).players[p as int]),
        final(game).players[1 - p as int] == old(game).players[1 - p as int],
{
    let mut k: u64 = 0;
    let mut got: u64 = 0;
    while k < n
        invariant
            p < 2, game.inv(db), game.step(old(game)), k <= n, got <= k,
            got == (if k <= old(game).deck@.len() + old(game).discard@.len() { k as int }
                else { (old(game).deck@.len() + old(game).discard@.len()) as int }),
            game.deck@.len() + game.discard@.len() + got == old(game).deck@.len() + old(game).discard@.len(),
            game.players[p as int].hand@.len() == old(game).players[p as int].hand@.len() + got,
            game.players[p as int].hand@.subrange(0, old(game).players[p as int].hand@.len() as int)
                == old(game).players[p as int].hand@,
            game.players[p as int].same_but_hand(old(game).players[p as int]),
            game.players[1 - p as int] == old(game).players[1 - p as int],
        decreases n - k,
    {
        let ghost h = game.players[p as int].hand@;
        if draw_into_hand(game, db, p).is_some() {
            got = got + 1;
        }
        proof {
            assert(game.players[p as int].hand@.subrange(0, old(game).players[p as int].hand@.len() as int)
                =~= h.subrange(0, old(game).players[p as int].hand@.len() as int));
        }
        k = k + 1;
    }
    got
}

// ------------------------------------------------------------- phase I

/// Phase I, Development: each player in turn order may build one green
/// card; the selector gets the discount of their Phase card (and, on the
/// upgraded card, a second green card). The extra builds are exercised
/// after the ordinary one, with no phase discount.
pub fn phase_development<P: Policy>(game: &mut GameState, db: &CardsDb, policy: &mut P)
    requires old(game).inv(db),
    ensures final(game).inv(db), final(game).step(old(game)),
{
    let order = game.players_in_turn_order();
    let mut k: usize = 0;
    while k < 2
        invariant k <= 2, game.inv(db), game.step(old(game)), order[0] < 2, order[1] < 2,
        decreases 2 - k,
    {
        let p = order[k];
        let sb = selector_bonus_applied(game, db, p, 1);
        let gi = selector_branch(game, &sb, p, policy);
        let g = &sb.spec.branches[gi];
        let dev = grant_development();
        build_one(game, db, p, &dev, g.mc_discount, policy);
        grant_selector_builds(game, db, p, g);
        drain_pending_builds(game, db, p, 0, policy);
        k = k + 1;
    }
}

// ------------------------------------------------------------ phase II

/// Phase II, Construction: each player in turn order may build one blue or
/// red card. The selector's normal Phase card gives the choice of drawing a
/// card before or after the build, or a second build; the upgraded cards
/// give their own branches (a draw and a second build, or a second build
/// or MC).
pub fn phase_construction<P: Policy>(game: &mut GameState, db: &CardsDb, policy: &mut P)
    requires old(game).inv(db),
    ensures final(game).inv(db), final(game).step(old(game)),
{
    let order = game.players_in_turn_order();
    let mut k: usize = 0;
    while k < 2
        invariant k <= 2, game.inv(db), game.step(old(game)), order[0] < 2, order[1] < 2,
        decreases 2 - k,
    {
        construction_turn(game, db, order[k], policy);
        k = k + 1;
    }
}

/// The Construction phase of one player.
fn construction_turn<P: Policy>(game: &mut GameState, db: &CardsDb, p: usize, policy: &mut P)
    requires p < 2, old(game).inv(db),
    ensures final(game).inv(db), final(game).step(old(game)),
{
    let sb = selector_bonus_applied(game, db, p, 2);
    proof { lemma_bonus_has_branch(db, &old(game).players[p as int], 2, sb); }
    let bonus: Option<ConstructionBonus> = if sb.is_selector && sb.upgraded.is_none() {
        policy.observe(game, p);
        Some(policy.construction_bonus(&mut game.rng, p))
    } else {
        None
    };
    let upgraded: Option<usize> = if sb.upgraded.is_some() {
        Some(selector_branch(game, &sb, p, policy))
    } else {
        None
    };
    let draw_before: u8 = match (bonus, upgraded) {
        (Some(ConstructionBonus::DrawCardBefore), _) => sb.spec.branches[0].draw,
        (_, Some(gi)) => sb.spec.branches[gi].draw,
        _ => 0,
    };
    let got = draw_to_hand(game, db, p, draw_before as u64);
    game.draw_before_build = count(game.draw_before_build, got);
    match upgraded {
        Some(gi) => {
            game.players[p].mc = plus(game.players[p].mc, sb.spec.branches[gi].mc);
        }
        None => {}
    }
    let cons = grant_construction();
    build_one(game, db, p, &cons, 0, policy);
    match upgraded {
        Some(gi) => grant_selector_builds(game, db, p, &sb.spec.branches[gi]),
        None => {}
    }
    drain_pending_builds(game, db, p, 0, policy);
    match bonus {
        Some(ConstructionBonus::DrawCard) => {
            let got = draw_to_hand(game, db, p, sb.spec.branches[0].draw as u64);
            game.draw_after_build = count(game.draw_after_build, got);
        }
        Some(ConstructionBonus::SecondBuild) => {
            proof {
                assert(sb.spec.branches@.len() == 2);
                assert(sb.spec.branches@[1].builds@ == seq![grant_color(false, true, true)]);
            }
            let grant = sb.spec.branches[1].builds[0];
            build_one(game, db, p, &grant, 0, policy);
            drain_pending_builds(game, db, p, 0, policy);
        }
        _ => {}
    }
}


// ----------------------------------------------------------- phase III

/// Rounds of turns of one Action phase: a policy that never passes cannot
/// hold the game forever.
pub const ACTION_ROUNDS_LIMIT: u32 = 1000;

/// Compulsory conversions of one kind at the end of the Action phase.
pub const CONVERSIONS_LIMIT: u32 = 1000;

/// The cards of `s` that can be activated, in order.
pub open spec fn activable_of(db: &CardsDb, s: Seq<u16>) -> Seq<u16>
    decreases s.len(),
{
    if s.len() == 0 {
        s
    } else {
        let prev = activable_of(db, s.drop_last());
        if activable_blue_spec(db, s.last()) { prev.push(s.last()) } else { prev }
    }
}

/// The activable blue cards among those in play.
pub fn activable_cards(db: &CardsDb, played: &Vec<u16>) -> (r: Vec<u16>)
    requires ids_ok(played@, db.projects@.len() as int),
    ensures r@ == activable_of(db, played@), ids_ok(r@, db.projects@.len() as int),
{
    let mut out: Vec<u16> = Vec::new();
    let mut i: usize = 0;
    while i < played.len()
        invariant
            i <= played@.len(), ids_ok(played@, db.projects@.len() as int),
            out@ == activable_of(db, played@.subrange(0, i as int)),
            ids_ok(out@, db.projects@.len() as int),
        decreases played@.len() - i,
    {
        proof {
            assert(played@.subrange(0, i + 1).drop_last() =~= played@.subrange(0, i as int));
        }
        let c = played[i];
        if activable_blue(db, c) {
            out.push(c);
        }
        i = i + 1;
    }
    proof { assert(played@.subrange(0, played@.len() as int) =~= played@); }
    out
}

/// Removes the first occurrence of `x` from `v`, if any.
fn remove_first(v: &mut Vec<u16>, x: u16)
    ensures
        forall|n: int| ids_ok(old(v)@, n) ==> ids_ok(final(v)@, n),
        !old(v)@.contains(x) ==> final(v)@ == old(v)@,
        old(v)@.contains(x) ==> exists|i: int| 0 <= i < old(v)@.len() && old(v)@[i] == x
            && (forall|k: int| 0 <= k < i ==> old(v)@[k] != x) && final(v)@ == old(v)@.remove(i),
{
    let mut i: usize = 0;
    while i < v.len()
        invariant i <= v@.len(), *v == *old(v), forall|k: int| 0 <= k < i ==> old(v)@[k] != x,
        decreases v@.len() - i,
    {
        if v[i] == x {
            v.remove(i);
            assert(old(v)@[i as int] == x && v@ == old(v)@.remove(i as int));
            proof {
                assert forall|n: int| ids_ok(old(v)@, n) implies ids_ok(v@, n) by {
                    assert forall|k: int| 0 <= k < v@.len() implies (v@[k] as int) < n by {
                        if k < i { assert(v@[k] == old(v)@[k]); } else { assert(v@[k] == old(v)@[k + 1]); }
                    }
                }
            }
            return;
        }
        i = i + 1;
    }
}

/// Start of the Action phase for one player: the extra activations of
/// their Phase card are set on their state, and the upgraded card's reveal
/// happens before the first action.
fn action_phase_start<P: Policy>(game: &mut GameState, db: &CardsDb, p: usize, policy: &mut P)
    requires p < 2, old(game).inv(db),
    ensures
        final(game).inv(db), final(game).step(old(game)),
        hp_nonneg(old(game)) ==> hp_nonneg(final(game)),
{
    let sb = selector_bonus_applied(game, db, p, 3);
    proof { lemma_bonus_has_branch(db, &old(game).players[p as int], 3, sb); }
    let gi = selector_branch(game, &sb, p, policy);
    let g = &sb.spec.branches[gi];
    game.players[p].extra_blue_activations = g.extra_activations;
    match &g.reveal {
        Some(r) => reveal_top(game, db, p, r, policy),
        None => {}
    }
}

/// One turn of player `p` in the Action phase: the options offered, the
/// policy's choice, the action. True when the player passes.
#[verifier::rlimit(40)]
fn action_turn<P: Policy>(game: &mut GameState, db: &CardsDb, p: usize, blue: &mut Vec<u16>, corp_left: &mut bool,
    policy: &mut P) -> (passed: bool)
    requires p < 2, old(game).inv(db), ids_ok(old(blue)@, db.projects@.len() as int),
    ensures
        final(game).inv(db), final(game).step(old(game)), ids_ok(final(blue)@, db.projects@.len() as int),
        !db.effects_on && hp_nonneg(old(game)) && tiles_nonneg(old(game)) ==> hp_nonneg(final(game)),
{
    let options = action_options(game, db, p, blue, *corp_left);
    policy.observe(game, p);
    let i = match policy.action_choice(&mut game.rng, p, options.as_slice()) {
        Some(i) => i,
        None => return true,
    };
    let opt = options[i];
    proof { assert(options@.contains(opt)); }
    match opt {
        ActionOpt::BlueAction(card) => {
            proof {
                let k = choose|k: int| 0 <= k < blue@.len() && blue@[k] == card;
            }
            if db.effects_on && apply_blue_action(game, db, p, card, policy) {
                game.blue_actions = count(game.blue_actions, 1);
            }
            remove_first(blue, card);
            if game.players[p].extra_blue_activations > 0 {
                game.players[p].extra_blue_activations = game.players[p].extra_blue_activations - 1;
                blue.push(card);
            }
        }
        ActionOpt::CorpAction => {
            if db.effects_on && apply_corp_action(game, db, p, policy) {
                game.blue_actions = count(game.blue_actions, 1);
            }
            *corp_left = false;
            if game.players[p].extra_blue_activations > 0 {
                game.players[p].extra_blue_activations = game.players[p].extra_blue_activations - 1;
                *corp_left = true;
            }
        }
        ActionOpt::ForestWithPlants => build_forest(game, db, p, true, policy),
        ActionOpt::ForestWithMc => build_forest(game, db, p, false, policy),
        ActionOpt::TemperatureWithHeat => {
            game.players[p].heat = game.players[p].heat - TEMPERATURE_HEAT_COST;
            raise_temperature(game, db, p, policy);
        }
        ActionOpt::TemperatureWithMc => {
            pay_standard_mc(game, db, p, TEMPERATURE_MC_COST);
            raise_temperature(game, db, p, policy);
        }
        ActionOpt::OceanWithMc => {
            pay_standard_mc(game, db, p, OCEAN_MC_COST);
            reveal_ocean(game, db, p, policy);
        }
        ActionOpt::SellCard => sell_card(game, db, p, policy),
    }
    false
}

/// The « sell a card » standard action: the policy picks the card, which
/// goes to the discard pile for the player's discard rate in MC.
fn sell_card<P: Policy>(game: &mut GameState, db: &CardsDb, p: usize, policy: &mut P)
    requires p < 2, old(game).inv(db), old(game).players[p as int].hand@.len() > 0,
    ensures
        final(game).inv(db), final(game).step(old(game)),
        exists|i: int| 0 <= i < old(game).players[p as int].hand@.len()
            && final(game).players[p as int].hand@ == #[trigger] old(game).players[p as int].hand@.remove(i)
            && final(game).discard@ == old(game).discard@.push(old(game).players[p as int].hand@[i]),
        final(game).players[p as int].mc == clamp64(old(game).players[p as int].mc
            + discard_rate_spec(db, &old(game).players[p as int])),
        final(game).players[p as int].heat == old(game).players[p as int].heat,
        final(game).players[p as int].plants == old(game).players[p as int].plants,
        final(game).deck == old(game).deck,
        final(game).players[1 - p as int] == old(game).players[1 - p as int],
{
    let hand = copy_ids(&game.players[p].hand);
    let n = hand.len();
    let pick = policy.sell_card(&mut game.rng, p, hand.as_slice());
    let i = if pick < n { pick } else { n - 1 };
    let card = game.players[p].hand.remove(i);
    proof {
        assert(old(game).players[p as int].hand@.contains(card));
        assert(old(game).players[p as int].hand@[i as int] == card);
        assert forall|k: int| 0 <= k < game.players[p as int].hand@.len() implies
            (game.players[p as int].hand@[k] as int) < db.projects@.len() by {
            if k < i { assert(game.players[p as int].hand@[k] == old(game).players[p as int].hand@[k]); }
            else { assert(game.players[p as int].hand@[k] == old(game).players[p as int].hand@[k + 1]); }
        }
    }
    game.discard.push(card);
    let rate = discard_mc_rate(db, &game.players[p]);
    let bonus = discard_bonus_per_card(db, &game.players[p]);
    game.players[p].mc = plus(game.players[p].mc, rate);
    game.discard_bonus_mc = count(game.discard_bonus_mc, bonus);
    proof {
        assert(game.players[p as int].hand@ == old(game).players[p as int].hand@.remove(i as int));
    }
}

/// Player `p` of `g` holds less heat than a temperature step costs, or the
/// temperature was at its maximum when the phase began, or (the loop's
/// bound on conversions) the player gained at least that many TR steps
/// since `o`, or their TR counter is at its machine limit.
pub open spec fn heat_converted(g: &GameState, o: PlayerState, p: int) -> bool {
    ||| g.players[p].heat < TEMPERATURE_HEAT_COST
    ||| g.snap_temperature >= TEMPERATURE_MAX
    ||| g.players[p].tr_increments >= o.tr_increments + CONVERSIONS_LIMIT
    ||| g.players[p].tr_increments >= i64::MAX - 5
}

/// The compulsory conversions at the end of the Action phase: plants into
/// forests while the player has a forest's worth and oxygen was not at its
/// maximum when the phase began; then heat into temperature likewise.
fn forced_conversions<P: Policy>(game: &mut GameState, db: &CardsDb, p: usize, policy: &mut P)
    requires p < 2, old(game).inv(db),
    ensures
        final(game).inv(db), final(game).step(old(game)),
        (old(game).snap_oxygen < OXYGEN_MAX
            && old(game).players[p as int].plants >= forest_plant_cost_spec(db, old(game).players[p as int].corporation)
            && old(game).players[p as int].forests < i64::MAX)
            ==> final(game).players[p as int].forests >= old(game).players[p as int].forests + 1,
        !db.effects_on ==> {
            &&& final(game).players[p as int].plants
                    < forest_plant_cost_spec(db, final(game).players[p as int].corporation)
                || final(game).snap_oxygen >= OXYGEN_MAX
            &&& final(game).players[p as int].heat < TEMPERATURE_HEAT_COST
                || final(game).snap_temperature >= TEMPERATURE_MAX
        },
        final(game).players[1 - p as int] == old(game).players[1 - p as int],
        heat_converted(final(game), old(game).players[p as int], p as int),
        !db.effects_on && hp_nonneg(old(game)) ==> hp_nonneg(final(game)),
{
    if !db.effects_on {
        let ghost converts = old(game).snap_oxygen < OXYGEN_MAX
            && old(game).players[p as int].plants >= forest_plant_cost_spec(db, old(game).players[p as int].corporation)
            && old(game).players[p as int].forests < i64::MAX;
        while game.players[p].plants >= forest_plant_cost(db, &game.players[p]) && game.snap_oxygen < OXYGEN_MAX
            invariant
                p < 2, game.inv(db), game.step(old(game)), !db.effects_on,
                converts == (old(game).snap_oxygen < OXYGEN_MAX
                    && old(game).players[p as int].plants >= forest_plant_cost_spec(db, old(game).players[p as int].corporation)
                    && old(game).players[p as int].forests < i64::MAX),
                converts ==> (*game == *old(game) || game.players[p as int].forests >= old(game).players[p as int].forests + 1),
                game.players[1 - p as int] == old(game).players[1 - p as int],
                hp_nonneg(old(game)) ==> hp_nonneg(game),
            decreases game.players[p as int].plants,
        {
            build_forest(game, db, p, true, policy);
        }
        let ghost forests1 = game.players[p as int].forests;
        while game.players[p].heat >= TEMPERATURE_HEAT_COST && game.snap_temperature < TEMPERATURE_MAX
            invariant
                p < 2, game.inv(db), game.step(old(game)), !db.effects_on,
                converts ==> forests1 >= old(game).players[p as int].forests + 1,
                game.players[p as int].forests >= forests1,
                game.players[p as int].plants < forest_plant_cost_spec(db, game.players[p as int].corporation)
                    || game.snap_oxygen >= OXYGEN_MAX,
                game.players[1 - p as int] == old(game).players[1 - p as int],
                hp_nonneg(old(game)) ==> hp_nonneg(game),
            decreases game.players[p as int].heat,
        {
            game.players[p].heat = game.players[p].heat - TEMPERATURE_HEAT_COST;
            raise_temperature(game, db, p, policy);
        }
        return;
    }
    let mut fuel: u32 = CONVERSIONS_LIMIT;
    let ghost converts = old(game).snap_oxygen < OXYGEN_MAX
        && old(game).players[p as int].plants >= forest_plant_cost_spec(db, old(game).players[p as int].corporation)
        && old(game).players[p as int].forests < i64::MAX;
    while fuel > 0 && game.players[p].plants >= forest_plant_cost(db, &game.players[p])
        && game.snap_oxygen < OXYGEN_MAX
        invariant
            p < 2, game.inv(db), game.step(old(game)), fuel <= CONVERSIONS_LIMIT,
            converts == (old(game).snap_oxygen < OXYGEN_MAX
                && old(game).players[p as int].plants >= forest_plant_cost_spec(db, old(game).players[p as int].corporation)
                && old(game).players[p as int].forests < i64::MAX),
            converts && fuel == CONVERSIONS_LIMIT ==> *game == *old(game),
            converts && fuel < CONVERSIONS_LIMIT ==> game.players[p as int].forests >= old(game).players[p as int].forests + 1,
            game.players[1 - p as int] == old(game).players[1 - p as int],
        decreases fuel,
    {
        build_forest(game, db, p, true, policy);
        fuel = fuel - 1;
    }
    let mut fuel: u32 = CONVERSIONS_LIMIT;
    let ghost forests1 = game.players[p as int].forests;
    let ghost inc1: int = game.players[p as int].tr_increments as int;
    while fuel > 0 && game.players[p].heat >= TEMPERATURE_HEAT_COST && game.snap_temperature < TEMPERATURE_MAX
        invariant
            p < 2, game.inv(db), game.step(old(game)), fuel <= CONVERSIONS_LIMIT,
            converts ==> forests1 >= old(game).players[p as int].forests + 1,
            game.players[p as int].forests >= forests1,
            game.players[1 - p as int] == old(game).players[1 - p as int],
            old(game).players[p as int].tr_increments <= inc1,
            game.players[p as int].tr_increments >= inc1 + (CONVERSIONS_LIMIT - fuel)
                || game.players[p as int].tr_increments >= i64::MAX - 5,
        decreases fuel,
    {
        game.players[p].heat = game.players[p].heat - TEMPERATURE_HEAT_COST;
        raise_temperature(game, db, p, policy);
        fuel = fuel - 1;
    }
}

/// Phase III, Action: each blue card in play (and the corporation's
/// action) may be activated once, the selector once more per their Phase
/// card; the standard actions at will. Players act one action at a time in
/// turn order; one who passes is out; the phase ends when all have passed.
/// Then the compulsory conversions of plants and heat.
pub fn phase_action<P: Policy>(game: &mut GameState, db: &CardsDb, policy: &mut P)
    requires old(game).inv(db),
    ensures
        final(game).inv(db), final(game).step(old(game)),
        !db.effects_on ==> forall|q: int| 0 <= q < 2 ==> {
            &&& (#[trigger] final(game).players[q]).plants
                    < forest_plant_cost_spec(db, final(game).players[q].corporation)
                || final(game).snap_oxygen >= OXYGEN_MAX
            &&& final(game).players[q].heat < TEMPERATURE_HEAT_COST || final(game).snap_temperature >= TEMPERATURE_MAX
        },
        forall|q: int| 0 <= q < 2 ==> heat_converted(final(game), #[trigger] old(game).players[q], q),
        !db.effects_on && hp_nonneg(old(game)) && tiles_nonneg(old(game)) ==> hp_nonneg(final(game)),
{
    let order = game.players_in_turn_order();
    let mut blue0 = activable_cards(db, &game.players[0].played);
    let mut blue1 = activable_cards(db, &game.players[1].played);
    let mut corp0 = true;
    let mut corp1 = true;
    let ghost hp0 = !db.effects_on && hp_nonneg(old(game)) && tiles_nonneg(old(game));
    action_phase_start(game, db, order[0], policy);
    action_phase_start(game, db, order[1], policy);
    assert(game.oceans == old(game).oceans);
    let mut passed0 = false;
    let mut passed1 = false;
    let mut rounds: u32 = 0;
    while !(passed0 && passed1) && rounds < ACTION_ROUNDS_LIMIT
        invariant
            game.inv(db), game.step(old(game)), order[0] < 2, order[1] < 2, rounds <= ACTION_ROUNDS_LIMIT,
            hp0 == (!db.effects_on && hp_nonneg(old(game)) && tiles_nonneg(old(game))),
            hp0 ==> hp_nonneg(game) && tiles_nonneg(game),
            ids_ok(blue0@, db.projects@.len() as int), ids_ok(blue1@, db.projects@.len() as int),
        decreases ACTION_ROUNDS_LIMIT - rounds,
    {
        let mut k: usize = 0;
        while k < 2
            invariant
                k <= 2, game.inv(db), game.step(old(game)), order[0] < 2, order[1] < 2,
                hp0 == (!db.effects_on && hp_nonneg(old(game)) && tiles_nonneg(old(game))),
                hp0 ==> hp_nonneg(game) && tiles_nonneg(game),
                ids_ok(blue0@, db.projects@.len() as int), ids_ok(blue1@, db.projects@.len() as int),
            decreases 2 - k,
        {
            if order[k] == 0 {
                if !passed0 {
                    passed0 = action_turn(game, db, 0, &mut blue0, &mut corp0, policy);
                }
            } else if !passed1 {
                passed1 = action_turn(game, db, 1, &mut blue1, &mut corp1, policy);
            }
            k = k + 1;
        }
        rounds = rounds + 1;
    }
    let ghost g0 = *game;
    forced_conversions(game, db, order[0], policy);
    let ghost g1 = *game;
    forced_conversions(game, db, order[1], policy);
    proof {
        assert(order[1] == 1 - order[0]);
        assert(game.players[order[0] as int] == g1.players[order[0] as int]);
        assert forall|q: int| 0 <= q < 2 implies heat_converted(game, #[trigger] old(game).players[q], q) by {
            assert(old(game).players[q].tr_increments <= g0.players[q].tr_increments);
            assert(g0.players[q].tr_increments <= g1.players[q].tr_increments);
            if q == order[0] as int {
                assert(heat_converted(&g1, g0.players[q], q));
            } else {
                assert(heat_converted(game, g1.players[q], q));
            }
        }
    }
}


// ------------------------------------------------------------ phase IV

/// The income of one player in the Production phase: MC = MC production
/// + TR + the selector's bonus + derived MC; heat and plants = their
/// production + derived production. The derived production is counted
/// where it is credited.
pub fn collect_income(game: &mut GameState, db: &CardsDb, p: usize, bonus: i64)
    requires p < 2, old(game).inv(db),
    ensures
        final(game).inv(db), final(game).step(old(game)),
        ({
            let o = old(game).players[p as int];
            let (dm, dh, dq) = derived_production_spec(db, &o);
            &&& final(game).players[p as int].mc == clamp64(o.mc + clamp64(clamp64(clamp64(o.mc_prod + o.tr) + bonus) + dm))
            &&& final(game).players[p as int].heat == clamp64(o.heat + clamp64(o.heat_prod + dh))
            &&& final(game).players[p as int].plants == clamp64(o.plants + clamp64(o.plant_prod + dq))
            &&& final(game).players[p as int].same_but_money(o)
        }),
        final(game).players[1 - p as int] == old(game).players[1 - p as int],
{
    let (d_mc, d_heat, d_plants) = derived_production(db, &game.players[p]);
    let income = plus(plus(plus(game.players[p].mc_prod, game.players[p].tr), bonus), d_mc);
    game.players[p].mc = plus(game.players[p].mc, income);
    let h = plus(game.players[p].heat_prod, d_heat);
    game.players[p].heat = plus(game.players[p].heat, h);
    let q = plus(game.players[p].plant_prod, d_plants);
    game.players[p].plants = plus(game.players[p].plants, q);
    game.derived_mc = count_i64(game.derived_mc, d_mc);
    game.derived_heat = count_i64(game.derived_heat, d_heat);
    game.derived_plants = count_i64(game.derived_plants, d_plants);
}

/// Phase IV, Production: each player collects their income and draws
/// their card production; the upgraded Phase card may play the production
/// of one green card once more, after the ordinary production.
/// `f` holds what `o` had plus its income of the Production phase with
/// `bonus` MC from the selector (`collect_income`'s formula).
pub open spec fn income_received(db: &CardsDb, o: PlayerState, f: PlayerState, bonus: i64) -> bool {
    let (dm, dh, dq) = derived_production_spec(db, &o);
    &&& f.mc == clamp64(o.mc + clamp64(clamp64(clamp64(o.mc_prod + o.tr) + bonus) + dm))
    &&& f.heat == clamp64(o.heat + clamp64(o.heat_prod + dh))
    &&& f.plants == clamp64(o.plants + clamp64(o.plant_prod + dq))
}

pub fn phase_production<P: Policy>(game: &mut GameState, db: &CardsDb, policy: &mut P)
    requires old(game).inv(db),
    ensures
        final(game).inv(db), final(game).step(old(game)),
        forall|q: int| 0 <= q < 2 && old(game).players[q].chosen_phase != 4 ==>
            income_received(db, old(game).players[q], #[trigger] final(game).players[q], 0),
{
    let mut p: usize = 0;
    while p < 2
        invariant
            p <= 2, game.inv(db), game.step(old(game)),
            forall|q: int| p <= q < 2 ==> #[trigger] game.players[q] == old(game).players[q],
            forall|q: int| 0 <= q < p && old(game).players[q].chosen_phase != 4 ==>
                income_received(db, old(game).players[q], #[trigger] game.players[q], 0),
        decreases 2 - p,
    {
        let ghost pl0 = game.players[p as int];
        let ghost other = game.players[1 - p as int];
        let sb = selector_bonus_applied(game, db, p, 4);
        proof { lemma_bonus_has_branch(db, &pl0, 4, sb); }
        let gi = selector_branch(game, &sb, p, policy);
        let g = &sb.spec.branches[gi];
        collect_income(game, db, p, g.mc);
        let n = game.players[p].card_prod;
        if n > 0 {
            draw_to_hand(game, db, p, n as u64);
        }
        if g.replay_green_prod {
            replay_green_production(game, db, p, policy);
        }
        proof {
            assert(game.players[1 - p as int] == other);
            if pl0.chosen_phase != 4 {
                assert(gi == 0);
                assert(income_received(db, pl0, game.players[p as int], 0));
            }
        }
        p = p + 1;
    }
}

/// Green cards in play of `s` that produce something.
pub open spec fn producing_green(db: &CardsDb, pl: &PlayerState, s: Seq<u16>) -> Seq<u16>
    decreases s.len(),
{
    if s.len() == 0 {
        s
    } else {
        let prev = producing_green(db, pl, s.drop_last());
        let c = s.last();
        if db.projects@[c as int].color == Color::Green && card_production_spec(db, pl, c) != (0i64, 0i64, 0i64, 0i64) {
            prev.push(c)
        } else {
            prev
        }
    }
}

/// The green cards in play of a player that produce something, in the
/// order they were built.
pub fn producing_green_cards(db: &CardsDb, pl: &PlayerState) -> (r: Vec<u16>)
    requires ids_ok(pl.played@, db.projects@.len() as int),
    ensures r@ == producing_green(db, pl, pl.played@), ids_ok(r@, db.projects@.len() as int),
{
    let mut out: Vec<u16> = Vec::new();
    let mut i: usize = 0;
    while i < pl.played.len()
        invariant
            i <= pl.played@.len(), ids_ok(pl.played@, db.projects@.len() as int),
            out@ == producing_green(db, pl, pl.played@.subrange(0, i as int)),
            ids_ok(out@, db.projects@.len() as int),
        decreases pl.played@.len() - i,
    {
        proof {
            assert(pl.played@.subrange(0, i + 1).drop_last() =~= pl.played@.subrange(0, i as int));
        }
        let c = pl.played[i];
        let prod = card_production(db, pl, c);
        if db.projects[c as usize].color == Color::Green && !(prod.0 == 0 && prod.1 == 0 && prod.2 == 0 && prod.3 == 0) {
            out.push(c);
        }
        i = i + 1;
    }
    proof { assert(pl.played@.subrange(0, pl.played@.len() as int) =~= pl.played@); }
    out
}

/// The upgraded Production card: the production of ONE green card of the
/// player (fixed and derived, as `card_production` reads it), picked by
/// the policy, once more. A green card that produces nothing is no
/// candidate; one candidate needs no question.
/// `b` is `a` after receiving the MC, heat and plants of `prod`.
pub open spec fn got_production(a: PlayerState, b: PlayerState, prod: (i64, i64, i64, i64)) -> bool {
    &&& b.mc == clamp64(a.mc + prod.0)
    &&& b.heat == clamp64(a.heat + prod.1)
    &&& b.plants == clamp64(a.plants + prod.2)
}

pub fn replay_green_production<P: Policy>(game: &mut GameState, db: &CardsDb, p: usize, policy: &mut P)
    requires p < 2, old(game).inv(db),
    ensures
        final(game).inv(db), final(game).step(old(game)),
        final(game).players[1 - p as int] == old(game).players[1 - p as int],
        ({
            let o = old(game).players[p as int];
            let cs = producing_green(db, &o, o.played@);
            &&& cs.len() == 0 ==> *final(game) == *old(game)
            &&& cs.len() == 1 ==> got_production(o, final(game).players[p as int], card_production_spec(db, &o, cs[0]))
            &&& cs.len() > 1 ==> final(game).players[p as int] == o
                || exists|k: int| 0 <= k < cs.len()
                    && got_production(o, final(game).players[p as int], #[trigger] card_production_spec(db, &o, cs[k]))
        }),
{
    let cands = producing_green_cards(db, &game.players[p]);
    if cands.len() == 0 {
        return;
    }
    let i = if cands.len() == 1 {
        0
    } else {
        let ctx = ChoiceContext::ReplayProduction { candidates: copy_ids(&cands) };
        policy.observe(game, p);
        policy.choose_option_ctx(&mut game.rng, p, &ctx)
    };
    if i >= cands.len() {
        return;
    }
    let (mc, heat, plants, cards) = card_production(db, &game.players[p], cands[i]);
    assert(card_production_spec(db, &old(game).players[p as int], cands@[i as int]) == (mc, heat, plants, cards));
    game.players[p].mc = plus(game.players[p].mc, mc);
    game.players[p].heat = plus(game.players[p].heat, heat);
    game.players[p].plants = plus(game.players[p].plants, plants);
    if cards > 0 {
        draw_to_hand(game, db, p, cards as u64);
    }
}

// ------------------------------------------------------------- phase V

/// Draws up to `n` cards from the pile (the discard reshuffled when the
/// pile runs out), fewer when both are empty.
pub fn draw_n(game: &mut GameState, db: &CardsDb, n: usize) -> (r: Vec<u16>)
    requires old(game).inv(db),
    ensures
        r@.len() <= n,
        r@.len() == (if n <= old(game).deck@.len() + old(game).discard@.len() { n as int }
            else { (old(game).deck@.len() + old(game).discard@.len()) as int }),
        final(game).deck@.to_multiset().add(final(game).discard@.to_multiset()).add(r@.to_multiset())
            == old(game).deck@.to_multiset().add(old(game).discard@.to_multiset()),
        final(game).deck@.len() + final(game).discard@.len() + r@.len()
            == old(game).deck@.len() + old(game).discard@.len(),
        ids_ok(r@, db.projects@.len() as int),
        ids_ok(final(game).deck@, db.projects@.len() as int),
        ids_ok(final(game).discard@, db.projects@.len() as int),
        final(game).players == old(game).players,
        final(game).same_but_piles(*old(game)),
{
    let mut out: Vec<u16> = Vec::new();
    proof {
        broadcast use vstd::multiset::group_multiset_axioms;
        vstd::seq_lib::to_multiset_len(out@);
        vstd::multiset::lemma_multiset_empty_len(out@.to_multiset());
        assert(game.deck@.to_multiset().add(game.discard@.to_multiset()).add(out@.to_multiset())
            =~= game.deck@.to_multiset().add(game.discard@.to_multiset()));
    }
    let mut k: usize = 0;
    while k < n
        invariant
            k <= n, out@.len() == k,
            game.deck@.len() + game.discard@.len() + out@.len() == old(game).deck@.len() + old(game).discard@.len(),
            game.deck@.to_multiset().add(game.discard@.to_multiset()).add(out@.to_multiset())
                == old(game).deck@.to_multiset().add(old(game).discard@.to_multiset()),
            ids_ok(out@, db.projects@.len() as int),
            ids_ok(game.deck@, db.projects@.len() as int),
            ids_ok(game.discard@, db.projects@.len() as int),
            game.players == old(game).players,
            game.same_but_piles(*old(game)),
        decreases n - k,
    {
        let ghost o = out@;
        let ghost g0 = *game;
        match draw_card(game) {
            Some(c) => {
                out.push(c);
                proof {
                    broadcast use vstd::multiset::group_multiset_axioms;
                    vstd::seq_lib::to_multiset_build(o, c);
                    assert(game.deck@.to_multiset().add(game.discard@.to_multiset()).add(o.to_multiset().insert(c))
                        =~= game.deck@.to_multiset().add(game.discard@.to_multiset()).add(Multiset::singleton(c))
                            .add(o.to_multiset()));
                }
            }
            None => {
                proof {
                    broadcast use vstd::multiset::group_multiset_axioms;
                    assert(game.deck@.to_multiset().add(game.discard@.to_multiset()).add(Multiset::empty())
                        =~= game.deck@.to_multiset().add(game.discard@.to_multiset()));
                }
                return out;
            }
        }
        k = k + 1;
    }
    out
}

/// Phase V, Research: each player in turn order draws their number of
/// cards and keeps their number of them (base 2 / 1, the selector's Phase
/// card and the permanent bonuses of their cards on top); the others are
/// discarded.
pub fn phase_research<P: Policy>(game: &mut GameState, db: &CardsDb, policy: &mut P)
    requires old(game).inv(db),
    ensures
        final(game).inv(db), final(game).step(old(game)),
        ({
            let a = old(game).first_player as int;
            let b = 1 - a;
            let avail = (old(game).deck@.len() + old(game).discard@.len()) as int;
            let ka = research_kept(db, &old(game).players[a], avail);
            let kb = research_kept(db, &old(game).players[b], avail - ka);
            &&& final(game).players[a].hand@.len() == old(game).players[a].hand@.len() + ka
            &&& final(game).players[b].hand@.len() == old(game).players[b].hand@.len() + kb
            &&& final(game).deck@.len() + final(game).discard@.len() + ka + kb == avail
        }),
{
    let order = game.players_in_turn_order();
    research_turn(game, db, order[0], policy);
    research_turn(game, db, order[1], policy);
    proof {
        assert(order[1] == 1 - order[0]);
    }
}

/// The Research phase of one player.
/// How many cards a player keeps in Research when `avail` cards can be
/// drawn: their number to keep, at most the cards they could draw.
pub open spec fn research_kept(db: &CardsDb, pl: &PlayerState, avail: int) -> int {
    let (n, keep) = research_draw_keep_spec(db, pl);
    let drawn: int = if n <= avail { n as int } else { avail };
    if keep < drawn { keep as int } else { drawn }
}

fn research_turn<P: Policy>(game: &mut GameState, db: &CardsDb, p: usize, policy: &mut P)
    requires p < 2, old(game).inv(db),
    ensures
        final(game).inv(db), final(game).step(old(game)),
        ({
            let avail = old(game).deck@.len() + old(game).discard@.len();
            let kept = research_kept(db, &old(game).players[p as int], avail as int);
            &&& final(game).players[p as int].hand@.len() == old(game).players[p as int].hand@.len() + kept
            &&& final(game).players[p as int].hand@.subrange(0, old(game).players[p as int].hand@.len() as int)
                == old(game).players[p as int].hand@
            &&& final(game).deck@.len() + final(game).discard@.len() + kept == avail
        }),
        final(game).players[1 - p as int] == old(game).players[1 - p as int],
{
    selector_bonus_applied(game, db, p, 5);
    let (base_n, _) = research_base(db, &game.players[p]);
    let (n, keep) = research_draw_keep(db, &game.players[p]);
    let ghost g1 = *game;
    let drawn = draw_n(game, db, n);
    let extra = if drawn.len() > base_n { (drawn.len() - base_n) as u64 } else { 0 };
    game.research_extra_draws = count(game.research_extra_draws, extra);
    let keep = if keep < drawn.len() { keep } else { drawn.len() };
    policy.observe(game, p);
    let kept = policy.research_keep(&mut game.rng, p, drawn.as_slice(), keep);
    let flags = distinct_flags(&kept, drawn.len());
    let ghost h0 = old(game).players[p as int].hand@;
    assert(game.players[p as int].hand@ == h0);
    proof { assert(flags@.subrange(0, 0) =~= Seq::<bool>::empty()); }
    let mut i: usize = 0;
    while i < drawn.len()
        invariant
            i <= drawn@.len(), p < 2, flags@.len() == drawn@.len(),
            ids_ok(drawn@, db.projects@.len() as int),
            game.inv(db), game.moves(&g1),
            game.cards_total() + (drawn@.len() - i) == g1.cards_total(),
            game.players[p as int].hand@.len() == h0.len() + count_true(flags@.subrange(0, i as int)),
            game.players[p as int].hand@.subrange(0, h0.len() as int) == h0,
            game.players[1 - p as int] == old(game).players[1 - p as int],
            game.deck@.len() + game.discard@.len() + (drawn@.len() - i) + count_true(flags@.subrange(0, i as int))
                == old(game).deck@.len() + old(game).discard@.len(),
        decreases drawn@.len() - i,
    {
        let c = drawn[i];
        let ghost h = game.players[p as int].hand@;
        proof { assert(flags@.subrange(0, i as int + 1).drop_last() =~= flags@.subrange(0, i as int)); }
        if flags[i] {
            game.players[p].hand.push(c);
            proof { assert(game.players[p as int].hand@.subrange(0, h0.len() as int) =~= h.subrange(0, h0.len() as int)); }
        } else {
            game.discard.push(c);
        }
        i = i + 1;
    }
    proof { assert(flags@.subrange(0, drawn@.len() as int) =~= flags@); }
}

/// `n` flags, set at the given indices.
pub fn flags_of(idx: &Vec<usize>, n: usize) -> (r: Vec<bool>)
    ensures
        r@.len() == n,
        forall|i: int| 0 <= i < n ==> (r@[i] <==> exists|k: int| 0 <= k < idx@.len() && idx@[k] == i),
{
    let mut flags: Vec<bool> = Vec::new();
    let mut i: usize = 0;
    while i < n
        invariant i <= n, flags@.len() == i, forall|j: int| 0 <= j < i ==> !flags@[j],
        decreases n - i,
    {
        flags.push(false);
        i = i + 1;
    }
    let mut k: usize = 0;
    while k < idx.len()
        invariant
            k <= idx@.len(), flags@.len() == n,
            forall|i: int| 0 <= i < n ==> (flags@[i] <==> exists|j: int| 0 <= j < k && idx@[j] == i),
        decreases idx@.len() - k,
    {
        let x = idx[k];
        if x < n {
            flags.set(x, true);
        }
        proof {
            assert forall|i: int| 0 <= i < n implies (flags@[i] <==> exists|j: int| 0 <= j < k + 1 && idx@[j] == i) by {
                if i == x as int {
                    assert(idx@[k as int] == i);
                } else if exists|j: int| 0 <= j < k + 1 && idx@[j] == i {
                    let j = choose|j: int| 0 <= j < k + 1 && idx@[j] == i;
                    assert(j < k);
                }
            }
        }
        k = k + 1;
    }
    flags
}

// -------------------------------------------------------------- reveal

/// Cards of `s` that carry a bonus « when you reveal an upgraded Phase card ».
pub open spec fn reveal_sources(db: &CardsDb, s: Seq<u16>) -> Seq<u16>
    decreases s.len(),
{
    if s.len() == 0 {
        s
    } else {
        let prev = reveal_sources(db, s.drop_last());
        if db.projects@[s.last() as int].effect matches Some(e) && e.reveal_bonus@.len() > 0 {
            prev.push(s.last())
        } else {
            prev
        }
    }
}

/// The cards in play that carry a reveal bonus, in the order they were built.
fn reveal_source_cards(db: &CardsDb, played: &Vec<u16>) -> (r: Vec<u16>)
    requires ids_ok(played@, db.projects@.len() as int),
    ensures r@ == reveal_sources(db, played@), ids_ok(r@, db.projects@.len() as int),
{
    let mut out: Vec<u16> = Vec::new();
    let mut i: usize = 0;
    while i < played.len()
        invariant
            i <= played@.len(), ids_ok(played@, db.projects@.len() as int),
            out@ == reveal_sources(db, played@.subrange(0, i as int)),
            ids_ok(out@, db.projects@.len() as int),
        decreases played@.len() - i,
    {
        proof {
            assert(played@.subrange(0, i + 1).drop_last() =~= played@.subrange(0, i as int));
        }
        let c = played[i];
        let has = match &db.projects[c as usize].effect {
            Some(e) => e.reveal_bonus.len() > 0,
            None => false,
        };
        if has {
            out.push(c);
        }
        i = i + 1;
    }
    proof { assert(played@.subrange(0, played@.len() as int) =~= played@); }
    out
}

/// A player has revealed their Phase card: if it is upgraded, every card
/// of theirs in play with a reveal bonus pays it, for this player only.
/// Nothing with the effect layer off.
pub fn fire_upgraded_reveal<P: Policy>(game: &mut GameState, db: &CardsDb, p: usize, policy: &mut P)
    requires p < 2, old(game).inv(db),
    ensures
        final(game).inv(db), final(game).step(old(game)),
        !db.effects_on || old(game).players[p as int].phase_upgrade_spec(old(game).players[p as int].chosen_phase) is None
            || reveal_sources(db, old(game).players[p as int].played@).len() == 0 ==> *final(game) == *old(game),
{
    if !db.effects_on {
        return;
    }
    let phase = game.players[p].chosen_phase;
    if game.players[p].phase_upgrade(phase).is_none() {
        return;
    }
    let sources = reveal_source_cards(db, &game.players[p].played);
    let mut i: usize = 0;
    while i < sources.len()
        invariant
            i <= sources@.len(), p < 2, game.inv(db), game.step(old(game)),
            ids_ok(sources@, db.projects@.len() as int),
            sources@ == reveal_sources(db, old(game).players[p as int].played@),
            sources@.len() == 0 ==> *game == *old(game),
        decreases sources@.len() - i,
    {
        let c = sources[i];
        match &db.projects[c as usize].effect {
            Some(e) => {
                let effs = &e.reveal_bonus;
                let mut j: usize = 0;
                while j < effs.len()
                    invariant j <= effs@.len(), p < 2, game.inv(db), game.step(old(game)),
                    decreases effs@.len() - j,
                {
                    apply_eff(game, db, p, &effs[j], policy, true);
                    j = j + 1;
                }
            }
            None => {}
        }
        game.upgraded_reveal_bonuses = count(game.upgraded_reveal_bonuses, 1);
        i = i + 1;
    }
}

// ----------------------------------------------------------- milestones

/// What a milestone slot becomes at a phase transition: a slot nobody has
/// claimed goes to every player who meets its goal; a claimed one stays.
pub open spec fn claimed_after(slot: MilestoneSlot, players: [PlayerState; 2], p: int) -> bool {
    if slot.achieved_by[0] || slot.achieved_by[1] {
        slot.achieved_by[p]
    } else {
        milestone_value_spec(slot.kind, &players[p]) >= milestone_goal_spec(slot.kind)
    }
}

/// An unclaimed milestone goes at a phase transition to exactly the
/// players whose value reaches its threshold; Magnate, to those with at
/// least 8 green cards in play. A claimed milestone stays with whoever
/// claimed it and goes to nobody else.
pub proof fn lemma_milestone_claims(slot: MilestoneSlot, players: [PlayerState; 2], p: int)
    requires 0 <= p < 2,
    ensures
        !slot.achieved_by[0] && !slot.achieved_by[1] ==> (claimed_after(slot, players, p)
            <==> milestone_value_spec(slot.kind, &players[p]) >= milestone_goal_spec(slot.kind)),
        !slot.achieved_by[0] && !slot.achieved_by[1] && slot.kind == MilestoneKind::Magnate ==>
            (claimed_after(slot, players, p) <==> players[p].color_counts[color_index(Color::Green) as int] >= 8),
        slot.achieved_by[0] || slot.achieved_by[1] ==> (claimed_after(slot, players, p) == slot.achieved_by[p]),
{
    crate::flow::lemma_milestone_values(&players[p]);
}

/// Nothing but the milestones (and the audit counters) differs.
pub open spec fn same_but_milestones(a: &GameState, o: &GameState) -> bool {
    &&& a.deck == o.deck && a.discard == o.discard && a.players == o.players
    &&& a.corp_deck == o.corp_deck && a.corp_discard == o.corp_discard
    &&& a.oceans == o.oceans && a.oceans_revealed == o.oceans_revealed
    &&& a.temperature == o.temperature && a.oxygen == o.oxygen
    &&& a.infrastructure == o.infrastructure
    &&& a.generation == o.generation && a.awards == o.awards && a.game_over == o.game_over
    &&& a.snap_temperature == o.snap_temperature && a.snap_oxygen == o.snap_oxygen
    &&& a.snap_oceans == o.snap_oceans && a.snap_infrastructure == o.snap_infrastructure
    &&& a.first_player == o.first_player && a.turn_order == o.turn_order
}

/// Milestones at a phase transition: an unclaimed milestone is claimed by
/// every player who meets its goal (simultaneous claims all score).
#[verifier::spinoff_prover]
#[verifier::rlimit(30)]
pub fn assign_milestones(game: &mut GameState)
    ensures
        forall|i: int, p: int| 0 <= i < 3 && 0 <= p < 2 ==>
            #[trigger] final(game).milestones[i].achieved_by[p] == claimed_after(old(game).milestones[i], old(game).players, p),
        forall|i: int| 0 <= i < 3 ==> #[trigger] final(game).milestones[i].kind == old(game).milestones[i].kind,
        same_but_milestones(final(game), old(game)),
        *final(game) == (GameState { milestones: final(game).milestones, ..*old(game) }),
{
    let mut i: usize = 0;
    while i < 3
        invariant
            i <= 3,
            forall|j: int, p: int| 0 <= j < i && 0 <= p < 2 ==>
                #[trigger] game.milestones[j].achieved_by[p] == claimed_after(old(game).milestones[j], old(game).players, p),
            forall|j: int| i <= j < 3 ==> #[trigger] game.milestones[j] == old(game).milestones[j],
            forall|j: int| 0 <= j < 3 ==> #[trigger] game.milestones[j].kind == old(game).milestones[j].kind,
            same_but_milestones(game, old(game)),
            *game == (GameState { milestones: game.milestones, ..*old(game) }),
        decreases 3 - i,
    {
        let slot = game.milestones[i];
        if !(slot.achieved_by[0] || slot.achieved_by[1]) {
            let goal = milestone_goal(slot.kind);
            let a0 = milestone_value(slot.kind, &game.players[0]) >= goal;
            let a1 = milestone_value(slot.kind, &game.players[1]) >= goal;
            game.milestones[i] = MilestoneSlot { kind: slot.kind, achieved_by: [a0, a1] };
        }
        proof {
            assert(game.milestones[i as int].achieved_by[0] == claimed_after(old(game).milestones[i as int], old(game).players, 0));
            assert(game.milestones[i as int].achieved_by[1] == claimed_after(old(game).milestones[i as int], old(game).players, 1));
        }
        i = i + 1;
    }
}


// ---------------------------------------------------------------- round

/// Number of set flags in `s`.
pub open spec fn count_true(s: Seq<bool>) -> nat
    decreases s.len(),
{
    if s.len() == 0 { 0 } else { count_true(s.drop_last()) + if s.last() { 1nat } else { 0nat } }
}

/// Setting one flag that was clear adds one to the count.
proof fn lemma_count_set(s: Seq<bool>, x: int)
    requires 0 <= x < s.len(), !s[x],
    ensures count_true(s.update(x, true)) == count_true(s) + 1,
    decreases s.len(),
{
    let t = s.update(x, true);
    if x == s.len() - 1 {
        assert(t.drop_last() =~= s.drop_last());
    } else {
        assert(t.drop_last() =~= s.drop_last().update(x, true));
        lemma_count_set(s.drop_last(), x);
    }
}

/// Flags of distinct indices below `n`: as many set flags as indices.
fn distinct_flags(idx: &Vec<usize>, n: usize) -> (r: Vec<bool>)
    requires distinct_below(idx@, n as int),
    ensures
        r@.len() == n,
        count_true(r@) == idx@.len(),
        forall|i: int| 0 <= i < n ==> (r@[i] <==> exists|k: int| 0 <= k < idx@.len() && idx@[k] == i),
{
    let mut flags: Vec<bool> = Vec::new();
    let mut i: usize = 0;
    while i < n
        invariant i <= n, flags@.len() == i, forall|j: int| 0 <= j < i ==> !flags@[j], count_true(flags@) == 0,
        decreases n - i,
    {
        proof { assert(flags@.push(false).drop_last() =~= flags@); }
        flags.push(false);
        i = i + 1;
    }
    let mut k: usize = 0;
    while k < idx.len()
        invariant
            k <= idx@.len(), flags@.len() == n, distinct_below(idx@, n as int),
            count_true(flags@) == k,
            forall|i: int| 0 <= i < n ==> (flags@[i] <==> exists|j: int| 0 <= j < k && idx@[j] == i),
        decreases idx@.len() - k,
    {
        let x = idx[k];
        proof {
            if flags@[x as int] {
                let j = choose|j: int| 0 <= j < k && idx@[j] == x;
                assert(idx@[j] != idx@[k as int]);
            }
            lemma_count_set(flags@, x as int);
        }
        flags.set(x, true);
        proof {
            assert forall|i: int| 0 <= i < n implies (flags@[i] <==> exists|j: int| 0 <= j < k + 1 && idx@[j] == i) by {
                if i == x as int {
                    assert(idx@[k as int] == i);
                } else if exists|j: int| 0 <= j < k + 1 && idx@[j] == i {
                    let j = choose|j: int| 0 <= j < k + 1 && idx@[j] == i;
                    assert(j < k);
                }
            }
        }
        k = k + 1;
    }
    flags
}

/// Removes from player `p`'s hand the cards at the flagged indices, from
/// the highest index down, each to the discard pile with `mc_each` MC and
/// `bonus_each` on the discard-bonus counter. Returns how many left.
pub fn discard_flagged(game: &mut GameState, db: &CardsDb, p: usize, flags: &Vec<bool>, mc_each: i64, bonus_each: u64)
    -> (r: usize)
    requires p < 2, old(game).inv(db), flags@.len() == old(game).players[p as int].hand@.len(),
    ensures
        final(game).inv(db), final(game).step(old(game)),
        final(game).players[p as int].played == old(game).players[p as int].played,
        r == count_true(flags@),
        final(game).players[p as int].hand@.len() == old(game).players[p as int].hand@.len() - count_true(flags@),
        final(game).players[1 - p as int] == old(game).players[1 - p as int],
        final(game).deck == old(game).deck,
        final(game).discard@.len() == old(game).discard@.len() + r,
{
    let len = game.players[p].hand.len();
    let ghost h0 = game.players[p as int].hand@;
    let mut i: usize = len;
    let mut removed: usize = 0;
    proof { assert(flags@.subrange(0, len as int) =~= flags@); }
    while i > 0
        invariant
            i <= len, len == h0.len(), flags@.len() == len, p < 2,
            game.players[p as int].hand@.len() >= i,
            game.players[p as int].hand@.subrange(0, i as int) == h0.subrange(0, i as int),
            game.players[p as int].hand@.len() == len - count_true(flags@) + count_true(flags@.subrange(0, i as int)),
            removed == count_true(flags@) - count_true(flags@.subrange(0, i as int)),
            game.deck == old(game).deck, game.discard@.len() == old(game).discard@.len() + removed,
            game.inv(db), game.step(old(game)), game.players[p as int].played == old(game).players[p as int].played,
            game.players[1 - p as int] == old(game).players[1 - p as int],
        decreases i,
    {
        i = i - 1;
        proof {
            assert(flags@.subrange(0, i + 1).drop_last() =~= flags@.subrange(0, i as int));
            assert(game.players[p as int].hand@.subrange(0, i + 1)[i as int] == h0.subrange(0, i + 1)[i as int]);
        }
        if flags[i] {
            let ghost before = game.players[p as int].hand@;
            let card = game.players[p].hand.remove(i);
            proof {
                assert(game.players[p as int].hand@.subrange(0, i as int) =~= h0.subrange(0, i as int)) by {
                    assert forall|k: int| 0 <= k < i implies game.players[p as int].hand@[k] == h0[k] by {
                        assert(before.subrange(0, i + 1)[k] == h0.subrange(0, i + 1)[k]);
                    }
                }
                assert(ids_ok(before, db.projects@.len() as int));
                assert forall|k: int| 0 <= k < game.players[p as int].hand@.len() implies
                    (game.players[p as int].hand@[k] as int) < db.projects@.len() by {
                    if k < i { assert(game.players[p as int].hand@[k] == before[k]); }
                    else { assert(game.players[p as int].hand@[k] == before[k + 1]); }
                }
            }
            game.discard.push(card);
            game.players[p].mc = plus(game.players[p].mc, mc_each);
            game.discard_bonus_mc = count(game.discard_bonus_mc, bonus_each);
            removed = removed + 1;
        } else {
            proof {
                assert(game.players[p as int].hand@.subrange(0, i as int) =~= h0.subrange(0, i as int)) by {
                    assert forall|k: int| 0 <= k < i implies game.players[p as int].hand@[k] == h0[k] by {
                        assert(game.players[p as int].hand@.subrange(0, i + 1)[k] == h0.subrange(0, i + 1)[k]);
                    }
                }
            }
        }
    }
    proof { assert(flags@.subrange(0, 0) =~= Seq::<bool>::empty()); }
    removed
}

/// The end step for one player: down to the hand limit, the policy
/// picking the cards; each card discarded pays the discard rate in MC.
pub fn discard_to_hand_limit<P: Policy>(game: &mut GameState, db: &CardsDb, p: usize, policy: &mut P)
    requires p < 2, old(game).inv(db),
    ensures
        final(game).inv(db), final(game).step(old(game)),
        final(game).players[p as int].hand@.len() == if old(game).players[p as int].hand@.len() > HAND_LIMIT {
            HAND_LIMIT as int } else { old(game).players[p as int].hand@.len() as int },
        final(game).players[1 - p as int] == old(game).players[1 - p as int],
{
    let len = game.players[p].hand.len();
    if len <= HAND_LIMIT {
        return;
    }
    let over = len - HAND_LIMIT;
    let snapshot = copy_ids(&game.players[p].hand);
    policy.observe(game, p);
    let idx = policy.discard_down(&mut game.rng, p, snapshot.as_slice(), over);
    let flags = distinct_flags(&idx, len);
    let rate = discard_mc_rate(db, &game.players[p]);
    let bonus = discard_bonus_per_card(db, &game.players[p]);
    discard_flagged(game, db, p, &flags, rate, bonus);
}

/// What a round keeps: the number of project cards, the global parameters
/// and the TR counters never going down, milestone claims never lost, the
/// corporations, the ocean tiles and the awards.
pub open spec fn round_progress(a: &GameState, o: &GameState) -> bool {
    &&& a.cards_total() == o.cards_total()
    &&& o.temperature <= a.temperature && o.oxygen <= a.oxygen
    &&& o.oceans_revealed <= a.oceans_revealed && o.infrastructure <= a.infrastructure
    &&& a.oceans == o.oceans && a.awards == o.awards
    &&& a.corp_deck == o.corp_deck && a.corp_discard == o.corp_discard
    &&& forall|i: int| 0 <= i < 3 ==> {
        &&& (#[trigger] a.milestones[i]).kind == o.milestones[i].kind
        &&& (o.milestones[i].achieved_by[0] ==> a.milestones[i].achieved_by[0])
        &&& (o.milestones[i].achieved_by[1] ==> a.milestones[i].achieved_by[1])
    }
    &&& forall|p: int| 0 <= p < 2 ==> {
        &&& (#[trigger] a.players[p]).corporation == o.players[p].corporation
        &&& o.players[p].tr_increments <= a.players[p].tr_increments
        &&& o.players[p].tr_decrements <= a.players[p].tr_decrements
        &&& o.players[p].forests <= a.players[p].forests
    }
}

/// What a round keeps is kept from step to step.
proof fn lemma_progress_trans(c: &GameState, b: &GameState, a: &GameState)
    requires
        round_progress(b, a),
        round_progress(c, b) || c.step(b),
    ensures round_progress(c, a),
{
    assert forall|i: int| 0 <= i < 3 implies {
        &&& (#[trigger] c.milestones[i]).kind == a.milestones[i].kind
        &&& (a.milestones[i].achieved_by[0] ==> c.milestones[i].achieved_by[0])
        &&& (a.milestones[i].achieved_by[1] ==> c.milestones[i].achieved_by[1])
    } by {
        assert(b.milestones[i].kind == a.milestones[i].kind);
    }
    assert forall|p: int| 0 <= p < 2 implies {
        &&& (#[trigger] c.players[p]).corporation == a.players[p].corporation
        &&& a.players[p].tr_increments <= c.players[p].tr_increments
        &&& a.players[p].tr_decrements <= c.players[p].tr_decrements
    } by {
        assert(b.players[p].corporation == a.players[p].corporation);
    }
}

/// A phase transition: the planet snapshot is taken, the once-per-phase
/// flags are reset (first TR rise, extra builds and modifiers not used
/// die here), the phase is played, the milestones are assigned.
fn run_phase<P: Policy>(game: &mut GameState, db: &CardsDb, phase: u8, policy: &mut P)
    requires old(game).inv(db), 1 <= phase <= 5,
    ensures
        final(game).inv(db), round_progress(final(game), old(game)),
        final(game).generation == old(game).generation, final(game).first_player == old(game).first_player,
        final(game).game_over == old(game).game_over, final(game).turn_order == old(game).turn_order,
        forall|p: int| 0 <= p < 2 ==> {
            &&& (#[trigger] final(game).players[p]).chosen_phase == old(game).players[p].chosen_phase
            &&& final(game).players[p].previous_phase == old(game).players[p].previous_phase
        },
{
    game.snapshot_planet();
    let mut p: usize = 0;
    while p < 2
        invariant
            p <= 2, game.inv(db), game.cards_total() == old(game).cards_total(),
            game.temperature == old(game).temperature && game.oxygen == old(game).oxygen,
            game.oceans_revealed == old(game).oceans_revealed && game.infrastructure == old(game).infrastructure,
            game.oceans == old(game).oceans && game.awards == old(game).awards && game.milestones == old(game).milestones,
            game.corp_deck == old(game).corp_deck && game.corp_discard == old(game).corp_discard,
            game.generation == old(game).generation, game.first_player == old(game).first_player,
            game.game_over == old(game).game_over, game.turn_order == old(game).turn_order,
            forall|q: int| 0 <= q < 2 ==> {
                &&& (#[trigger] game.players[q]).corporation == old(game).players[q].corporation
                &&& game.players[q].tr_increments == old(game).players[q].tr_increments
                &&& game.players[q].tr_decrements == old(game).players[q].tr_decrements
                &&& game.players[q].forests == old(game).players[q].forests
                &&& game.players[q].chosen_phase == old(game).players[q].chosen_phase
                &&& game.players[q].previous_phase == old(game).players[q].previous_phase
            },
        decreases 2 - p,
    {
        game.players[p].tr_raised_this_phase = false;
        game.players[p].pending_builds.clear();
        game.players[p].next_card_mod = NextCardMod::none();
        p = p + 1;
    }
    let ghost g1 = *game;
    if phase == 1 {
        phase_development(game, db, policy);
    } else if phase == 2 {
        phase_construction(game, db, policy);
    } else if phase == 3 {
        phase_action(game, db, policy);
    } else if phase == 4 {
        phase_production(game, db, policy);
    } else {
        phase_research(game, db, policy);
    }
    assert(game.step(&g1));
    let ghost g2 = *game;
    assign_milestones(game);
    proof {
        assert forall|i: int| 0 <= i < 3 implies {
            &&& (#[trigger] game.milestones[i]).kind == old(game).milestones[i].kind
            &&& (old(game).milestones[i].achieved_by[0] ==> game.milestones[i].achieved_by[0])
            &&& (old(game).milestones[i].achieved_by[1] ==> game.milestones[i].achieved_by[1])
        } by {
            assert(game.milestones[i].achieved_by[0] == claimed_after(g2.milestones[i], g2.players, 0));
            assert(game.milestones[i].achieved_by[1] == claimed_after(g2.milestones[i], g2.players, 1));
        }
        assert forall|q: int| 0 <= q < 2 implies {
            &&& (#[trigger] game.players[q]).chosen_phase == old(game).players[q].chosen_phase
            &&& game.players[q].previous_phase == old(game).players[q].previous_phase
            &&& game.players[q].corporation == old(game).players[q].corporation
            &&& old(game).players[q].tr_increments <= game.players[q].tr_increments
            &&& old(game).players[q].tr_decrements <= game.players[q].tr_decrements
            &&& old(game).players[q].forests <= game.players[q].forests
        } by {
            assert(g2.players[q] == game.players[q]);
        }
    }
}

/// Planning for one player: the policy picks a phase other than the one
/// they played last round; the Phase card revealed, an upgraded one pays
/// the reveal bonuses of their cards. Returns the phase.
fn plan_phase<P: Policy>(game: &mut GameState, db: &CardsDb, p: usize, policy: &mut P) -> (ph: u8)
    requires p < 2, old(game).inv(db),
    ensures
        final(game).inv(db),
        1 <= ph <= 5,
        old(game).players[p as int].previous_phase != Some(ph),
        final(game).players[p as int].chosen_phase == ph,
        final(game).players[p as int].previous_phase == Some(ph),
        final(game).players[1 - p as int].chosen_phase == old(game).players[1 - p as int].chosen_phase,
        final(game).players[1 - p as int].previous_phase == old(game).players[1 - p as int].previous_phase,
        round_progress(final(game), old(game)),
        final(game).generation == old(game).generation, final(game).first_player == old(game).first_player,
        final(game).game_over == old(game).game_over, final(game).turn_order == old(game).turn_order,
        final(game).milestones == old(game).milestones,
{
    let allowed = allowed_phases(&game.players[p]);
    proof {
        if game.players[p as int].previous_phase == Some(1u8) {
            assert(allowed@.contains(2u8));
        } else {
            assert(allowed@.contains(1u8));
        }
    }
    policy.observe(game, p);
    let ph = policy.pick_phase(&mut game.rng, p, allowed.as_slice());
    game.players[p].chosen_phase = ph;
    game.players[p].previous_phase = Some(ph);
    game.players[p].extra_blue_activations = 0;
    let ghost g1 = *game;
    fire_upgraded_reveal(game, db, p, policy);
    proof {
        assert(game.players[p as int].chosen_phase == g1.players[p as int].chosen_phase);
        assert(game.players[1 - p as int].chosen_phase == g1.players[1 - p as int].chosen_phase);
    }
    ph
}

/// Plays one whole round: planning (each player picks a phase, never the
/// one of their last round), then the phases picked, in order I to V; the
/// game ends as soon as the three global parameters are at their maximum
/// after a phase (the rest of the round is skipped); else the end step
/// (hand limit of 10, each card discarded paying the discard rate) and
/// the first player alternates.
pub fn play_round<P: Policy>(game: &mut GameState, db: &CardsDb, policy: &mut P)
    requires old(game).inv(db), !old(game).game_over, old(game).generation < u32::MAX,
    ensures
        final(game).inv(db),
        round_progress(final(game), old(game)),
        final(game).turn_order@ == old(game).turn_order@.push(old(game).first_player as u8),
        forall|p: int| 0 <= p < 2 ==> {
            &&& 1 <= (#[trigger] final(game).players[p]).chosen_phase <= 5
            &&& final(game).players[p].previous_phase == Some(final(game).players[p].chosen_phase)
            &&& old(game).players[p].previous_phase != Some(final(game).players[p].chosen_phase)
        },
        final(game).game_over ==> final(game).temperature == TEMPERATURE_MAX && final(game).oxygen == OXYGEN_MAX
            && final(game).oceans_revealed == NUM_OCEANS
            && final(game).generation == old(game).generation && final(game).first_player == old(game).first_player,
        !final(game).game_over ==> final(game).generation == old(game).generation + 1
            && final(game).first_player == (old(game).first_player + 1) % 2
            && final(game).players[0].hand@.len() <= HAND_LIMIT
            && final(game).players[1].hand@.len() <= HAND_LIMIT,
{
    let fp = game.first_player as u8;
    game.turn_order.push(fp);
    let ghost g0 = *game;
    let ph0 = plan_phase(game, db, 0, policy);
    let ghost ga = *game;
    let ph1 = plan_phase(game, db, 1, policy);
    let ghost g1 = *game;
    proof {
        lemma_progress_trans(&g1, &ga, &g0);
        lemma_progress_trans(&g1, &g0, old(game));
        assert forall|p: int| 0 <= p < 2 implies {
            &&& 1 <= (#[trigger] g1.players[p]).chosen_phase <= 5
            &&& g1.players[p].previous_phase == Some(g1.players[p].chosen_phase)
            &&& old(game).players[p].previous_phase != Some(g1.players[p].chosen_phase)
        } by {
            if p == 0 {
                assert(g1.players[0].chosen_phase == ph0);
            } else {
                assert(g1.players[1].chosen_phase == ph1);
            }
        }
    }
    let mut phase: u8 = 1;
    while phase <= 5
        invariant
            1 <= phase <= 6, game.inv(db), !game.game_over,
            round_progress(game, old(game)),
            game.generation == old(game).generation, game.first_player == old(game).first_player,
            forall|p: int| 0 <= p < 2 ==> {
                &&& 1 <= (#[trigger] g1.players[p]).chosen_phase <= 5
                &&& g1.players[p].previous_phase == Some(g1.players[p].chosen_phase)
                &&& old(game).players[p].previous_phase != Some(g1.players[p].chosen_phase)
            },
            game.turn_order@ == old(game).turn_order@.push(old(game).first_player as u8),
            forall|p: int| 0 <= p < 2 ==> {
                &&& (#[trigger] game.players[p]).chosen_phase == g1.players[p].chosen_phase
                &&& game.players[p].previous_phase == g1.players[p].previous_phase
            },
        decreases 6 - phase,
    {
        if phase == ph0 || phase == ph1 {
            let ghost gb = *game;
            run_phase(game, db, phase, policy);
            proof { lemma_progress_trans(game, &gb, old(game)); }
            if game.all_parameters_maxed() {
                game.game_over = true;
                return;
            }
        }
        phase = phase + 1;
    }
    let ghost g2 = *game;
    discard_to_hand_limit(game, db, 0, policy);
    let ghost g3 = *game;
    discard_to_hand_limit(game, db, 1, policy);
    proof {
        lemma_progress_trans(&g3, &g2, old(game));
        lemma_progress_trans(game, &g3, old(game));
    }
    game.first_player = (game.first_player + 1) % 2;
    game.generation = game.generation + 1;
}

} // verus!
