//! The setup of a game: piles shuffled, milestones and awards revealed,
//! the house mulligans (corporations first, then project cards card by
//! card), the choice of corporation and its installation.

use vstd::prelude::*;
use crate::arith::{plus, count};
use crate::cards::{CardsDb, Tag, in_deck_upto, in_deck_count};
use crate::effects::ResEff;
use crate::flow::{corp_effects, corp_spec};
use crate::policy::{Policy, RandomPolicy, UpgradeSource};
use crate::state::{GameState, ids_ok};
use crate::turn::{refresh_capacities, draw_into_hand, apply_phase_upgrade, apply_eff, apply_trigger_gains};
use crate::effects::{corp_sound, corp_gain_ok, trig_gain_basic};
use crate::turn::{db_ok, shuffle, lemma_ids_drawn_from, copy_ids, tiles_nonneg};
use crate::rng::seeded;
use crate::state::{PlayerState, OceanTile, ocean_tiles, MilestoneSlot, MilestoneKind, AwardKind, milestone_pool,
    STARTING_HAND, milestone_pool_seq, award_pool_seq, ocean_tiles_seq};
use crate::flow::{award_pool, visionary_playable};
use crate::phases::{flags_of, discard_flagged};

verus! {

/// What the installation of a corporation keeps: the number of project
/// cards, the global parameters and the TR counters never going down, and
/// all but the installing player's corporation.
pub open spec fn install_moves(a: &GameState, o: &GameState, p: int) -> bool {
    &&& a.cards_total() == o.cards_total()
    &&& o.temperature <= a.temperature && o.oxygen <= a.oxygen
    &&& o.oceans_revealed <= a.oceans_revealed && o.infrastructure <= a.infrastructure
    &&& a.snap_temperature == o.snap_temperature && a.snap_oxygen == o.snap_oxygen
    &&& a.snap_oceans == o.snap_oceans && a.snap_infrastructure == o.snap_infrastructure
    &&& a.first_player == o.first_player && a.generation == o.generation
    &&& a.game_over == o.game_over && a.turn_order == o.turn_order
    &&& a.oceans == o.oceans && a.milestones == o.milestones && a.awards == o.awards
    &&& a.corp_deck == o.corp_deck && a.corp_discard == o.corp_discard
    &&& a.players[1 - p].corporation == o.players[1 - p].corporation
    &&& forall|q: int| 0 <= q < 2 ==> {
        &&& (#[trigger] a.players[q]).chosen_phase == o.players[q].chosen_phase
        &&& a.players[q].previous_phase == o.players[q].previous_phase
        &&& o.players[q].tr_increments <= a.players[q].tr_increments
        &&& o.players[q].tr_decrements <= a.players[q].tr_decrements
    }
}

/// Installs corporation `corp_id` for player `p`, the policy deciding what
/// the board leaves to the player (the variant of a Phase card upgrade).
/// The board itself (starting MC, tags, know-how) counts in both modes;
/// with the effect layer on, its starting production, its starting draw,
/// its setup effects and its own « including this » triggers apply.
pub fn install_corporation_with<P: Policy>(game: &mut GameState, db: &CardsDb, p: usize, corp_id: u16, policy: &mut P)
    requires p < 2, old(game).inv(db), (corp_id as int) < db.corporations@.len(),
    ensures
        final(game).inv(db),
        final(game).players[p as int].corporation == Some(corp_id),
        install_moves(final(game), old(game), p as int),
        final(game).players[1 - p as int] == old(game).players[1 - p as int],
        final(game).players[p as int].played == old(game).players[p as int].played,
        !db.effects_on ==> final(game).players[p as int].hand == old(game).players[p as int].hand
            && final(game).deck == old(game).deck && final(game).discard == old(game).discard,
{
    let corp = &db.corporations[corp_id as usize];
    game.players[p].corporation = Some(corp_id);
    game.players[p].mc = corp.starting_mc;
    if corp.effect.is_none() && db.effects_on {
        game.cards_effects_unhandled = count(game.cards_effects_unhandled, 1);
    }
    let mut i: usize = 0;
    while i < corp.tags.len()
        invariant
            i <= corp.tags@.len(), p < 2,
            game.players[p as int].corporation == Some(corp_id),
            game.players[p as int].played == old(game).players[p as int].played,
            game.players[p as int].hand == old(game).players[p as int].hand,
            game.players[p as int].card_resources == old(game).players[p as int].card_resources,
            game.players[p as int].tr == old(game).players[p as int].tr,
            game.players[p as int].tr_increments == old(game).players[p as int].tr_increments,
            game.players[p as int].tr_decrements == old(game).players[p as int].tr_decrements,
            game.players[p as int].chosen_phase == old(game).players[p as int].chosen_phase,
            game.players[p as int].previous_phase == old(game).players[p as int].previous_phase,
            game.players[1 - p as int] == old(game).players[1 - p as int],
            game.same_but_players(*old(game)),
        decreases corp.tags@.len() - i,
    {
        match corp.tags[i].index() {
            Some(k) => {
                let v = game.players[p].tag_counts[k];
                game.players[p].tag_counts[k] = if v < u32::MAX { v + 1 } else { v };
            }
            None => {}
        }
        i = i + 1;
    }
    refresh_capacities(game, db, p);
    let ghost g1 = *game;
    assert(game.inv(db));
    if !db.effects_on {
        return;
    }
    let spec = match &corp.effect {
        Some(s) => s,
        None => return,
    };
    proof { assert(corp_sound(*spec)); }
    game.players[p].mc_prod = plus(game.players[p].mc_prod, spec.start_prod.mc);
    game.players[p].heat_prod = plus(game.players[p].heat_prod, spec.start_prod.heat);
    game.players[p].plant_prod = plus(game.players[p].plant_prod, spec.start_prod.plants);
    let mut k: u8 = 0;
    while k < spec.start_draw
        invariant p < 2, game.inv(db), game.step(&g1), k <= spec.start_draw,
            game.players[1 - p as int] == old(game).players[1 - p as int],
            game.players[p as int].played == old(game).players[p as int].played,
        decreases spec.start_draw - k,
    {
        draw_into_hand(game, db, p);
        k = k + 1;
    }
    let mut j: usize = 0;
    while j < spec.setup.len()
        invariant p < 2, game.inv(db), game.step(&g1), j <= spec.setup@.len(),
            game.players[1 - p as int] == old(game).players[1 - p as int],
            game.players[p as int].played == old(game).players[p as int].played,
        decreases spec.setup@.len() - j,
    {
        match &spec.setup[j] {
            ResEff::PhaseUpgrade(t) => apply_phase_upgrade(game, db, p, policy, *t, UpgradeSource::Setup),
            ResEff::Gain(g) => apply_eff(game, db, p, g, policy, true),
            _ => {}
        }
        j = j + 1;
    }
    fire_corp_self_triggers(game, db, p, policy);
    proof {
        assert(game.players[p as int].corporation == g1.players[p as int].corporation);
        assert(game.players[1 - p as int].corporation == g1.players[1 - p as int].corporation);
    }
}

/// The same with the decisions of the random policy.
pub fn install_corporation(game: &mut GameState, db: &CardsDb, p: usize, corp_id: u16)
    requires p < 2, old(game).inv(db), (corp_id as int) < db.corporations@.len(),
    ensures
        final(game).inv(db),
        final(game).players[p as int].corporation == Some(corp_id),
        install_moves(final(game), old(game), p as int),
{
    let mut default = RandomPolicy;
    install_corporation_with(game, db, p, corp_id, &mut default);
}

/// « Each time you play a tag …, INCLUDING THIS ONE »: the board's own
/// tags count as played at setup, for its triggers marked so, through the
/// same gains as a card's play triggers.
pub fn fire_corp_self_triggers<P: Policy>(game: &mut GameState, db: &CardsDb, p: usize, policy: &mut P)
    requires p < 2, old(game).inv(db),
    ensures
        final(game).inv(db), final(game).step(old(game)),
        final(game).players[1 - p as int] == old(game).players[1 - p as int],
        final(game).players[p as int].played == old(game).players[p as int].played,
        old(game).players[p as int].corporation is None ==> *final(game) == *old(game),
{
    let spec = match corp_effects(db, &game.players[p]) {
        Some(s) => s,
        None => return,
    };
    let cid = match game.players[p].corporation {
        Some(c) => c,
        None => return,
    };
    proof {
        assert(db.corporations@[cid as int].effect matches Some(x) ==> corp_sound(x));
    }
    let own_tags = &db.corporations[cid as usize].tags;
    let mut t: usize = 0;
    while t < spec.play_triggers.len()
        invariant
            t <= spec.play_triggers@.len(), p < 2, game.inv(db), game.step(old(game)),
            game.players[1 - p as int] == old(game).players[1 - p as int],
            game.players[p as int].played == old(game).players[p as int].played,
            corp_sound(*spec),
        decreases spec.play_triggers@.len() - t,
    {
        let trig = &spec.play_triggers[t];
        if trig.include_self {
            let matched = trig.cond.matched_tags(own_tags.as_slice());
            if matched > 0 {
                let mult: i64 = if trig.scale_by_matched_tags {
                    if matched as u64 > 0x7fff_ffff_ffff_ffffu64 { i64::MAX } else { matched as i64 }
                } else {
                    1
                };
                proof {
                    assert forall|k: int| 0 <= k < trig.gains@.len() implies trig_gain_basic(#[trigger] trig.gains@[k]) by {
                        assert(corp_gain_ok(spec.play_triggers@[t as int].gains@[k]));
                    }
                }
                apply_trigger_gains(game, db, p, None, trig, mult, policy);
            }
        }
        t = t + 1;
    }
}


/// The ids of the project cards of the game's boxes, in order.
fn deck_ids(db: &CardsDb) -> (r: Vec<u16>)
    requires db.wf(),
    ensures r@ == in_deck_upto(db, db.projects@.len() as int), ids_ok(r@, db.projects@.len() as int),
{
    let n = db.projects.len();
    let mut out: Vec<u16> = Vec::new();
    let mut i: usize = 0;
    while i < n
        invariant
            i <= n, n == db.projects@.len(), n <= 65536,
            out@ == in_deck_upto(db, i as int),
            ids_ok(out@, i as int),
        decreases n - i,
    {
        if db.projects[i].in_deck {
            out.push(i as u16);
        }
        i = i + 1;
    }
    out
}

/// The ids `0..n`.
pub(crate) fn ids_upto(n: usize) -> (r: Vec<u16>)
    requires n <= 65536,
    ensures r@.len() == n, ids_ok(r@, n as int),
{
    let mut out: Vec<u16> = Vec::new();
    let mut i: usize = 0;
    while i < n
        invariant i <= n, n <= 65536, out@.len() == i, ids_ok(out@, i as int),
        decreases n - i,
    {
        out.push(i as u16);
        i = i + 1;
    }
    out
}

/// Nothing but the corporation piles (and the generator) differs.
pub open spec fn same_but_corp_piles(a: &GameState, o: &GameState) -> bool {
    &&& a.deck == o.deck && a.discard == o.discard && a.players == o.players
    &&& a.oceans == o.oceans && a.oceans_revealed == o.oceans_revealed
    &&& a.temperature == o.temperature && a.oxygen == o.oxygen
    &&& a.infrastructure == o.infrastructure
    &&& a.generation == o.generation && a.milestones == o.milestones
    &&& a.awards == o.awards && a.game_over == o.game_over
    &&& a.snap_temperature == o.snap_temperature && a.snap_oxygen == o.snap_oxygen
    &&& a.snap_oceans == o.snap_oceans && a.snap_infrastructure == o.snap_infrastructure
    &&& a.first_player == o.first_player && a.turn_order == o.turn_order
}

/// Deals two corporations from the top of the corporation pile.
fn deal_two(game: &mut GameState, db: &CardsDb) -> (r: Vec<u16>)
    requires ids_ok(old(game).corp_deck@, db.corporations@.len() as int), old(game).corp_deck@.len() >= 2,
    ensures
        r@.len() == 2, ids_ok(r@, db.corporations@.len() as int),
        final(game).corp_deck@ == old(game).corp_deck@.subrange(0, old(game).corp_deck@.len() - 2),
        ids_ok(final(game).corp_deck@, db.corporations@.len() as int),
        final(game).corp_discard == old(game).corp_discard,
        same_but_corp_piles(final(game), old(game)),
{
    let mut out: Vec<u16> = Vec::new();
    let a = game.corp_deck.pop().unwrap();
    out.push(a);
    let b = game.corp_deck.pop().unwrap();
    out.push(b);
    proof {
        assert(game.corp_deck@ =~= old(game).corp_deck@.subrange(0, old(game).corp_deck@.len() - 2));
    }
    out
}

/// Puts the cards of a list on the discard pile of corporations.
fn discard_corps(game: &mut GameState, db: &CardsDb, corps: &Vec<u16>)
    requires
        ids_ok(old(game).corp_discard@, db.corporations@.len() as int),
        ids_ok(corps@, db.corporations@.len() as int),
    ensures
        final(game).corp_discard@ == old(game).corp_discard@ + corps@,
        ids_ok(final(game).corp_discard@, db.corporations@.len() as int),
        final(game).corp_deck == old(game).corp_deck,
        same_but_corp_piles(final(game), old(game)),
{
    let mut i: usize = 0;
    while i < corps.len()
        invariant
            i <= corps@.len(), ids_ok(corps@, db.corporations@.len() as int),
            game.corp_discard@ == old(game).corp_discard@ + corps@.subrange(0, i as int),
            ids_ok(game.corp_discard@, db.corporations@.len() as int),
            game.corp_deck == old(game).corp_deck,
            same_but_corp_piles(game, old(game)),
        decreases corps@.len() - i,
    {
        game.corp_discard.push(corps[i]);
        proof {
            assert(corps@.subrange(0, i + 1) =~= corps@.subrange(0, i as int).push(corps@[i as int]));
        }
        i = i + 1;
    }
    proof { assert(corps@.subrange(0, corps@.len() as int) =~= corps@); }
}

/// Draws up to `n` cards into player `p`'s hand, behind the cards kept.
fn draw_cards_to_hand(game: &mut GameState, db: &CardsDb, p: usize, n: usize)
    requires p < 2, old(game).inv(db),
    ensures
        final(game).inv(db), final(game).step(old(game)),
        final(game).players[1 - p as int] == old(game).players[1 - p as int],
        final(game).players[p as int].played == old(game).players[p as int].played,
        final(game).players[p as int].hand@.len() == old(game).players[p as int].hand@.len()
            + (if n <= old(game).deck@.len() + old(game).discard@.len() { n as int }
                else { (old(game).deck@.len() + old(game).discard@.len()) as int }),
        final(game).players[p as int].hand@.subrange(0, old(game).players[p as int].hand@.len() as int)
            == old(game).players[p as int].hand@,
{
    let mut k: usize = 0;
    let ghost mut got: int = 0;
    while k < n
        invariant
            p < 2, game.inv(db), game.step(old(game)),
            game.players[1 - p as int] == old(game).players[1 - p as int],
            game.players[p as int].played == old(game).players[p as int].played, k <= n,
            got == (if k <= old(game).deck@.len() + old(game).discard@.len() { k as int }
                else { (old(game).deck@.len() + old(game).discard@.len()) as int }),
            game.deck@.len() + game.discard@.len() + got == old(game).deck@.len() + old(game).discard@.len(),
            game.players[p as int].hand@.len() == old(game).players[p as int].hand@.len() + got,
            game.players[p as int].hand@.subrange(0, old(game).players[p as int].hand@.len() as int)
                == old(game).players[p as int].hand@,
        decreases n - k,
    {
        let ghost h = game.players[p as int].hand@;
        let r = draw_into_hand(game, db, p);
        proof {
            if r is Some { got = got + 1; }
            assert(game.players[p as int].hand@.subrange(0, old(game).players[p as int].hand@.len() as int)
                =~= h.subrange(0, old(game).players[p as int].hand@.len() as int));
        }
        k = k + 1;
    }
}

/// The project mulligan of one player: the policy names, card by card,
/// those it replaces (zero to all; indices out of the hand or repeated are
/// ignored); they go to the discard pile and as many are drawn again,
/// behind the cards kept.
fn project_mulligan<P: Policy>(game: &mut GameState, db: &CardsDb, p: usize, policy: &mut P)
    requires p < 2, old(game).inv(db),
    ensures
        final(game).inv(db), final(game).step(old(game)),
        final(game).players[1 - p as int] == old(game).players[1 - p as int],
        final(game).players[p as int].played == old(game).players[p as int].played,
        final(game).players[p as int].hand@.len() == old(game).players[p as int].hand@.len(),
{
    let snapshot = copy_ids(&game.players[p].hand);
    policy.observe(game, p);
    let idx = policy.project_mulligan(&mut game.rng, p, snapshot.as_slice());
    let flags = flags_of(&idx, game.players[p].hand.len());
    let removed = discard_flagged(game, db, p, &flags, 0, 0);
    draw_cards_to_hand(game, db, p, removed);
}

/// The choice of corporation of one player: the policy picks one of the
/// two, the other goes to the discard pile, the chosen one is installed.
fn choose_corporation<P: Policy>(game: &mut GameState, db: &CardsDb, p: usize, corps: &Vec<u16>, policy: &mut P)
    requires
        p < 2, old(game).inv(db), corps@.len() == 2, ids_ok(corps@, db.corporations@.len() as int),
    ensures
        final(game).inv(db),
        final(game).players[p as int].corporation is Some,
        final(game).corp_deck == old(game).corp_deck,
        final(game).corp_discard@.len() == old(game).corp_discard@.len() + 1,
        final(game).cards_total() == old(game).cards_total(),
        final(game).players[1 - p as int].corporation == old(game).players[1 - p as int].corporation,
        final(game).generation == old(game).generation && final(game).first_player == old(game).first_player,
        final(game).game_over == old(game).game_over && final(game).turn_order == old(game).turn_order,
        final(game).oceans == old(game).oceans && final(game).milestones == old(game).milestones,
        final(game).awards == old(game).awards,
        final(game).players[1 - p as int] == old(game).players[1 - p as int],
        final(game).players[p as int].played == old(game).players[p as int].played,
        !db.effects_on ==> final(game).players[p as int].hand == old(game).players[p as int].hand,
{
    policy.observe(game, p);
    let pick = policy.pick_corporation(&mut game.rng, p, corps.as_slice());
    let chosen = corps[pick];
    let other = corps[1 - pick];
    game.corp_discard.push(other);
    let ghost g1 = *game;
    install_corporation_with(game, db, p, chosen, policy);
}

/// Sets up a game, house rules included: two corporations to each player;
/// the corporation mulligan (both or none) before the project cards; eight
/// project cards each; the project mulligan, card by card; the final choice
/// of corporation, project cards in hand. The draw pile holds the cards of
/// the game's boxes; milestones and awards: three of each pool.
pub fn setup_game<P: Policy>(db: &CardsDb, seed: u64, policy: &mut P) -> (r: GameState)
    requires db_ok(db), db.corporations@.len() >= 8,
    ensures
        r.inv(db),
        r.cards_total() == in_deck_count(db),
        r.cards_total() == db.deck_project_count,
        r.corp_deck@.len() + r.corp_discard@.len() + 2 == db.corporations@.len(),
        r.players[0].corporation is Some && r.players[1].corporation is Some,
        r.generation == 1 && r.first_player == 0 && !r.game_over && r.turn_order@.len() == 0,
        r.oceans@.to_multiset() == ocean_tiles_seq().to_multiset(),
        forall|i: int| 0 <= i < 3 ==> !(#[trigger] r.milestones[i]).achieved_by[0] && !r.milestones[i].achieved_by[1]
            && milestone_pool_seq().contains(r.milestones[i].kind),
        forall|i: int| 0 <= i < 3 ==> award_pool_for(db).contains(#[trigger] r.awards[i]),
        objectives_distinct(&r),
        tiles_nonneg(&r),
        r.players[0].played@.len() == 0 && r.players[1].played@.len() == 0,
        !db.effects_on && in_deck_count(db) >= 2 * STARTING_HAND ==>
            r.players[0].hand@.len() == STARTING_HAND && r.players[1].hand@.len() == STARTING_HAND,
{
    let mut rng = seeded(seed);
    let mut deck = deck_ids(db);
    let ghost d0 = deck@;
    shuffle(&mut deck, &mut rng);
    proof { lemma_ids_drawn_from(deck@, d0, db.projects@.len() as int); }
    let mut corp_deck = ids_upto(db.corporations.len());
    let ghost c0 = corp_deck@;
    shuffle(&mut corp_deck, &mut rng);
    proof { lemma_ids_drawn_from(corp_deck@, c0, db.corporations@.len() as int); }
    let tiles = ocean_tiles();
    let mut ov: Vec<OceanTile> = Vec::new();
    let mut i: usize = 0;
    while i < 9
        invariant i <= 9, ov@.len() == i, ov@ == tiles@.subrange(0, i as int),
        decreases 9 - i,
    {
        ov.push(tiles[i]);
        proof { assert(ov@ =~= tiles@.subrange(0, i as int + 1)); }
        i = i + 1;
    }
    proof { assert(ov@ =~= ocean_tiles_seq()); }
    shuffle(&mut ov, &mut rng);
    let oceans = [ov[0], ov[1], ov[2], ov[3], ov[4], ov[5], ov[6], ov[7], ov[8]];
    proof {
        assert(oceans@ =~= ov@);
        lemma_ocean_tiles_nonneg();
        assert forall|i: int| 0 <= i < 9 implies (#[trigger] oceans@[i]).plants >= 0 by {
            assert(ocean_tiles_seq().contains(ov@[i]));
            let j = choose|j: int| 0 <= j < 9 && ocean_tiles_seq()[j] == ov@[i];
            assert(ocean_tiles_seq()[j].plants >= 0);
        }
    }
    let mut game = GameState {
        rng,
        deck,
        discard: Vec::new(),
        corp_deck,
        corp_discard: Vec::new(),
        oceans,
        oceans_revealed: 0,
        temperature: 0,
        oxygen: 0,
        infrastructure: 0,
        players: [PlayerState::new(), PlayerState::new()],
        generation: 1,
        milestones: [MilestoneSlot { kind: MilestoneKind::Builder, achieved_by: [false, false] }; 3],
        awards: [AwardKind::Celebrity; 3],
        game_over: false,
        blue_actions: 0,
        snap_temperature: 0,
        snap_oxygen: 0,
        snap_oceans: 0,
        snap_infrastructure: 0,
        first_player: 0,
        turn_order: Vec::new(),
        prereq_snapshot_blocks: 0,
        draw_before_build: 0,
        draw_after_build: 0,
        discard_payments: 0,
        res_added: 0,
        res_removed: 0,
        res_targets_missing: 0,
        phase_upgrades_skipped: 0,
        phase_upgrades_granted: 0,
        phase_upgrades_reupgraded: 0,
        upgraded_bonus_applied: 0,
        phase_upgrades_targeted: 0,
        phase_upgrades_by_action: 0,
        upgraded_reveal_bonuses: 0,
        objective_condition_hits: 0,
        draw_then_discard_uses: 0,
        upgraded_extra_builds: 0,
        cards_effects_unhandled: 0,
        derived_mc: 0,
        derived_heat: 0,
        derived_plants: 0,
        tr_from_tags: 0,
        research_extra_draws: 0,
        extra_builds_granted: 0,
        extra_builds_used: 0,
        free_builds: 0,
        next_card_mods_armed: 0,
        next_card_mods_used: 0,
        corp_heat_as_mc: 0,
        corp_forest_rebates: 0,
        corp_tr_boosts: 0,
        corp_trigger_tr: 0,
        action_phase_bonuses: 0,
        action_discard_costs: 0,
        draw_discard_discards: 0,
        cards_revealed: 0,
        standard_action_discounts: 0,
        action_mc_bonuses: 0,
        joker_tag_choices: 0,
        joker_tag_hits: 0,
        corp_phase_upgrades_at_setup: 0,
        discard_bonus_mc: 0,
        action_phase_self_bonus: 0,
    };
    reveal_objectives(&mut game, db);
    let ghost g0 = game;
    assert(game.inv(db));
    assert(game.cards_total() == in_deck_count(db));
    // Two corporations each, then the corporation mulligan (both or none).
    let mut corps0 = deal_two(&mut game, db);
    let mut corps1 = deal_two(&mut game, db);
    policy.observe(&game, 0);
    if policy.corp_mulligan(&mut game.rng, 0, corps0.as_slice()) {
        discard_corps(&mut game, db, &corps0);
        corps0 = deal_two(&mut game, db);
    }
    policy.observe(&game, 1);
    if policy.corp_mulligan(&mut game.rng, 1, corps1.as_slice()) {
        discard_corps(&mut game, db, &corps1);
        corps1 = deal_two(&mut game, db);
    }
    assert(game.inv(db));
    let ghost n_corp = game.corp_deck@.len() + game.corp_discard@.len();
    assert(n_corp + 4 == db.corporations@.len());
    let ghost g1 = game;
    // Eight project cards each, then the project mulligan.
    draw_cards_to_hand(&mut game, db, 0, STARTING_HAND);
    draw_cards_to_hand(&mut game, db, 1, STARTING_HAND);
    project_mulligan(&mut game, db, 0, policy);
    project_mulligan(&mut game, db, 1, policy);
    // The final choice of corporation.
    let ghost g2 = game;
    choose_corporation(&mut game, db, 0, &corps0, policy);
    let ghost g3 = game;
    choose_corporation(&mut game, db, 1, &corps1, policy);
    proof {
        assert(g3.players[1].corporation == g2.players[1].corporation);
        assert(game.players[0].corporation == g3.players[0].corporation);
        assert(game.oceans == g0.oceans && game.milestones == g0.milestones && game.awards == g0.awards);
    }
    game
}

/// Rank of a milestone in its pool.
spec fn milestone_rank(k: MilestoneKind) -> int {
    match k {
        MilestoneKind::Builder => 0, MilestoneKind::Diversifier => 1, MilestoneKind::Energizer => 2,
        MilestoneKind::Farmer => 3, MilestoneKind::Legend => 4, MilestoneKind::Magnate => 5,
        MilestoneKind::Planner => 6, MilestoneKind::SpaceBaron => 7, MilestoneKind::Terraformer => 8,
        MilestoneKind::Tycoon => 9, MilestoneKind::Gardener => 10,
    }
}

/// Rank of an award in its pool.
spec fn award_rank(k: AwardKind) -> int {
    match k {
        AwardKind::Celebrity => 0, AwardKind::Collector => 1, AwardKind::Generator => 2,
        AwardKind::Industrialist => 3, AwardKind::ProjectManager => 4, AwardKind::Researcher => 5,
        AwardKind::Visionary => 6,
    }
}

/// The milestone pool names each milestone once.
pub proof fn lemma_milestone_pool_distinct()
    ensures milestone_pool_seq().no_duplicates(),
{
    let s = milestone_pool_seq();
    assert forall|i: int| 0 <= i < 11 implies milestone_rank(#[trigger] s[i]) == i by {
        if i == 0 {} else if i == 1 {} else if i == 2 {} else if i == 3 {} else if i == 4 {}
        else if i == 5 {} else if i == 6 {} else if i == 7 {} else if i == 8 {} else if i == 9 {} else {}
    }
    assert forall|i: int, j: int| 0 <= i < s.len() && 0 <= j < s.len() && i != j implies s[i] != s[j] by {
        assert(milestone_rank(s[i]) == i);
        assert(milestone_rank(s[j]) == j);
    }
}

/// The award pool names each award once.
pub proof fn lemma_award_pool_distinct()
    ensures award_pool_seq().no_duplicates(), award_pool_seq().take(6).no_duplicates(),
{
    let s = award_pool_seq();
    assert forall|i: int| 0 <= i < 7 implies award_rank(#[trigger] s[i]) == i by {
        if i == 0 {} else if i == 1 {} else if i == 2 {} else if i == 3 {} else if i == 4 {}
        else if i == 5 {} else {}
    }
    assert forall|i: int, j: int| 0 <= i < s.len() && 0 <= j < s.len() && i != j implies s[i] != s[j] by {
        assert(award_rank(s[i]) == i);
        assert(award_rank(s[j]) == j);
    }
    let t = s.take(6);
    assert forall|i: int, j: int| 0 <= i < t.len() && 0 <= j < t.len() && i != j implies t[i] != t[j] by {
        assert(t[i] == s[i] && t[j] == s[j]);
    }
}

/// No printed ocean tile takes plants away.
pub proof fn lemma_ocean_tiles_nonneg()
    ensures forall|i: int| 0 <= i < 9 ==> (#[trigger] ocean_tiles_seq()[i]).plants >= 0,
{
    let s = ocean_tiles_seq();
    assert forall|i: int| 0 <= i < 9 implies (#[trigger] s[i]).plants >= 0 by {
        if i == 0 {} else if i == 1 {} else if i == 2 {} else if i == 3 {} else if i == 4 {}
        else if i == 5 {} else if i == 6 {} else if i == 7 {} else {}
    }
}

/// A reordering of a list without repeats has no repeats.
pub proof fn lemma_perm_no_dup<A>(a: Seq<A>, b: Seq<A>)
    requires a.no_duplicates(), a.to_multiset() == b.to_multiset(),
    ensures b.no_duplicates(),
{
    a.lemma_multiset_has_no_duplicates();
    b.lemma_multiset_has_no_duplicates_conv();
}

/// The awards that can be revealed with this database: the whole pool,
/// Visionary only where a Phase card can be upgraded.
pub open spec fn award_pool_for(db: &CardsDb) -> Seq<AwardKind> {
    if visionary_playable(db) { award_pool_seq() } else { award_pool_seq().take(6) }
}

/// Three milestone slots of distinct kinds, three distinct awards.
pub open spec fn objectives_distinct(g: &GameState) -> bool {
    &&& g.milestones[0].kind != g.milestones[1].kind && g.milestones[0].kind != g.milestones[2].kind
    &&& g.milestones[1].kind != g.milestones[2].kind
    &&& g.awards[0] != g.awards[1] && g.awards[0] != g.awards[2] && g.awards[1] != g.awards[2]
}

/// Three milestones and three awards revealed from their shuffled pools
/// (the Visionary award only where a Phase card can be upgraded).
fn reveal_objectives(game: &mut GameState, db: &CardsDb)
    ensures
        final(game).players == old(game).players,
        final(game).deck == old(game).deck && final(game).discard == old(game).discard,
        final(game).corp_deck == old(game).corp_deck && final(game).corp_discard == old(game).corp_discard,
        final(game).oceans == old(game).oceans && final(game).oceans_revealed == old(game).oceans_revealed,
        final(game).temperature == old(game).temperature && final(game).oxygen == old(game).oxygen,
        final(game).infrastructure == old(game).infrastructure,
        final(game).snap_temperature == old(game).snap_temperature && final(game).snap_oxygen == old(game).snap_oxygen,
        final(game).snap_oceans == old(game).snap_oceans && final(game).snap_infrastructure == old(game).snap_infrastructure,
        final(game).generation == old(game).generation && final(game).first_player == old(game).first_player,
        final(game).game_over == old(game).game_over && final(game).turn_order == old(game).turn_order,
        forall|i: int, p: int| 0 <= i < 3 && 0 <= p < 2 ==> !#[trigger] final(game).milestones[i].achieved_by[p],
        forall|i: int| 0 <= i < 3 ==> milestone_pool_seq().contains(#[trigger] final(game).milestones[i].kind),
        forall|i: int| 0 <= i < 3 ==> award_pool_for(db).contains(#[trigger] final(game).awards[i]),
        objectives_distinct(final(game)),
{
    broadcast use vstd::seq_lib::group_to_multiset_ensures;
    let pool = milestone_pool();
    let mut mv: Vec<MilestoneKind> = Vec::new();
    let mut i: usize = 0;
    while i < 11
        invariant i <= 11, mv@.len() == i, mv@ == pool@.subrange(0, i as int), pool@ == milestone_pool_seq(),
        decreases 11 - i,
    {
        mv.push(pool[i]);
        proof { assert(mv@ =~= pool@.subrange(0, i as int + 1)); }
        i = i + 1;
    }
    proof { assert(mv@ =~= milestone_pool_seq()); }
    let ghost m0 = mv@;
    shuffle(&mut mv, &mut game.rng);
    proof {
        lemma_milestone_pool_distinct();
        lemma_perm_no_dup(m0, mv@);
        assert(mv@[0] != mv@[1] && mv@[0] != mv@[2] && mv@[1] != mv@[2]);
        assert forall|k: int| 0 <= k < mv@.len() implies milestone_pool_seq().contains(#[trigger] mv@[k]) by {
            assert(mv@.to_multiset().count(mv@[k]) > 0);
            assert(m0.to_multiset().count(mv@[k]) > 0);
        }
    }
    game.milestones = [
        MilestoneSlot { kind: mv[0], achieved_by: [false, false] },
        MilestoneSlot { kind: mv[1], achieved_by: [false, false] },
        MilestoneSlot { kind: mv[2], achieved_by: [false, false] },
    ];
    let mut av = award_pool(db);
    let ghost a0 = av@;
    proof {
        assert forall|k: int| 0 <= k < a0.len() implies award_pool_seq().contains(#[trigger] a0[k]) by {
            if !visionary_playable(db) { assert(a0[k] == award_pool_seq()[k]); } else { assert(a0[k] == award_pool_seq()[k]); }
        }
    }
    shuffle(&mut av, &mut game.rng);
    proof {
        assert(a0 == award_pool_for(db));
        assert forall|k: int| 0 <= k < av@.len() implies award_pool_for(db).contains(#[trigger] av@[k]) by {
            assert(av@.to_multiset().count(av@[k]) > 0);
            assert(a0.to_multiset().count(av@[k]) > 0);
        }
        lemma_award_pool_distinct();
        lemma_perm_no_dup(a0, av@);
        assert(av@.len() >= 6);
        assert(av@[0] != av@[1] && av@[0] != av@[2] && av@[1] != av@[2]);
    }
    game.awards = [av[0], av[1], av[2]];
}

} // verus!
