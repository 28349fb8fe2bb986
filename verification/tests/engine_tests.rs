use engine::agents::{
    brasser, caractere_de_mot, commence_par_mot, contient_mot, ecarter_les_cartes_du_futur, espace_js, libelle_action,
    rebattre_l_avenir, vente_eventuelle, CarteDeMain, DejaVu,
    Premiere,
};
use engine::cards::{new_db, BoiteSet, CardsDb, Color, Corporation, ProjectCard, Tag};
use engine::effects::{Action, ActionCost, ActionEff, Capacity, CardEffects, Eff, TrigGain};
use engine::turn::apply_trig_gain;
use engine::flow::{allowed_phases, research_draw_keep, score, selector_bonus};
use engine::phases::{action_options, assign_milestones, build_forest, discard_to_hand_limit, pay_standard_mc, play_round};
use engine::policy::{ActionOpt, ConstructionBonus, Policy, RandomPolicy};
use engine::probe::{probe_state_base, run_probe, run_probe_action_opts, run_probe_seq, ProbeDelta, ProbeOptions, ProbeScript};
use rand::rngs::StdRng;
use rand::{RngCore, SeedableRng};
use engine::setup::setup_game;
use engine::sim::{
    check_invariants, final_state_hash, play_game, run_simulation, sorted_ids, Fnv1a, InvariantTracker,
    InvariantViolation, MAX_GENERATIONS,
};
use engine::state::{MilestoneKind, MilestoneSlot, PlayerState, FOREST_MC_COST, HAND_LIMIT};

fn no_effects() -> CardEffects {
    CardEffects {
        reqs: Vec::new(),
        effects: Vec::new(),
        on_build: Vec::new(),
        reductions: Vec::new(),
        play_triggers: Vec::new(),
        global_triggers: Vec::new(),
        action: None,
        phase_bonus: None,
        prod: None,
        research: None,
        discard_bonus: 0,
        standard_discount: 0,
        req_color_flex: false,
        grants: Vec::new(),
        next_card: None,
        reveal_bonus: Vec::new(),
        action_trigger: Vec::new(),
        holds: None,
    }
}

fn card(name: &str, price: i64, color: Color, effect: Option<CardEffects>) -> ProjectCard {
    ProjectCard {
        name: name.to_string(),
        price,
        color,
        tags: vec![Tag::Earth],
        vp: 1,
        vp_dynamic: None,
        in_deck: true,
        effect,
    }
}

/// A small base box: a few encoded cards, plain fillers, twelve plain
/// corporations.
fn db() -> CardsDb {
    let mut projects = Vec::new();
    let mut prod = no_effects();
    prod.effects.push(Eff::McProd(2));
    projects.push(card("Income", 8, Color::Green, Some(prod)));
    let mut heat = no_effects();
    heat.effects.push(Eff::Heat(3));
    projects.push(card("Warm Up", 4, Color::Red, Some(heat)));
    let mut act = no_effects();
    act.action = Some(Action::Fixed {
        cost: vec![ActionCost::McPerCapacity { base: 5, cap: Capacity::Steel, per: 1 }],
        effect: vec![ActionEff::Mc(7)],
    });
    projects.push(card("Trading Post", 6, Color::Blue, Some(act)));
    for i in 0..60 {
        let color = match i % 3 {
            0 => Color::Green,
            1 => Color::Blue,
            _ => Color::Red,
        };
        projects.push(card(&format!("Filler {i}"), 3 + (i % 9) as i64, color, None));
    }
    let mut corporations = Vec::new();
    for i in 0..12 {
        corporations.push(Corporation { name: format!("Corporation {i}"), starting_mc: 45, tags: vec![Tag::Earth], effect: None });
    }
    new_db(projects, corporations, true, BoiteSet { base: true, decouverte: false })
}

#[test]
fn the_phase_played_last_round_is_not_allowed() {
    let mut pl = PlayerState::new();
    assert_eq!(allowed_phases(&pl), vec![1, 2, 3, 4, 5]);
    pl.previous_phase = Some(3);
    assert_eq!(allowed_phases(&pl), vec![1, 2, 4, 5]);
}

#[test]
fn every_available_standard_action_is_offered_and_only_those() {
    let db = db();
    let game = probe_state_base(&db, &vec![0u16], ProbeOptions::default());
    let opts = action_options(&game, &db, 0, &vec![2u16], false);
    assert_eq!(
        opts,
        vec![
            ActionOpt::BlueAction(2),
            ActionOpt::ForestWithPlants,
            ActionOpt::ForestWithMc,
            ActionOpt::TemperatureWithHeat,
            ActionOpt::TemperatureWithMc,
            ActionOpt::OceanWithMc,
            ActionOpt::SellCard,
        ]
    );
    let mut poor = probe_state_base(&db, &Vec::new(), ProbeOptions { mc: 14, plants: 7, ..ProbeOptions::default() });
    poor.players[0].heat = 7;
    let opts = action_options(&poor, &db, 0, &Vec::new(), true);
    assert_eq!(opts, vec![ActionOpt::TemperatureWithMc]);
}

#[test]
fn a_standard_action_costs_its_printed_price() {
    let db = db();
    let mut game = probe_state_base(&db, &Vec::new(), ProbeOptions::default());
    pay_standard_mc(&mut game, &db, 0, FOREST_MC_COST);
    assert_eq!(game.players[0].mc, 80);
}

#[test]
fn the_end_step_discards_down_to_ten_for_three_mc_each() {
    let db = db();
    let ids: Vec<u16> = (10..23).collect();
    let mut game = probe_state_base(&db, &ids, ProbeOptions { mc: 0, ..ProbeOptions::default() });
    assert_eq!(game.players[0].hand.len(), 13);
    let discard_before = game.discard.len();
    let mut pol = RandomPolicy;
    discard_to_hand_limit(&mut game, &db, 0, &mut pol);
    assert_eq!(game.players[0].hand.len(), HAND_LIMIT);
    assert_eq!(game.players[0].mc, 9);
    assert_eq!(game.discard.len(), discard_before + 3);
}

#[test]
fn fnv1a_matches_its_reference_values() {
    let h = Fnv1a::new();
    assert_eq!(h.0, 0xcbf29ce484222325);
    let mut h = Fnv1a::new();
    h.write_u8(b'a');
    assert_eq!(h.0, 0xaf63dc4c8601ec8c);
    let mut a = Fnv1a::new();
    a.write_i64(-1);
    let mut b = Fnv1a::new();
    b.write_u64(u64::MAX);
    assert_eq!(a.0, b.0);
}

#[test]
fn brasser_is_splitmix64() {
    assert_eq!(brasser(0), 0xe220a8397b1dcdaf);
    assert_ne!(brasser(1), brasser(0));
}

#[test]
fn sorting_ids_keeps_every_card() {
    assert_eq!(sorted_ids(&vec![5, 1, 4, 1, 3]), vec![1, 1, 3, 4, 5]);
    assert_eq!(sorted_ids(&Vec::new()), Vec::<u16>::new());
}

#[test]
fn the_final_hash_ignores_the_order_of_cards() {
    let db = db();
    let mut a = probe_state_base(&db, &vec![3, 4, 5], ProbeOptions::default());
    let b = probe_state_base(&db, &vec![5, 3, 4], ProbeOptions::default());
    let scores = [10, 12];
    assert_eq!(final_state_hash(&a, &scores), final_state_hash(&b, &scores));
    a.players[0].mc += 1;
    assert_ne!(final_state_hash(&a, &scores), final_state_hash(&b, &scores));
}

#[test]
fn a_fresh_game_passes_the_audit() {
    let db = db();
    let mut pol = RandomPolicy;
    let game = setup_game(&db, 42, &mut pol);
    assert_eq!(game.generation, 1);
    assert!(game.players[0].corporation.is_some() && game.players[1].corporation.is_some());
    let mut tracker = InvariantTracker::new(&game);
    assert_eq!(check_invariants(&game, &db, &mut tracker), Ok(()));
}

#[test]
fn the_audit_names_what_it_finds_broken() {
    let db = db();
    let mut pol = RandomPolicy;
    let game = setup_game(&db, 8, &mut pol);

    let mut g = setup_game(&db, 8, &mut pol);
    g.players[1].mc = -1;
    let mut t = InvariantTracker::new(&game);
    assert!(matches!(check_invariants(&g, &db, &mut t), Err(InvariantViolation::NegativeResource { player: 1, .. })));

    let mut g = setup_game(&db, 8, &mut pol);
    g.players[0].tr += 1;
    let mut t = InvariantTracker::new(&game);
    assert!(matches!(check_invariants(&g, &db, &mut t), Err(InvariantViolation::TrMismatch { player: 0, .. })));

    let mut g = setup_game(&db, 8, &mut pol);
    g.temperature = 30;
    let mut t = InvariantTracker::new(&game);
    assert_eq!(check_invariants(&g, &db, &mut t), Err(InvariantViolation::ParameterOutOfRange));

    let mut g = setup_game(&db, 8, &mut pol);
    g.deck.pop();
    let mut t = InvariantTracker::new(&game);
    assert!(matches!(check_invariants(&g, &db, &mut t), Err(InvariantViolation::CardConservation { .. })));

    let mut g = setup_game(&db, 8, &mut pol);
    g.corp_discard.pop();
    let mut t = InvariantTracker::new(&game);
    assert!(matches!(check_invariants(&g, &db, &mut t), Err(InvariantViolation::CorporationConservation { .. })));
}

#[test]
fn a_round_keeps_the_audited_invariants() {
    let db = db();
    let mut pol = RandomPolicy;
    let mut game = setup_game(&db, 17, &mut pol);
    let mut tracker = InvariantTracker::new(&game);
    for _ in 0..5 {
        if game.game_over {
            break;
        }
        let previous: Vec<Option<u8>> = game.players.iter().map(|p| p.previous_phase).collect();
        play_round(&mut game, &db, &mut pol);
        for p in 0..2 {
            assert_ne!(Some(game.players[p].chosen_phase), previous[p]);
            assert!(game.game_over || game.players[p].hand.len() <= HAND_LIMIT);
        }
        match check_invariants(&game, &db, &mut tracker) {
            Ok(()) => {}
            Err(InvariantViolation::NegativeResource { .. }) | Err(InvariantViolation::CapacityDecreased { .. }) => {}
            Err(e) => panic!("audit: {e:?}"),
        }
    }
}

#[test]
fn a_whole_game_reports_consistently() {
    let db = db();
    let mut pol = RandomPolicy;
    let out = play_game(&db, 2024, &mut pol);
    assert_eq!(out.draw, out.scores[0] == out.scores[1]);
    if out.completed {
        assert!(out.generations <= MAX_GENERATIONS);
        assert_eq!(out.turn_order.len(), out.generations as usize);
    } else {
        assert_eq!(out.generations, MAX_GENERATIONS + 1);
    }
    let again = play_game(&db, 2024, &mut pol);
    assert_eq!(again.state_hash, out.state_hash);
    assert_eq!(again.scores, out.scores);
}

#[test]
fn the_first_option_policy_plays_a_game() {
    let db = db();
    let mut pol = Premiere;
    let out = play_game(&db, 1, &mut pol);
    assert_eq!(out.draw, out.scores[0] == out.scores[1]);
}

#[test]
fn a_simulation_counts_every_game() {
    let db = db();
    let mut pol = RandomPolicy;
    let t = run_simulation(&db, 3, 99, &mut pol);
    assert_eq!(t.games, 3);
    assert_eq!(t.completed + t.truncated, 3);
    assert_eq!(t.turn_orders.len(), 3);
    let u = run_simulation(&db, 3, 100, &mut pol);
    assert_ne!(t.state_hash, u.state_hash);
}

#[test]
fn the_probe_builds_the_cards_named() {
    let db = db();
    let r = run_probe(&db, "Income");
    assert!(r.found && r.played);
    assert_eq!(r.paid, vec![8]);
    assert_eq!(r.delta.mc_prod, 2);
    assert_eq!(r.delta.mc, 0);
    let r = run_probe(&db, "No Such Card");
    assert!(!r.found && !r.played);
    assert!(r.paid.is_empty());
    let r = run_probe_seq(&db, &["Income", "Warm Up"]);
    assert_eq!(r.paid, vec![8, 4]);
    assert_eq!(r.delta.heat, 3);
}

#[test]
fn an_empty_script_is_empty() {
    assert!(ProbeScript::default().is_empty());
    let s = ProbeScript { choices: vec![1], targets: Vec::new(), joker_tag: None };
    assert!(!s.is_empty());
}

#[test]
fn the_selector_gets_the_bonus_of_its_phase_card() {
    let db = db();
    let mut pl = PlayerState::new();
    assert_eq!(research_draw_keep(&db, &pl), (2, 1));
    pl.chosen_phase = 5;
    assert_eq!(research_draw_keep(&db, &pl), (5, 2));
    pl.chosen_phase = 1;
    let b = selector_bonus(&db, &pl, 1);
    assert!(b.is_selector);
    assert_eq!(b.mc_discount, 3);
    let none = selector_bonus(&db, &pl, 4);
    assert!(!none.is_selector);
    assert_eq!(none.mc, 0);
}

#[test]
fn a_milestone_goes_to_who_meets_it_and_stays_claimed() {
    let db = db();
    let mut game = probe_state_base(&db, &Vec::new(), ProbeOptions::default());
    game.milestones[1] = MilestoneSlot { kind: MilestoneKind::Gardener, achieved_by: [false, false] };
    game.players[1].forests = 3;
    assign_milestones(&mut game);
    assert_eq!(game.milestones[1].achieved_by, [false, true]);
    game.players[0].forests = 5;
    assign_milestones(&mut game);
    assert_eq!(game.milestones[1].achieved_by, [false, true]);
}

#[test]
fn the_score_counts_tr_and_forests() {
    let db = db();
    let mut game = probe_state_base(&db, &Vec::new(), ProbeOptions::default());
    game.players[0].forests = 2;
    let s = score(&game, &db);
    assert_eq!(s[0] - s[1], 2);
    game.players[1].forests = 2;
    let t = score(&game, &db);
    assert_eq!(t[0], t[1]);
    assert_eq!(t[0], s[0]);
}

#[test]
fn reshuffling_the_future_leaves_what_was_seen() {
    let db = db();
    let mut pol = RandomPolicy;
    let mut game = setup_game(&db, 3, &mut pol);
    let hands: Vec<Vec<u16>> = game.players.iter().map(|p| p.hand.clone()).collect();
    let mut deck = game.deck.clone();
    rebattre_l_avenir(&mut game, 12345);
    assert_eq!(game.players[0].hand, hands[0]);
    assert_eq!(game.players[1].hand, hands[1]);
    let mut after = game.deck.clone();
    deck.sort();
    after.sort();
    assert_eq!(deck, after);
    assert_eq!(DejaVu::rien().cartes, 0);
}

#[test]
fn labels_read_as_javascript_reads_them() {
    assert!(caractere_de_mot('a') && caractere_de_mot('Z') && caractere_de_mot('7') && caractere_de_mot('_'));
    assert!(!caractere_de_mot('é') && !caractere_de_mot(' '));
    assert!(commence_par_mot("non merci", "non"));
    assert!(commence_par_mot("nonè", "non"));
    assert!(!commence_par_mot("nonante", "non"));
    assert!(contient_mot("payer 3 MC", "MC"));
    assert!(!contient_mot("payer 3 MCx", "MC"));
    assert!(!contient_mot("abc", ""));
    assert!(espace_js(' ') && espace_js('\u{a0}') && espace_js('\u{2005}'));
    assert!(!espace_js('x'));
}

#[test]
fn action_labels_name_the_card() {
    let db = db();
    assert_eq!(libelle_action(&db, &ActionOpt::ForestWithMc), "Forêt (MC)");
    assert_eq!(libelle_action(&db, &ActionOpt::BlueAction(2)), "Action de Trading Post");
    assert_eq!(libelle_action(&db, &ActionOpt::BlueAction(4321)), "Action de la carte bleue 4321");
}

#[test]
fn a_simulation_sums_the_games_it_plays() {
    let db = db();
    let mut pol = RandomPolicy;
    let t = run_simulation(&db, 3, 99, &mut pol);
    let mut master = StdRng::seed_from_u64(99);
    let mut completed = 0u64;
    let mut generations = 0u64;
    let mut p1 = 0i64;
    let mut p2 = 0i64;
    let mut draws = 0u64;
    let mut h = Fnv1a::new();
    for g in 0..3 {
        let out = play_game(&db, master.next_u64(), &mut pol);
        if out.completed {
            completed += 1;
        }
        if out.draw {
            draws += 1;
        }
        generations += out.generations as u64;
        p1 += out.scores[0];
        p2 += out.scores[1];
        h.write_u64(out.state_hash);
        assert_eq!(t.turn_orders[g], out.turn_order);
    }
    assert_eq!(t.completed, completed);
    assert_eq!(t.truncated, 3 - completed);
    assert_eq!(t.draws, draws);
    assert_eq!(t.sum_generations, generations);
    assert_eq!(t.sum_score_p1, p1);
    assert_eq!(t.sum_score_p2, p2);
    assert_eq!(t.state_hash, h.0);
}

#[test]
fn an_action_that_cannot_be_paid_changes_nothing() {
    let db = db();
    let script = ProbeScript::default();
    let poor = ProbeOptions { mc: 7, ..ProbeOptions::default() };
    let r = run_probe_action_opts(&db, "Trading Post", &script, None, poor);
    assert!(r.found && r.has_action);
    assert!(!r.action_applied);
    assert_eq!(r.delta, ProbeDelta::zero());
    let r = run_probe_action_opts(&db, "Trading Post", &script, None, ProbeOptions::default());
    assert!(r.action_applied);
    assert_eq!(r.delta.mc, 2);
}

#[test]
fn a_trigger_gain_is_received_once_per_matching_tag() {
    let db = db();
    let mut pol = RandomPolicy;
    let mut game = setup_game(&db, 5, &mut pol);
    let before = game.players[1].clone();
    let heat = game.players[0].heat;
    let plants = game.players[0].plants;
    apply_trig_gain(&mut game, &db, 0, None, &TrigGain::Heat(2), 3, &mut pol);
    assert_eq!(game.players[0].heat, heat + 6);
    apply_trig_gain(&mut game, &db, 0, None, &TrigGain::Plants(1), 2, &mut pol);
    assert_eq!(game.players[0].plants, plants + 2);
    assert_eq!(game.players[1].heat, before.heat);
    assert_eq!(game.players[1].plants, before.plants);
}

#[test]
fn cards_from_the_future_go_back_to_the_pile() {
    let db = db();
    let mut pol = RandomPolicy;
    let mut game = setup_game(&db, 11, &mut pol);
    let hand = game.players[0].hand.clone();
    assert!(hand.len() >= 3);
    let deck_len = game.deck.len();
    let mut all: Vec<u16> = game.deck.iter().chain(hand.iter()).copied().collect();
    all.sort();
    let known: Vec<u16> = vec![hand[2], hand[0]];
    ecarter_les_cartes_du_futur(&known, &mut game, 0, 77);
    let new_hand = &game.players[0].hand;
    assert_eq!(new_hand.len(), hand.len());
    assert_eq!(new_hand[0], hand[0]);
    assert_eq!(new_hand[1], hand[2]);
    assert_eq!(game.deck.len(), deck_len);
    let mut after: Vec<u16> = game.deck.iter().chain(new_hand.iter()).copied().collect();
    after.sort();
    assert_eq!(after, all);
    let before = game.players[0].hand.clone();
    let deck = game.deck.clone();
    let everything = before.clone();
    ecarter_les_cartes_du_futur(&everything, &mut game, 0, 78);
    assert_eq!(game.players[0].hand, before);
    assert_eq!(game.deck, deck);
}

#[test]
fn the_dearest_unpayable_cards_are_sold_first() {
    let prices = [12i64, 5, 15, 12, 20, 3];
    let main: Vec<CarteDeMain> = prices.iter().map(|&p| CarteDeMain { prix: p, verte: false }).collect();
    let payable = [false, false, false, false, true, false];
    assert_eq!(vente_eventuelle(&main, &payable), vec![0, 2]);
    let small: Vec<CarteDeMain> = main[..4].to_vec();
    assert!(vente_eventuelle(&small, &payable[..4]).is_empty());
    let all_payable = [true; 6];
    assert!(vente_eventuelle(&main, &all_payable).is_empty());
}

#[test]
fn the_joker_tag_at_play_stays_among_the_candidates() {
    let mut pol = RandomPolicy;
    let mut rng = StdRng::seed_from_u64(3);
    let counts: [u32; 10] = [0, 1, 0, 4, 0, 2, 0, 9, 0, 0];
    assert_eq!(pol.pick_joker_tag(&mut rng, 0, 0, &counts), 7);
    assert_eq!(pol.pick_joker_tag_a_la_pose(&mut rng, 0, 0, &counts, &[1, 3, 5]), 1);
    assert_eq!(pol.pick_joker_tag_a_la_pose(&mut rng, 0, 0, &counts, &[5, 7]), 1);
    for _ in 0..20 {
        let b = pol.construction_bonus_apres(&mut rng, 0);
        assert!(b == ConstructionBonus::DrawCard || b == ConstructionBonus::SecondBuild);
    }
}

#[test]
fn a_forest_adds_one_forest_and_raises_oxygen() {
    let db = db();
    let mut pol = RandomPolicy;
    let mut game = setup_game(&db, 21, &mut pol);
    game.players[0].plants = 20;
    let forests = game.players[0].forests;
    let oxygen = game.oxygen;
    build_forest(&mut game, &db, 0, true, &mut pol);
    assert_eq!(game.players[0].forests, forests + 1);
    assert_eq!(game.players[0].plants, 12);
    assert_eq!(game.oxygen, oxygen + 1);
}

#[test]
fn an_imposed_phase_upgrade_turns_that_phase_card() {
    let db = db();
    let mut pol = RandomPolicy;
    let mut game = setup_game(&db, 5, &mut pol);
    let granted = game.phase_upgrades_granted;
    let other = game.players[1].phase_upgrades;
    engine::turn::apply_phase_upgrade(&mut game, &db, 0, &mut pol, Some(3), engine::policy::UpgradeSource::Action);
    assert_eq!(game.phase_upgrades_granted, granted + 1);
    assert!(game.players[0].phase_upgrades[2].is_some());
    assert!(game.players[0].phase_upgrades[0].is_none());
    assert_eq!(game.players[1].phase_upgrades, other);
}

#[test]
fn an_upgrade_imposed_on_no_phase_card_changes_nothing() {
    let db = db();
    let mut pol = RandomPolicy;
    let mut game = setup_game(&db, 6, &mut pol);
    let granted = game.phase_upgrades_granted;
    let ups = game.players[0].phase_upgrades;
    engine::turn::apply_phase_upgrade(&mut game, &db, 0, &mut pol, Some(9), engine::policy::UpgradeSource::Build);
    assert_eq!(game.phase_upgrades_granted, granted);
    assert_eq!(game.players[0].phase_upgrades, ups);
}

#[test]
fn drawing_then_discarding_keeps_the_hand_within_its_bounds() {
    let db = db();
    let mut pol = RandomPolicy;
    let mut game = setup_game(&db, 8, &mut pol);
    let hand = game.players[0].hand.len();
    let other = game.players[1].hand.clone();
    let mc = game.players[0].mc;
    engine::turn::draw_then_discard(&mut game, &db, 0, 3, 1, false, &mut pol);
    assert!(game.players[0].hand.len() <= hand + 3);
    assert!(game.players[0].hand.len() + 1 >= hand + 3);
    assert_eq!(game.players[1].hand, other);
    assert_eq!(game.players[0].mc, mc);
}

#[test]
fn the_test_database_follows_the_encoding_rules() {
    let db = db();
    assert!(engine::turn::db_sound(&db));
    let mut bad = db.clone();
    bad.deck_project_count += 1;
    assert!(!engine::turn::db_sound(&bad));
}

#[test]
fn a_trigger_that_raises_a_parameter_breaks_the_encoding_rules() {
    let mut projects = Vec::new();
    let mut e = no_effects();
    e.play_triggers.push(engine::effects::PlayTrigger {
        cond: engine::effects::TrigCond::AnyOfTags(vec![Tag::Earth]),
        gains: vec![TrigGain::Choose(vec![vec![engine::effects::ResEff::Gain(Eff::Temperature(1))]])],
        include_self: false,
        scale_by_matched_tags: false,
    });
    projects.push(card("Loop", 5, Color::Blue, Some(e)));
    let mut corporations = Vec::new();
    for i in 0..8 {
        corporations.push(Corporation { name: format!("C{i}"), starting_mc: 40, tags: vec![], effect: None });
    }
    let db = new_db(projects, corporations, true, BoiteSet { base: true, decouverte: false });
    assert!(!engine::turn::db_sound(&db));
}

#[test]
fn setup_leaves_nothing_in_play_and_distinct_objectives() {
    let db = db();
    let mut pol = RandomPolicy;
    let game = setup_game(&db, 21, &mut pol);
    for p in 0..2 {
        assert!(game.players[p].played.is_empty());
        assert_eq!(game.players[p].hand.len(), engine::state::STARTING_HAND);
    }
    let m = &game.milestones;
    assert!(m[0].kind != m[1].kind && m[0].kind != m[2].kind && m[1].kind != m[2].kind);
    let a = &game.awards;
    assert!(a[0] != a[1] && a[0] != a[2] && a[1] != a[2]);
    assert!(!a.contains(&engine::state::AwardKind::Visionary));
}

#[test]
fn an_empty_score_breakdown_totals_zero() {
    let b = engine::flow::ScoreBreakdown::default();
    assert_eq!(b.total(), 0);
    assert_eq!(b.tr, 0);
}

#[test]
fn converting_heat_into_mc_is_counted() {
    let db = db();
    let mut pol = RandomPolicy;
    let mut game = setup_game(&db, 3, &mut pol);
    let before = game.corp_heat_as_mc;
    let used = engine::turn::top_up_mc_with_heat(&mut game, &db, 0, 0);
    assert_eq!(used, 0);
    assert_eq!(game.corp_heat_as_mc, before);
}

#[test]
fn a_fixed_action_pays_its_cost_then_gains() {
    let db = db();
    let mut pol = RandomPolicy;
    let mut game = setup_game(&db, 31, &mut pol);
    game.players[0].mc = 20;
    let heat = game.players[0].heat;
    let other = game.players[1].mc;
    let action = Action::Fixed { cost: vec![ActionCost::Mc(3)], effect: vec![ActionEff::Heat(2), ActionEff::Mc(1)] };
    let ok = engine::turn::apply_action_spec(&mut game, &db, 0, engine::policy::ActionSource::Corp, &action, &None, &mut pol);
    assert!(ok);
    assert_eq!(game.players[0].mc, 18);
    assert_eq!(game.players[0].heat, heat + 2);
    assert_eq!(game.players[1].mc, other);
}

#[test]
fn a_phase_bonus_that_is_not_on_changes_nothing() {
    let db = db();
    let mut pol = RandomPolicy;
    let mut game = setup_game(&db, 32, &mut pol);
    game.players[0].mc = 20;
    game.players[0].chosen_phase = 1;
    let bonus = engine::effects::PhaseBonus { phase: 3, require_upgraded: false, cost: Some(vec![ActionCost::Mc(0)]),
        extra: vec![ActionEff::Mc(10)] };
    let action = Action::Fixed { cost: vec![ActionCost::Mc(3)], effect: vec![ActionEff::Mc(1)] };
    let ok = engine::turn::apply_action_spec(&mut game, &db, 0, engine::policy::ActionSource::Corp, &action, &Some(bonus), &mut pol);
    assert!(ok);
    assert_eq!(game.players[0].mc, 18);
}

#[test]
fn a_temperature_effect_raises_by_its_steps_up_to_the_maximum() {
    let db = db();
    let mut pol = RandomPolicy;
    let mut game = setup_game(&db, 41, &mut pol);
    let t = game.temperature;
    engine::turn::apply_eff(&mut game, &db, 0, &Eff::Temperature(2), &mut pol, true);
    assert_eq!(game.temperature, t + 2);
    game.temperature = engine::state::TEMPERATURE_MAX - 1;
    engine::turn::apply_eff(&mut game, &db, 0, &Eff::Temperature(3), &mut pol, true);
    assert_eq!(game.temperature, engine::state::TEMPERATURE_MAX);
}

#[test]
fn the_action_phase_ends_with_the_heat_converted() {
    let db = db();
    let mut pol = RandomPolicy;
    let mut game = setup_game(&db, 42, &mut pol);
    game.players[0].heat = 30;
    game.players[1].heat = 9;
    engine::phases::phase_action(&mut game, &db, &mut pol);
    assert!(game.players[0].heat < 8);
    assert!(game.players[1].heat < 8);
    assert!(game.players[0].heat >= 0 && game.players[1].heat >= 0);
}

#[test]
fn a_probe_reports_the_change_the_build_made() {
    let db = db();
    let r = run_probe(&db, "Income");
    assert!(r.found);
    assert_eq!(r.paid, vec![8]);
    assert_eq!(r.delta.mc_prod, 2);
    assert_eq!(r.delta.heat, 0);
}

#[test]
fn a_blue_card_action_pays_by_know_how_then_gains() {
    let db = db();
    let mut pol = RandomPolicy;
    let mut game = setup_game(&db, 43, &mut pol);
    game.players[0].mc = 20;
    game.players[0].steel_capacity = 0;
    let other = game.players[1].mc;
    assert!(engine::turn::apply_blue_action(&mut game, &db, 0, 2, &mut pol));
    assert_eq!(game.players[0].mc, 22);
    assert_eq!(game.players[1].mc, other);
}
