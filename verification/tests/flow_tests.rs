use engine::cards::{new_db, BoiteSet, CardsDb, Color, Corporation, ProjectCard, Tag};
use engine::effects::{Action, ActionCost, ActionEff, Capacity, CardEffects, Reduction};
use engine::flow::activable_blue;
use engine::policy::RandomPolicy;
use engine::setup::setup_game;
use engine::state::{GameState, NUM_OCEANS, OXYGEN_MAX};
use engine::turn::{apply_blue_action, refresh_capacities};

fn no_effects() -> CardEffects {
    CardEffects {
        reqs: Vec::new(),
        effects: Vec::new(),
        on_build: Vec::new(),
        reductions: Vec::new(),
        play_triggers: Vec::new(),
        global_triggers: Vec::new(),
        action: None,
        phase_bonus: None,
        prod: None,
        research: None,
        discard_bonus: 0,
        standard_discount: 0,
        req_color_flex: false,
        grants: Vec::new(),
        next_card: None,
        reveal_bonus: Vec::new(),
        action_trigger: Vec::new(),
        holds: None,
    }
}

fn card(name: &str, price: i64, color: Color, tags: Vec<Tag>, effect: Option<CardEffects>) -> ProjectCard {
    ProjectCard {
        name: name.to_string(),
        price,
        color,
        tags,
        vp: 0,
        vp_dynamic: None,
        in_deck: true,
        effect,
    }
}

/// A blue card whose action is `cost` MC (less `per` MC per unit of
/// know-how `cap`) for the effects given.
fn blue_action(name: &str, base: i64, cap: Capacity, per: i64, effect: Vec<ActionEff>) -> ProjectCard {
    let mut e = no_effects();
    e.action = Some(Action::Fixed { cost: vec![ActionCost::McPerCapacity { base, cap, per }], effect });
    card(name, 10, Color::Blue, vec![Tag::Space], Some(e))
}

/// A green card that gives know-how: `steel` steel and `titanium` titanium.
fn know_how(name: &str, steel: i64, titanium: i64) -> ProjectCard {
    let mut e = no_effects();
    if steel > 0 {
        e.reductions.push(Reduction::Tag(Tag::Building, 2 * steel));
    }
    if titanium > 0 {
        e.reductions.push(Reduction::Tag(Tag::Space, 3 * titanium));
    }
    card(name, 10, Color::Green, vec![Tag::Building], Some(e))
}

fn db() -> CardsDb {
    let mut projects = Vec::new();
    for name in [
        "United Planetary Alliance",
        "Adaptation Technology",
        "Composting Factory",
        "Extended Resources",
        "Interns",
        "Mars University",
        "Restructured Resources",
        "Standard Technology",
    ] {
        projects.push(card(name, 10, Color::Blue, vec![Tag::Science], Some(no_effects())));
    }
    projects.push(blue_action("Solarpunk", 15, Capacity::Titanium, 2, vec![ActionEff::Forest(1)]));
    projects.push(blue_action("Water Import from Europa", 12, Capacity::Titanium, 1, vec![ActionEff::Ocean(1)]));
    projects.push(blue_action("Aquifer Pumping", 10, Capacity::Steel, 2, vec![ActionEff::Ocean(1)]));
    projects.push(know_how("Titanium Mine", 0, 1));
    projects.push(know_how("Strip Mine", 2, 1));
    projects.push(know_how("Space Station", 0, 1));
    for i in 0..40 {
        let color = if i % 2 == 0 { Color::Green } else { Color::Red };
        projects.push(card(&format!("Filler {i}"), 5 + (i % 7) as i64, color, vec![Tag::Earth], None));
    }
    let mut corporations = Vec::new();
    for i in 0..12 {
        corporations.push(Corporation { name: format!("Corporation {i}"), starting_mc: 40, tags: Vec::new(), effect: None });
    }
    new_db(projects, corporations, true, BoiteSet { base: true, decouverte: false })
}

/// A fresh player 0: no card in play, no corporation, no know-how.
fn joueur_neuf(game: &mut GameState) {
    game.players[0].played.clear();
    game.players[0].corporation = None;
    game.players[0].steel_capacity = 0;
    game.players[0].titanium_capacity = 0;
}

/// Puts the card named in play for player 0 by the real way, with money.
fn poser(game: &mut GameState, db: &CardsDb, nom: &str) -> u16 {
    let id = db.resolve_card(nom).unwrap_or_else(|| panic!("{nom}"));
    game.players[0].put_in_play(id, db);
    refresh_capacities(game, db, 0);
    game.players[0].mc = 100;
    id
}

#[test]
fn une_action_ocean_ne_se_paie_pas_quand_il_n_y_a_plus_d_ocean() {
    let db = db();
    let mut pol = RandomPolicy;
    let mut game = setup_game(&db, 7, &mut pol);
    joueur_neuf(&mut game);
    let id = poser(&mut game, &db, "Aquifer Pumping");

    game.oceans_revealed = 0;
    game.snapshot_planet();
    let bonus = game.oceans[0].mc;
    let avant = game.players[0].mc;
    assert!(apply_blue_action(&mut game, &db, 0, id, &mut pol));
    assert_eq!(game.players[0].mc, avant - 10 + bonus);
    assert_eq!(game.oceans_revealed, 1);

    game.oceans_revealed = NUM_OCEANS;
    game.snapshot_planet();
    let avant = game.players[0].mc;
    let tr = game.players[0].tr;
    assert!(!apply_blue_action(&mut game, &db, 0, id, &mut pol));
    assert_eq!(game.players[0].mc, avant, "aucun MC prélevé");
    assert_eq!(game.players[0].tr, tr, "aucun NT accordé");
}

#[test]
fn une_action_foret_reste_jouable_oxygene_au_maximum() {
    let db = db();
    let mut pol = RandomPolicy;
    let mut game = setup_game(&db, 11, &mut pol);
    joueur_neuf(&mut game);
    let id = poser(&mut game, &db, "Solarpunk");
    game.oxygen = OXYGEN_MAX;
    game.snapshot_planet();
    let (mc, tr, forets) = (game.players[0].mc, game.players[0].tr, game.players[0].forests);
    assert!(apply_blue_action(&mut game, &db, 0, id, &mut pol));
    assert_eq!(game.players[0].mc, mc - 15);
    assert_eq!(game.players[0].forests, forets + 1, "le jeton est gagné");
    assert_eq!(game.oxygen, OXYGEN_MAX, "l'oxygène ne dépasse pas la borne");
    assert_eq!(game.players[0].tr, tr, "pas d'oxygène, donc pas de NT");
}

#[test]
fn une_action_a_cout_reduit_reste_impayable_sans_les_mc() {
    let db = db();
    let mut pol = RandomPolicy;
    let mut game = setup_game(&db, 3, &mut pol);
    joueur_neuf(&mut game);
    let id = poser(&mut game, &db, "Solarpunk");
    poser(&mut game, &db, "Titanium Mine");
    game.snapshot_planet();
    game.players[0].mc = 12;
    assert!(!apply_blue_action(&mut game, &db, 0, id, &mut pol));
    assert_eq!(game.players[0].mc, 12, "rien prélevé");
    game.players[0].mc = 13;
    assert!(apply_blue_action(&mut game, &db, 0, id, &mut pol));
    assert_eq!(game.players[0].mc, 0);
}

#[test]
fn le_compte_suit_la_mise_en_jeu_dans_le_flux_reel() {
    let db = db();
    let mut pol = RandomPolicy;
    let mut game = setup_game(&db, 5, &mut pol);
    joueur_neuf(&mut game);
    poser(&mut game, &db, "Strip Mine");
    assert_eq!((game.players[0].steel_capacity, game.players[0].titanium_capacity), (2, 1));
    poser(&mut game, &db, "Space Station");
    assert_eq!(game.players[0].titanium_capacity, 2);
}

#[test]
fn une_carte_bleue_sans_action_n_est_pas_activable() {
    let db = db();
    for nom in [
        "United Planetary Alliance",
        "Adaptation Technology",
        "Composting Factory",
        "Extended Resources",
        "Interns",
        "Mars University",
        "Restructured Resources",
        "Standard Technology",
    ] {
        let id = db.resolve_card(nom).unwrap_or_else(|| panic!("{nom} introuvable"));
        assert!(!activable_blue(&db, id), "{nom} ne porte aucune action : la proposer gâche l'activation");
    }
}

#[test]
fn une_carte_bleue_avec_action_reste_activable() {
    let db = db();
    for nom in ["Solarpunk", "Water Import from Europa"] {
        let id = db.resolve_card(nom).unwrap_or_else(|| panic!("{nom} introuvable"));
        assert!(activable_blue(&db, id), "{nom} porte une action");
    }
}

#[test]
fn aucune_carte_non_bleue_n_est_activable() {
    let db = db();
    for (i, c) in db.projects.iter().enumerate() {
        if c.color != Color::Blue {
            assert!(!activable_blue(&db, i as u16), "{} n'est pas bleue", c.name);
        }
    }
}
