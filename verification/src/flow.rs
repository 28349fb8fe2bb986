//! Rule services that read the state without changing it: corporation
//! powers, cost reductions, know-how (steel and titanium), spendable money,
//! production, research, requirements, milestones, awards and score.

use vstd::prelude::*;
use crate::arith::{clamp64, plus, minus, times};
use crate::cards::{CardsDb, Color, ProjectCard, Tag, TAG_COUNT, VpKind, tag_index, color_index};
use crate::effects::{
    ActionCost, ActionRes, Capacity, CorpEffects, CardEffects, DerivedProd, Eff, ProdCount, ProdRes,
    Reduction, Req, RevealFilter, SelectorSpec, seq_has_tag, has_tag, phase_base, phase_upgraded,
    phase_card_ok, spec_shape_ok,
};
use crate::state::{
    AwardKind, GameState, MilestoneKind, PhaseUpgrade, PlayerState, SELL_CARD_MC, FOREST_PLANT_COST,
    STARTING_TR, award_pool_all, award_pool_seq,
};
use crate::effects::{temp_color, oxy_color, temp_color_spec, oxy_color_spec};

verus! {

// ------------------------------------------------------------- corporation

/// The encoded powers of corporation `c`, if the effect layer is on.
pub open spec fn corp_spec(db: &CardsDb, c: Option<u16>) -> Option<CorpEffects> {
    if !db.effects_on {
        None
    } else {
        match c {
            Some(i) => db.corporations@[i as int].effect,
            None => None,
        }
    }
}

/// The corporation index of a player is in range.
pub open spec fn corp_ok(db: &CardsDb, c: Option<u16>) -> bool {
    c matches Some(i) ==> (i as int) < db.corporations@.len()
}

/// The powers of the player's corporation, or `None` when the effect layer
/// is off or the player has no corporation.
pub fn corp_effects<'a>(db: &'a CardsDb, pl: &PlayerState) -> (r: Option<&'a CorpEffects>)
    requires corp_ok(db, pl.corporation),
    ensures
        match r {
            Some(e) => corp_spec(db, pl.corporation) == Some(*e),
            None => corp_spec(db, pl.corporation) is None,
        },
{
    if !db.effects_on {
        return None;
    }
    match pl.corporation {
        Some(c) => match &db.corporations[c as usize].effect {
            Some(e) => Some(e),
            None => None,
        },
        None => None,
    }
}

/// Phases a player may choose this round: 1..=5 but the previous one.
pub fn allowed_phases(player: &PlayerState) -> (r: Vec<u8>)
    ensures
        forall|x: u8| r@.contains(x) <==> (1 <= x <= 5 && player.previous_phase != Some(x)),
        forall|i: int, j: int| 0 <= i < j < r@.len() ==> r@[i] < r@[j],
{
    let mut out: Vec<u8> = Vec::new();
    let mut ph: u8 = 1;
    while ph <= 5
        invariant
            1 <= ph <= 6,
            forall|x: u8| out@.contains(x) <==> (1 <= x < ph && player.previous_phase != Some(x)),
            forall|i: int| 0 <= i < out@.len() ==> out@[i] < ph,
            forall|i: int, j: int| 0 <= i < j < out@.len() ==> out@[i] < out@[j],
        decreases 6 - ph,
    {
        let skip = match player.previous_phase {
            Some(q) => q == ph,
            None => false,
        };
        if !skip {
            proof {
                assert forall|x: u8| out@.push(ph).contains(x) <==> (1 <= x < ph + 1 && player.previous_phase != Some(x)) by {
                    if out@.push(ph).contains(x) && x != ph {
                        let k = choose|k: int| 0 <= k < out@.push(ph).len() && out@.push(ph)[k] == x;
                        assert(k < out@.len());
                        assert(out@.contains(x));
                    }
                    if 1 <= x < ph && player.previous_phase != Some(x) {
                        assert(out@.contains(x));
                        let k = choose|k: int| 0 <= k < out@.len() && out@[k] == x;
                        assert(out@.push(ph)[k] == x);
                    }
                    if x == ph {
                        assert(out@.push(ph)[out@.len() as int] == x);
                    }
                }
            }
            out.push(ph);
        }
        ph = ph + 1;
    }
    out
}

/// Price after a discount, never below zero.
pub open spec fn effective_cost_spec(price: i64, discount: i64) -> i64 {
    if clamp64(price - discount) > 0 { clamp64(price - discount) as i64 } else { 0 }
}

/// Price after a discount, never below zero.
pub fn effective_cost(price: i64, discount: i64) -> (r: i64)
    ensures r == effective_cost_spec(price, discount), r >= 0,
{
    let d = minus(price, discount);
    if d > 0 { d } else { 0 }
}

/// Does the card carry a joker tag?
pub fn has_joker_tag(db: &CardsDb, card_id: u16) -> (r: bool)
    requires (card_id as int) < db.projects@.len(),
    ensures r == crate::state::seq_contains_joker(db.projects@[card_id as int].tags@),
{
    crate::state::contains_joker(&db.projects[card_id as usize].tags)
}

// -------------------------------------------------------------- know-how

/// Steel and titanium know-how of a player.
#[derive(Debug, Clone, Copy, PartialEq, Eq, Structural)]
pub struct Capacities {
    pub steel: i64,
    pub titanium: i64,
}

pub open spec fn caps_get(c: Capacities, cap: Capacity) -> i64 {
    match cap {
        Capacity::Steel => c.steel,
        Capacity::Titanium => c.titanium,
    }
}

pub open spec fn caps_add(c: Capacities, cap: Capacity, n: i64) -> Capacities {
    match cap {
        Capacity::Steel => Capacities { steel: clamp64(c.steel + n) as i64, titanium: c.titanium },
        Capacity::Titanium => Capacities { steel: c.steel, titanium: clamp64(c.titanium + n) as i64 },
    }
}

impl Capacities {
    /// Units of the requested know-how.
    pub fn get(self, cap: Capacity) -> (r: i64)
        ensures r == caps_get(self, cap),
    {
        match cap {
            Capacity::Steel => self.steel,
            Capacity::Titanium => self.titanium,
        }
    }

    /// Adds `n` units of a know-how.
    pub fn add(&mut self, cap: Capacity, n: i64)
        ensures *final(self) == caps_add(*old(self), cap, n),
    {
        match cap {
            Capacity::Steel => self.steel = plus(self.steel, n),
            Capacity::Titanium => self.titanium = plus(self.titanium, n),
        }
    }
}

/// Know-how added by a list of reductions: 2 MC per steel on building
/// cards, 3 MC per titanium on space cards.
pub open spec fn caps_of_reductions(c: Capacities, reds: Seq<Reduction>) -> Capacities
    decreases reds.len(),
{
    if reds.len() == 0 {
        c
    } else {
        let prev = caps_of_reductions(c, reds.drop_last());
        match reds.last().capacity_units_spec() {
            Some((cap, n)) => caps_add(prev, cap, n),
            None => prev,
        }
    }
}

/// Know-how of the green cards among `played`.
pub open spec fn caps_of_cards(db: &CardsDb, played: Seq<u16>) -> Capacities
    decreases played.len(),
{
    if played.len() == 0 {
        Capacities { steel: 0, titanium: 0 }
    } else {
        let prev = caps_of_cards(db, played.drop_last());
        let card = db.projects@[played.last() as int];
        if card.color == Color::Green && card.effect is Some {
            caps_of_reductions(prev, card.effect->Some_0.reductions@)
        } else {
            prev
        }
    }
}

/// Know-how of a player: the green cards in play and the corporation.
pub open spec fn capacities_spec(db: &CardsDb, played: Seq<u16>, corp: Option<u16>) -> Capacities {
    if !db.effects_on {
        Capacities { steel: 0, titanium: 0 }
    } else {
        let c = caps_of_cards(db, played);
        match corp_spec(db, corp) {
            Some(e) => caps_of_reductions(c, e.reductions@),
            None => c,
        }
    }
}

/// Cards in play are project cards, the corporation one of the boards.
pub open spec fn player_ids_ok(db: &CardsDb, pl: &PlayerState) -> bool {
    &&& crate::state::ids_ok(pl.played@, db.projects@.len() as int)
    &&& crate::state::ids_ok(pl.hand@, db.projects@.len() as int)
    &&& corp_ok(db, pl.corporation)
}

fn add_reduction_caps(out: &mut Capacities, reds: &Vec<Reduction>)
    ensures *final(out) == caps_of_reductions(*old(out), reds@),
{
    let ghost start = *out;
    let mut j: usize = 0;
    while j < reds.len()
        invariant
            j <= reds@.len(),
            *out == caps_of_reductions(start, reds@.subrange(0, j as int)),
        decreases reds@.len() - j,
    {
        proof {
            assert(reds@.subrange(0, j + 1).drop_last() =~= reds@.subrange(0, j as int));
        }
        match reds[j].capacity_units() {
            Some((cap, n)) => out.add(cap, n),
            None => {}
        }
        j = j + 1;
    }
    proof { assert(reds@.subrange(0, reds@.len() as int) =~= reds@); }
}

/// Steel and titanium know-how of a player, derived from the reductions of
/// the green cards in play and of the corporation.
pub fn capacities(db: &CardsDb, pl: &PlayerState) -> (r: Capacities)
    requires player_ids_ok(db, pl),
    ensures r == capacities_spec(db, pl.played@, pl.corporation),
{
    let mut out = Capacities { steel: 0, titanium: 0 };
    if !db.effects_on {
        return out;
    }
    let mut i: usize = 0;
    while i < pl.played.len()
        invariant
            i <= pl.played@.len(),
            player_ids_ok(db, pl),
            out == caps_of_cards(db, pl.played@.subrange(0, i as int)),
        decreases pl.played@.len() - i,
    {
        proof {
            assert(pl.played@.subrange(0, i + 1).drop_last() =~= pl.played@.subrange(0, i as int));
        }
        let card = &db.projects[pl.played[i] as usize];
        if card.color == Color::Green {
            match &card.effect {
                Some(spec) => add_reduction_caps(&mut out, &spec.reductions),
                None => {}
            }
        }
        i = i + 1;
    }
    proof { assert(pl.played@.subrange(0, pl.played@.len() as int) =~= pl.played@); }
    match corp_effects(db, pl) {
        Some(spec) => add_reduction_caps(&mut out, &spec.reductions),
        None => {}
    }
    out
}

/// The know-how as the player's state holds it.
pub fn player_capacities(pl: &PlayerState) -> (r: Capacities)
    ensures r.steel == pl.steel_capacity, r.titanium == pl.titanium_capacity,
{
    Capacities { steel: pl.steel_capacity, titanium: pl.titanium_capacity }
}

// ------------------------------------------------------------- discounts

/// Amount of a `PerCapacity` reduction for a card of these tags.
pub open spec fn per_capacity_spec(r: Reduction, tags: Seq<Tag>, caps: Capacities) -> i64 {
    match r {
        Reduction::PerCapacity { tag, cap, per } =>
            if seq_has_tag(tags, tag) { clamp64(per * caps_get(caps, cap)) as i64 } else { 0 },
        _ => 0,
    }
}

/// Amount of a `PerCapacity` reduction for a card of these tags; 0 for
/// every other reduction.
pub fn per_capacity_amount(r: Reduction, tags: &[Tag], caps: Capacities) -> (out: i64)
    ensures out == per_capacity_spec(r, tags@, caps),
{
    match r {
        Reduction::PerCapacity { tag, cap, per } => {
            if has_tag(tags, tag) { times(per, caps.get(cap)) } else { 0 }
        }
        _ => 0,
    }
}

/// Sum of a list of reductions for a card of given tags and price.
pub open spec fn discount_of_reductions(acc: i64, reds: Seq<Reduction>, tags: Seq<Tag>, price: i64, caps: Capacities) -> i64
    decreases reds.len(),
{
    if reds.len() == 0 {
        acc
    } else {
        let prev = discount_of_reductions(acc, reds.drop_last(), tags, price, caps);
        let r = reds.last();
        clamp64(prev + clamp64(r.amount_for_spec(tags, price) + per_capacity_spec(r, tags, caps))) as i64
    }
}

/// Sum of the reductions of the cards among `played`.
pub open spec fn discount_of_cards(db: &CardsDb, played: Seq<u16>, tags: Seq<Tag>, price: i64, caps: Capacities) -> i64
    decreases played.len(),
{
    if played.len() == 0 {
        0
    } else {
        let prev = discount_of_cards(db, played.drop_last(), tags, price, caps);
        match db.projects@[played.last() as int].effect {
            Some(e) => discount_of_reductions(prev, e.reductions@, tags, price, caps),
            None => prev,
        }
    }
}

/// Discount of a card for a player: the reductions of every card in play
/// and of the corporation, judged on the card's tags as the player sees
/// them and on its printed price; 0 with the effect layer off.
pub open spec fn card_discount_spec(db: &CardsDb, pl: &PlayerState, card_id: u16) -> i64 {
    if !db.effects_on {
        0
    } else {
        let tags = pl.tags_of_spec(db, card_id);
        let price = db.projects@[card_id as int].price;
        let caps = Capacities { steel: pl.steel_capacity, titanium: pl.titanium_capacity };
        let d = discount_of_cards(db, pl.played@, tags, price, caps);
        match corp_spec(db, pl.corporation) {
            Some(e) => discount_of_reductions(d, e.reductions@, tags, price, caps),
            None => d,
        }
    }
}

fn add_reduction_discount(d: &mut i64, reds: &Vec<Reduction>, tags: &[Tag], price: i64, caps: Capacities)
    ensures *final(d) == discount_of_reductions(*old(d), reds@, tags@, price, caps),
{
    let ghost start = *d;
    let mut j: usize = 0;
    while j < reds.len()
        invariant
            j <= reds@.len(),
            *d == discount_of_reductions(start, reds@.subrange(0, j as int), tags@, price, caps),
        decreases reds@.len() - j,
    {
        proof {
            assert(reds@.subrange(0, j + 1).drop_last() =~= reds@.subrange(0, j as int));
        }
        let r = reds[j];
        let a = plus(r.amount_for(tags, price), per_capacity_amount(r, tags, caps));
        *d = plus(*d, a);
        j = j + 1;
    }
    proof { assert(reds@.subrange(0, reds@.len() as int) =~= reds@); }
}

/// Cost reduction of a card for player `p`: the sum of the reductions of
/// all the cards they have in play and of their corporation.
pub fn card_discount(game: &GameState, db: &CardsDb, p: usize, card_id: u16) -> (r: i64)
    requires
        p < 2,
        (card_id as int) < db.projects@.len(),
        player_ids_ok(db, &game.players[p as int]),
    ensures r == card_discount_spec(db, &game.players[p as int], card_id),
{
    if !db.effects_on {
        return 0;
    }
    let pl = &game.players[p];
    let tags = pl.tags_of(db, card_id);
    let price = db.projects[card_id as usize].price;
    let caps = player_capacities(pl);
    let mut d: i64 = 0;
    let mut i: usize = 0;
    while i < pl.played.len()
        invariant
            i <= pl.played@.len(),
            player_ids_ok(db, pl),
            caps == (Capacities { steel: pl.steel_capacity, titanium: pl.titanium_capacity }),
            d == discount_of_cards(db, pl.played@.subrange(0, i as int), tags@, price, caps),
        decreases pl.played@.len() - i,
    {
        proof {
            assert(pl.played@.subrange(0, i + 1).drop_last() =~= pl.played@.subrange(0, i as int));
        }
        match &db.projects[pl.played[i] as usize].effect {
            Some(spec) => add_reduction_discount(&mut d, &spec.reductions, tags.as_slice(), price, caps),
            None => {}
        }
        i = i + 1;
    }
    proof { assert(pl.played@.subrange(0, pl.played@.len() as int) =~= pl.played@); }
    match corp_effects(db, pl) {
        Some(spec) => add_reduction_discount(&mut d, &spec.reductions, tags.as_slice(), price, caps),
        None => {}
    }
    d
}


// ----------------------------------------------------------- spending heat

/// Does the player's corporation let them spend heat as MC?
pub open spec fn heat_as_mc_spec(db: &CardsDb, corp: Option<u16>) -> bool {
    match corp_spec(db, corp) {
        Some(e) => e.heat_as_mc,
        None => false,
    }
}

/// Does the player's corporation let them spend heat as MC?
pub fn heat_as_mc(db: &CardsDb, pl: &PlayerState) -> (r: bool)
    requires corp_ok(db, pl.corporation),
    ensures r == heat_as_mc_spec(db, pl.corporation),
{
    match corp_effects(db, pl) {
        Some(s) => s.heat_as_mc,
        None => false,
    }
}

/// Sum of the « spend N heat » (`heat`) or « spend N plants » requirements.
pub open spec fn spend_sum(reqs: Seq<Req>, heat: bool) -> i64
    decreases reqs.len(),
{
    if reqs.len() == 0 {
        0
    } else {
        let prev = spend_sum(reqs.drop_last(), heat);
        match reqs.last() {
            Req::SpendHeat(n) => if heat { clamp64(prev + n) as i64 } else { prev },
            Req::SpendPlants(n) => if !heat { clamp64(prev + n) as i64 } else { prev },
            _ => prev,
        }
    }
}

/// Heat (or plants) a card commits to spend when built; 0 with the effect
/// layer off or without encoding.
pub open spec fn reserved_spec(db: &CardsDb, card_id: u16, heat: bool) -> i64 {
    if !db.effects_on {
        0
    } else {
        match db.projects@[card_id as int].effect {
            Some(e) => spend_sum(e.reqs@, heat),
            None => 0,
        }
    }
}

fn reserved_by(db: &CardsDb, card_id: u16, heat: bool) -> (r: i64)
    requires (card_id as int) < db.projects@.len(),
    ensures r == reserved_spec(db, card_id, heat),
{
    if !db.effects_on {
        return 0;
    }
    match &db.projects[card_id as usize].effect {
        None => 0,
        Some(spec) => {
            let reqs = &spec.reqs;
            let mut t: i64 = 0;
            let mut j: usize = 0;
            while j < reqs.len()
                invariant
                    j <= reqs@.len(),
                    t == spend_sum(reqs@.subrange(0, j as int), heat),
                decreases reqs@.len() - j,
            {
                proof {
                    assert(reqs@.subrange(0, j + 1).drop_last() =~= reqs@.subrange(0, j as int));
                }
                match reqs[j] {
                    Req::SpendHeat(n) => if heat { t = plus(t, n); },
                    Req::SpendPlants(n) => if !heat { t = plus(t, n); },
                    _ => {}
                }
                j = j + 1;
            }
            proof { assert(reqs@.subrange(0, reqs@.len() as int) =~= reqs@); }
            t
        }
    }
}

/// Heat that a card commits to spend when it is built (« Requires you to
/// spend N heat »): that heat is not money.
pub fn heat_reserved_by(db: &CardsDb, card_id: u16) -> (r: i64)
    requires (card_id as int) < db.projects@.len(),
    ensures r == reserved_spec(db, card_id, true),
{
    reserved_by(db, card_id, true)
}

/// Plants that a card commits to spend when it is built.
pub fn plants_reserved_by(db: &CardsDb, card_id: u16) -> (r: i64)
    requires (card_id as int) < db.projects@.len(),
    ensures r == reserved_spec(db, card_id, false),
{
    reserved_by(db, card_id, false)
}

/// What a player can really spend as MC, `reserved` heat set aside.
pub open spec fn spendable_spec(db: &CardsDb, pl: &PlayerState, reserved: i64) -> i64 {
    if heat_as_mc_spec(db, pl.corporation) {
        let spare = clamp64(pl.heat - reserved);
        clamp64(pl.mc + if spare > 0 { spare } else { 0 }) as i64
    } else {
        pl.mc
    }
}

/// What a player can spend as MC: their MC, plus their heat when their
/// corporation allows it.
pub fn spendable_mc(db: &CardsDb, pl: &PlayerState) -> (r: i64)
    requires corp_ok(db, pl.corporation),
    ensures r == spendable_spec(db, pl, 0),
{
    spendable_mc_reserving(db, pl, 0)
}

/// The same, `reserved` heat being set aside.
pub fn spendable_mc_reserving(db: &CardsDb, pl: &PlayerState, reserved: i64) -> (r: i64)
    requires corp_ok(db, pl.corporation),
    ensures r == spendable_spec(db, pl, reserved),
{
    if heat_as_mc(db, pl) {
        let spare = minus(pl.heat, reserved);
        plus(pl.mc, if spare > 0 { spare } else { 0 })
    } else {
        pl.mc
    }
}

/// Plant cost of a forest: 8, less the corporation's rebate, at least 1.
pub open spec fn forest_plant_cost_spec(db: &CardsDb, corp: Option<u16>) -> i64 {
    let rebate: i64 = match corp_spec(db, corp) {
        Some(e) => e.forest_plant_rebate,
        None => 0,
    };
    let c = clamp64(FOREST_PLANT_COST - rebate);
    if c > 1 { c as i64 } else { 1 }
}

/// Plant cost of a forest for a player: 8 less the corporation's rebate,
/// never below 1 plant.
pub fn forest_plant_cost(db: &CardsDb, pl: &PlayerState) -> (r: i64)
    requires corp_ok(db, pl.corporation),
    ensures r == forest_plant_cost_spec(db, pl.corporation), r >= 1,
{
    let rebate = match corp_effects(db, pl) {
        Some(s) => s.forest_plant_rebate,
        None => 0,
    };
    let c = minus(FOREST_PLANT_COST, rebate);
    if c > 1 { c } else { 1 }
}

// --------------------------------------------------- sums over cards in play

/// Sum of a per-card field of the encoded cards among `played`:
/// `which == 0` discard bonus, `1` standard-action discount.
pub open spec fn card_field_sum(db: &CardsDb, played: Seq<u16>, which: int) -> i64
    decreases played.len(),
{
    if played.len() == 0 {
        0
    } else {
        let prev = card_field_sum(db, played.drop_last(), which);
        match db.projects@[played.last() as int].effect {
            Some(e) => clamp64(prev + if which == 0 { e.discard_bonus } else { e.standard_discount }) as i64,
            None => prev,
        }
    }
}

fn card_field_total(db: &CardsDb, played: &Vec<u16>, which: u8) -> (r: i64)
    requires crate::state::ids_ok(played@, db.projects@.len() as int),
    ensures r == card_field_sum(db, played@, which as int),
{
    let mut t: i64 = 0;
    let mut i: usize = 0;
    while i < played.len()
        invariant
            i <= played@.len(),
            crate::state::ids_ok(played@, db.projects@.len() as int),
            t == card_field_sum(db, played@.subrange(0, i as int), which as int),
        decreases played@.len() - i,
    {
        proof {
            assert(played@.subrange(0, i + 1).drop_last() =~= played@.subrange(0, i as int));
        }
        match &db.projects[played[i] as usize].effect {
            Some(spec) => {
                t = plus(t, if which == 0 { spec.discard_bonus } else { spec.standard_discount });
            }
            None => {}
        }
        i = i + 1;
    }
    proof { assert(played@.subrange(0, played@.len() as int) =~= played@); }
    t
}

/// MC earned by one card discarded for MC: 3, plus the bonuses of the cards
/// in play and of the corporation.
pub open spec fn discard_rate_spec(db: &CardsDb, pl: &PlayerState) -> i64 {
    if !db.effects_on {
        SELL_CARD_MC
    } else {
        let r = clamp64(SELL_CARD_MC + card_field_sum(db, pl.played@, 0)) as i64;
        match corp_spec(db, pl.corporation) {
            Some(e) => clamp64(r + e.discard_bonus) as i64,
            None => r,
        }
    }
}

/// What one card discarded for MC brings this player now: 3 MC, plus the
/// bonuses of their cards in play and of their corporation.
pub fn discard_mc_rate(db: &CardsDb, pl: &PlayerState) -> (r: i64)
    requires player_ids_ok(db, pl),
    ensures r == discard_rate_spec(db, pl),
{
    if !db.effects_on {
        return SELL_CARD_MC;
    }
    let mut rate = plus(SELL_CARD_MC, card_field_total(db, &pl.played, 0));
    match corp_effects(db, pl) {
        Some(s) => rate = plus(rate, s.discard_bonus),
        None => {}
    }
    rate
}

/// The part of the discard rate above the base 3 MC.
pub open spec fn discard_bonus_spec(db: &CardsDb, pl: &PlayerState) -> u64 {
    let d = discard_rate_spec(db, pl) - SELL_CARD_MC;
    if d > 0 { d as u64 } else { 0 }
}

/// The part of the discard rate above the base 3 MC, per card.
pub fn discard_bonus_per_card(db: &CardsDb, pl: &PlayerState) -> (r: u64)
    requires player_ids_ok(db, pl),
    ensures r == discard_bonus_spec(db, pl),
{
    let rate = discard_mc_rate(db, pl);
    if rate > SELL_CARD_MC { (rate - SELL_CARD_MC) as u64 } else { 0 }
}

/// Reduction of the standard actions paid in MC (0 with effects off).
pub open spec fn standard_discount_spec(db: &CardsDb, played: Seq<u16>) -> i64 {
    if !db.effects_on { 0 } else { card_field_sum(db, played, 1) }
}

/// Reduction of the standard actions paid in MC, summed over the cards in play.
pub fn standard_action_discount(db: &CardsDb, pl: &PlayerState) -> (r: i64)
    requires crate::state::ids_ok(pl.played@, db.projects@.len() as int),
    ensures r == standard_discount_spec(db, pl.played@),
{
    if !db.effects_on {
        return 0;
    }
    card_field_total(db, &pl.played, 1)
}

/// Price of a standard action paid in MC: base less discount, at least 0.
pub open spec fn standard_cost_spec(base: i64, discount: i64) -> i64 {
    let c = clamp64(base - discount);
    if c > 0 { c as i64 } else { 0 }
}

/// Price of a standard action paid in MC for this player.
pub fn standard_mc_cost(db: &CardsDb, pl: &PlayerState, base: i64) -> (r: i64)
    requires crate::state::ids_ok(pl.played@, db.projects@.len() as int),
    ensures r == standard_cost_spec(base, standard_discount_spec(db, pl.played@)), r >= 0,
{
    standard_mc_cost_with(base, standard_action_discount(db, pl))
}

/// The formula: base price less the discount, never negative.
pub fn standard_mc_cost_with(base: i64, discount: i64) -> (r: i64)
    ensures r == standard_cost_spec(base, discount), r >= 0,
{
    let c = minus(base, discount);
    if c > 0 { c } else { 0 }
}

/// Can a card of effective cost `cost` be paid with `mc` MC and `hand_len`
/// cards in hand (the card itself included), at `rate` MC per discarded card?
pub open spec fn payable_spec(mc: int, hand_len: int, cost: int, rate: int) -> bool {
    mc + rate * (if hand_len - 1 > 0 { hand_len - 1 } else { 0 }) >= cost
}

/// Can a card of effective cost `cost` be paid with `mc` MC and/or by
/// discarding the other `hand_len - 1` cards of the hand at `rate` MC each?
pub fn payable(mc: i64, hand_len: usize, cost: i64, rate: i64) -> (r: bool)
    ensures r == payable_spec(mc as int, hand_len as int, cost as int, rate as int),
{
    let others: i128 = if hand_len > 0 { hand_len as i128 - 1 } else { 0 };
    proof {
        assert(-0x7fff_ffff_ffff_ffff_8000_0000_0000_0000 <= (rate as int) * (others as int) <= 0x7fff_ffff_ffff_ffff_8000_0000_0000_0000) by (nonlinear_arith)
            requires -0x8000_0000_0000_0000 <= rate <= 0x7fff_ffff_ffff_ffff, 0 <= others <= 0xffff_ffff_ffff_ffff;
    }
    let prod: i128 = rate as i128 * others;
    let money: i128 = mc as i128 + prod;
    money >= cost as i128
}

/// The discount armed for the next card of the phase.
pub fn next_card_discount(pl: &PlayerState) -> (r: i64)
    ensures r == pl.next_card_mod.discount,
{
    pl.next_card_mod.discount
}


// ------------------------------------------------------------- production

/// `n / d` rounded toward zero, as `/` does on `i64` (the one quotient that
/// does not fit, `i64::MIN / -1`, is held to `i64::MAX`).
pub open spec fn tdiv(n: i64, d: i64) -> i64 {
    let q: int = if (n >= 0) == (d > 0) {
        (if n >= 0 { n as int } else { -(n as int) }) / (if d > 0 { d as int } else { -(d as int) })
    } else {
        -((if n >= 0 { n as int } else { -(n as int) }) / (if d > 0 { d as int } else { -(d as int) }))
    };
    clamp64(q) as i64
}

/// `n / d` rounded toward zero.
pub fn div_toward_zero(n: i64, d: i64) -> (r: i64)
    requires d != 0,
    ensures r == tdiv(n, d),
{
    if n == i64::MIN && d == -1 {
        proof {
            let a: int = -(n as int);
            assert(a == 0x8000_0000_0000_0000);
            assert(a / 1 == a);
        }
        return i64::MAX;
    }
    let an: u64 = if n >= 0 { n as u64 } else if n == i64::MIN { 0x8000_0000_0000_0000u64 } else { (-n) as u64 };
    let ad: u64 = if d > 0 { d as u64 } else if d == i64::MIN { 0x8000_0000_0000_0000u64 } else { (-d) as u64 };
    let q: u64 = an / ad;
    proof {
        assert(q <= an);
        assert(an as int == (if n >= 0 { n as int } else { -(n as int) }));
        assert(ad as int == (if d > 0 { d as int } else { -(d as int) }));
    }
    if (n >= 0) == (d > 0) {
        if q > 0x7fff_ffff_ffff_ffffu64 { i64::MAX } else { q as i64 }
    } else {
        if q == 0x8000_0000_0000_0000u64 { i64::MIN } else { -(q as i64) }
    }
}

/// Production derived by one card in play: `(MC, heat, plants)`.
pub open spec fn card_derived_spec(db: &CardsDb, pl: &PlayerState, card_id: u16) -> (i64, i64, i64) {
    if !db.effects_on {
        (0, 0, 0)
    } else {
        match db.projects@[card_id as int].effect {
            None => (0, 0, 0),
            Some(e) => match e.prod {
                None => (0, 0, 0),
                Some(prod) => {
                    if prod.per == 0 {
                        (0, 0, 0)
                    } else {
                        let counted: i64 = match prod.count {
                            ProdCount::Tag(t) => match tag_index(t) {
                                Some(i) => pl.tag_counts[i as int] as i64,
                                None => 0,
                            },
                            ProdCount::Forests => pl.forests,
                        };
                        let gained = tdiv(counted, prod.per);
                        match prod.res {
                            ProdRes::Mc => (gained, 0, 0),
                            ProdRes::Heat => (0, gained, 0),
                            ProdRes::Plants => (0, 0, gained),
                        }
                    }
                }
            },
        }
    }
}

/// The derived production of ONE card in play: 1 unit per `per` counted
/// things (tags of a kind, or forests), counted now.
pub fn card_derived_production(db: &CardsDb, pl: &PlayerState, card_id: u16) -> (r: (i64, i64, i64))
    requires (card_id as int) < db.projects@.len(),
    ensures r == card_derived_spec(db, pl, card_id),
{
    if !db.effects_on {
        return (0, 0, 0);
    }
    let prod = match &db.projects[card_id as usize].effect {
        None => return (0, 0, 0),
        Some(spec) => match spec.prod {
            None => return (0, 0, 0),
            Some(p) => p,
        },
    };
    if prod.per == 0 {
        return (0, 0, 0);
    }
    let counted: i64 = match prod.count {
        ProdCount::Tag(t) => match t.index() {
            Some(i) => pl.tag_counts[i] as i64,
            None => 0,
        },
        ProdCount::Forests => pl.forests,
    };
    let gained = div_toward_zero(counted, prod.per);
    match prod.res {
        ProdRes::Mc => (gained, 0, 0),
        ProdRes::Heat => (0, gained, 0),
        ProdRes::Plants => (0, 0, gained),
    }
}

/// Derived production summed over `played`.
pub open spec fn derived_sum(db: &CardsDb, pl: &PlayerState, played: Seq<u16>) -> (i64, i64, i64)
    decreases played.len(),
{
    if played.len() == 0 {
        (0, 0, 0)
    } else {
        let (m, h, q) = derived_sum(db, pl, played.drop_last());
        let (a, b, c) = card_derived_spec(db, pl, played.last());
        (clamp64(m + a) as i64, clamp64(h + b) as i64, clamp64(q + c) as i64)
    }
}

/// Total derived production of a player: `(MC, heat, plants)`.
pub open spec fn derived_production_spec(db: &CardsDb, pl: &PlayerState) -> (i64, i64, i64) {
    if !db.effects_on { (0, 0, 0) } else { derived_sum(db, pl, pl.played@) }
}

/// Total derived production of a player: `(MC, heat, plants)`, recomputed
/// from the cards in play and the tags and forests of the moment.
pub fn derived_production(db: &CardsDb, pl: &PlayerState) -> (r: (i64, i64, i64))
    requires crate::state::ids_ok(pl.played@, db.projects@.len() as int),
    ensures r == derived_production_spec(db, pl),
{
    if !db.effects_on {
        return (0, 0, 0);
    }
    let mut mc: i64 = 0;
    let mut heat: i64 = 0;
    let mut plants: i64 = 0;
    let mut i: usize = 0;
    while i < pl.played.len()
        invariant
            i <= pl.played@.len(),
            crate::state::ids_ok(pl.played@, db.projects@.len() as int),
            (mc, heat, plants) == derived_sum(db, pl, pl.played@.subrange(0, i as int)),
        decreases pl.played@.len() - i,
    {
        proof {
            assert(pl.played@.subrange(0, i + 1).drop_last() =~= pl.played@.subrange(0, i as int));
        }
        let (m, h, q) = card_derived_production(db, pl, pl.played[i]);
        mc = plus(mc, m);
        heat = plus(heat, h);
        plants = plus(plants, q);
        i = i + 1;
    }
    proof { assert(pl.played@.subrange(0, pl.played@.len() as int) =~= pl.played@); }
    (mc, heat, plants)
}

/// Printed production of a card's own effects: `(MC, heat, plants, cards)`.
pub open spec fn fixed_prod_sum(effs: Seq<Eff>) -> (i64, i64, i64, i64)
    decreases effs.len(),
{
    if effs.len() == 0 {
        (0, 0, 0, 0)
    } else {
        let (m, h, q, c) = fixed_prod_sum(effs.drop_last());
        match effs.last() {
            Eff::McProd(n) => (clamp64(m + n) as i64, h, q, c),
            Eff::HeatProd(n) => (m, clamp64(h + n) as i64, q, c),
            Eff::PlantProd(n) => (m, h, clamp64(q + n) as i64, c),
            Eff::CardProd(n) => (m, h, q, clamp64(c + n) as i64),
            _ => (m, h, q, c),
        }
    }
}

/// What one card in play produces in a production phase: its printed
/// production plus its derived production.
pub open spec fn card_production_spec(db: &CardsDb, pl: &PlayerState, card_id: u16) -> (i64, i64, i64, i64) {
    if !db.effects_on {
        (0, 0, 0, 0)
    } else {
        let (m, h, q, c) = match db.projects@[card_id as int].effect {
            Some(e) => fixed_prod_sum(e.effects@),
            None => (0, 0, 0, 0),
        };
        let (dm, dh, dq) = card_derived_spec(db, pl, card_id);
        (clamp64(m + dm) as i64, clamp64(h + dh) as i64, clamp64(q + dq) as i64, c)
    }
}

/// What ONE card in play produces in a production phase:
/// `(MC, heat, plants, cards)`.
pub fn card_production(db: &CardsDb, pl: &PlayerState, card_id: u16) -> (r: (i64, i64, i64, i64))
    requires (card_id as int) < db.projects@.len(),
    ensures r == card_production_spec(db, pl, card_id),
{
    if !db.effects_on {
        return (0, 0, 0, 0);
    }
    let mut mc: i64 = 0;
    let mut heat: i64 = 0;
    let mut plants: i64 = 0;
    let mut cards: i64 = 0;
    match &db.projects[card_id as usize].effect {
        Some(spec) => {
            let effs = &spec.effects;
            let mut j: usize = 0;
            while j < effs.len()
                invariant
                    j <= effs@.len(),
                    (mc, heat, plants, cards) == fixed_prod_sum(effs@.subrange(0, j as int)),
                decreases effs@.len() - j,
            {
                proof {
                    assert(effs@.subrange(0, j + 1).drop_last() =~= effs@.subrange(0, j as int));
                }
                match &effs[j] {
                    Eff::McProd(n) => mc = plus(mc, *n),
                    Eff::HeatProd(n) => heat = plus(heat, *n),
                    Eff::PlantProd(n) => plants = plus(plants, *n),
                    Eff::CardProd(n) => cards = plus(cards, *n),
                    _ => {}
                }
                j = j + 1;
            }
            proof { assert(effs@.subrange(0, effs@.len() as int) =~= effs@); }
        }
        None => {}
    }
    let (dm, dh, dq) = card_derived_production(db, pl, card_id);
    (plus(mc, dm), plus(heat, dh), plus(plants, dq), cards)
}

// --------------------------------------------------------------- research

/// Permanent research bonus summed over `played`: (more drawn, more kept).
pub open spec fn research_sum(db: &CardsDb, played: Seq<u16>) -> (int, int)
    decreases played.len(),
{
    if played.len() == 0 {
        (0, 0)
    } else {
        let (d, k) = research_sum(db, played.drop_last());
        match db.projects@[played.last() as int].effect {
            Some(e) => match e.research {
                Some(b) => (d + b.draw, k + b.keep),
                None => (d, k),
            },
            None => (d, k),
        }
    }
}

/// Held to the range of `usize`.
pub open spec fn clamp_usize(v: int) -> usize {
    if v > usize::MAX { usize::MAX } else { v as usize }
}

/// Permanent research bonus of a player: the cards in play and the
/// corporation, (more drawn, more kept).
pub open spec fn research_extra_spec(db: &CardsDb, pl: &PlayerState) -> (usize, usize) {
    if !db.effects_on {
        (0, 0)
    } else {
        let (d, k) = research_sum(db, pl.played@);
        match corp_spec(db, pl.corporation) {
            Some(e) => match e.research {
                Some(b) => (clamp_usize(d + b.draw), clamp_usize(k + b.keep)),
                None => (clamp_usize(d), clamp_usize(k)),
            },
            None => (clamp_usize(d), clamp_usize(k)),
        }
    }
}

/// Permanent research bonus of a player: `(more drawn, more kept)`, summed
/// over the cards in play and the corporation.
pub fn research_extra(db: &CardsDb, pl: &PlayerState) -> (r: (usize, usize))
    requires player_ids_ok(db, pl),
    ensures r == research_extra_spec(db, pl),
{
    if !db.effects_on {
        return (0, 0);
    }
    let mut draw: usize = 0;
    let mut keep: usize = 0;
    let ghost mut dd: int = 0;
    let ghost mut kk: int = 0;
    let mut i: usize = 0;
    while i < pl.played.len()
        invariant
            i <= pl.played@.len(),
            player_ids_ok(db, pl),
            (dd, kk) == research_sum(db, pl.played@.subrange(0, i as int)),
            dd >= 0, kk >= 0,
            draw == clamp_usize(dd), keep == clamp_usize(kk),
        decreases pl.played@.len() - i,
    {
        proof {
            assert(pl.played@.subrange(0, i + 1).drop_last() =~= pl.played@.subrange(0, i as int));
        }
        match &db.projects[pl.played[i] as usize].effect {
            Some(spec) => match spec.research {
                Some(b) => {
                    draw = draw.saturating_add(b.draw);
                    keep = keep.saturating_add(b.keep);
                    proof { dd = dd + b.draw; kk = kk + b.keep; }
                }
                None => {}
            },
            None => {}
        }
        i = i + 1;
    }
    proof { assert(pl.played@.subrange(0, pl.played@.len() as int) =~= pl.played@); }
    match corp_effects(db, pl) {
        Some(s) => match s.research {
            Some(b) => {
                draw = draw.saturating_add(b.draw);
                keep = keep.saturating_add(b.keep);
            }
            None => {}
        },
        None => {}
    }
    (draw, keep)
}

// ------------------------------------------------------- selector bonuses

/// The bonus a player gets from a Phase card, read from the one table.
/// Scalar fields are the maxima over the branches (a « or » announces what
/// it may give; `alternative` says a branch has to be chosen).
#[derive(Debug, Clone)]
pub struct SelectorBonus {
    /// Phase described (0 = no phase asked).
    pub phase: u8,
    /// Did the player choose this phase? False = no bonus.
    pub is_selector: bool,
    /// Variant installed on this Phase card, `None` = normal card.
    pub upgraded: Option<PhaseUpgrade>,
    /// The Phase card read (printed name, branches).
    pub spec: SelectorSpec,
    pub mc_discount: i64,
    pub mc: i64,
    pub draw: u8,
    pub extra_activations: u8,
    /// Number of extra builds the bonus may grant.
    pub extra_builds: u8,
    pub research_draw: usize,
    pub research_keep: usize,
    /// The bonus is a « or »: only one of its branches will apply.
    pub alternative: bool,
}

/// Maximum of a field over the branches (0 when empty): `which` = 0 MC
/// discount, 1 MC, 2 draw, 3 activations, 4 builds, 5 research draw,
/// 6 research keep.
pub open spec fn branch_max(bs: Seq<crate::effects::SelectorGrant>, which: int) -> int
    decreases bs.len(),
{
    if bs.len() == 0 {
        0
    } else {
        let prev = branch_max(bs.drop_last(), which);
        let g = bs.last();
        let v: int = if which == 0 { g.mc_discount as int } else if which == 1 { g.mc as int }
            else if which == 2 { g.draw as int } else if which == 3 { g.extra_activations as int }
            else if which == 4 { g.builds@.len() as int } else if which == 5 { g.research_draw as int }
            else { g.research_keep as int };
        if v > prev { v } else { prev }
    }
}

/// The scalar fields of a bonus are the maxima over its branches.
pub open spec fn bonus_fields_ok(b: SelectorBonus) -> bool {
    let bs = b.spec.branches@;
    &&& b.mc_discount as int == branch_max(bs, 0)
    &&& b.mc as int == branch_max(bs, 1)
    &&& b.draw as int == branch_max(bs, 2)
    &&& b.extra_activations as int == branch_max(bs, 3)
    &&& b.extra_builds as int == branch_max(bs, 4)
    &&& b.research_draw as int == branch_max(bs, 5)
    &&& b.research_keep as int == branch_max(bs, 6)
    &&& b.alternative == (bs.len() > 1)
}

impl SelectorBonus {
    /// Empty bonus (player not selector, or phase 0).
    pub fn none(phase: u8) -> (r: SelectorBonus)
        ensures
            r.phase == phase, !r.is_selector, r.upgraded is None,
            r.mc_discount == 0 && r.mc == 0 && r.draw == 0 && r.extra_activations == 0,
            r.extra_builds == 0 && r.research_draw == 0 && r.research_keep == 0 && !r.alternative,
            r.spec.branches@.len() == 1,
            r.spec.branches@[0].mc == 0 && !r.spec.branches@[0].replay_green_prod,
    {
        SelectorBonus {
            phase,
            is_selector: false,
            upgraded: None,
            spec: crate::effects::selector_spec_none(),
            mc_discount: 0,
            mc: 0,
            draw: 0,
            extra_activations: 0,
            extra_builds: 0,
            research_draw: 0,
            research_keep: 0,
            alternative: false,
        }
    }
}

/// Is `b` the bonus of phase `phase` for this player? The player must have
/// chosen the phase; the card is the upgraded one when an upgrade is
/// installed and the effect layer is on, the normal one otherwise.
pub open spec fn selector_bonus_ok(db: &CardsDb, pl: &PlayerState, phase: u8, b: SelectorBonus) -> bool {
    &&& b.phase == phase
    &&& if !(1 <= phase <= 5) || pl.chosen_phase != phase {
        &&& !b.is_selector && b.upgraded is None
        &&& b.mc_discount == 0 && b.mc == 0 && b.draw == 0 && b.extra_activations == 0
        &&& b.extra_builds == 0 && b.research_draw == 0 && b.research_keep == 0 && !b.alternative
        &&& b.spec.branches@.len() == 1
        &&& b.spec.branches@[0].mc == 0 && !b.spec.branches@[0].replay_green_prod
    } else {
        &&& b.is_selector
        &&& b.upgraded == (if db.effects_on { pl.phase_upgrade_spec(phase) } else { None })
        &&& phase_card_ok(b.spec, phase, b.upgraded)
        &&& bonus_fields_ok(b)
    }
}

/// The selector bonus of phase `phase` (1..=5) for a player: nothing if they
/// did not choose it; else their Phase card for that phase, upgraded or not
/// (upgrades are ignored with the effect layer off).
pub fn selector_bonus(db: &CardsDb, pl: &PlayerState, phase: u8) -> (r: SelectorBonus)
    ensures selector_bonus_ok(db, pl, phase, r),
{
    if !(1 <= phase && phase <= 5) || pl.chosen_phase != phase {
        return SelectorBonus::none(phase);
    }
    let upgraded = if db.effects_on { pl.phase_upgrade(phase) } else { None };
    let spec = match upgraded {
        Some(v) => phase_upgraded(phase, match v { PhaseUpgrade::VariantA => false, PhaseUpgrade::VariantB => true }),
        None => phase_base(phase),
    };
    let mut b = SelectorBonus::none(phase);
    let n = spec.branches.len();
    let mut mc_discount: i64 = 0;
    let mut mc: i64 = 0;
    let mut draw: u8 = 0;
    let mut extra: u8 = 0;
    let mut builds: u8 = 0;
    let mut rd: usize = 0;
    let mut rk: usize = 0;
    let mut i: usize = 0;
    while i < n
        invariant
            i <= n, n == spec.branches@.len(), spec_shape_ok(spec),
            mc_discount as int == branch_max(spec.branches@.subrange(0, i as int), 0),
            mc as int == branch_max(spec.branches@.subrange(0, i as int), 1),
            draw as int == branch_max(spec.branches@.subrange(0, i as int), 2),
            extra as int == branch_max(spec.branches@.subrange(0, i as int), 3),
            builds as int == branch_max(spec.branches@.subrange(0, i as int), 4),
            rd as int == branch_max(spec.branches@.subrange(0, i as int), 5),
            rk as int == branch_max(spec.branches@.subrange(0, i as int), 6),
        decreases n - i,
    {
        proof {
            assert(spec.branches@.subrange(0, i + 1).drop_last() =~= spec.branches@.subrange(0, i as int));
        }
        let g = &spec.branches[i];
        if g.mc_discount > mc_discount { mc_discount = g.mc_discount; }
        if g.mc > mc { mc = g.mc; }
        if g.draw > draw { draw = g.draw; }
        if g.extra_activations > extra { extra = g.extra_activations; }
        let nb = g.builds.len();
        if nb as u64 > builds as u64 { builds = nb as u8; }
        if g.research_draw > rd { rd = g.research_draw; }
        if g.research_keep > rk { rk = g.research_keep; }
        i = i + 1;
    }
    proof { assert(spec.branches@.subrange(0, n as int) =~= spec.branches@); }
    b.is_selector = true;
    b.upgraded = upgraded;
    b.alternative = n > 1;
    b.mc_discount = mc_discount;
    b.mc = mc;
    b.draw = draw;
    b.extra_activations = extra;
    b.extra_builds = builds;
    b.research_draw = rd;
    b.research_keep = rk;
    b.spec = spec;
    b
}

/// Research base of phase V: 2 drawn and 1 kept, plus the selector bonus.
pub open spec fn research_base_spec(db: &CardsDb, pl: &PlayerState) -> (usize, usize) {
    if pl.chosen_phase != 5 {
        (2, 1)
    } else {
        let up = if db.effects_on { pl.phase_upgrade_spec(5) } else { None };
        match up {
            None => (5, 2),
            Some(PhaseUpgrade::VariantA) => (4, 3),
            Some(PhaseUpgrade::VariantB) => (8, 2),
        }
    }
}

/// Cards drawn and kept in phase V before permanent bonuses: the printed
/// 2 / 1, plus the selector bonus of the player's Phase card.
pub fn research_base(db: &CardsDb, pl: &PlayerState) -> (r: (usize, usize))
    ensures r == research_base_spec(db, pl),
{
    let b = selector_bonus(db, pl, 5);
    proof {
        if pl.chosen_phase == 5 {
            let bs = b.spec.branches@;
            assert(bs.drop_last() =~= Seq::<crate::effects::SelectorGrant>::empty());
            assert(branch_max(bs.drop_last(), 5) == 0);
            assert(branch_max(bs.drop_last(), 6) == 0);
            assert(bs.last() == bs[0]);
        }
    }
    (2 + b.research_draw, 1 + b.research_keep)
}

/// Cards drawn and kept in phase V: base plus permanent bonuses.
pub open spec fn research_draw_keep_spec(db: &CardsDb, pl: &PlayerState) -> (usize, usize) {
    let (bn, bk) = research_base_spec(db, pl);
    let (en, ek) = research_extra_spec(db, pl);
    (clamp_usize(bn + en), clamp_usize(bk + ek))
}

/// Cards drawn and kept in phase V by a player: the base and the permanent
/// bonus of their cards in play.
pub fn research_draw_keep(db: &CardsDb, pl: &PlayerState) -> (r: (usize, usize))
    requires player_ids_ok(db, pl),
    ensures r == research_draw_keep_spec(db, pl),
{
    let (base_n, base_keep) = research_base(db, pl);
    let (extra_n, extra_keep) = research_extra(db, pl);
    (base_n.saturating_add(extra_n), base_keep.saturating_add(extra_keep))
}


// ------------------------------------------------------------------ actions

/// Can this card in play be activated in the Action phase? A blue card
/// with an encoded action; a blue card with only a permanent effect cannot.
pub open spec fn activable_blue_spec(db: &CardsDb, card_id: u16) -> bool {
    let card = db.projects@[card_id as int];
    card.color == Color::Blue && (card.effect matches Some(e) && e.action is Some)
}

/// Can this card in play be activated in the Action phase?
pub fn activable_blue(db: &CardsDb, card_id: u16) -> (r: bool)
    requires (card_id as int) < db.projects@.len(),
    ensures r == activable_blue_spec(db, card_id),
{
    let card = &db.projects[card_id as usize];
    card.color == Color::Blue && match &card.effect {
        Some(spec) => spec.action.is_some(),
        None => false,
    }
}

pub open spec fn action_res_spec(pl: &PlayerState, res: ActionRes) -> i64 {
    match res {
        ActionRes::Heat => pl.heat,
        ActionRes::Mc => pl.mc,
        ActionRes::Plants => pl.plants,
    }
}

/// The player resource named by an action.
pub fn action_res_get(pl: &PlayerState, res: ActionRes) -> (r: i64)
    ensures r == action_res_spec(pl, res),
{
    match res {
        ActionRes::Heat => pl.heat,
        ActionRes::Mc => pl.mc,
        ActionRes::Plants => pl.plants,
    }
}

/// Adds `n` (negative: spends) to the player resource named by an action.
pub fn action_res_add(pl: &mut PlayerState, res: ActionRes, n: i64)
    ensures
        action_res_spec(final(pl), res) == clamp64(action_res_spec(old(pl), res) + n),
        res != ActionRes::Heat ==> final(pl).heat == old(pl).heat,
        res != ActionRes::Mc ==> final(pl).mc == old(pl).mc,
        res != ActionRes::Plants ==> final(pl).plants == old(pl).plants,
        final(pl).same_but_money(*old(pl)),
{
    match res {
        ActionRes::Heat => pl.heat = plus(pl.heat, n),
        ActionRes::Mc => pl.mc = plus(pl.mc, n),
        ActionRes::Plants => pl.plants = plus(pl.plants, n),
    }
}

/// MC cost of an action cost item when it is paid in MC.
pub open spec fn action_mc_cost_spec(pl: &PlayerState, c: ActionCost) -> i64 {
    match c {
        ActionCost::Mc(n) => n,
        ActionCost::McPerCapacity { base, cap, per } => {
            let know = match cap {
                Capacity::Steel => pl.steel_capacity,
                Capacity::Titanium => pl.titanium_capacity,
            };
            let v = clamp64(base - clamp64(per * know));
            if v > 0 { v as i64 } else { 0 }
        },
        _ => 0,
    }
}

/// MC cost of an action cost item: `McPerCapacity` is reduced by the
/// know-how the player has now, never below 0.
pub fn action_mc_cost(pl: &PlayerState, c: ActionCost) -> (r: i64)
    ensures r == action_mc_cost_spec(pl, c),
{
    match c {
        ActionCost::Mc(n) => n,
        ActionCost::McPerCapacity { base, cap, per } => {
            let v = minus(base, times(per, player_capacities(pl).get(cap)));
            if v > 0 { v } else { 0 }
        }
        _ => 0,
    }
}

pub open spec fn reveal_matches_spec(card: ProjectCard, f: RevealFilter) -> bool {
    match f {
        RevealFilter::AnyOfTags(tags) => exists|i: int| 0 <= i < card.tags@.len() && seq_has_tag(tags@, card.tags@[i]),
        RevealFilter::ColorIsNot(c) => card.color != c,
    }
}

/// Does a revealed card satisfy the printed filter?
pub fn reveal_matches(card: &ProjectCard, f: &RevealFilter) -> (r: bool)
    ensures r == reveal_matches_spec(*card, *f),
{
    match f {
        RevealFilter::AnyOfTags(tags) => {
            assert(*f == RevealFilter::AnyOfTags(*tags));
            let mut i: usize = 0;
            while i < card.tags.len()
                invariant
                    i <= card.tags@.len(),
                    *f == RevealFilter::AnyOfTags(*tags),
                    forall|k: int| 0 <= k < i ==> !seq_has_tag(tags@, card.tags@[k]),
                decreases card.tags@.len() - i,
            {
                if has_tag(tags.as_slice(), card.tags[i]) {
                    proof {
                        let w = i as int;
                        assert(0 <= w < card.tags@.len() && seq_has_tag(tags@, card.tags@[w]));
                        assert(exists|k: int| 0 <= k < card.tags@.len() && seq_has_tag(tags@, card.tags@[k]));
                    }
                    return true;
                }
                i = i + 1;
            }
            false
        }
        RevealFilter::ColorIsNot(c) => card.color != *c,
    }
}

// ------------------------------------------------------------- requirements

/// Has player `p` claimed at least one of the milestones in play?
pub open spec fn has_objective_spec(game: &GameState, p: int) -> bool {
    exists|i: int| 0 <= i < 3 && game.milestones[i].achieved_by[p]
}

/// « Do you have an Objective? »: has the player claimed a milestone?
pub fn has_objective(game: &GameState, p: usize) -> (r: bool)
    requires p < 2,
    ensures r == has_objective_spec(game, p as int),
{
    let mut i: usize = 0;
    while i < 3
        invariant i <= 3, p < 2, forall|k: int| 0 <= k < i ==> !game.milestones[k].achieved_by[p as int],
        decreases 3 - i,
    {
        if game.milestones[i].achieved_by[p] {
            return true;
        }
        i = i + 1;
    }
    false
}

/// Does a requirement list judge a colour band (temperature or oxygen)?
pub open spec fn has_band_req(reqs: Seq<Req>) -> bool {
    exists|i: int| 0 <= i < reqs.len() && (reqs[i] is TempMin || reqs[i] is TempMax || reqs[i] is OxyMin || reqs[i] is OxyMax)
}

/// Does one of the cards among `played` loosen colour-band requirements?
pub open spec fn flex_card_in(db: &CardsDb, played: Seq<u16>) -> bool {
    exists|i: int| 0 <= i < played.len() && card_flex(db, #[trigger] played[i])
}

/// Does the card loosen colour-band requirements?
pub open spec fn card_flex(db: &CardsDb, c: u16) -> bool {
    db.projects@[c as int].effect matches Some(e) && e.req_color_flex
}

/// One requirement against the given parameters and the player's state.
pub open spec fn req_ok(req: Req, pl: &PlayerState, temperature: u8, oxygen: u8, oceans: u8, flex: bool, objective: bool) -> bool {
    let tc = temp_color_spec(temperature) as int;
    let oc = oxy_color_spec(oxygen) as int;
    match req {
        Req::TempMin(n) => temperature >= n || (flex && tc + 1 >= temp_color_spec(n)),
        Req::TempMax(n) => temperature <= n || (flex && tc - 1 <= temp_color_spec(n)),
        Req::OxyMin(n) => oxygen >= n || (flex && oc + 1 >= oxy_color_spec(n)),
        Req::OxyMax(n) => oxygen <= n || (flex && oc - 1 <= oxy_color_spec(n)),
        Req::OceanMin(n) => oceans >= n,
        Req::OceanMax(n) => oceans <= n,
        Req::Tags(tag, n) => match tag_index(tag) {
            Some(i) => pl.tag_counts[i as int] >= n as u32,
            None => false,
        },
        Req::SpendHeat(n) => pl.heat >= n,
        Req::SpendPlants(n) => pl.plants >= n,
        Req::SpendTr(n) => pl.tr >= n,
        Req::TrMin(n) => pl.tr >= n,
        Req::HasObjective => objective,
    }
}

/// The requirements of a card, the global parameters being judged on the
/// given values and everything else on the player's current state. A
/// colour-band requirement may be met one band higher or lower when the
/// corporation, a card in play or the armed modifier allows it.
pub open spec fn reqs_ok_spec(game: &GameState, db: &CardsDb, p: int, card_id: u16, temperature: u8, oxygen: u8, oceans: u8) -> bool {
    if !db.effects_on {
        true
    } else {
        match db.projects@[card_id as int].effect {
            None => true,
            Some(e) => {
                let pl = &game.players[p];
                let corp_flex = match corp_spec(db, pl.corporation) { Some(c) => c.req_color_flex, None => false };
                let flex = has_band_req(e.reqs@) && (pl.next_card_mod.color_flex || corp_flex || flex_card_in(db, pl.played@));
                forall|i: int| 0 <= i < e.reqs@.len() ==>
                    req_ok(#[trigger] e.reqs@[i], pl, temperature, oxygen, oceans, flex, has_objective_spec(game, p))
            },
        }
    }
}

fn flex_card_present(db: &CardsDb, played: &Vec<u16>) -> (r: bool)
    requires crate::state::ids_ok(played@, db.projects@.len() as int),
    ensures r == flex_card_in(db, played@),
{
    let mut i: usize = 0;
    while i < played.len()
        invariant
            i <= played@.len(),
            crate::state::ids_ok(played@, db.projects@.len() as int),
            forall|k: int| 0 <= k < i ==> !card_flex(db, #[trigger] played@[k]),
        decreases played@.len() - i,
    {
        let f = match &db.projects[played[i] as usize].effect {
            Some(s) => s.req_color_flex,
            None => false,
        };
        if f {
            return true;
        }
        i = i + 1;
    }
    false
}

/// Does the player have at least `n` tags of this kind in play?
fn tags_at_least(pl: &PlayerState, tag: Tag, n: u8) -> (r: bool)
    ensures r == match tag_index(tag) { Some(i) => pl.tag_counts[i as int] >= n as u32, None => false },
{
    match tag.index() {
        Some(i) => pl.tag_counts[i] >= n as u32,
        None => false,
    }
}

fn reqs_satisfied(game: &GameState, db: &CardsDb, p: usize, card_id: u16, temperature: u8, oxygen: u8, oceans: u8) -> (r: bool)
    requires
        p < 2,
        (card_id as int) < db.projects@.len(),
        player_ids_ok(db, &game.players[p as int]),
    ensures r == reqs_ok_spec(game, db, p as int, card_id, temperature, oxygen, oceans),
{
    if !db.effects_on {
        return true;
    }
    let spec = match &db.projects[card_id as usize].effect {
        None => return true,
        Some(s) => s,
    };
    let pl = &game.players[p];
    let reqs = &spec.reqs;
    let mut band = false;
    let mut k: usize = 0;
    while k < reqs.len()
        invariant
            k <= reqs@.len(),
            band == exists|i: int| 0 <= i < k && (reqs@[i] is TempMin || reqs@[i] is TempMax || reqs@[i] is OxyMin || reqs@[i] is OxyMax),
        decreases reqs@.len() - k,
    {
        match reqs[k] {
            Req::TempMin(_) | Req::TempMax(_) | Req::OxyMin(_) | Req::OxyMax(_) => { band = true; }
            _ => {}
        }
        k = k + 1;
    }
    let flex = band && (pl.next_card_mod.color_flex || match corp_effects(db, pl) {
        Some(s) => s.req_color_flex,
        None => false,
    } || flex_card_present(db, &pl.played));
    let objective = has_objective(game, p);
    let tc: u8 = temp_color(temperature);
    let oc: u8 = oxy_color(oxygen);
    let mut j: usize = 0;
    while j < reqs.len()
        invariant
            j <= reqs@.len(),
            p < 2,
            tc == temp_color_spec(temperature),
            oc == oxy_color_spec(oxygen),
            objective == has_objective_spec(game, p as int),
            *pl == game.players[p as int],
            db.effects_on,
            (card_id as int) < db.projects@.len(),
            db.projects@[card_id as int].effect == Some(*spec),
            reqs@ == spec.reqs@,
            flex == (has_band_req(reqs@) && (pl.next_card_mod.color_flex
                || (match corp_spec(db, pl.corporation) { Some(c) => c.req_color_flex, None => false })
                || flex_card_in(db, pl.played@))),
            forall|i: int| 0 <= i < j ==> req_ok(#[trigger] reqs@[i], &game.players[p as int], temperature, oxygen, oceans, flex, objective),
        decreases reqs@.len() - j,
    {
        let ok = match reqs[j] {
            Req::TempMin(n) => temperature >= n || (flex && temp_color(n) <= tc + 1),
            Req::TempMax(n) => temperature <= n || (flex && tc <= temp_color(n) + 1),
            Req::OxyMin(n) => oxygen >= n || (flex && oxy_color(n) <= oc + 1),
            Req::OxyMax(n) => oxygen <= n || (flex && oc <= oxy_color(n) + 1),
            Req::OceanMin(n) => oceans >= n,
            Req::OceanMax(n) => oceans <= n,
            Req::Tags(tag, n) => tags_at_least(pl, tag, n),
            Req::SpendHeat(n) => pl.heat >= n,
            Req::SpendPlants(n) => pl.plants >= n,
            Req::SpendTr(n) => pl.tr >= n,
            Req::TrMin(n) => pl.tr >= n,
            Req::HasObjective => objective,
        };
        assert(ok == req_ok(reqs@[j as int], &game.players[p as int], temperature, oxygen, oceans, flex, objective));
        if !ok {
            assert(!req_ok(reqs@[j as int], &game.players[p as int], temperature, oxygen, oceans, flex, objective));
            proof {
                let e = db.projects@[card_id as int].effect->Some_0;
                assert(e.reqs@ == reqs@);
                assert(!req_ok(e.reqs@[j as int], &game.players[p as int], temperature, oxygen, oceans, flex, objective));
            }
            return false;
        }
        j = j + 1;
    }
    true
}

/// Are the card's requirements met? Global parameters are judged on the
/// snapshot taken at the start of the phase; tags, spendings, TR and
/// objectives on the current state.
pub fn requirements_met(game: &GameState, db: &CardsDb, p: usize, card_id: u16) -> (r: bool)
    requires
        p < 2,
        (card_id as int) < db.projects@.len(),
        player_ids_ok(db, &game.players[p as int]),
    ensures r == reqs_ok_spec(game, db, p as int, card_id, game.snap_temperature, game.snap_oxygen, game.snap_oceans),
{
    reqs_satisfied(game, db, p, card_id, game.snap_temperature, game.snap_oxygen, game.snap_oceans)
}

/// The same test, the global parameters judged on their current values.
pub fn requirements_met_now(game: &GameState, db: &CardsDb, p: usize, card_id: u16) -> (r: bool)
    requires
        p < 2,
        (card_id as int) < db.projects@.len(),
        player_ids_ok(db, &game.players[p as int]),
    ensures r == reqs_ok_spec(game, db, p as int, card_id, game.temperature, game.oxygen, game.oceans_revealed),
{
    reqs_satisfied(game, db, p, card_id, game.temperature, game.oxygen, game.oceans_revealed)
}


// ------------------------------------------------------- paid reductions

/// The first « pay resources of this card » reduction among `reds` that the
/// card `owned` can pay now.
pub open spec fn pay_res_in_reds(db: &CardsDb, res: Map<u16, u32>, owned: u16, reds: Seq<Reduction>) -> Option<(u16, u32, i64)>
    decreases reds.len(),
{
    if reds.len() == 0 {
        None
    } else {
        match reds[0] {
            Reduction::PayResources { kind, count, amount } =>
                if db.projects@[owned as int].holds_spec() == Some(kind) && res_on(res, owned) >= count {
                    Some((owned, count, amount))
                } else {
                    pay_res_in_reds(db, res, owned, reds.drop_first())
                },
            _ => pay_res_in_reds(db, res, owned, reds.drop_first()),
        }
    }
}

/// Resources on a card according to a table (0 when absent).
pub open spec fn res_on(res: Map<u16, u32>, c: u16) -> u32 {
    if res.contains_key(c) { res[c] } else { 0 }
}

/// The first payable resource reduction of the cards `played`, in order.
pub open spec fn pay_res_in_cards(db: &CardsDb, res: Map<u16, u32>, played: Seq<u16>) -> Option<(u16, u32, i64)>
    decreases played.len(),
{
    if played.len() == 0 {
        None
    } else {
        let first = match db.projects@[played[0] as int].effect {
            Some(e) => pay_res_in_reds(db, res, played[0], e.reductions@),
            None => None,
        };
        if first is Some { first } else { pay_res_in_cards(db, res, played.drop_first()) }
    }
}

/// Reduction paid with resources on a card in play (« remove 2 microbes
/// from this card to pay 10 MC less »): `(card, resources, amount)` of the
/// first such card that holds the declared kind and enough resources.
pub open spec fn microbe_discount_spec(db: &CardsDb, pl: &PlayerState) -> Option<(u16, u32, i64)> {
    if !db.effects_on { None } else { pay_res_in_cards(db, pl.card_resources@, pl.played@) }
}

/// The payable resource reduction of one card in play, if any.
fn pay_res_of_card(db: &CardsDb, pl: &PlayerState, owned: u16) -> (r: Option<(u16, u32, i64)>)
    requires (owned as int) < db.projects@.len(),
    ensures r == match db.projects@[owned as int].effect {
        Some(e) => pay_res_in_reds(db, pl.card_resources@, owned, e.reductions@),
        None => None,
    },
{
    match &db.projects[owned as usize].effect {
        Some(spec) => {
            let reds = &spec.reductions;
            let m = reds.len();
            let mut j: usize = 0;
            proof { assert(reds@.subrange(0, m as int) =~= reds@); }
            while j < m
                invariant
                    j <= m, m == reds@.len(),
                    (owned as int) < db.projects@.len(),
                    db.projects@[owned as int].effect == Some(*spec),
                    reds@ == spec.reductions@,
                    pay_res_in_reds(db, pl.card_resources@, owned, reds@) == pay_res_in_reds(db, pl.card_resources@, owned, reds@.subrange(j as int, m as int)),
                decreases m - j,
            {
                proof {
                    assert(reds@.subrange(j as int, m as int).drop_first() =~= reds@.subrange(j + 1, m as int));
                }
                match reds[j] {
                    Reduction::PayResources { kind, count, amount } => {
                        let holds = db.projects[owned as usize].holds();
                        if holds == Some(kind) && pl.resources_on(owned) >= count {
                            return Some((owned, count, amount));
                        }
                    }
                    _ => {}
                }
                j = j + 1;
            }
            proof { assert(reds@.subrange(m as int, m as int) =~= Seq::<Reduction>::empty()); }
            None
        }
        None => None,
    }
}

/// Reduction paid with resources on a card in play: `(card, resources to
/// remove, MC off)` if a card in play carries one and holds enough.
pub fn microbe_discount(game: &GameState, db: &CardsDb, p: usize) -> (r: Option<(u16, u32, i64)>)
    requires
        p < 2,
        crate::state::ids_ok(game.players[p as int].played@, db.projects@.len() as int),
    ensures r == microbe_discount_spec(db, &game.players[p as int]),
{
    if !db.effects_on {
        return None;
    }
    let pl = &game.players[p];
    let n = pl.played.len();
    let mut i: usize = 0;
    proof { assert(pl.played@.subrange(0, n as int) =~= pl.played@); }
    while i < n
        invariant
            i <= n, n == pl.played@.len(),
            *pl == game.players[p as int],
            db.effects_on,
            crate::state::ids_ok(pl.played@, db.projects@.len() as int),
            pay_res_in_cards(db, pl.card_resources@, pl.played@) == pay_res_in_cards(db, pl.card_resources@, pl.played@.subrange(i as int, n as int)),
        decreases n - i,
    {
        proof {
            assert(pl.played@.subrange(i as int, n as int).drop_first() =~= pl.played@.subrange(i + 1, n as int));
            assert(pl.played@.subrange(i as int, n as int)[0] == pl.played@[i as int]);
        }
        let found = pay_res_of_card(db, pl, pl.played[i]);
        if found.is_some() {
            return found;
        }
        i = i + 1;
    }
    proof { assert(pl.played@.subrange(n as int, n as int) =~= Seq::<u16>::empty()); }
    None
}

/// The first « spend plants for a discount » reduction among `reds`.
pub open spec fn pay_plants_in_reds(reds: Seq<Reduction>) -> Option<(i64, i64)>
    decreases reds.len(),
{
    if reds.len() == 0 {
        None
    } else {
        match reds[0] {
            Reduction::PayPlants { plants, amount } => Some((plants, amount)),
            _ => pay_plants_in_reds(reds.drop_first()),
        }
    }
}

/// The first plant reduction declared by the cards `played`.
pub open spec fn pay_plants_in_cards(db: &CardsDb, played: Seq<u16>) -> Option<(i64, i64)>
    decreases played.len(),
{
    if played.len() == 0 {
        None
    } else {
        let first = match db.projects@[played[0] as int].effect {
            Some(e) => pay_plants_in_reds(e.reductions@),
            None => None,
        };
        if first is Some { first } else { pay_plants_in_cards(db, played.drop_first()) }
    }
}

/// The plant reduction declared by the player's cards in play, if any.
pub open spec fn plant_reduction_spec(db: &CardsDb, played: Seq<u16>) -> Option<(i64, i64)> {
    if !db.effects_on { None } else { pay_plants_in_cards(db, played) }
}

/// The plant reduction declared by one card, if any.
fn pay_plants_of_card(db: &CardsDb, owned: u16) -> (r: Option<(i64, i64)>)
    requires (owned as int) < db.projects@.len(),
    ensures r == match db.projects@[owned as int].effect {
        Some(e) => pay_plants_in_reds(e.reductions@),
        None => None,
    },
{
    match &db.projects[owned as usize].effect {
        Some(spec) => {
            let reds = &spec.reductions;
            let m = reds.len();
            let mut j: usize = 0;
            proof { assert(reds@.subrange(0, m as int) =~= reds@); }
            while j < m
                invariant
                    j <= m, m == reds@.len(),
                    (owned as int) < db.projects@.len(),
                    db.projects@[owned as int].effect == Some(*spec),
                    reds@ == spec.reductions@,
                    pay_plants_in_reds(reds@) == pay_plants_in_reds(reds@.subrange(j as int, m as int)),
                decreases m - j,
            {
                proof {
                    assert(reds@.subrange(j as int, m as int).drop_first() =~= reds@.subrange(j + 1, m as int));
                }
                match reds[j] {
                    Reduction::PayPlants { plants, amount } => return Some((plants, amount)),
                    _ => {}
                }
                j = j + 1;
            }
            proof { assert(reds@.subrange(m as int, m as int) =~= Seq::<Reduction>::empty()); }
            None
        }
        None => None,
    }
}

/// The plant reduction declared by the player's cards in play:
/// `(plants to spend, MC off)`, without any availability test.
pub fn plant_reduction(db: &CardsDb, pl: &PlayerState) -> (r: Option<(i64, i64)>)
    requires crate::state::ids_ok(pl.played@, db.projects@.len() as int),
    ensures r == plant_reduction_spec(db, pl.played@),
{
    if !db.effects_on {
        return None;
    }
    let n = pl.played.len();
    let mut i: usize = 0;
    proof { assert(pl.played@.subrange(0, n as int) =~= pl.played@); }
    while i < n
        invariant
            i <= n, n == pl.played@.len(),
            db.effects_on,
            crate::state::ids_ok(pl.played@, db.projects@.len() as int),
            pay_plants_in_cards(db, pl.played@) == pay_plants_in_cards(db, pl.played@.subrange(i as int, n as int)),
        decreases n - i,
    {
        proof {
            assert(pl.played@.subrange(i as int, n as int).drop_first() =~= pl.played@.subrange(i + 1, n as int));
            assert(pl.played@.subrange(i as int, n as int)[0] == pl.played@[i as int]);
        }
        let found = pay_plants_of_card(db, pl.played[i]);
        if found.is_some() {
            return found;
        }
        i = i + 1;
    }
    proof { assert(pl.played@.subrange(n as int, n as int) =~= Seq::<u16>::empty()); }
    None
}

/// Is the declared plant reduction available for this card: does the player
/// hold the plants, the ones the card itself commits to spend set aside?
pub open spec fn plant_discount_with_spec(db: &CardsDb, pl: &PlayerState, card_id: u16, declared: Option<(i64, i64)>) -> Option<(i64, i64)> {
    match declared {
        None => None,
        Some((plants, amount)) =>
            if clamp64(pl.plants - reserved_spec(db, card_id, false)) >= plants { Some((plants, amount)) } else { None },
    }
}

/// The one decision point: is the declared plant reduction available for
/// THIS card?
pub fn plant_discount_with(game: &GameState, db: &CardsDb, p: usize, card_id: u16, declared: Option<(i64, i64)>) -> (r: Option<(i64, i64)>)
    requires p < 2, (card_id as int) < db.projects@.len(),
    ensures r == plant_discount_with_spec(db, &game.players[p as int], card_id, declared),
{
    match declared {
        None => None,
        Some((plants, amount)) => {
            let available = minus(game.players[p].plants, plants_reserved_by(db, card_id));
            if available >= plants { Some((plants, amount)) } else { None }
        }
    }
}

/// Reduction paid in plants from the reserve for this card, if the player
/// has one in play and holds the plants: `(plants, MC off)`.
pub fn plant_discount(game: &GameState, db: &CardsDb, p: usize, card_id: u16) -> (r: Option<(i64, i64)>)
    requires
        p < 2, (card_id as int) < db.projects@.len(),
        crate::state::ids_ok(game.players[p as int].played@, db.projects@.len() as int),
    ensures r == plant_discount_with_spec(db, &game.players[p as int], card_id,
        plant_reduction_spec(db, game.players[p as int].played@)),
{
    let declared = plant_reduction(db, &game.players[p]);
    plant_discount_with(game, db, p, card_id, declared)
}

// -------------------------------------------------------- milestones, awards

/// Value of a player for a milestone.
pub open spec fn milestone_value_spec(kind: MilestoneKind, pl: &PlayerState) -> int {
    match kind {
        MilestoneKind::Builder => pl.tag_counts[0] as int,
        MilestoneKind::Diversifier => pl.unique_tags_spec() as int,
        MilestoneKind::Energizer => pl.heat_prod as int,
        MilestoneKind::Farmer => pl.plant_prod as int,
        MilestoneKind::Legend => pl.color_counts[2] as int,
        MilestoneKind::Magnate => pl.color_counts[0] as int,
        MilestoneKind::Planner => clamp64(pl.played@.len() as int),
        MilestoneKind::SpaceBaron => pl.tag_counts[1] as int,
        MilestoneKind::Terraformer => pl.tr as int,
        MilestoneKind::Tycoon => pl.color_counts[1] as int,
        MilestoneKind::Gardener => pl.forests as int,
    }
}

/// `len` held to the range of `i64`.
fn len_i64(n: usize) -> (r: i64)
    ensures r == clamp64(n as int),
{
    if n as u64 > 0x7fff_ffff_ffff_ffffu64 { i64::MAX } else { n as i64 }
}

/// Current value of a player for a milestone.
pub fn milestone_value(kind: MilestoneKind, pl: &PlayerState) -> (r: i64)
    ensures r == milestone_value_spec(kind, pl),
{
    match kind {
        MilestoneKind::Builder => pl.tag_counts[0] as i64,
        MilestoneKind::Diversifier => pl.unique_tags() as i64,
        MilestoneKind::Energizer => pl.heat_prod,
        MilestoneKind::Farmer => pl.plant_prod,
        MilestoneKind::Legend => pl.played_count(Color::Red) as i64,
        MilestoneKind::Magnate => pl.played_count(Color::Green) as i64,
        MilestoneKind::Planner => len_i64(pl.played.len()),
        MilestoneKind::SpaceBaron => pl.tag_counts[1] as i64,
        MilestoneKind::Terraformer => pl.tr,
        MilestoneKind::Tycoon => pl.played_count(Color::Blue) as i64,
        MilestoneKind::Gardener => pl.forests,
    }
}

pub open spec fn milestone_goal_spec(kind: MilestoneKind) -> i64 {
    match kind {
        MilestoneKind::Builder => 8,
        MilestoneKind::Diversifier => 9,
        MilestoneKind::Energizer => 10,
        MilestoneKind::Farmer => 5,
        MilestoneKind::Legend => 6,
        MilestoneKind::Magnate => 8,
        MilestoneKind::Planner => 12,
        MilestoneKind::SpaceBaron => 6,
        MilestoneKind::Terraformer => 15,
        MilestoneKind::Tycoon => 6,
        MilestoneKind::Gardener => 3,
    }
}

/// Threshold of a milestone (the printed tiles).
pub fn milestone_goal(kind: MilestoneKind) -> (r: i64)
    ensures r == milestone_goal_spec(kind),
{
    match kind {
        MilestoneKind::Builder => 8,
        MilestoneKind::Diversifier => 9,
        MilestoneKind::Energizer => 10,
        MilestoneKind::Farmer => 5,
        MilestoneKind::Legend => 6,
        MilestoneKind::Magnate => 8,
        MilestoneKind::Planner => 12,
        MilestoneKind::SpaceBaron => 6,
        MilestoneKind::Terraformer => 15,
        MilestoneKind::Tycoon => 6,
        MilestoneKind::Gardener => 3,
    }
}

/// Is the Visionary award in the pool: only with the Discovery box and the
/// effect layer, the only setting where a Phase card can be upgraded.
pub open spec fn visionary_playable(db: &CardsDb) -> bool {
    db.effects_on && db.boites.decouverte
}

/// The award tiles available for the boxes in play: all of them, Visionary
/// only where Phase cards can be upgraded.
pub fn award_pool(db: &CardsDb) -> (r: Vec<AwardKind>)
    ensures
        visionary_playable(db) ==> r@ == award_pool_seq(),
        !visionary_playable(db) ==> r@ == award_pool_seq().take(6),
{
    let all = award_pool_all();
    let keep_visionary = db.effects_on && db.boites.contains(crate::cards::Boite::Decouverte);
    let mut out: Vec<AwardKind> = Vec::new();
    let mut i: usize = 0;
    while i < 7
        invariant
            i <= 7,
            keep_visionary == visionary_playable(db),
            all@ == award_pool_seq(),
            out@ == (if i <= 6 || keep_visionary { all@.take(i as int) } else { all@.take(6) }),
        decreases 7 - i,
    {
        let a = all[i];
        if !(a == AwardKind::Visionary) || keep_visionary {
            out.push(a);
            proof { assert(all@.take(i + 1) =~= all@.take(i as int).push(a)); }
        }
        i = i + 1;
    }
    out
}

/// Resources on the cards of `m` whose id is below `n`.
pub open spec fn collector_upto(m: Map<u16, u32>, n: int) -> int
    decreases n,
{
    if n <= 0 {
        0
    } else {
        collector_upto(m, n - 1) + if m.dom().contains((n - 1) as u16) { m[(n - 1) as u16] as int } else { 0 }
    }
}

/// Value of a player for an award.
pub open spec fn award_value_spec(kind: AwardKind, pl: &PlayerState) -> int {
    match kind {
        AwardKind::Celebrity => pl.mc_prod as int,
        AwardKind::Collector => collector_upto(pl.card_resources@, 65536),
        AwardKind::Generator => pl.heat_prod as int,
        AwardKind::Industrialist => clamp64(pl.steel_capacity + pl.titanium_capacity),
        AwardKind::ProjectManager => clamp64(pl.played@.len() as int),
        AwardKind::Researcher => pl.tag_counts[3] as int,
        AwardKind::Visionary => crate::state::upgrades_count_spec(pl.phase_upgrades@) as int,
    }
}

/// Resources on all the cards of a player, every kind together.
fn resources_total(pl: &PlayerState) -> (r: i64)
    ensures r == collector_upto(pl.card_resources@, 65536),
{
    let mut total: u64 = 0;
    let mut k: u32 = 0;
    while k < 65536
        invariant
            k <= 65536,
            total == collector_upto(pl.card_resources@, k as int),
            total <= k * 0xffff_ffffu64,
        decreases 65536 - k,
    {
        let n = pl.resources_on(k as u16);
        proof {
            assert(k as u16 as int == k as int);
            assert((k * 0xffff_ffffu64) + 0xffff_ffffu64 == (k + 1) * 0xffff_ffffu64) by (nonlinear_arith);
        }
        total = total + n as u64;
        k = k + 1;
    }
    total as i64
}

/// Current value of a player for an award.
pub fn award_value(kind: AwardKind, pl: &PlayerState) -> (r: i64)
    ensures r == award_value_spec(kind, pl),
{
    match kind {
        AwardKind::Celebrity => pl.mc_prod,
        AwardKind::Collector => resources_total(pl),
        AwardKind::Generator => pl.heat_prod,
        AwardKind::Industrialist => plus(pl.steel_capacity, pl.titanium_capacity),
        AwardKind::ProjectManager => len_i64(pl.played.len()),
        AwardKind::Researcher => pl.tag_counts[3] as i64,
        AwardKind::Visionary => pl.phase_upgrades_count(),
    }
}

/// Points of one award: 5 to the first, 2 to the second, 4 each on a tie.
pub open spec fn award_share(v0: int, v1: int) -> (i64, i64) {
    if v0 == v1 { (4, 4) } else if v0 > v1 { (5, 2) } else { (2, 5) }
}

/// Award points of both players over the first `n` awards in play.
pub open spec fn award_points_upto(game: &GameState, n: int) -> (int, int, int)
    decreases n,
{
    if n <= 0 {
        (0, 0, 0)
    } else {
        let (a0, a1, v) = award_points_upto(game, n - 1);
        let k = game.awards[n - 1];
        let (x, y) = award_share(award_value_spec(k, &game.players[0]), award_value_spec(k, &game.players[1]));
        (a0 + x, a1 + y, v + if k == AwardKind::Visionary { x + y } else { 0 })
    }
}

/// Award points of each player, and the part of them given by the
/// Visionary tile (both players together).
pub fn award_points_split(game: &GameState) -> (r: ([i64; 2], i64))
    ensures
        r.0[0] == award_points_upto(game, 3).0,
        r.0[1] == award_points_upto(game, 3).1,
        r.1 == award_points_upto(game, 3).2,
{
    let mut pts: [i64; 2] = [0, 0];
    let mut visionary: i64 = 0;
    let mut i: usize = 0;
    while i < 3
        invariant
            i <= 3,
            pts[0] == award_points_upto(game, i as int).0,
            pts[1] == award_points_upto(game, i as int).1,
            visionary == award_points_upto(game, i as int).2,
            0 <= pts[0] <= 5 * i, 0 <= pts[1] <= 5 * i, 0 <= visionary <= 10 * i,
        decreases 3 - i,
    {
        let award = game.awards[i];
        let v0 = award_value(award, &game.players[0]);
        let v1 = award_value(award, &game.players[1]);
        let (a, b): (i64, i64) = if v0 == v1 { (4, 4) } else if v0 > v1 { (5, 2) } else { (2, 5) };
        pts[0] = pts[0] + a;
        pts[1] = pts[1] + b;
        if award == AwardKind::Visionary {
            visionary = visionary + a + b;
        }
        i = i + 1;
    }
    (pts, visionary)
}

/// Award points of each player.
pub fn award_points(game: &GameState) -> (r: [i64; 2])
    ensures r[0] == award_points_upto(game, 3).0, r[1] == award_points_upto(game, 3).1,
{
    award_points_split(game).0
}

// ------------------------------------------------------------------- score

/// Points of a card in play and the part of them that comes from resources
/// on the card: printed points, plus `points` for every `resources` counted
/// things (whole division).
pub open spec fn card_points_spec(db: &CardsDb, pl: &PlayerState, card_id: u16) -> (i64, i64) {
    let card = db.projects@[card_id as int];
    match card.vp_dynamic {
        None => (card.vp, 0),
        Some(d) => {
            let (n, on_res): (i64, bool) = match d.kind {
                VpKind::Jupiter => (pl.tag_counts[4] as i64, false),
                VpKind::Earth => (pl.tag_counts[5] as i64, false),
                VpKind::Forest => (pl.forests, false),
                VpKind::BlueCard => (pl.color_counts[1] as i64, false),
                VpKind::AnyCard => (clamp64(pl.played@.len() as int) as i64, false),
                VpKind::Animal | VpKind::Microbe | VpKind::Science => (pl.resources_on_spec(card_id) as i64, true),
                VpKind::Unsupported => (0, false),
            };
            if d.resources > 0 {
                let pts = clamp64(tdiv(n, d.resources) * d.points) as i64;
                (clamp64(card.vp + pts) as i64, if on_res { pts } else { 0 })
            } else {
                (card.vp, 0)
            }
        },
    }
}

/// Victory points of a card in play: `(total, part from resources on it)`.
pub fn card_points(db: &CardsDb, pl: &PlayerState, card_id: u16) -> (r: (i64, i64))
    requires (card_id as int) < db.projects@.len(),
    ensures r == card_points_spec(db, pl, card_id),
{
    let card = &db.projects[card_id as usize];
    let mut total = card.vp;
    let mut from_resources: i64 = 0;
    match card.vp_dynamic {
        None => {}
        Some(dynv) => {
            let (n, on_resources): (i64, bool) = match dynv.kind {
                VpKind::Jupiter => (pl.tag_counts[4] as i64, false),
                VpKind::Earth => (pl.tag_counts[5] as i64, false),
                VpKind::Forest => (pl.forests, false),
                VpKind::BlueCard => (pl.played_count(Color::Blue) as i64, false),
                VpKind::AnyCard => (len_i64(pl.played.len()), false),
                VpKind::Animal | VpKind::Microbe | VpKind::Science => (pl.resources_on(card_id) as i64, true),
                VpKind::Unsupported => (0, false),
            };
            if dynv.resources > 0 {
                let pts = times(div_toward_zero(n, dynv.resources), dynv.points);
                total = plus(total, pts);
                if on_resources {
                    from_resources = pts;
                }
            }
        }
    }
    (total, from_resources)
}

/// The score of a player, part by part.
#[derive(Debug, Clone, Copy, PartialEq, Eq, Structural)]
pub struct ScoreBreakdown {
    /// Terraform rating.
    pub tr: i64,
    /// 1 VP per forest.
    pub forests: i64,
    /// Points of the cards in play (printed and dynamic), effect layer on.
    pub cards: i64,
    /// 3 VP per milestone reached.
    pub milestones: i64,
    /// Award points, as if the game stopped here.
    pub awards: i64,
}

pub open spec fn total_spec(s: ScoreBreakdown) -> i64 {
    clamp64(clamp64(clamp64(clamp64(s.tr + s.forests) + s.cards) + s.milestones) + s.awards) as i64
}

impl Default for ScoreBreakdown {
    fn default() -> (r: ScoreBreakdown)
        ensures r == (ScoreBreakdown { tr: 0, forests: 0, cards: 0, milestones: 0, awards: 0 }),
    {
        ScoreBreakdown { tr: 0, forests: 0, cards: 0, milestones: 0, awards: 0 }
    }
}

impl ScoreBreakdown {
    /// The sum of the parts: the score.
    pub fn total(&self) -> (r: i64)
        ensures r == total_spec(*self),
    {
        plus(plus(plus(plus(self.tr, self.forests), self.cards), self.milestones), self.awards)
    }
}

/// Points of the cards among `played` and the part from resources.
pub open spec fn cards_points_sum(db: &CardsDb, pl: &PlayerState, played: Seq<u16>) -> (i64, i64)
    decreases played.len(),
{
    if played.len() == 0 {
        (0, 0)
    } else {
        let (t, r) = cards_points_sum(db, pl, played.drop_last());
        let (a, b) = card_points_spec(db, pl, played.last());
        (clamp64(t + a) as i64, clamp64(r + b) as i64)
    }
}

/// Milestones claimed by player `p` among the first `n` slots, 3 VP each.
pub open spec fn milestone_points_upto(game: &GameState, p: int, n: int) -> int
    decreases n,
{
    if n <= 0 { 0 } else { milestone_points_upto(game, p, n - 1) + if game.milestones[n - 1].achieved_by[p] { 3int } else { 0 } }
}

/// The score breakdown of player `p`.
pub open spec fn breakdown_spec(game: &GameState, db: &CardsDb, p: int) -> ScoreBreakdown {
    let pl = &game.players[p];
    let aw = award_points_upto(game, 3);
    ScoreBreakdown {
        tr: pl.tr,
        forests: pl.forests,
        cards: if db.effects_on { cards_points_sum(db, pl, pl.played@).0 } else { 0 },
        milestones: milestone_points_upto(game, p, 3) as i64,
        awards: (if p == 0 { aw.0 } else { aw.1 }) as i64,
    }
}

/// Points from resources on cards, both players together.
pub open spec fn vp_from_resources_spec(game: &GameState, db: &CardsDb) -> i64 {
    if !db.effects_on {
        0
    } else {
        clamp64(cards_points_sum(db, &game.players[0], game.players[0].played@).1
            + cards_points_sum(db, &game.players[1], game.players[1].played@).1) as i64
    }
}

fn player_card_points(db: &CardsDb, pl: &PlayerState) -> (r: (i64, i64))
    requires crate::state::ids_ok(pl.played@, db.projects@.len() as int),
    ensures r == cards_points_sum(db, pl, pl.played@),
{
    let mut t: i64 = 0;
    let mut fr: i64 = 0;
    let mut i: usize = 0;
    while i < pl.played.len()
        invariant
            i <= pl.played@.len(),
            crate::state::ids_ok(pl.played@, db.projects@.len() as int),
            (t, fr) == cards_points_sum(db, pl, pl.played@.subrange(0, i as int)),
        decreases pl.played@.len() - i,
    {
        proof {
            assert(pl.played@.subrange(0, i + 1).drop_last() =~= pl.played@.subrange(0, i as int));
        }
        let (a, b) = card_points(db, pl, pl.played[i]);
        t = plus(t, a);
        fr = plus(fr, b);
        i = i + 1;
    }
    proof { assert(pl.played@.subrange(0, pl.played@.len() as int) =~= pl.played@); }
    (t, fr)
}

/// The one computation of the score, part by part, with the points from
/// resources on cards and the points given by the Visionary tile.
pub fn score_breakdown(game: &GameState, db: &CardsDb) -> (r: ([ScoreBreakdown; 2], i64, i64))
    requires
        crate::state::ids_ok(game.players[0].played@, db.projects@.len() as int),
        crate::state::ids_ok(game.players[1].played@, db.projects@.len() as int),
    ensures
        r.0[0] == breakdown_spec(game, db, 0),
        r.0[1] == breakdown_spec(game, db, 1),
        r.1 == vp_from_resources_spec(game, db),
        r.2 == award_points_upto(game, 3).2,
{
    let (awards, visionary) = award_points_split(game);
    let mut out: [ScoreBreakdown; 2] = [ScoreBreakdown { tr: 0, forests: 0, cards: 0, milestones: 0, awards: 0 }; 2];
    let mut vp_from_resources: i64 = 0;
    let mut p: usize = 0;
    while p < 2
        invariant
            p <= 2,
            crate::state::ids_ok(game.players[0].played@, db.projects@.len() as int),
            crate::state::ids_ok(game.players[1].played@, db.projects@.len() as int),
            awards[0] == award_points_upto(game, 3).0,
            awards[1] == award_points_upto(game, 3).1,
            forall|q: int| 0 <= q < p ==> out[q] == breakdown_spec(game, db, q),
            vp_from_resources == (if !db.effects_on { 0 } else if p == 0 { 0 }
                else if p == 1 { cards_points_sum(db, &game.players[0], game.players[0].played@).1 }
                else { vp_from_resources_spec(game, db) }),
        decreases 2 - p,
    {
        let pl = &game.players[p];
        let mut cards: i64 = 0;
        if db.effects_on {
            let (t, fr) = player_card_points(db, pl);
            cards = t;
            vp_from_resources = plus(vp_from_resources, fr);
        }
        let mut milestones: i64 = 0;
        let mut k: usize = 0;
        while k < 3
            invariant
                k <= 3, p < 2,
                milestones == milestone_points_upto(game, p as int, k as int),
                0 <= milestones <= 3 * k,
            decreases 3 - k,
        {
            if game.milestones[k].achieved_by[p] {
                milestones = milestones + 3;
            }
            k = k + 1;
        }
        out[p] = ScoreBreakdown { tr: pl.tr, forests: pl.forests, cards, milestones, awards: awards[p] };
        p = p + 1;
    }
    (out, vp_from_resources, visionary)
}

/// Final score of each player, with the points from resources on cards and
/// those of the Visionary tile.
pub fn score_parts(game: &GameState, db: &CardsDb) -> (r: ([i64; 2], i64, i64))
    requires
        crate::state::ids_ok(game.players[0].played@, db.projects@.len() as int),
        crate::state::ids_ok(game.players[1].played@, db.projects@.len() as int),
    ensures
        r.0[0] == total_spec(breakdown_spec(game, db, 0)),
        r.0[1] == total_spec(breakdown_spec(game, db, 1)),
        r.1 == vp_from_resources_spec(game, db),
        r.2 == award_points_upto(game, 3).2,
{
    let (parts, vp_from_resources, visionary) = score_breakdown(game, db);
    let out: [i64; 2] = [parts[0].total(), parts[1].total()];
    (out, vp_from_resources, visionary)
}

/// Final score: TR, forests, points of the cards in play, 3 VP per
/// milestone and the awards.
pub fn score(game: &GameState, db: &CardsDb) -> (r: [i64; 2])
    requires
        crate::state::ids_ok(game.players[0].played@, db.projects@.len() as int),
        crate::state::ids_ok(game.players[1].played@, db.projects@.len() as int),
    ensures
        r[0] == total_spec(breakdown_spec(game, db, 0)),
        r[1] == total_spec(breakdown_spec(game, db, 1)),
{
    score_parts(game, db).0
}


// ------------------------------------------------------------------- laws

/// Whole division of a non-negative count by a positive divisor: the
/// quotient `q` is the largest with `q * d <= n`.
pub proof fn lemma_whole_quotient(n: int, d: int)
    requires n >= 0, d > 0,
    ensures
        (n / d) * d <= n < (n / d + 1) * d,
        0 <= n / d <= n,
{
    vstd::arithmetic::div_mod::lemma_fundamental_div_mod(n, d);
    vstd::arithmetic::div_mod::lemma_mod_pos_bound(n, d);
    assert((n / d) * d <= n < (n / d + 1) * d) by (nonlinear_arith)
        requires n == d * (n / d) + n % d, 0 <= n % d < d;
    assert(0 <= n / d <= n) by (nonlinear_arith)
        requires n == d * (n / d) + n % d, 0 <= n % d < d, d > 0, n >= 0;
}

/// Dividing toward zero a non-negative `i64` by a positive one is the whole
/// quotient.
pub proof fn lemma_tdiv_whole(n: i64, d: i64)
    requires n >= 0, d > 0,
    ensures tdiv(n, d) as int == (n as int) / (d as int),
{
    lemma_whole_quotient(n as int, d as int);
}

/// Awards: the player with the strictly higher value scores 5 and the
/// other 2; equal values score 4 each. Swapping the players swaps the
/// points, and a player never scores fewer points than an opponent with a
/// strictly lower value.
pub proof fn lemma_award_share(v0: int, v1: int)
    ensures
        v0 > v1 ==> award_share(v0, v1) == (5i64, 2i64),
        v0 < v1 ==> award_share(v0, v1) == (2i64, 5i64),
        v0 == v1 ==> award_share(v0, v1) == (4i64, 4i64),
        award_share(v1, v0) == (award_share(v0, v1).1, award_share(v0, v1).0),
        v0 > v1 ==> award_share(v0, v1).0 > award_share(v0, v1).1,
        award_share(v0, v1).0 + award_share(v0, v1).1 == (if v0 == v1 { 8int } else { 7int }),
{
}

/// What each award is judged on: Celebrity the MC production, Generator
/// the heat production, Industrialist the steel and titanium know-how
/// together, Project Manager the cards in play, Researcher the science tags.
pub proof fn lemma_award_values(pl: &PlayerState)
    ensures
        award_value_spec(AwardKind::Celebrity, pl) == pl.mc_prod as int,
        award_value_spec(AwardKind::Generator, pl) == pl.heat_prod as int,
        award_value_spec(AwardKind::Industrialist, pl) == clamp64(pl.steel_capacity + pl.titanium_capacity),
        award_value_spec(AwardKind::ProjectManager, pl) == clamp64(pl.played@.len() as int),
        award_value_spec(AwardKind::Researcher, pl) == pl.tag_counts[tag_index(Tag::Science)->0 as int] as int,
{
}

/// The game with its two players' seats exchanged.
pub open spec fn seats_swapped(g: &GameState) -> GameState {
    GameState { players: [g.players[1], g.players[0]], ..*g }
}

/// Awards treat both seats alike: exchanging the players exchanges their
/// award points, and the Visionary part stays the same.
pub proof fn lemma_award_points_symmetric(game: &GameState, n: int)
    requires 0 <= n <= 3,
    ensures
        award_points_upto(&seats_swapped(game), n).0 == award_points_upto(game, n).1,
        award_points_upto(&seats_swapped(game), n).1 == award_points_upto(game, n).0,
        award_points_upto(&seats_swapped(game), n).2 == award_points_upto(game, n).2,
    decreases n,
{
    if n > 0 {
        lemma_award_points_symmetric(game, n - 1);
        let k = game.awards[n - 1];
        lemma_award_share(award_value_spec(k, &game.players[0]), award_value_spec(k, &game.players[1]));
        assert(seats_swapped(game).awards[n - 1] == k);
        assert(seats_swapped(game).players[0] == game.players[1]);
        assert(seats_swapped(game).players[1] == game.players[0]);
    }
}

/// Over the three awards in play: a player ahead on every one of them
/// scores 15 and the other 6.
pub proof fn lemma_award_points_leader(game: &GameState)
    requires
        forall|i: int| 0 <= i < 3 ==> award_value_spec(#[trigger] game.awards[i], &game.players[0])
            > award_value_spec(game.awards[i], &game.players[1]),
    ensures
        award_points_upto(game, 3).0 == 15,
        award_points_upto(game, 3).1 == 6,
{
    assert(award_value_spec(game.awards[0], &game.players[0]) > award_value_spec(game.awards[0], &game.players[1]));
    assert(award_value_spec(game.awards[1], &game.players[0]) > award_value_spec(game.awards[1], &game.players[1]));
    assert(award_value_spec(game.awards[2], &game.players[0]) > award_value_spec(game.awards[2], &game.players[1]));
    reveal_with_fuel(award_points_upto, 4);
}

/// The value of each milestone, named by what it counts: Builder the
/// building tags, Space Baron the space tags, Legend the red cards,
/// Magnate the green cards, Tycoon the blue cards, Energizer the heat
/// production, Farmer the plant production, Terraformer the TR, Gardener
/// the forests.
pub proof fn lemma_milestone_values(pl: &PlayerState)
    ensures
        milestone_value_spec(MilestoneKind::Builder, pl) == pl.tag_counts[tag_index(Tag::Building)->0 as int] as int,
        milestone_value_spec(MilestoneKind::SpaceBaron, pl) == pl.tag_counts[tag_index(Tag::Space)->0 as int] as int,
        milestone_value_spec(MilestoneKind::Legend, pl) == pl.color_counts[color_index(Color::Red) as int] as int,
        milestone_value_spec(MilestoneKind::Magnate, pl) == pl.color_counts[color_index(Color::Green) as int] as int,
        milestone_value_spec(MilestoneKind::Tycoon, pl) == pl.color_counts[color_index(Color::Blue) as int] as int,
        milestone_value_spec(MilestoneKind::Energizer, pl) == pl.heat_prod as int,
        milestone_value_spec(MilestoneKind::Farmer, pl) == pl.plant_prod as int,
        milestone_value_spec(MilestoneKind::Terraformer, pl) == pl.tr as int,
        milestone_value_spec(MilestoneKind::Gardener, pl) == pl.forests as int,
        milestone_value_spec(MilestoneKind::Planner, pl) == clamp64(pl.played@.len() as int),
{
}

/// The thresholds printed on the milestone tiles.
pub proof fn lemma_milestone_goals()
    ensures
        milestone_goal_spec(MilestoneKind::Builder) == 8, milestone_goal_spec(MilestoneKind::Diversifier) == 9,
        milestone_goal_spec(MilestoneKind::Energizer) == 10, milestone_goal_spec(MilestoneKind::Farmer) == 5,
        milestone_goal_spec(MilestoneKind::Legend) == 6, milestone_goal_spec(MilestoneKind::Magnate) == 8,
        milestone_goal_spec(MilestoneKind::Planner) == 12, milestone_goal_spec(MilestoneKind::SpaceBaron) == 6,
        milestone_goal_spec(MilestoneKind::Terraformer) == 15, milestone_goal_spec(MilestoneKind::Tycoon) == 6,
        milestone_goal_spec(MilestoneKind::Gardener) == 3,
{
}

/// What a derived production counts now: the tags of its kind, or the
/// forests.
pub open spec fn derived_counted(pl: &PlayerState, prod: DerivedProd) -> int {
    match prod.count {
        ProdCount::Tag(t) => match tag_index(t) {
            Some(i) => pl.tag_counts[i as int] as int,
            None => 0,
        },
        ProdCount::Forests => pl.forests as int,
    }
}

/// The part of a production triple `(MC, heat, plants)` of a given kind.
pub open spec fn prod_part(t: (i64, i64, i64), res: ProdRes) -> int {
    match res {
        ProdRes::Mc => t.0 as int,
        ProdRes::Heat => t.1 as int,
        ProdRes::Plants => t.2 as int,
    }
}

/// Derived production of a card: 1 unit per `per` counted things, whole
/// units only (`gained * per <= counted < (gained + 1) * per`), of the kind
/// printed and of no other.
pub proof fn lemma_derived_is_whole_quotient(db: &CardsDb, pl: &PlayerState, c: u16, prod: DerivedProd)
    requires
        db.effects_on,
        (c as int) < db.projects@.len(),
        db.projects@[c as int].effect matches Some(e) && e.prod == Some(prod),
        prod.per > 0,
        derived_counted(pl, prod) >= 0,
    ensures
        ({
            let g = prod_part(card_derived_spec(db, pl, c), prod.res);
            g * prod.per <= derived_counted(pl, prod) < (g + 1) * prod.per
        }),
        forall|r: ProdRes| r != prod.res ==> prod_part(card_derived_spec(db, pl, c), r) == 0,
{
    let n: i64 = match prod.count {
        ProdCount::Tag(t) => match tag_index(t) {
            Some(i) => pl.tag_counts[i as int] as i64,
            None => 0,
        },
        ProdCount::Forests => pl.forests,
    };
    assert(n as int == derived_counted(pl, prod));
    lemma_tdiv_whole(n, prod.per);
    lemma_whole_quotient(n as int, prod.per as int);
}

/// What the dynamic points of a card count now.
pub open spec fn vp_counted(pl: &PlayerState, c: u16, kind: VpKind) -> int {
    match kind {
        VpKind::Jupiter => pl.tag_counts[tag_index(Tag::Jupiter)->0 as int] as int,
        VpKind::Earth => pl.tag_counts[tag_index(Tag::Earth)->0 as int] as int,
        VpKind::Forest => pl.forests as int,
        VpKind::BlueCard => pl.color_counts[color_index(Color::Blue) as int] as int,
        VpKind::AnyCard => clamp64(pl.played@.len() as int),
        VpKind::Animal | VpKind::Microbe | VpKind::Science => pl.resources_on_spec(c) as int,
        VpKind::Unsupported => 0,
    }
}

/// Points of a card with dynamic points: the printed points, plus `points`
/// for every whole `resources` counted things (held to the range of
/// `i64`); fewer than `resources` add nothing. The part from resources is
/// that bonus for the kinds counted on the card itself, none otherwise.
pub proof fn lemma_card_points_whole_division(db: &CardsDb, pl: &PlayerState, c: u16)
    requires
        (c as int) < db.projects@.len(),
        db.projects@[c as int].vp_dynamic matches Some(d) && d.resources > 0,
        vp_counted(pl, c, db.projects@[c as int].vp_dynamic->0.kind) >= 0,
    ensures
        ({
            let card = db.projects@[c as int];
            let d = card.vp_dynamic->0;
            let n = vp_counted(pl, c, d.kind);
            let q = n / (d.resources as int);
            let on_card = d.kind is Animal || d.kind is Microbe || d.kind is Science;
            &&& q * d.resources <= n < (q + 1) * d.resources
            &&& card_points_spec(db, pl, c).0 == clamp64(card.vp + clamp64(q * d.points))
            &&& card_points_spec(db, pl, c).1 == (if on_card { clamp64(q * d.points) } else { 0 })
            &&& n < d.resources ==> card_points_spec(db, pl, c) == (card.vp, (0i64))
        }),
{
    let card = db.projects@[c as int];
    let d = card.vp_dynamic->0;
    let n: i64 = match d.kind {
        VpKind::Jupiter => pl.tag_counts[4] as i64,
        VpKind::Earth => pl.tag_counts[5] as i64,
        VpKind::Forest => pl.forests,
        VpKind::BlueCard => pl.color_counts[1] as i64,
        VpKind::AnyCard => clamp64(pl.played@.len() as int) as i64,
        VpKind::Animal | VpKind::Microbe | VpKind::Science => pl.resources_on_spec(c) as i64,
        VpKind::Unsupported => 0,
    };
    assert(n as int == vp_counted(pl, c, d.kind));
    lemma_tdiv_whole(n, d.resources);
    lemma_whole_quotient(n as int, d.resources as int);
    if (n as int) < d.resources {
        assert((n as int) / (d.resources as int) == 0) by (nonlinear_arith)
            requires 0 <= n < d.resources;
    }
}

/// The parts of a player's score: the TR, 1 VP per forest, 3 VP per
/// milestone claimed, the award points of the player's seat, and no card
/// points when the effect layer is off.
pub proof fn lemma_score_parts(game: &GameState, db: &CardsDb, p: int)
    requires 0 <= p < 2,
    ensures
        breakdown_spec(game, db, p).tr == game.players[p].tr,
        breakdown_spec(game, db, p).forests == game.players[p].forests,
        breakdown_spec(game, db, p).milestones == 3 * ((if game.milestones[0].achieved_by[p] { 1int } else { 0 })
            + (if game.milestones[1].achieved_by[p] { 1int } else { 0 })
            + (if game.milestones[2].achieved_by[p] { 1int } else { 0 })),
        breakdown_spec(game, db, p).awards == (if p == 0 { award_points_upto(game, 3).0 } else { award_points_upto(game, 3).1 }),
        !db.effects_on ==> breakdown_spec(game, db, p).cards == 0,
{
    reveal_with_fuel(milestone_points_upto, 4);
    lemma_award_points_bounded(game, 3);
}

/// Award points stay within 5 per award for each player.
pub proof fn lemma_award_points_bounded(game: &GameState, n: int)
    requires 0 <= n <= 3,
    ensures
        0 <= award_points_upto(game, n).0 <= 5 * n,
        0 <= award_points_upto(game, n).1 <= 5 * n,
        0 <= award_points_upto(game, n).2 <= 10 * n,
    decreases n,
{
    if n > 0 {
        lemma_award_points_bounded(game, n - 1);
    }
}

/// A card without dynamic points, or whose divisor is not positive, scores
/// its printed points, none of them from resources.
pub proof fn lemma_card_points_printed(db: &CardsDb, pl: &PlayerState, c: u16)
    requires
        (c as int) < db.projects@.len(),
        db.projects@[c as int].vp_dynamic matches Some(d) ==> d.resources <= 0,
    ensures card_points_spec(db, pl, c) == (db.projects@[c as int].vp, 0i64),
{
}

/// Without the colour-band allowance, each requirement is judged plainly:
/// a minimum met at or above it, a maximum at or below it; tags, TR and
/// the resources to spend counted on the player.
pub proof fn lemma_requirements_plain(req: Req, pl: &PlayerState, t: u8, o: u8, oceans: u8, obj: bool)
    ensures
        req matches Req::TempMin(n) ==> (req_ok(req, pl, t, o, oceans, false, obj) <==> t >= n),
        req matches Req::TempMax(n) ==> (req_ok(req, pl, t, o, oceans, false, obj) <==> t <= n),
        req matches Req::OxyMin(n) ==> (req_ok(req, pl, t, o, oceans, false, obj) <==> o >= n),
        req matches Req::OxyMax(n) ==> (req_ok(req, pl, t, o, oceans, false, obj) <==> o <= n),
        req matches Req::Tags(tag, n) ==> (tag_index(tag) is Some ==>
            (req_ok(req, pl, t, o, oceans, false, obj) <==> pl.tag_counts[tag_index(tag)->0 as int] >= n)),
        req matches Req::TrMin(n) ==> (req_ok(req, pl, t, o, oceans, false, obj) <==> pl.tr >= n),
        req matches Req::SpendHeat(n) ==> (req_ok(req, pl, t, o, oceans, false, obj) <==> pl.heat >= n),
        req matches Req::SpendPlants(n) ==> (req_ok(req, pl, t, o, oceans, false, obj) <==> pl.plants >= n),
        req is HasObjective ==> (req_ok(req, pl, t, o, oceans, false, obj) <==> obj),
{
}

/// The colour-band allowance only ever helps: a requirement met without
/// it is met with it.
pub proof fn lemma_flex_only_helps(req: Req, pl: &PlayerState, t: u8, o: u8, oceans: u8, obj: bool)
    ensures req_ok(req, pl, t, o, oceans, false, obj) ==> req_ok(req, pl, t, o, oceans, true, obj),
{
}

/// An ocean minimum is met exactly when at least that many oceans are
/// revealed, whatever the colour-band allowance; more oceans never make it
/// fail, and an ocean maximum is met exactly when at most that many are.
pub proof fn lemma_ocean_requirements(n: u8, pl: &PlayerState, t: u8, o: u8, oceans: u8, more: u8, flex: bool, obj: bool)
    ensures
        req_ok(Req::OceanMin(n), pl, t, o, oceans, flex, obj) <==> oceans >= n,
        req_ok(Req::OceanMax(n), pl, t, o, oceans, flex, obj) <==> oceans <= n,
        oceans <= more && req_ok(Req::OceanMin(n), pl, t, o, oceans, flex, obj)
            ==> req_ok(Req::OceanMin(n), pl, t, o, more, flex, obj),
{
}

/// For a card with no ocean maximum among its requirements, more revealed
/// oceans never make its requirements fail.
pub proof fn lemma_reqs_monotone_in_oceans(game: &GameState, db: &CardsDb, p: int, c: u16, t: u8, o: u8,
    oceans: u8, more: u8)
    requires
        oceans <= more,
        db.projects@[c as int].effect matches Some(e) ==>
            forall|i: int| 0 <= i < e.reqs@.len() ==> !(#[trigger] e.reqs@[i] is OceanMax),
        reqs_ok_spec(game, db, p, c, t, o, oceans),
    ensures reqs_ok_spec(game, db, p, c, t, o, more),
{
    if db.effects_on {
        match db.projects@[c as int].effect {
            Some(e) => {
                let pl = &game.players[p];
                let corp_flex = match corp_spec(db, pl.corporation) { Some(x) => x.req_color_flex, None => false };
                let flex = has_band_req(e.reqs@) && (pl.next_card_mod.color_flex || corp_flex || flex_card_in(db, pl.played@));
                let obj = has_objective_spec(game, p);
                assert forall|i: int| 0 <= i < e.reqs@.len() implies
                    req_ok(#[trigger] e.reqs@[i], pl, t, o, more, flex, obj) by {
                    assert(req_ok(e.reqs@[i], pl, t, o, oceans, flex, obj));
                    assert(!(e.reqs@[i] is OceanMax));
                }
            },
            None => {},
        }
    }
}

} // verus!
