//! Simulation: whole games under a policy, the audited invariants checked
//! after every round, and a deterministic fingerprint of the final states.

use vstd::prelude::*;
use vstd::multiset::Multiset;
use crate::state::{GameState, PlayerState, STARTING_TR, TEMPERATURE_MAX, OXYGEN_MAX, NUM_OCEANS};
use crate::cards::CardsDb;
use crate::flow::{capacities, capacities_spec, player_ids_ok, score_parts, total_spec, breakdown_spec,
    vp_from_resources_spec, award_points_upto};
use crate::cards::in_deck_count;
use crate::phases::{round_progress, play_round};
use crate::setup::setup_game;
use crate::turn::db_ok;
use crate::policy::Policy;
use crate::arith::{count, plus, clamp64, clamp_u64};
use crate::rng::{seeded, next_u64};

verus! {

/// Safety cap: a game that reaches it is truncated, never completed.
pub const MAX_GENERATIONS: u32 = 1000;

/// Offset basis of FNV-1a, 64 bits.
pub const FNV_OFFSET: u64 = 0xcbf29ce484222325;

/// Prime of FNV-1a, 64 bits.
pub const FNV_PRIME: u64 = 0x100000001b3;

/// One byte into an FNV-1a state.
pub open spec fn fnv_byte(h: u64, b: u8) -> u64 {
    (h ^ (b as u64)).wrapping_mul(FNV_PRIME)
}

/// Byte `k` (0 = least significant) of `v`.
pub open spec fn byte_of(v: u64, k: int) -> u8 {
    ((v >> ((8 * k) as u64)) & 0xff) as u8
}

/// The first `k` bytes of `v`, least significant first, into the state.
pub open spec fn fnv_bytes(h: u64, v: u64, k: int) -> u64
    decreases k,
{
    if k <= 0 { h } else { fnv_byte(fnv_bytes(h, v, k - 1), byte_of(v, k - 1)) }
}

/// A `u64` into the state, little-endian.
pub open spec fn fnv_u64(h: u64, v: u64) -> u64 {
    fnv_bytes(h, v, 8)
}

/// A sequence of words into the state, in order.
pub open spec fn fnv_words(h: u64, s: Seq<u64>) -> u64
    decreases s.len(),
{
    if s.len() == 0 { h } else { fnv_u64(fnv_words(h, s.drop_last()), s.last()) }
}

/// FNV-1a, 64 bits.
#[derive(Clone, Copy)]
pub struct Fnv1a(pub u64);

impl Fnv1a {
    /// A fresh hasher, at the offset basis.
    pub fn new() -> (r: Fnv1a)
        ensures r.0 == FNV_OFFSET,
    {
        Fnv1a(FNV_OFFSET)
    }

    /// One byte.
    pub fn write_u8(&mut self, b: u8)
        ensures final(self).0 == fnv_byte(old(self).0, b),
    {
        self.0 = self.0 ^ (b as u64);
        self.0 = self.0.wrapping_mul(FNV_PRIME);
    }

    /// Eight bytes, little-endian.
    pub fn write_u64(&mut self, v: u64)
        ensures final(self).0 == fnv_u64(old(self).0, v),
    {
        let mut k: u64 = 0;
        while k < 8
            invariant k <= 8, self.0 == fnv_bytes(old(self).0, v, k as int),
            decreases 8 - k,
        {
            let b = ((v >> (8 * k)) & 0xff) as u8;
            self.write_u8(b);
            k = k + 1;
        }
    }

    /// A signed word, by its two's-complement bits.
    pub fn write_i64(&mut self, v: i64)
        ensures final(self).0 == fnv_u64(old(self).0, v as u64),
    {
        self.write_u64(v as u64);
    }
}

impl Default for Fnv1a {
    fn default() -> (r: Fnv1a)
        ensures r.0 == FNV_OFFSET,
    {
        Fnv1a::new()
    }
}

// ------------------------------------------------------------ sorting

/// `s` is in non-decreasing order.
pub open spec fn sorted(s: Seq<u16>) -> bool {
    forall|i: int, j: int| 0 <= i < j < s.len() ==> s[i] <= s[j]
}

/// Inserting keeps the multiset, plus the element.
pub proof fn lemma_insert_multiset(s: Seq<u16>, i: int, x: u16)
    requires 0 <= i <= s.len(),
    ensures s.insert(i, x).to_multiset() == s.to_multiset().insert(x),
{
    broadcast use vstd::seq_lib::group_to_multiset_ensures;
    let a = s.subrange(0, i);
    let b = s.subrange(i, s.len() as int);
    assert(s == a + b);
    assert(s.insert(i, x) == a.push(x) + b);
    vstd::seq_lib::lemma_multiset_commutative(a, b);
    vstd::seq_lib::lemma_multiset_commutative(a.push(x), b);
}

/// The ids of `v` in non-decreasing order (insertion sort).
pub fn sorted_ids(v: &Vec<u16>) -> (r: Vec<u16>)
    ensures sorted(r@), r@.to_multiset() == v@.to_multiset(), r@.len() == v@.len(),
{
    broadcast use vstd::seq_lib::group_to_multiset_ensures;
    let mut out: Vec<u16> = Vec::new();
    let mut i: usize = 0;
    while i < v.len()
        invariant
            i <= v@.len(), out@.len() == i, sorted(out@),
            out@.to_multiset() == v@.subrange(0, i as int).to_multiset(),
        decreases v@.len() - i,
    {
        let x = v[i];
        let mut pos: usize = 0;
        while pos < out.len() && out[pos] <= x
            invariant pos <= out@.len(), forall|k: int| 0 <= k < pos ==> out@[k] <= x,
            decreases out@.len() - pos,
        {
            pos = pos + 1;
        }
        let ghost before = out@;
        proof { lemma_insert_multiset(before, pos as int, x); }
        out.insert(pos, x);
        proof {
            assert(v@.subrange(0, i + 1) =~= v@.subrange(0, i as int).push(x));
            vstd::seq_lib::to_multiset_build(v@.subrange(0, i as int), x);
            assert(out@ == before.insert(pos as int, x));
            assert(out@.to_multiset() == v@.subrange(0, i + 1).to_multiset());
            assert forall|a: int, b: int| 0 <= a < b < out@.len() implies out@[a] <= out@[b] by {
                if b < pos {
                } else if b == pos {
                } else if a < pos {
                    assert(out@[b] == before[b - 1]);
                    if pos < before.len() {
                        assert(before[pos as int] > x);
                        assert(before[pos as int] <= before[b - 1]);
                    }
                } else if a == pos {
                    assert(before[pos as int] > x);
                    assert(before[pos as int] <= before[b - 1]);
                } else {
                    assert(out@[a] == before[a - 1]);
                    assert(out@[b] == before[b - 1]);
                }
            }
        }
        i = i + 1;
    }
    proof { assert(v@.subrange(0, v@.len() as int) =~= v@); }
    out
}


// ------------------------------------------------------- final fingerprint

/// The words a player adds to the fingerprint: TR, MC, heat, plants,
/// forests, score, then the cards in play and in hand, each list by its
/// length then its ids in increasing order.
pub open spec fn player_words(pl: &PlayerState, score: i64, played: Seq<u16>, hand: Seq<u16>) -> Seq<u64> {
    seq![pl.tr as u64, pl.mc as u64, pl.heat as u64, pl.plants as u64, pl.forests as u64, score as u64,
        played.len() as u64]
        + played.map_values(|c: u16| c as u64)
        + seq![hand.len() as u64]
        + hand.map_values(|c: u16| c as u64)
}

/// The fingerprint of a final state, the lists of cards given sorted.
pub open spec fn state_hash_spec(game: &GameState, scores: [i64; 2], p0: Seq<u16>, h0: Seq<u16>,
    p1: Seq<u16>, h1: Seq<u16>) -> u64 {
    let a = fnv_u64(FNV_OFFSET, game.generation as u64);
    let b = fnv_byte(fnv_byte(fnv_byte(a, game.temperature), game.oxygen), game.oceans_revealed);
    fnv_words(b, player_words(&game.players[0], scores[0], p0, h0) + player_words(&game.players[1], scores[1], p1, h1))
}

/// `t` is `s` in non-decreasing order.
pub open spec fn sorted_of(t: Seq<u16>, s: Seq<u16>) -> bool {
    sorted(t) && t.to_multiset() == s.to_multiset()
}

/// Two sequences in non-decreasing order with the same elements are equal.
pub proof fn lemma_sorted_unique(a: Seq<u16>, b: Seq<u16>)
    requires sorted(a), sorted(b), a.to_multiset() == b.to_multiset(),
    ensures a == b,
    decreases a.len(),
{
    broadcast use vstd::seq_lib::group_to_multiset_ensures;
    broadcast use vstd::multiset::group_multiset_axioms;
    assert(a.len() == a.to_multiset().len());
    assert(b.len() == b.to_multiset().len());
    if a.len() == 0 {
        assert(a =~= b);
    } else {
        assert(a.to_multiset().count(b[0]) > 0);
        assert(b.to_multiset().count(a[0]) > 0);
        assert(a.contains(b[0]));
        assert(b.contains(a[0]));
        let i = choose|i: int| 0 <= i < a.len() && a[i] == b[0];
        let j = choose|j: int| 0 <= j < b.len() && b[j] == a[0];
        assert(a[0] <= a[i]);
        assert(b[0] <= b[j]);
        assert(a[0] == b[0]);
        let x = a[0];
        assert(a =~= seq![x] + a.drop_first());
        assert(b =~= seq![x] + b.drop_first());
        vstd::seq_lib::lemma_multiset_commutative(seq![x], a.drop_first());
        vstd::seq_lib::lemma_multiset_commutative(seq![x], b.drop_first());
        assert(seq![x].to_multiset() =~= Multiset::singleton(x)) by {
            assert(seq![x] =~= Seq::<u16>::empty().push(x));
        }
        assert(a.drop_first().to_multiset() =~= b.drop_first().to_multiset()) by {
            let ma = a.drop_first().to_multiset();
            let mb = b.drop_first().to_multiset();
            assert(a.to_multiset() == Multiset::singleton(x).add(ma));
            assert(b.to_multiset() == Multiset::singleton(x).add(mb));
            assert forall|y: u16| ma.count(y) == mb.count(y) by {
                assert(Multiset::singleton(x).add(ma).count(y) == Multiset::singleton(x).add(mb).count(y));
            }
        }
        lemma_sorted_unique(a.drop_first(), b.drop_first());
    }
}

/// The fingerprint of a final state does not depend on the order of the
/// cards in hand or in play: two games with the same values and the same
/// cards in each hand and in play, in any order, give the same
/// fingerprint whatever sorted lists are taken.
pub proof fn lemma_hash_ignores_card_order(g1: &GameState, g2: &GameState, scores: [i64; 2],
    p0: Seq<u16>, h0: Seq<u16>, p1: Seq<u16>, h1: Seq<u16>,
    q0: Seq<u16>, k0: Seq<u16>, q1: Seq<u16>, k1: Seq<u16>)
    requires
        g1.generation == g2.generation && g1.temperature == g2.temperature,
        g1.oxygen == g2.oxygen && g1.oceans_revealed == g2.oceans_revealed,
        forall|q: int| 0 <= q < 2 ==> {
            &&& (#[trigger] g1.players[q]).tr == g2.players[q].tr && g1.players[q].mc == g2.players[q].mc
            &&& g1.players[q].heat == g2.players[q].heat && g1.players[q].plants == g2.players[q].plants
            &&& g1.players[q].forests == g2.players[q].forests
            &&& g1.players[q].played@.to_multiset() == g2.players[q].played@.to_multiset()
            &&& g1.players[q].hand@.to_multiset() == g2.players[q].hand@.to_multiset()
        },
        sorted_of(p0, g1.players[0].played@), sorted_of(h0, g1.players[0].hand@),
        sorted_of(p1, g1.players[1].played@), sorted_of(h1, g1.players[1].hand@),
        sorted_of(q0, g2.players[0].played@), sorted_of(k0, g2.players[0].hand@),
        sorted_of(q1, g2.players[1].played@), sorted_of(k1, g2.players[1].hand@),
    ensures
        state_hash_spec(g1, scores, p0, h0, p1, h1) == state_hash_spec(g2, scores, q0, k0, q1, k1),
{
    assert(g1.players[0].tr == g2.players[0].tr);
    assert(g1.players[1].tr == g2.players[1].tr);
    lemma_sorted_unique(p0, q0);
    lemma_sorted_unique(h0, k0);
    lemma_sorted_unique(p1, q1);
    lemma_sorted_unique(h1, k1);
}

/// Words into the hasher, in order.
fn write_words(h: &mut Fnv1a, w: &Vec<u64>)
    ensures final(h).0 == fnv_words(old(h).0, w@),
{
    let mut i: usize = 0;
    while i < w.len()
        invariant i <= w@.len(), h.0 == fnv_words(old(h).0, w@.subrange(0, i as int)),
        decreases w@.len() - i,
    {
        proof { assert(w@.subrange(0, i + 1).drop_last() =~= w@.subrange(0, i as int)); }
        h.write_u64(w[i]);
        i = i + 1;
    }
    proof { assert(w@.subrange(0, w@.len() as int) =~= w@); }
}

/// Appends ids as words.
fn push_ids(w: &mut Vec<u64>, ids: &Vec<u16>)
    ensures final(w)@ == old(w)@ + ids@.map_values(|c: u16| c as u64),
{
    let mut i: usize = 0;
    while i < ids.len()
        invariant i <= ids@.len(), w@ == old(w)@ + ids@.subrange(0, i as int).map_values(|c: u16| c as u64),
        decreases ids@.len() - i,
    {
        w.push(ids[i] as u64);
        proof {
            assert(ids@.subrange(0, i + 1).map_values(|c: u16| c as u64)
                =~= ids@.subrange(0, i as int).map_values(|c: u16| c as u64).push(ids@[i as int] as u64));
        }
        i = i + 1;
    }
    proof { assert(ids@.subrange(0, ids@.len() as int) =~= ids@); }
}

/// The words of one player, their card lists sorted.
fn player_words_of(pl: &PlayerState, score: i64, w: &mut Vec<u64>) -> (r: (Ghost<Seq<u16>>, Ghost<Seq<u16>>))
    ensures
        sorted_of(r.0@, pl.played@), sorted_of(r.1@, pl.hand@),
        final(w)@ == old(w)@ + player_words(pl, score, r.0@, r.1@),
{
    let played = sorted_ids(&pl.played);
    let hand = sorted_ids(&pl.hand);
    w.push(pl.tr as u64);
    w.push(pl.mc as u64);
    w.push(pl.heat as u64);
    w.push(pl.plants as u64);
    w.push(pl.forests as u64);
    w.push(score as u64);
    w.push(played.len() as u64);
    push_ids(w, &played);
    w.push(hand.len() as u64);
    push_ids(w, &hand);
    proof {
        assert(w@ =~= old(w)@ + player_words(pl, score, played@, hand@));
    }
    (Ghost(played@), Ghost(hand@))
}

/// Fingerprint of a final state: round, global parameters, and per player
/// resources, TR, forests, score, cards in play and in hand (sorted).
pub fn final_state_hash(game: &GameState, scores: &[i64; 2]) -> (r: u64)
    ensures
        exists|p0: Seq<u16>, h0: Seq<u16>, p1: Seq<u16>, h1: Seq<u16>|
            #![trigger state_hash_spec(game, *scores, p0, h0, p1, h1)]
            sorted_of(p0, game.players[0].played@) && sorted_of(h0, game.players[0].hand@)
            && sorted_of(p1, game.players[1].played@) && sorted_of(h1, game.players[1].hand@)
            && r == state_hash_spec(game, *scores, p0, h0, p1, h1),
{
    let mut h = Fnv1a::new();
    h.write_u64(game.generation as u64);
    h.write_u8(game.temperature);
    h.write_u8(game.oxygen);
    h.write_u8(game.oceans_revealed);
    let mut w: Vec<u64> = Vec::new();
    let (p0, h0) = player_words_of(&game.players[0], scores[0], &mut w);
    let (p1, h1) = player_words_of(&game.players[1], scores[1], &mut w);
    write_words(&mut h, &w);
    proof {
        assert(w@ =~= player_words(&game.players[0], scores[0], p0@, h0@)
            + player_words(&game.players[1], scores[1], p1@, h1@));
        assert(h.0 == state_hash_spec(game, *scores, p0@, h0@, p1@, h1@));
    }
    h.0
}

// ------------------------------------------------------ audited invariants

/// The values of the previous round that the audit compares with.
pub struct InvariantTracker {
    pub prev_temperature: u8,
    pub prev_oxygen: u8,
    pub prev_oceans: u8,
    pub prev_tr_increments: [u64; 2],
    pub prev_tr_decrements: [u64; 2],
    /// Know-how counts never go down (steel is never spent).
    pub prev_steel: [i64; 2],
    pub prev_titanium: [i64; 2],
}

/// The tracker of a state.
pub open spec fn tracker_of(game: &GameState) -> InvariantTracker {
    InvariantTracker {
        prev_temperature: game.temperature,
        prev_oxygen: game.oxygen,
        prev_oceans: game.oceans_revealed,
        prev_tr_increments: [game.players[0].tr_increments, game.players[1].tr_increments],
        prev_tr_decrements: [game.players[0].tr_decrements, game.players[1].tr_decrements],
        prev_steel: [game.players[0].steel_capacity, game.players[1].steel_capacity],
        prev_titanium: [game.players[0].titanium_capacity, game.players[1].titanium_capacity],
    }
}

impl InvariantTracker {
    /// The tracker of a starting state.
    pub fn new(game: &GameState) -> (r: InvariantTracker)
        ensures r == tracker_of(game),
    {
        InvariantTracker {
            prev_temperature: game.temperature,
            prev_oxygen: game.oxygen,
            prev_oceans: game.oceans_revealed,
            prev_tr_increments: [game.players[0].tr_increments, game.players[1].tr_increments],
            prev_tr_decrements: [game.players[0].tr_decrements, game.players[1].tr_decrements],
            prev_steel: [game.players[0].steel_capacity, game.players[1].steel_capacity],
            prev_titanium: [game.players[0].titanium_capacity, game.players[1].titanium_capacity],
        }
    }
}

/// What the audit found broken.
#[derive(Debug, Clone, Copy, PartialEq, Eq, Structural)]
pub enum InvariantViolation {
    /// A player holds a negative amount of MC, heat or plants.
    NegativeResource { player: usize, mc: i64, heat: i64, plants: i64 },
    /// TR is not 5 plus the steps counted up, less those counted down.
    TrMismatch { player: usize, tr: i64, increments: u64, decrements: u64 },
    NegativeTr { player: usize },
    /// A TR counter went down.
    TrCounterDecreased { player: usize },
    /// The know-how held is not the one the cards give.
    CapacityMismatch { player: usize, steel: i64, derived_steel: i64, titanium: i64, derived_titanium: i64 },
    CapacityDecreased { player: usize },
    /// A global parameter beyond its track.
    ParameterOutOfRange,
    /// A global parameter went down.
    ParameterDecreased,
    /// Piles, hands and cards in play do not hold the cards dealt.
    CardConservation { total: u128, expected: u128 },
    /// Piles and boards do not hold every corporation.
    CorporationConservation { total: u128, expected: u128 },
}

/// The first thing the audit finds broken for player `p`, if any.
pub open spec fn player_violation(game: &GameState, db: &CardsDb, t: InvariantTracker, p: int) -> Option<InvariantViolation> {
    let pl = &game.players[p];
    let caps = capacities_spec(db, pl.played@, pl.corporation);
    if pl.mc < 0 || pl.heat < 0 || pl.plants < 0 {
        Some(InvariantViolation::NegativeResource { player: p as usize, mc: pl.mc, heat: pl.heat, plants: pl.plants })
    } else if pl.tr != STARTING_TR + pl.tr_increments - pl.tr_decrements {
        Some(InvariantViolation::TrMismatch { player: p as usize, tr: pl.tr, increments: pl.tr_increments,
            decrements: pl.tr_decrements })
    } else if pl.tr < 0 {
        Some(InvariantViolation::NegativeTr { player: p as usize })
    } else if pl.tr_increments < t.prev_tr_increments[p] || pl.tr_decrements < t.prev_tr_decrements[p] {
        Some(InvariantViolation::TrCounterDecreased { player: p as usize })
    } else if pl.steel_capacity != caps.steel || pl.titanium_capacity != caps.titanium {
        Some(InvariantViolation::CapacityMismatch { player: p as usize, steel: pl.steel_capacity,
            derived_steel: caps.steel, titanium: pl.titanium_capacity, derived_titanium: caps.titanium })
    } else if pl.steel_capacity < t.prev_steel[p] || pl.titanium_capacity < t.prev_titanium[p] {
        Some(InvariantViolation::CapacityDecreased { player: p as usize })
    } else {
        None
    }
}

/// Number of players with a corporation.
pub open spec fn corps_installed(game: &GameState) -> int {
    (if game.players[0].corporation is Some { 1int } else { 0 })
        + (if game.players[1].corporation is Some { 1int } else { 0 })
}

/// The first thing the audit finds broken, if any: each player in turn,
/// then the parameters' bounds and their monotony, then the conservation
/// of project cards and of corporations.
pub open spec fn violation_spec(game: &GameState, db: &CardsDb, t: InvariantTracker) -> Option<InvariantViolation> {
    let total = game.cards_total();
    let corps = game.corp_deck@.len() + game.corp_discard@.len() + corps_installed(game);
    match player_violation(game, db, t, 0) {
        Some(v) => Some(v),
        None => match player_violation(game, db, t, 1) {
            Some(v) => Some(v),
            None => if game.temperature > TEMPERATURE_MAX || game.oxygen > OXYGEN_MAX || game.oceans_revealed > NUM_OCEANS {
                Some(InvariantViolation::ParameterOutOfRange)
            } else if game.temperature < t.prev_temperature || game.oxygen < t.prev_oxygen
                || game.oceans_revealed < t.prev_oceans {
                Some(InvariantViolation::ParameterDecreased)
            } else if total != db.deck_project_count {
                Some(InvariantViolation::CardConservation { total: total as u128, expected: db.deck_project_count as u128 })
            } else if corps != db.corporations@.len() {
                Some(InvariantViolation::CorporationConservation { total: corps as u128,
                    expected: db.corporations@.len() as u128 })
            } else {
                None
            },
        },
    }
}

/// The audit of one player.
fn check_player(game: &GameState, db: &CardsDb, t: &InvariantTracker, p: usize) -> (r: Option<InvariantViolation>)
    requires p < 2, player_ids_ok(db, &game.players[p as int]),
    ensures r == player_violation(game, db, *t, p as int),
{
    let pl = &game.players[p];
    if pl.mc < 0 || pl.heat < 0 || pl.plants < 0 {
        return Some(InvariantViolation::NegativeResource { player: p, mc: pl.mc, heat: pl.heat, plants: pl.plants });
    }
    if (pl.tr as i128) != 5i128 + (pl.tr_increments as i128) - (pl.tr_decrements as i128) {
        return Some(InvariantViolation::TrMismatch { player: p, tr: pl.tr, increments: pl.tr_increments,
            decrements: pl.tr_decrements });
    }
    if pl.tr < 0 {
        return Some(InvariantViolation::NegativeTr { player: p });
    }
    if pl.tr_increments < t.prev_tr_increments[p] || pl.tr_decrements < t.prev_tr_decrements[p] {
        return Some(InvariantViolation::TrCounterDecreased { player: p });
    }
    let caps = capacities(db, pl);
    if pl.steel_capacity != caps.steel || pl.titanium_capacity != caps.titanium {
        return Some(InvariantViolation::CapacityMismatch { player: p, steel: pl.steel_capacity,
            derived_steel: caps.steel, titanium: pl.titanium_capacity, derived_titanium: caps.titanium });
    }
    if pl.steel_capacity < t.prev_steel[p] || pl.titanium_capacity < t.prev_titanium[p] {
        return Some(InvariantViolation::CapacityDecreased { player: p });
    }
    None
}

/// The audit run after every round: resources never negative; TR equal to
/// 5 plus the steps counted up less those counted down, never negative,
/// its counters never going down; the know-how cache equal to what the
/// cards give and never going down; global parameters within their tracks
/// and never going down; piles, hands and cards in play holding the cards
/// dealt; piles and boards holding every corporation. The first violation
/// found is returned; when there is none the tracker takes the values of
/// this round.
pub fn check_invariants(game: &GameState, db: &CardsDb, tracker: &mut InvariantTracker) -> (r: Result<(), InvariantViolation>)
    requires player_ids_ok(db, &game.players[0]), player_ids_ok(db, &game.players[1]),
    ensures
        match violation_spec(game, db, *old(tracker)) {
            Some(v) => r == Err::<(), InvariantViolation>(v) && *final(tracker) == *old(tracker),
            None => r is Ok && *final(tracker) == tracker_of(game),
        },
{
    match check_player(game, db, tracker, 0) {
        Some(v) => return Err(v),
        None => {}
    }
    match check_player(game, db, tracker, 1) {
        Some(v) => return Err(v),
        None => {}
    }
    if game.temperature > TEMPERATURE_MAX || game.oxygen > OXYGEN_MAX || game.oceans_revealed > NUM_OCEANS {
        return Err(InvariantViolation::ParameterOutOfRange);
    }
    if game.temperature < tracker.prev_temperature || game.oxygen < tracker.prev_oxygen
        || game.oceans_revealed < tracker.prev_oceans {
        return Err(InvariantViolation::ParameterDecreased);
    }
    let total: u128 = game.deck.len() as u128 + game.discard.len() as u128
        + game.players[0].hand.len() as u128 + game.players[0].played.len() as u128
        + game.players[1].hand.len() as u128 + game.players[1].played.len() as u128;
    if total != db.deck_project_count as u128 {
        return Err(InvariantViolation::CardConservation { total, expected: db.deck_project_count as u128 });
    }
    let installed: u128 = (if game.players[0].corporation.is_some() { 1 } else { 0 })
        + (if game.players[1].corporation.is_some() { 1 } else { 0 });
    let corps: u128 = game.corp_deck.len() as u128 + game.corp_discard.len() as u128 + installed;
    if corps != db.corporations.len() as u128 {
        return Err(InvariantViolation::CorporationConservation { total: corps, expected: db.corporations.len() as u128 });
    }
    *tracker = InvariantTracker::new(game);
    Ok(())
}


/// The tracker holds values no greater than those of `g`.
pub open spec fn tracker_below(t: InvariantTracker, g: &GameState) -> bool {
    &&& t.prev_temperature <= g.temperature && t.prev_oxygen <= g.oxygen && t.prev_oceans <= g.oceans_revealed
    &&& forall|p: int| 0 <= p < 2 ==> {
        &&& #[trigger] t.prev_tr_increments[p] <= g.players[p].tr_increments
        &&& t.prev_tr_decrements[p] <= g.players[p].tr_decrements
    }
}

/// Project cards and corporations are all where the audit counts them.
pub open spec fn conserved(g: &GameState, db: &CardsDb) -> bool {
    &&& g.cards_total() == db.deck_project_count
    &&& g.corp_deck@.len() + g.corp_discard@.len() + corps_installed(g) == db.corporations@.len()
}

/// A round keeps what the audit checks: the TR equal to 5 plus the steps
/// counted up less those counted down and never negative, its counters
/// never going down, the know-how cache equal to what the cards give, the
/// global parameters within their tracks and never going down, every
/// project card and every corporation accounted for. What the engine does
/// not guarantee by itself is left out: that MC, heat and plants stay
/// non-negative, and that the know-how never goes down.
pub proof fn lemma_round_keeps_audit(before: &GameState, after: &GameState, db: &CardsDb, t: InvariantTracker)
    requires
        before.inv(db), after.inv(db), round_progress(after, before),
        tracker_below(t, before), conserved(before, db),
    ensures
        conserved(after, db),
        tracker_below(t, after),
        match violation_spec(after, db, t) {
            None => true,
            Some(v) => v is NegativeResource || v is CapacityDecreased,
        },
{
    assert(after.players[0].corporation == before.players[0].corporation);
    assert(after.players[1].corporation == before.players[1].corporation);
    assert(after.players[0].tr_increments >= before.players[0].tr_increments);
    assert(after.players[1].tr_increments >= before.players[1].tr_increments);
    assert(after.players[0].tr_decrements >= before.players[0].tr_decrements);
    assert(after.players[1].tr_decrements >= before.players[1].tr_decrements);
    assert(t.prev_tr_increments[0] <= before.players[0].tr_increments);
    assert(t.prev_tr_increments[1] <= before.players[1].tr_increments);
    assert(t.prev_tr_decrements[0] <= before.players[0].tr_decrements);
    assert(t.prev_tr_decrements[1] <= before.players[1].tr_decrements);
}

// ---------------------------------------------------------------- a game

/// What a whole game gives.
pub struct GameOutcome {
    pub completed: bool,
    pub generations: u32,
    pub scores: [i64; 2],
    pub violations: u64,
    pub state_hash: u64,
    /// Blue-card activations that applied an effect.
    pub blue_actions: u64,
    /// First player of every round really played.
    pub turn_order: Vec<u8>,
    /// Alternations observed in `turn_order`.
    pub turn_order_switches: u64,
    pub prereq_snapshot_blocks: u64,
    pub draw_before_build: u64,
    pub draw_after_build: u64,
    pub discard_payments: u64,
    /// A tie on points (no tie-breaker: a tie stays a tie).
    pub draw: bool,
    pub res_added: u64,
    pub res_removed: u64,
    pub res_targets_missing: u64,
    pub phase_upgrades_skipped: u64,
    pub phase_upgrades_granted: u64,
    pub phase_upgrades_reupgraded: u64,
    pub upgraded_bonus_applied: u64,
    pub upgraded_extra_builds: u64,
    /// Points given by the Visionary award alone, both players.
    pub visionary_award_points: i64,
    pub cards_effects_unhandled: u64,
    /// Points from resources on cards, both players.
    pub vp_from_resources: i64,
    pub derived_mc: u64,
    pub derived_heat: u64,
    pub derived_plants: u64,
    pub tr_from_tags: u64,
    pub research_extra_draws: u64,
    pub extra_builds_granted: u64,
    pub extra_builds_used: u64,
    pub free_builds: u64,
    pub next_card_mods_armed: u64,
    pub next_card_mods_used: u64,
    pub corp_heat_as_mc: u64,
    pub corp_forest_rebates: u64,
    pub corp_tr_boosts: u64,
    pub corp_trigger_tr: u64,
    pub action_phase_bonuses: u64,
    pub action_discard_costs: u64,
    pub draw_discard_discards: u64,
    pub cards_revealed: u64,
    pub standard_action_discounts: u64,
    pub action_mc_bonuses: u64,
}

/// A copy of a list of bytes.
fn copy_bytes(v: &Vec<u8>) -> (r: Vec<u8>)
    ensures r@ == v@,
{
    let mut out: Vec<u8> = Vec::new();
    let mut i: usize = 0;
    while i < v.len()
        invariant i <= v@.len(), out@ == v@.subrange(0, i as int),
        decreases v@.len() - i,
    {
        out.push(v[i]);
        proof { assert(v@.subrange(0, i + 1) =~= v@.subrange(0, i as int).push(v@[i as int])); }
        i = i + 1;
    }
    proof { assert(v@.subrange(0, v@.len() as int) =~= v@); }
    out
}

/// `out` reports the final state `g` of a game: a valid state that kept
/// every card and corporation, whose scores, points, turn order,
/// fingerprint and counters `out` copies; a completed game ended with the
/// three global parameters at their maximum.
pub open spec fn outcome_of(g: GameState, db: &CardsDb, out: GameOutcome) -> bool {
    &&& g.inv(db)
    &&& g.cards_total() == in_deck_count(db)
    &&& g.corp_deck@.len() + g.corp_discard@.len() + 2 == db.corporations@.len()
    &&& out.completed == g.game_over
    &&& out.generations == g.generation
    &&& g.game_over ==> g.temperature == TEMPERATURE_MAX && g.oxygen == OXYGEN_MAX && g.oceans_revealed == NUM_OCEANS
    &&& out.scores[0] == total_spec(breakdown_spec(&g, db, 0))
    &&& out.scores[1] == total_spec(breakdown_spec(&g, db, 1))
    &&& out.vp_from_resources == vp_from_resources_spec(&g, db)
    &&& out.visionary_award_points == award_points_upto(&g, 3).2
    &&& out.turn_order@ == g.turn_order@
    &&& out.turn_order_switches == g.switches_upto(g.turn_order@.len() as int)
    &&& exists|p0: Seq<u16>, h0: Seq<u16>, p1: Seq<u16>, h1: Seq<u16>|
        #![trigger state_hash_spec(&g, out.scores, p0, h0, p1, h1)]
        sorted_of(p0, g.players[0].played@) && sorted_of(h0, g.players[0].hand@)
        && sorted_of(p1, g.players[1].played@) && sorted_of(h1, g.players[1].hand@)
        && out.state_hash == state_hash_spec(&g, out.scores, p0, h0, p1, h1)
    &&& out.blue_actions == g.blue_actions
    &&& out.prereq_snapshot_blocks == g.prereq_snapshot_blocks
    &&& out.draw_before_build == g.draw_before_build
    &&& out.draw_after_build == g.draw_after_build
    &&& out.discard_payments == g.discard_payments
    &&& out.res_added == g.res_added && out.res_removed == g.res_removed
    &&& out.res_targets_missing == g.res_targets_missing
    &&& out.phase_upgrades_skipped == g.phase_upgrades_skipped
    &&& out.phase_upgrades_granted == g.phase_upgrades_granted
    &&& out.phase_upgrades_reupgraded == g.phase_upgrades_reupgraded
    &&& out.upgraded_bonus_applied == g.upgraded_bonus_applied
    &&& out.upgraded_extra_builds == g.upgraded_extra_builds
    &&& out.cards_effects_unhandled == g.cards_effects_unhandled
    &&& out.derived_mc == g.derived_mc && out.derived_heat == g.derived_heat
    &&& out.derived_plants == g.derived_plants
    &&& out.tr_from_tags == g.tr_from_tags
    &&& out.research_extra_draws == g.research_extra_draws
    &&& out.extra_builds_granted == g.extra_builds_granted
    &&& out.extra_builds_used == g.extra_builds_used
    &&& out.free_builds == g.free_builds
    &&& out.next_card_mods_armed == g.next_card_mods_armed
    &&& out.next_card_mods_used == g.next_card_mods_used
    &&& out.corp_heat_as_mc == g.corp_heat_as_mc
    &&& out.corp_forest_rebates == g.corp_forest_rebates
    &&& out.corp_tr_boosts == g.corp_tr_boosts
    &&& out.corp_trigger_tr == g.corp_trigger_tr
    &&& out.action_phase_bonuses == g.action_phase_bonuses
    &&& out.action_discard_costs == g.action_discard_costs
    &&& out.draw_discard_discards == g.draw_discard_discards
    &&& out.cards_revealed == g.cards_revealed
    &&& out.standard_action_discounts == g.standard_action_discounts
    &&& out.action_mc_bonuses == g.action_mc_bonuses
}

/// `out` reports the final state of some game (see `outcome_of`).
pub open spec fn is_outcome(db: &CardsDb, out: GameOutcome) -> bool {
    exists|g: GameState| #[trigger] outcome_of(g, db, out)
}

/// Plays a whole game under `policy`, the audit run after every round. A
/// game stopped by the cap on generations is not completed.
pub fn play_game<P: Policy>(db: &CardsDb, seed: u64, policy: &mut P) -> (r: GameOutcome)
    requires db_ok(db), db.corporations@.len() >= 8,
    ensures
        r.completed ==> r.generations <= MAX_GENERATIONS,
        !r.completed ==> r.generations == MAX_GENERATIONS + 1,
        r.draw == (r.scores[0] == r.scores[1]),
        r.turn_order@.len() == (if r.completed { r.generations as int } else { MAX_GENERATIONS as int }),
        is_outcome(db, r),
        r.violations <= r.turn_order@.len(),
{
    let mut game = setup_game(db, seed, policy);
    let mut tracker = InvariantTracker::new(&game);
    let mut violations: u64 = 0;
    while !game.game_over && game.generation <= MAX_GENERATIONS
        invariant
            game.inv(db), 1 <= game.generation <= MAX_GENERATIONS + 1,
            game.game_over ==> game.generation <= MAX_GENERATIONS,
            game.turn_order@.len() == (if game.game_over { game.generation as int } else { game.generation - 1 }),
            game.cards_total() == in_deck_count(db),
            game.corp_deck@.len() + game.corp_discard@.len() + 2 == db.corporations@.len(),
            violations <= game.turn_order@.len(),
            game.game_over ==> game.temperature == TEMPERATURE_MAX && game.oxygen == OXYGEN_MAX
                && game.oceans_revealed == NUM_OCEANS,
        decreases (MAX_GENERATIONS + 2 - game.generation) * 2 + (if game.game_over { 0int } else { 1int }),
    {
        play_round(&mut game, db, policy);
        match check_invariants(&game, db, &mut tracker) {
            Err(_) => violations = count(violations, 1),
            Ok(()) => {}
        }
    }
    let (scores, vp_from_resources, visionary_award_points) = score_parts(&game, db);
    let state_hash = final_state_hash(&game, &scores);
    let out = GameOutcome {
        completed: game.game_over,
        generations: game.generation,
        scores,
        violations,
        state_hash,
        blue_actions: game.blue_actions,
        turn_order_switches: game.turn_order_switches(),
        turn_order: copy_bytes(&game.turn_order),
        prereq_snapshot_blocks: game.prereq_snapshot_blocks,
        draw_before_build: game.draw_before_build,
        draw_after_build: game.draw_after_build,
        discard_payments: game.discard_payments,
        draw: scores[0] == scores[1],
        res_added: game.res_added,
        res_removed: game.res_removed,
        res_targets_missing: game.res_targets_missing,
        phase_upgrades_skipped: game.phase_upgrades_skipped,
        phase_upgrades_granted: game.phase_upgrades_granted,
        phase_upgrades_reupgraded: game.phase_upgrades_reupgraded,
        upgraded_bonus_applied: game.upgraded_bonus_applied,
        upgraded_extra_builds: game.upgraded_extra_builds,
        visionary_award_points,
        cards_effects_unhandled: game.cards_effects_unhandled,
        vp_from_resources,
        derived_mc: game.derived_mc,
        derived_heat: game.derived_heat,
        derived_plants: game.derived_plants,
        tr_from_tags: game.tr_from_tags,
        research_extra_draws: game.research_extra_draws,
        extra_builds_granted: game.extra_builds_granted,
        extra_builds_used: game.extra_builds_used,
        free_builds: game.free_builds,
        next_card_mods_armed: game.next_card_mods_armed,
        next_card_mods_used: game.next_card_mods_used,
        corp_heat_as_mc: game.corp_heat_as_mc,
        corp_forest_rebates: game.corp_forest_rebates,
        corp_tr_boosts: game.corp_tr_boosts,
        corp_trigger_tr: game.corp_trigger_tr,
        action_phase_bonuses: game.action_phase_bonuses,
        action_discard_costs: game.action_discard_costs,
        draw_discard_discards: game.draw_discard_discards,
        cards_revealed: game.cards_revealed,
        standard_action_discounts: game.standard_action_discounts,
        action_mc_bonuses: game.action_mc_bonuses,
    };
    proof {
        assert(outcome_of(game, db, out));
    }
    out
}

// ----------------------------------------------------------- many games

/// Totals over a series of games (sums, counts, the fingerprint of the
/// series); averages and rates are computed from them.
pub struct SimTotals {
    pub games: u64,
    pub completed: u64,
    pub truncated: u64,
    pub invariant_violations: u64,
    pub sum_generations: u64,
    pub sum_score_p1: i64,
    pub sum_score_p2: i64,
    /// Fingerprint of the series: FNV-1a over each game's fingerprint.
    pub state_hash: u64,
    pub blue_actions: u64,
    /// The turn order really played, one list per game, in order.
    pub turn_orders: Vec<Vec<u8>>,
    pub turn_order_switches: u64,
    pub prereq_snapshot_blocks: u64,
    pub draw_before_build: u64,
    pub draw_after_build: u64,
    pub discard_payments: u64,
    /// Games ended on a tie.
    pub draws: u64,
    pub res_added: u64,
    pub res_removed: u64,
    pub res_targets_missing: u64,
    pub phase_upgrades_skipped: u64,
    pub phase_upgrades_granted: u64,
    pub phase_upgrades_reupgraded: u64,
    pub upgraded_bonus_applied: u64,
    pub upgraded_extra_builds: u64,
    pub visionary_award_points: i64,
    pub cards_effects_unhandled: u64,
    pub vp_from_resources: i64,
    pub derived_mc: u64,
    pub derived_heat: u64,
    pub derived_plants: u64,
    pub tr_from_tags: u64,
    pub research_extra_draws: u64,
    pub extra_builds_granted: u64,
    pub extra_builds_used: u64,
    pub free_builds: u64,
    pub next_card_mods_armed: u64,
    pub next_card_mods_used: u64,
    pub corp_heat_as_mc: u64,
    pub corp_forest_rebates: u64,
    pub corp_tr_boosts: u64,
    pub corp_trigger_tr: u64,
    pub action_phase_bonuses: u64,
    pub action_discard_costs: u64,
    pub draw_discard_discards: u64,
    pub cards_revealed: u64,
    pub standard_action_discounts: u64,
    pub action_mc_bonuses: u64,
}

impl SimTotals {
    /// Totals of no game.
    pub fn new() -> (r: SimTotals)
        ensures
            r.games == 0 && r.completed == 0 && r.truncated == 0 && r.invariant_violations == 0,
            r.sum_generations == 0 && r.sum_score_p1 == 0 && r.sum_score_p2 == 0,
            r.state_hash == FNV_OFFSET, r.turn_orders@.len() == 0, r.draws == 0,
    {
        SimTotals {
            games: 0, completed: 0, truncated: 0, invariant_violations: 0, sum_generations: 0,
            sum_score_p1: 0, sum_score_p2: 0, state_hash: FNV_OFFSET, blue_actions: 0,
            turn_orders: Vec::new(), turn_order_switches: 0, prereq_snapshot_blocks: 0,
            draw_before_build: 0, draw_after_build: 0, discard_payments: 0, draws: 0,
            res_added: 0, res_removed: 0, res_targets_missing: 0, phase_upgrades_skipped: 0,
            phase_upgrades_granted: 0, phase_upgrades_reupgraded: 0, upgraded_bonus_applied: 0,
            upgraded_extra_builds: 0, visionary_award_points: 0, cards_effects_unhandled: 0,
            vp_from_resources: 0, derived_mc: 0, derived_heat: 0, derived_plants: 0, tr_from_tags: 0,
            research_extra_draws: 0, extra_builds_granted: 0, extra_builds_used: 0, free_builds: 0,
            next_card_mods_armed: 0, next_card_mods_used: 0, corp_heat_as_mc: 0, corp_forest_rebates: 0,
            corp_tr_boosts: 0, corp_trigger_tr: 0, action_phase_bonuses: 0, action_discard_costs: 0,
            draw_discard_discards: 0, cards_revealed: 0, standard_action_discounts: 0, action_mc_bonuses: 0,
        }
    }

    /// Adds one game: counts, sums (held at the machine limits), its turn
    /// order appended, its fingerprint folded into the series'.
    pub fn add(&mut self, out: GameOutcome)
        ensures
            final(self).games == clamp_u64(old(self).games + 1),
            final(self).completed == clamp_u64(old(self).completed + if out.completed { 1int } else { 0 }),
            final(self).truncated == clamp_u64(old(self).truncated + if out.completed { 0int } else { 1 }),
            final(self).invariant_violations == clamp_u64(old(self).invariant_violations + out.violations),
            final(self).sum_generations == clamp_u64(old(self).sum_generations + out.generations),
            final(self).sum_score_p1 == clamp64(old(self).sum_score_p1 + out.scores[0]),
            final(self).sum_score_p2 == clamp64(old(self).sum_score_p2 + out.scores[1]),
            final(self).state_hash == fnv_u64(old(self).state_hash, out.state_hash),
            final(self).turn_orders@ == old(self).turn_orders@.push(out.turn_order),
            final(self).draws == clamp_u64(old(self).draws + if out.draw { 1int } else { 0 }),
            final(self).blue_actions == clamp_u64(old(self).blue_actions + out.blue_actions),
            final(self).visionary_award_points == clamp64(old(self).visionary_award_points + out.visionary_award_points),
            final(self).vp_from_resources == clamp64(old(self).vp_from_resources + out.vp_from_resources),
    {
        self.games = count(self.games, 1);
        if out.completed {
            self.completed = count(self.completed, 1);
        } else {
            self.truncated = count(self.truncated, 1);
        }
        self.invariant_violations = count(self.invariant_violations, out.violations);
        self.sum_generations = count(self.sum_generations, out.generations as u64);
        self.sum_score_p1 = plus(self.sum_score_p1, out.scores[0]);
        self.sum_score_p2 = plus(self.sum_score_p2, out.scores[1]);
        self.blue_actions = count(self.blue_actions, out.blue_actions);
        self.turn_order_switches = count(self.turn_order_switches, out.turn_order_switches);
        self.prereq_snapshot_blocks = count(self.prereq_snapshot_blocks, out.prereq_snapshot_blocks);
        self.draw_before_build = count(self.draw_before_build, out.draw_before_build);
        self.draw_after_build = count(self.draw_after_build, out.draw_after_build);
        self.discard_payments = count(self.discard_payments, out.discard_payments);
        if out.draw {
            self.draws = count(self.draws, 1);
        }
        self.res_added = count(self.res_added, out.res_added);
        self.res_removed = count(self.res_removed, out.res_removed);
        self.res_targets_missing = count(self.res_targets_missing, out.res_targets_missing);
        self.phase_upgrades_skipped = count(self.phase_upgrades_skipped, out.phase_upgrades_skipped);
        self.phase_upgrades_granted = count(self.phase_upgrades_granted, out.phase_upgrades_granted);
        self.phase_upgrades_reupgraded = count(self.phase_upgrades_reupgraded, out.phase_upgrades_reupgraded);
        self.upgraded_bonus_applied = count(self.upgraded_bonus_applied, out.upgraded_bonus_applied);
        self.upgraded_extra_builds = count(self.upgraded_extra_builds, out.upgraded_extra_builds);
        self.visionary_award_points = plus(self.visionary_award_points, out.visionary_award_points);
        self.cards_effects_unhandled = count(self.cards_effects_unhandled, out.cards_effects_unhandled);
        self.vp_from_resources = plus(self.vp_from_resources, out.vp_from_resources);
        self.derived_mc = count(self.derived_mc, out.derived_mc);
        self.derived_heat = count(self.derived_heat, out.derived_heat);
        self.derived_plants = count(self.derived_plants, out.derived_plants);
        self.tr_from_tags = count(self.tr_from_tags, out.tr_from_tags);
        self.research_extra_draws = count(self.research_extra_draws, out.research_extra_draws);
        self.extra_builds_granted = count(self.extra_builds_granted, out.extra_builds_granted);
        self.extra_builds_used = count(self.extra_builds_used, out.extra_builds_used);
        self.free_builds = count(self.free_builds, out.free_builds);
        self.next_card_mods_armed = count(self.next_card_mods_armed, out.next_card_mods_armed);
        self.next_card_mods_used = count(self.next_card_mods_used, out.next_card_mods_used);
        self.corp_heat_as_mc = count(self.corp_heat_as_mc, out.corp_heat_as_mc);
        self.corp_forest_rebates = count(self.corp_forest_rebates, out.corp_forest_rebates);
        self.corp_tr_boosts = count(self.corp_tr_boosts, out.corp_tr_boosts);
        self.corp_trigger_tr = count(self.corp_trigger_tr, out.corp_trigger_tr);
        self.action_phase_bonuses = count(self.action_phase_bonuses, out.action_phase_bonuses);
        self.action_discard_costs = count(self.action_discard_costs, out.action_discard_costs);
        self.draw_discard_discards = count(self.draw_discard_discards, out.draw_discard_discards);
        self.cards_revealed = count(self.cards_revealed, out.cards_revealed);
        self.standard_action_discounts = count(self.standard_action_discounts, out.standard_action_discounts);
        self.action_mc_bonuses = count(self.action_mc_bonuses, out.action_mc_bonuses);
        let mut h = Fnv1a(self.state_hash);
        h.write_u64(out.state_hash);
        self.state_hash = h.0;
        self.turn_orders.push(out.turn_order);
    }
}

/// A running count held at the top of `u64`, as `SimTotals::add` keeps it.
pub open spec fn sum_u64(xs: Seq<int>) -> int
    decreases xs.len(),
{
    if xs.len() == 0 { 0 } else { clamp_u64(sum_u64(xs.drop_last()) + xs.last()) }
}

/// A running sum held to the range of `i64`.
pub open spec fn sum_i64(xs: Seq<int>) -> int
    decreases xs.len(),
{
    if xs.len() == 0 { 0 } else { clamp64(sum_i64(xs.drop_last()) + xs.last()) }
}

/// `totals` sums the series `outs`, in order: the number of games, of
/// completed, truncated and tied ones, the failed audits, the generations,
/// each player's points, the fingerprint of the series and the turn orders.
pub open spec fn totals_of(totals: SimTotals, outs: Seq<GameOutcome>) -> bool {
    &&& totals.games == outs.len()
    &&& totals.completed == sum_u64(outs.map_values(|o: GameOutcome| if o.completed { 1int } else { 0 }))
    &&& totals.truncated == sum_u64(outs.map_values(|o: GameOutcome| if o.completed { 0int } else { 1 }))
    &&& totals.draws == sum_u64(outs.map_values(|o: GameOutcome| if o.draw { 1int } else { 0 }))
    &&& totals.invariant_violations == sum_u64(outs.map_values(|o: GameOutcome| o.violations as int))
    &&& totals.sum_generations == sum_u64(outs.map_values(|o: GameOutcome| o.generations as int))
    &&& totals.sum_score_p1 == sum_i64(outs.map_values(|o: GameOutcome| o.scores[0] as int))
    &&& totals.sum_score_p2 == sum_i64(outs.map_values(|o: GameOutcome| o.scores[1] as int))
    &&& totals.state_hash == fnv_words(FNV_OFFSET, outs.map_values(|o: GameOutcome| o.state_hash))
    &&& totals.turn_orders@.len() == outs.len()
    &&& forall|i: int| 0 <= i < outs.len() ==> (#[trigger] totals.turn_orders@[i])@ == outs[i].turn_order@
}

/// One more game keeps `totals_of`.
proof fn lemma_totals_push(t0: SimTotals, t1: SimTotals, outs: Seq<GameOutcome>, out: GameOutcome)
    requires
        totals_of(t0, outs),
        outs.len() < u64::MAX,
        t1.games == clamp_u64(t0.games + 1),
        t1.completed == clamp_u64(t0.completed + if out.completed { 1int } else { 0 }),
        t1.truncated == clamp_u64(t0.truncated + if out.completed { 0int } else { 1 }),
        t1.draws == clamp_u64(t0.draws + if out.draw { 1int } else { 0 }),
        t1.invariant_violations == clamp_u64(t0.invariant_violations + out.violations),
        t1.sum_generations == clamp_u64(t0.sum_generations + out.generations),
        t1.sum_score_p1 == clamp64(t0.sum_score_p1 + out.scores[0]),
        t1.sum_score_p2 == clamp64(t0.sum_score_p2 + out.scores[1]),
        t1.state_hash == fnv_u64(t0.state_hash, out.state_hash),
        t1.turn_orders@ == t0.turn_orders@.push(out.turn_order),
    ensures totals_of(t1, outs.push(out)),
{
    let o2 = outs.push(out);
    let f1 = |o: GameOutcome| if o.completed { 1int } else { 0 };
    let f2 = |o: GameOutcome| if o.completed { 0int } else { 1 };
    let f3 = |o: GameOutcome| if o.draw { 1int } else { 0 };
    let f4 = |o: GameOutcome| o.violations as int;
    let f5 = |o: GameOutcome| o.generations as int;
    let f6 = |o: GameOutcome| o.scores[0] as int;
    let f7 = |o: GameOutcome| o.scores[1] as int;
    let f8 = |o: GameOutcome| o.state_hash;
    assert(o2.map_values(f1).drop_last() =~= outs.map_values(f1));
    assert(o2.map_values(f2).drop_last() =~= outs.map_values(f2));
    assert(o2.map_values(f3).drop_last() =~= outs.map_values(f3));
    assert(o2.map_values(f4).drop_last() =~= outs.map_values(f4));
    assert(o2.map_values(f5).drop_last() =~= outs.map_values(f5));
    assert(o2.map_values(f6).drop_last() =~= outs.map_values(f6));
    assert(o2.map_values(f7).drop_last() =~= outs.map_values(f7));
    assert(o2.map_values(f8).drop_last() =~= outs.map_values(f8));
    assert forall|i: int| 0 <= i < o2.len() implies (#[trigger] t1.turn_orders@[i])@ == o2[i].turn_order@ by {
        if i < outs.len() {
            assert(t1.turn_orders@[i] == t0.turn_orders@[i]);
        }
    }
}

/// Plays `games` games; one master generator seeded by `seed` draws the
/// seed of every game, in order.
pub fn run_simulation<P: Policy>(db: &CardsDb, games: u64, seed: u64, policy: &mut P) -> (r: SimTotals)
    requires db_ok(db), db.corporations@.len() >= 8,
    ensures
        r.games == games,
        r.completed + r.truncated == games,
        r.turn_orders@.len() == games,
        exists|outs: Seq<GameOutcome>| #![trigger totals_of(r, outs)]
            outs.len() == games && totals_of(r, outs)
            && forall|i: int| 0 <= i < outs.len() ==> is_outcome(db, #[trigger] outs[i]),
{
    let mut master = seeded(seed);
    let mut totals = SimTotals::new();
    let ghost mut outs: Seq<GameOutcome> = Seq::empty();
    proof {
        assert(outs.map_values(|o: GameOutcome| if o.completed { 1int } else { 0 }) =~= Seq::<int>::empty());
        assert(outs.map_values(|o: GameOutcome| if o.completed { 0int } else { 1 }) =~= Seq::<int>::empty());
        assert(outs.map_values(|o: GameOutcome| if o.draw { 1int } else { 0 }) =~= Seq::<int>::empty());
        assert(outs.map_values(|o: GameOutcome| o.violations as int) =~= Seq::<int>::empty());
        assert(outs.map_values(|o: GameOutcome| o.generations as int) =~= Seq::<int>::empty());
        assert(outs.map_values(|o: GameOutcome| o.scores[0] as int) =~= Seq::<int>::empty());
        assert(outs.map_values(|o: GameOutcome| o.scores[1] as int) =~= Seq::<int>::empty());
        assert(outs.map_values(|o: GameOutcome| o.state_hash) =~= Seq::<u64>::empty());
    }
    let mut g: u64 = 0;
    while g < games
        invariant
            db_ok(db), db.corporations@.len() >= 8, g <= games,
            totals.games == g, totals.completed + totals.truncated == g, totals.turn_orders@.len() == g,
            outs.len() == g, totals_of(totals, outs),
            forall|i: int| 0 <= i < outs.len() ==> is_outcome(db, #[trigger] outs[i]),
        decreases games - g,
    {
        let game_seed = next_u64(&mut master);
        let out = play_game(db, game_seed, policy);
        let ghost t0 = totals;
        totals.add(out);
        proof {
            lemma_totals_push(t0, totals, outs, out);
            outs = outs.push(out);
        }
        g = g + 1;
    }
    totals
}

} // verus!
