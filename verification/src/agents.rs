//! What the players built on the engine share: the seed mixer of the
//! trial replays, what a replay has already seen, the cards of a hand as a
//! player sees them, the record of one observed decision, the policy that
//! always answers the first option, the reading of labels, and the labels
//! of the Action phase's options.

use vstd::prelude::*;
use vstd::string::StringExecFns;
use rand::rngs::StdRng;
use crate::cards::CardsDb;
use crate::policy::{ActionOpt, ConstructionBonus, Policy, distinct_below};
use crate::state::{GameState, OceanTile, PlayerState};
use crate::rng::{seeded, between, upto};
use crate::turn::{drawn_from, lemma_swap_multiset};

verus! {

// ----------------------------------------------------------- seed mixer

/// The `splitmix64` mixer.
pub open spec fn brasser_spec(x: u64) -> u64 {
    let x1 = x.wrapping_add(0x9E37_79B9_7F4A_7C15);
    let z1 = (x1 ^ (x1 >> 30u64)).wrapping_mul(0xBF58_476D_1CE4_E5B9);
    let z2 = (z1 ^ (z1 >> 27u64)).wrapping_mul(0x94D0_49BB_1331_11EB);
    z2 ^ (z2 >> 31u64)
}

/// The `splitmix64` mixer: turns a counter into a seed without structure.
/// Deterministic, so replays are exact to the last bit.
pub fn brasser(x: u64) -> (r: u64)
    ensures r == brasser_spec(x),
{
    let x1 = x.wrapping_add(0x9E37_79B9_7F4A_7C15);
    let mut z = x1;
    z = (z ^ (z >> 30u64)).wrapping_mul(0xBF58_476D_1CE4_E5B9);
    z = (z ^ (z >> 27u64)).wrapping_mul(0x94D0_49BB_1331_11EB);
    z ^ (z >> 31u64)
}

/// What a trial replay has already brought out since its restart point,
/// and a reshuffle must leave alone.
#[derive(Debug, Clone, Copy, PartialEq, Eq, Structural)]
pub struct DejaVu {
    /// Cards already drawn (the top of the pile).
    pub cartes: usize,
    /// Ocean tiles already flipped.
    pub oceans: usize,
    /// Corporations already dealt (the top of their pile).
    pub corpos: usize,
}

impl DejaVu {
    /// Nothing has come out yet: everything is reshuffled.
    pub fn rien() -> (r: DejaVu)
        ensures r.cartes == 0 && r.oceans == 0 && r.corpos == 0,
    {
        DejaVu { cartes: 0, oceans: 0, corpos: 0 }
    }
}

/// A card of my hand as the view of the state publishes it: its price and
/// whether it is green.
#[derive(Debug, Clone, Copy, PartialEq, Eq, Structural)]
pub struct CarteDeMain {
    pub prix: i64,
    pub verte: bool,
}

// --------------------------------------------------------------- selling

/// A card that cannot be paid is put up for sale only from this price on.
pub const PRIX_VENTE_MINI: i64 = 10;

/// Selling never leaves fewer cards than this in hand.
pub const GARDE_MINI: usize = 4;

/// Is card `i` of the hand one to sell: not payable, at least `PRIX_VENTE_MINI`?
pub open spec fn a_vendre(main: Seq<CarteDeMain>, payable: Seq<bool>, i: int) -> bool {
    !payable[i] && main[i].prix >= PRIX_VENTE_MINI
}

/// Does candidate `j` come before candidate `i`: dearer, or as dear with a
/// smaller index?
pub open spec fn passe_avant(main: Seq<CarteDeMain>, j: int, i: int) -> bool {
    main[j].prix > main[i].prix || (main[j].prix == main[i].prix && j < i)
}

/// Number of candidates among the first `n` that come before card `i`.
pub open spec fn rang(main: Seq<CarteDeMain>, payable: Seq<bool>, i: int, n: int) -> nat
    decreases n,
{
    if n <= 0 {
        0
    } else {
        rang(main, payable, i, n - 1)
            + if a_vendre(main, payable, n - 1) && passe_avant(main, n - 1, i) { 1nat } else { 0nat }
    }
}

/// Number of candidates among the first `n` cards.
pub open spec fn nb_candidates(main: Seq<CarteDeMain>, payable: Seq<bool>, n: int) -> nat
    decreases n,
{
    if n <= 0 { 0 } else { nb_candidates(main, payable, n - 1) + if a_vendre(main, payable, n - 1) { 1nat } else { 0nat } }
}

/// How many cards are sold: all the candidates, but never below
/// `GARDE_MINI` cards left in hand.
pub open spec fn nb_vendues(main: Seq<CarteDeMain>, payable: Seq<bool>) -> int {
    let room: int = if main.len() > GARDE_MINI { main.len() - GARDE_MINI } else { 0 };
    let c = nb_candidates(main, payable, main.len() as int) as int;
    if c < room { c } else { room }
}

/// Is card `i` sold: a candidate among the `nb_vendues` first ones, the
/// dearest first (at equal price, the smaller index)?
pub open spec fn vendue(main: Seq<CarteDeMain>, payable: Seq<bool>, i: int) -> bool {
    a_vendre(main, payable, i) && rang(main, payable, i, main.len() as int) < nb_vendues(main, payable)
}

/// Candidates counted before `i` in `[0, n)`.
fn rang_de(main: &[CarteDeMain], payable: &[bool], i: usize) -> (r: usize)
    requires i < main@.len(), main@.len() <= payable@.len(),
    ensures r == rang(main@, payable@, i as int, main@.len() as int),
{
    let mut r: usize = 0;
    let mut k: usize = 0;
    while k < main.len()
        invariant
            k <= main@.len(), main@.len() <= payable@.len(), i < main@.len(), r <= k,
            r == rang(main@, payable@, i as int, k as int),
        decreases main@.len() - k,
    {
        if !payable[k] && main[k].prix >= PRIX_VENTE_MINI
            && (main[k].prix > main[i].prix || (main[k].prix == main[i].prix && k < i)) {
            r = r + 1;
        }
        k = k + 1;
    }
    r
}

/// The sale of a player who cannot pay: the cards they cannot pay that
/// cost at least `PRIX_VENTE_MINI`, the dearest first (at equal price, the
/// first in hand), as long as more than `GARDE_MINI` cards stay in hand.
/// The indices sold, in increasing order; none when nothing is sold.
pub fn vente_eventuelle(main: &[CarteDeMain], payable: &[bool]) -> (r: Vec<usize>)
    requires main@.len() <= payable@.len(),
    ensures
        forall|k: int| 0 <= k < r@.len() ==> (#[trigger] r@[k] as int) < main@.len(),
        forall|k: int, l: int| 0 <= k < l < r@.len() ==> r@[k] < r@[l],
        forall|i: int| 0 <= i < main@.len() ==> (r@.contains(i as usize) <==> #[trigger] vendue(main@, payable@, i)),
{
    let n = main.len();
    let mut c: usize = 0;
    let mut k: usize = 0;
    while k < n
        invariant
            k <= n, n == main@.len(), n <= payable@.len(), c <= k,
            c == nb_candidates(main@, payable@, k as int),
        decreases n - k,
    {
        if !payable[k] && main[k].prix >= PRIX_VENTE_MINI {
            c = c + 1;
        }
        k = k + 1;
    }
    let room: usize = if n > GARDE_MINI { n - GARDE_MINI } else { 0 };
    let quota: usize = if c < room { c } else { room };
    let mut out: Vec<usize> = Vec::new();
    let mut i: usize = 0;
    while i < n
        invariant
            i <= n, n == main@.len(), n <= payable@.len(), quota == nb_vendues(main@, payable@),
            forall|k: int| 0 <= k < out@.len() ==> (#[trigger] out@[k] as int) < i,
            forall|k: int, l: int| 0 <= k < l < out@.len() ==> out@[k] < out@[l],
            forall|j: int| 0 <= j < i ==> (out@.contains(j as usize) <==> #[trigger] vendue(main@, payable@, j)),
        decreases n - i,
    {
        let ghost before = out@;
        if !payable[i] && main[i].prix >= PRIX_VENTE_MINI && rang_de(main, payable, i) < quota {
            out.push(i);
        }
        proof {
            assert forall|j: int| 0 <= j < i + 1 implies (out@.contains(j as usize) <==> #[trigger] vendue(main@, payable@, j)) by {
                if j < i {
                    if before.contains(j as usize) {
                        let m = choose|m: int| 0 <= m < before.len() && before[m] == j as usize;
                        assert(out@[m] == j as usize);
                    }
                    if out@.contains(j as usize) {
                        let m = choose|m: int| 0 <= m < out@.len() && out@[m] == j as usize;
                        if m < before.len() {
                            assert(before[m] == j as usize);
                        }
                    }
                } else {
                    if out@.len() > before.len() {
                        assert(out@[before.len() as int] == i);
                    }
                    if out@.contains(i) {
                        let m = choose|m: int| 0 <= m < out@.len() && out@[m] == i;
                        if m < before.len() {
                            assert(before[m] < i);
                        }
                    }
                }
            }
        }
        i = i + 1;
    }
    out
}

// ------------------------------------------------------------ observation

/// What an observation keeps of one decision, read on the live state at
/// the moment of the call.
#[derive(Debug, Clone, PartialEq, Eq)]
pub struct Observation {
    /// Number of the decision, from 0, with no gap.
    pub decision: u64,
    /// The player the decision is asked of.
    pub player: usize,
    pub mc: i64,
    pub heat: i64,
    pub plants: i64,
    pub tr: i64,
    pub temperature: u8,
    pub oxygen: u8,
    pub oceans: u8,
    pub generation: u32,
    /// Phase chosen by this player this round (0 = not yet).
    pub phase: u8,
    pub hand: usize,
    pub played: usize,
}

impl Observation {
    /// The observation of decision `decision`, asked of `player`.
    pub fn of(decision: u64, player: usize, game: &GameState) -> (r: Observation)
        requires player < 2,
        ensures
            r.decision == decision && r.player == player,
            r.mc == game.players[player as int].mc && r.heat == game.players[player as int].heat,
            r.plants == game.players[player as int].plants && r.tr == game.players[player as int].tr,
            r.temperature == game.temperature && r.oxygen == game.oxygen && r.oceans == game.oceans_revealed,
            r.generation == game.generation && r.phase == game.players[player as int].chosen_phase,
            r.hand == game.players[player as int].hand@.len(),
            r.played == game.players[player as int].played@.len(),
    {
        let pl = &game.players[player];
        Observation {
            decision,
            player,
            mc: pl.mc,
            heat: pl.heat,
            plants: pl.plants,
            tr: pl.tr,
            temperature: game.temperature,
            oxygen: game.oxygen,
            oceans: game.oceans_revealed,
            generation: game.generation,
            phase: pl.chosen_phase,
            hand: pl.hand.len(),
            played: pl.played.len(),
        }
    }
}

// ----------------------------------------------------- the first option

/// The policy that always answers the first option (index 0 everywhere,
/// the empty list where a list is free, the first cards where a number is
/// asked): a fixed choice that any other implementation can reproduce.
pub struct Premiere;

/// The indices `0..n`.
fn first_indices(n: usize) -> (r: Vec<usize>)
    ensures r@.len() == n, distinct_below(r@, n as int), forall|i: int| 0 <= i < n ==> r@[i] == i,
{
    let mut out: Vec<usize> = Vec::new();
    let mut i: usize = 0;
    while i < n
        invariant i <= n, out@.len() == i, forall|k: int| 0 <= k < i ==> out@[k] == k,
        decreases n - i,
    {
        out.push(i);
        i = i + 1;
    }
    out
}

impl Policy for Premiere {
    fn corp_mulligan(&mut self, rng: &mut StdRng, player: usize, corps: &[u16]) -> (r: bool)
        ensures !r,
    {
        false
    }

    fn project_mulligan(&mut self, rng: &mut StdRng, player: usize, hand: &[u16]) -> (r: Vec<usize>)
        ensures r@.len() == 0,
    {
        Vec::new()
    }

    fn pick_corporation(&mut self, rng: &mut StdRng, player: usize, corps: &[u16]) -> (r: usize) {
        0
    }

    fn pick_phase(&mut self, rng: &mut StdRng, player: usize, allowed: &[u8]) -> (r: u8) {
        allowed[0]
    }

    fn choose_build(&mut self, rng: &mut StdRng, player: usize, affordable: &[usize]) -> (r: Option<usize>)
        ensures r == (if affordable@.len() == 0 { None } else { Some(affordable@[0]) }),
    {
        if affordable.len() == 0 { None } else { Some(affordable[0]) }
    }

    fn construction_bonus(&mut self, rng: &mut StdRng, player: usize) -> (r: ConstructionBonus)
        ensures r == ConstructionBonus::DrawCardBefore,
    {
        ConstructionBonus::DrawCardBefore
    }

    fn action_choice(&mut self, rng: &mut StdRng, player: usize, options: &[ActionOpt]) -> (r: Option<usize>)
        ensures r == (if options@.len() == 0 { None } else { Some(0usize) }),
    {
        if options.len() == 0 { None } else { Some(0) }
    }

    fn action_amount(&mut self, rng: &mut StdRng, player: usize, max: i64) -> (r: i64)
        ensures r == 0,
    {
        0
    }

    fn choose_option(&mut self, rng: &mut StdRng, player: usize, n: usize) -> (r: usize)
        ensures r == 0,
    {
        0
    }

    fn choose_res_target(&mut self, rng: &mut StdRng, player: usize, candidates: &[u16]) -> (r: usize)
        ensures r == 0,
    {
        0
    }

    fn choose_res_source(&mut self, rng: &mut StdRng, player: usize, candidates: &[u16]) -> (r: usize)
        ensures r == 0,
    {
        0
    }

    fn pick_joker_tag(&mut self, rng: &mut StdRng, player: usize, card: u16, tag_counts: &[u32; 10]) -> (r: usize)
        ensures r == 0,
    {
        0
    }

    fn research_keep(&mut self, rng: &mut StdRng, player: usize, drawn: &[u16], keep: usize) -> (r: Vec<usize>) {
        first_indices(keep)
    }

    fn discard_down(&mut self, rng: &mut StdRng, player: usize, hand: &[u16], n: usize) -> (r: Vec<usize>) {
        first_indices(n)
    }
}

// ------------------------------------------------------ reading labels

/// A word character in the sense of `\b` of JavaScript: `[A-Za-z0-9_]`
/// only (an accented letter is none).
pub open spec fn word_char(c: char) -> bool {
    ('a' <= c && c <= 'z') || ('A' <= c && c <= 'Z') || ('0' <= c && c <= '9') || c == '_'
}

/// Is `c` a word character in the sense of `\b` of JavaScript?
pub fn caractere_de_mot(c: char) -> (r: bool)
    ensures r == word_char(c),
{
    ('a' <= c && c <= 'z') || ('A' <= c && c <= 'Z') || ('0' <= c && c <= '9') || c == '_'
}

/// `t` starts with `motif` followed by a word boundary: `/^motif\b/`.
pub open spec fn starts_with_word(t: Seq<char>, motif: Seq<char>) -> bool {
    &&& motif.len() <= t.len()
    &&& t.subrange(0, motif.len() as int) == motif
    &&& (t.len() == motif.len() || !word_char(t[motif.len() as int]))
}

/// Does `t` start with `motif` followed by a word boundary?
pub fn commence_par_mot(t: &str, motif: &str) -> (r: bool)
    ensures r == starts_with_word(t@, motif@),
{
    let n = t.unicode_len();
    let m = motif.unicode_len();
    if m > n {
        return false;
    }
    let mut i: usize = 0;
    while i < m
        invariant n == t@.len(), m == motif@.len(), m <= n, i <= m,
            forall|k: int| 0 <= k < i ==> t@[k] == motif@[k],
        decreases m - i,
    {
        if t.get_char(i) != motif.get_char(i) {
            proof { assert(t@.subrange(0, m as int)[i as int] != motif@[i as int]); }
            return false;
        }
        i = i + 1;
    }
    proof { assert(t@.subrange(0, m as int) =~= motif@); }
    if m == n {
        true
    } else {
        !caractere_de_mot(t.get_char(m))
    }
}

/// `mot` occurs in `t` at `i`, with a word boundary on each side.
pub open spec fn word_at(t: Seq<char>, mot: Seq<char>, i: int) -> bool {
    &&& 0 <= i && i + mot.len() <= t.len()
    &&& t.subrange(i, i + mot.len()) == mot
    &&& (i == 0 || !word_char(t[i - 1]))
    &&& (i + mot.len() == t.len() || !word_char(t[i + mot.len()]))
}

/// Does `t` hold `mot` between word boundaries: `/\bmot\b/`? An empty word
/// is never found.
pub fn contient_mot(t: &str, mot: &str) -> (r: bool)
    ensures r == (mot@.len() > 0 && exists|i: int| word_at(t@, mot@, i)),
{
    let n = t.unicode_len();
    let m = mot.unicode_len();
    if m == 0 || n < m {
        proof {
            if m > 0 {
                assert forall|i: int| !word_at(t@, mot@, i) by {}
            }
        }
        return false;
    }
    let mut i: usize = 0;
    while i <= n - m
        invariant
            n == t@.len(), m == mot@.len(), 0 < m <= n, i <= n - m + 1,
            forall|j: int| 0 <= j < i ==> !word_at(t@, mot@, j),
        decreases n - m + 1 - i,
    {
        let mut k: usize = 0;
        let mut same = true;
        while k < m
            invariant
                n == t@.len(), m == mot@.len(), i + m <= n, k <= m,
                same == forall|q: int| 0 <= q < k ==> t@[i + q] == mot@[q],
            decreases m - k,
        {
            if t.get_char(i + k) != mot.get_char(k) {
                same = false;
            }
            k = k + 1;
        }
        proof {
            if same {
                assert(t@.subrange(i as int, i + m) =~= mot@);
            } else {
                let q = choose|q: int| 0 <= q < m && t@[i + q] != mot@[q];
                assert(t@.subrange(i as int, i + m)[q] != mot@[q]);
            }
        }
        if same {
            let debut = i == 0 || !caractere_de_mot(t.get_char(i - 1));
            let fin = i + m == n || !caractere_de_mot(t.get_char(i + m));
            if debut && fin {
                proof { assert(word_at(t@, mot@, i as int)); }
                return true;
            }
        }
        i = i + 1;
    }
    proof {
        assert forall|j: int| !word_at(t@, mot@, j) by {
            if word_at(t@, mot@, j) {
                assert(j < i);
            }
        }
    }
    false
}

/// The spaces that `\s` of JavaScript matches.
pub open spec fn js_space(c: char) -> bool {
    c == ' ' || c == '\t' || c == '\n' || c == '\u{0b}' || c == '\u{0c}' || c == '\r' || c == '\u{a0}'
        || c == '\u{1680}' || ('\u{2000}' <= c && c <= '\u{200a}') || c == '\u{2028}' || c == '\u{2029}'
        || c == '\u{202f}' || c == '\u{205f}' || c == '\u{3000}' || c == '\u{feff}'
}

/// Is `c` a space that `\s` of JavaScript matches?
pub fn espace_js(c: char) -> (r: bool)
    ensures r == js_space(c),
{
    c == ' ' || c == '\t' || c == '\n' || c == '\u{0b}' || c == '\u{0c}' || c == '\r' || c == '\u{a0}'
        || c == '\u{1680}' || ('\u{2000}' <= c && c <= '\u{200a}') || c == '\u{2028}' || c == '\u{2029}'
        || c == '\u{202f}' || c == '\u{205f}' || c == '\u{3000}' || c == '\u{feff}'
}

// ------------------------------------------------------ option labels

/// The decimal digit `d` (0..=9) as text.
fn digit(d: u16) -> (r: &'static str)
    requires d < 10,
    ensures r@ == seq![('0' as u8 + d) as char],
{
    let r: &'static str = if d == 0 { "0" } else if d == 1 { "1" } else if d == 2 { "2" } else if d == 3 { "3" }
        else if d == 4 { "4" } else if d == 5 { "5" } else if d == 6 { "6" } else if d == 7 { "7" }
        else if d == 8 { "8" } else { "9" };
    proof {
        reveal_strlit("0"); reveal_strlit("1"); reveal_strlit("2"); reveal_strlit("3"); reveal_strlit("4");
        reveal_strlit("5"); reveal_strlit("6"); reveal_strlit("7"); reveal_strlit("8"); reveal_strlit("9");
    }
    r
}

/// The decimal writing of `n`.
pub open spec fn decimal(n: nat) -> Seq<char>
    decreases n,
{
    if n < 10 {
        seq![('0' as u8 + n) as char]
    } else {
        decimal(n / 10) + seq![('0' as u8 + (n % 10)) as char]
    }
}

/// `n` written in decimal.
fn decimal_text(n: u16) -> (r: String)
    ensures r@ == decimal(n as nat),
    decreases n,
{
    if n < 10 {
        String::from_str(digit(n))
    } else {
        let head = decimal_text(n / 10);
        head.concat(digit(n % 10))
    }
}

/// The label of an option of the Action phase.
pub open spec fn label_spec(db: &CardsDb, o: ActionOpt) -> Seq<char> {
    match o {
        ActionOpt::ForestWithPlants => "Forêt (plantes)"@,
        ActionOpt::ForestWithMc => "Forêt (MC)"@,
        ActionOpt::TemperatureWithHeat => "Température (chaleur)"@,
        ActionOpt::TemperatureWithMc => "Température (MC)"@,
        ActionOpt::OceanWithMc => "Océan (MC)"@,
        ActionOpt::SellCard => "Vente d'une carte"@,
        ActionOpt::BlueAction(i) => if (i as int) < db.projects@.len() {
            "Action de "@ + db.projects@[i as int].name@
        } else {
            "Action de la carte bleue "@ + decimal(i as nat)
        },
        ActionOpt::CorpAction => "Action de la corporation"@,
    }
}

/// The label of an option of the Action phase, as the bridge writes it.
pub fn libelle_action(db: &CardsDb, o: &ActionOpt) -> (r: String)
    ensures r@ == label_spec(db, *o),
{
    match o {
        ActionOpt::ForestWithPlants => "Forêt (plantes)".to_owned(),
        ActionOpt::ForestWithMc => "Forêt (MC)".to_owned(),
        ActionOpt::TemperatureWithHeat => "Température (chaleur)".to_owned(),
        ActionOpt::TemperatureWithMc => "Température (MC)".to_owned(),
        ActionOpt::OceanWithMc => "Océan (MC)".to_owned(),
        ActionOpt::SellCard => "Vente d'une carte".to_owned(),
        ActionOpt::BlueAction(i) => {
            if (*i as usize) < db.projects.len() {
                "Action de ".to_owned().concat(db.projects[*i as usize].name.as_str())
            } else {
                "Action de la carte bleue ".to_owned().concat(decimal_text(*i).as_str())
            }
        }
        ActionOpt::CorpAction => "Action de la corporation".to_owned(),
    }
}

// ------------------------------------------------------- reshuffling

/// Tile `t` is one of the tiles of `o`.
pub open spec fn tile_from(t: OceanTile, o: [OceanTile; 9]) -> bool {
    exists|j: int| 0 <= j < 9 && #[trigger] o[j] == t
}

/// Reshuffles what nobody has seen yet, with a generator seeded from
/// `graine`: the draw pile but its top `vu.cartes` cards, the ocean tiles
/// still face down (but those a replay has flipped), the corporation pile
/// but its top `vu.corpos`; and the game's generator is reseeded. What has
/// come out stays where it is.
pub fn rebattre_le_reste(g: &mut GameState, graine: u64, vu: DejaVu)
    ensures
        final(g).deck@.len() == old(g).deck@.len(),
        drawn_from(final(g).deck@, old(g).deck@),
        final(g).deck@.to_multiset() == old(g).deck@.to_multiset(),
        forall|k: int| 0 <= k && old(g).deck@.len() - vu.cartes <= k < old(g).deck@.len() ==>
            #[trigger] final(g).deck@[k] == old(g).deck@[k],
        forall|k: int| 0 <= k < 9 && (k < old(g).oceans_revealed || k < vu.oceans) ==>
            #[trigger] final(g).oceans[k] == old(g).oceans[k],
        forall|k: int| 0 <= k < 9 ==> tile_from(#[trigger] final(g).oceans[k], old(g).oceans),
        final(g).oceans@.to_multiset() == old(g).oceans@.to_multiset(),
        final(g).corp_deck@.len() == old(g).corp_deck@.len(),
        drawn_from(final(g).corp_deck@, old(g).corp_deck@),
        final(g).corp_deck@.to_multiset() == old(g).corp_deck@.to_multiset(),
        forall|k: int| 0 <= k && old(g).corp_deck@.len() - vu.corpos <= k < old(g).corp_deck@.len() ==>
            #[trigger] final(g).corp_deck@[k] == old(g).corp_deck@[k],
        final(g).players == old(g).players && final(g).discard == old(g).discard,
        final(g).corp_discard == old(g).corp_discard && final(g).oceans_revealed == old(g).oceans_revealed,
        final(g).temperature == old(g).temperature && final(g).oxygen == old(g).oxygen,
        final(g).infrastructure == old(g).infrastructure,
        final(g).same_but_piles_and_tiles(*old(g)),
{
    let mut rng = seeded(graine);
    let n = if g.deck.len() > vu.cartes { g.deck.len() - vu.cartes } else { 0 };
    shuffle_prefix(&mut g.deck, n, &mut rng);
    let d: usize = if (g.oceans_revealed as usize) > vu.oceans { g.oceans_revealed as usize } else { vu.oceans };
    let ghost g1 = *g;
    proof {
        assert forall|k: int| 0 <= k < 9 implies tile_from(#[trigger] g.oceans[k], old(g).oceans) by {
            assert(old(g).oceans[k] == g.oceans[k]);
        }
    }
    if d < 9 {
        let mut i: usize = 8;
        while i > d
            invariant
                d < i + 1, i <= 8,
                g.deck == g1.deck && g.corp_deck == g1.corp_deck && g.same_but_piles_and_tiles(g1),
                forall|k: int| 0 <= k < d ==> #[trigger] g.oceans[k] == old(g).oceans[k],
                forall|k: int| 0 <= k < 9 ==> tile_from(#[trigger] g.oceans[k], old(g).oceans),
                g.oceans@.to_multiset() == old(g).oceans@.to_multiset(),
            decreases i,
        {
            let j = between(&mut rng, d, i);
            let a = g.oceans[i];
            let b = g.oceans[j];
            let ghost before = g.oceans;
            g.oceans[i] = b;
            g.oceans[j] = a;
            proof {
                lemma_swap_multiset(before@, i as int, j as int);
                assert(g.oceans@ =~= before@.update(i as int, before@[j as int]).update(j as int, before@[i as int]));
                assert forall|k: int| 0 <= k < 9 implies tile_from(#[trigger] g.oceans[k], old(g).oceans) by {
                    if k == i as int {
                        assert(g.oceans[k] == before[j as int]);
                        assert(tile_from(before[j as int], old(g).oceans));
                    } else if k == j as int {
                        assert(g.oceans[k] == before[i as int]);
                        assert(tile_from(before[i as int], old(g).oceans));
                    } else {
                        assert(g.oceans[k] == before[k]);
                        assert(tile_from(before[k], old(g).oceans));
                    }
                }
            }
            i = i - 1;
        }
    }
    let c = if g.corp_deck.len() > vu.corpos { g.corp_deck.len() - vu.corpos } else { 0 };
    shuffle_prefix(&mut g.corp_deck, c, &mut rng);
    g.rng = seeded(brasser(graine));
}

/// Reshuffles everything nobody has seen.
pub fn rebattre_l_avenir(g: &mut GameState, graine: u64)
    ensures
        final(g).deck@.len() == old(g).deck@.len(),
        drawn_from(final(g).deck@, old(g).deck@),
        final(g).deck@.to_multiset() == old(g).deck@.to_multiset(),
        final(g).corp_deck@.len() == old(g).corp_deck@.len(),
        drawn_from(final(g).corp_deck@, old(g).corp_deck@),
        final(g).corp_deck@.to_multiset() == old(g).corp_deck@.to_multiset(),
        forall|k: int| 0 <= k < 9 && k < old(g).oceans_revealed ==> #[trigger] final(g).oceans[k] == old(g).oceans[k],
        final(g).oceans@.to_multiset() == old(g).oceans@.to_multiset(),
        final(g).players == old(g).players && final(g).discard == old(g).discard,
        final(g).same_but_piles_and_tiles(*old(g)),
{
    rebattre_le_reste(g, graine, DejaVu::rien());
}

/// Number of times `x` occurs in `s`.
pub open spec fn occurrences(s: Seq<u16>, x: u16) -> nat
    decreases s.len(),
{
    if s.len() == 0 { 0 } else { occurrences(s.drop_last(), x) + if s.last() == x { 1nat } else { 0nat } }
}

/// Is the card at place `i` of `hand` one the player knew? Its copies
/// before it, and itself, are matched one for one against the copies of
/// the hand the player had under their eyes.
pub open spec fn is_known(hand: Seq<u16>, known: Seq<u16>, i: int) -> bool {
    occurrences(hand.subrange(0, i), hand[i]) < occurrences(known, hand[i])
}

/// The known cards of the first `n` of `hand`, in order.
pub open spec fn known_cards(hand: Seq<u16>, known: Seq<u16>, n: int) -> Seq<u16>
    decreases n,
{
    if n <= 0 {
        Seq::empty()
    } else if is_known(hand, known, n - 1) {
        known_cards(hand, known, n - 1).push(hand[n - 1])
    } else {
        known_cards(hand, known, n - 1)
    }
}

/// The other cards of the first `n` of `hand` (come from the future), in order.
pub open spec fn future_cards(hand: Seq<u16>, known: Seq<u16>, n: int) -> Seq<u16>
    decreases n,
{
    if n <= 0 {
        Seq::empty()
    } else if is_known(hand, known, n - 1) {
        future_cards(hand, known, n - 1)
    } else {
        future_cards(hand, known, n - 1).push(hand[n - 1])
    }
}

/// How many of the first `upto` elements of `s` are `x`.
fn count_occurrences(s: &[u16], upto: usize, x: u16) -> (r: usize)
    requires upto <= s@.len(),
    ensures r == occurrences(s@.subrange(0, upto as int), x),
{
    let mut c: usize = 0;
    let mut k: usize = 0;
    while k < upto
        invariant
            k <= upto, upto <= s@.len(), c <= k,
            c == occurrences(s@.subrange(0, k as int), x),
        decreases upto - k,
    {
        assert(s@.subrange(0, k as int + 1).drop_last() =~= s@.subrange(0, k as int));
        if s[k] == x {
            c = c + 1;
        }
        k = k + 1;
    }
    c
}

/// The cards of the first `n` of `hand`, known and future together, are
/// those of `hand`.
proof fn lemma_split_keeps_cards(hand: Seq<u16>, known: Seq<u16>, n: int)
    requires 0 <= n <= hand.len(),
    ensures
        known_cards(hand, known, n).to_multiset().add(future_cards(hand, known, n).to_multiset())
            == hand.subrange(0, n).to_multiset(),
        known_cards(hand, known, n).len() + future_cards(hand, known, n).len() == n,
    decreases n,
{
    broadcast use vstd::seq_lib::group_to_multiset_ensures;
    broadcast use vstd::multiset::group_multiset_axioms;
    if n > 0 {
        lemma_split_keeps_cards(hand, known, n - 1);
        assert(hand.subrange(0, n) =~= hand.subrange(0, n - 1).push(hand[n - 1]));
        let k = known_cards(hand, known, n - 1).to_multiset();
        let f = future_cards(hand, known, n - 1).to_multiset();
        if is_known(hand, known, n - 1) {
            assert(k.insert(hand[n - 1]).add(f) =~= k.add(f).insert(hand[n - 1]));
        } else {
            assert(k.add(f.insert(hand[n - 1])) =~= k.add(f).insert(hand[n - 1]));
        }
    } else {
        assert(hand.subrange(0, 0) =~= Seq::<u16>::empty());
    }
}

/// Takes back the cards of the player's hand that came from the future: a
/// card of their hand that was not in the hand they had under their eyes
/// when they decided (`main_connue`, copy for copy) goes back to the draw
/// pile; the pile and everything nobody has seen are reshuffled (seeded by
/// `graine`); the player draws as many from the top. The known cards stay,
/// first and in their order. A hand without such a card is left alone.
pub fn ecarter_les_cartes_du_futur(main_connue: &[u16], g: &mut GameState, joueur: usize, graine: u64)
    requires joueur < 2,
    ensures ({
        let hand = old(g).players[joueur as int].hand@;
        let kept = known_cards(hand, main_connue@, hand.len() as int);
        let fut = future_cards(hand, main_connue@, hand.len() as int);
        let new_hand = final(g).players[joueur as int].hand@;
        &&& fut.len() == 0 ==> *final(g) == *old(g)
        &&& fut.len() > 0 ==> {
            &&& new_hand.len() == hand.len()
            &&& new_hand.subrange(0, kept.len() as int) == kept
            &&& final(g).deck@.len() == old(g).deck@.len()
            &&& final(g).deck@.to_multiset().add(new_hand.to_multiset())
                == old(g).deck@.to_multiset().add(hand.to_multiset())
            &&& final(g).corp_deck@.to_multiset() == old(g).corp_deck@.to_multiset()
            &&& forall|k: int| 0 <= k < 9 && k < old(g).oceans_revealed ==>
                #[trigger] final(g).oceans[k] == old(g).oceans[k]
            &&& final(g).players[joueur as int] == (PlayerState { hand: final(g).players[joueur as int].hand, ..old(g).players[joueur as int] })
            &&& final(g).players[1 - joueur as int] == old(g).players[1 - joueur as int]
            &&& final(g).same_but_piles_and_tiles(GameState { players: final(g).players, ..*old(g) })
        }
    }),
{
    broadcast use vstd::seq_lib::group_to_multiset_ensures;
    let ghost hand0 = g.players[joueur as int].hand@;
    let ghost known = main_connue@;
    let n = g.players[joueur].hand.len();
    let mut gardees: Vec<u16> = Vec::new();
    let mut du_futur: Vec<u16> = Vec::new();
    let mut i: usize = 0;
    while i < n
        invariant
            i <= n, n == hand0.len(), joueur < 2, g.players[joueur as int].hand@ == hand0, *g == *old(g),
            hand0 == old(g).players[joueur as int].hand@, known == main_connue@,
            gardees@ == known_cards(hand0, known, i as int),
            du_futur@ == future_cards(hand0, known, i as int),
        decreases n - i,
    {
        let c = g.players[joueur].hand[i];
        let seen = count_occurrences(g.players[joueur].hand.as_slice(), i, c);
        let owned = count_occurrences(main_connue, main_connue.len(), c);
        proof { assert(main_connue@.subrange(0, main_connue@.len() as int) =~= main_connue@); }
        if seen < owned {
            gardees.push(c);
        } else {
            du_futur.push(c);
        }
        i = i + 1;
    }
    proof { lemma_split_keeps_cards(hand0, known, n as int); }
    assert(hand0.subrange(0, n as int) =~= hand0);
    if du_futur.len() == 0 {
        return;
    }
    let ghost kept = gardees@;
    let ghost fut = du_futur@;
    let combien = du_futur.len();
    let ghost deck0 = g.deck@;
    let mut j: usize = 0;
    while j < combien
        invariant
            j <= combien, combien == fut.len(), du_futur@ == fut, joueur < 2,
            g.deck@ == deck0 + fut.subrange(0, j as int),
            *g == (GameState { deck: g.deck, ..*old(g) }),
        decreases combien - j,
    {
        g.deck.push(du_futur[j]);
        assert(deck0 + fut.subrange(0, j as int + 1) =~= (deck0 + fut.subrange(0, j as int)).push(fut[j as int]));
        j = j + 1;
    }
    assert(fut.subrange(0, combien as int) =~= fut);
    let ghost g1 = *g;
    rebattre_l_avenir(g, brasser(graine ^ 0x0CA5_7E5D_0000_0002u64));
    let ghost g2 = *g;
    proof { vstd::seq_lib::lemma_multiset_commutative(deck0, fut); }
    let mut t: usize = 0;
    while t < combien
        invariant
            t <= combien, combien == fut.len(), joueur < 2,
            g.deck@.len() + t == g2.deck@.len(), g2.deck@.len() == deck0.len() + combien,
            gardees@.subrange(0, kept.len() as int) == kept, gardees@.len() == kept.len() + t,
            g.deck@.to_multiset().add(gardees@.to_multiset()) == g2.deck@.to_multiset().add(kept.to_multiset()),
            *g == (GameState { deck: g.deck, ..g2 }),
        decreases combien - t,
    {
        let ghost d = g.deck@;
        let ghost kg = gardees@;
        match g.deck.pop() {
            Some(c) => {
                proof {
                    assert(d =~= g.deck@.push(c));
                    vstd::seq_lib::to_multiset_build(g.deck@, c);
                    vstd::seq_lib::to_multiset_build(kg, c);
                    assert(g.deck@.to_multiset().add(kg.to_multiset().insert(c))
                        =~= g.deck@.to_multiset().insert(c).add(kg.to_multiset()));
                }
                gardees.push(c);
                proof {
                    assert(gardees@.subrange(0, kept.len() as int) =~= kg.subrange(0, kept.len() as int));
                }
            }
            None => {
                assert(false);
            }
        }
        t = t + 1;
    }
    proof {
        vstd::seq_lib::lemma_multiset_commutative(kept, fut);
    }
    g.players[joueur].hand = gardees;
}

/// Fisher–Yates on the first `n` elements of `v` (the others stay).
fn shuffle_prefix(v: &mut Vec<u16>, n: usize, rng: &mut StdRng)
    requires n <= old(v)@.len(),
    ensures
        final(v)@.len() == old(v)@.len(),
        drawn_from(final(v)@, old(v)@),
        final(v)@.to_multiset() == old(v)@.to_multiset(),
        forall|k: int| n <= k < old(v)@.len() ==> #[trigger] final(v)@[k] == old(v)@[k],
{
    let ghost orig = v@;
    let mut i: usize = n;
    proof {
        assert forall|k: int| 0 <= k < v@.len() implies orig.contains(#[trigger] v@[k]) by {
            assert(orig[k] == v@[k]);
        }
    }
    while i > 1
        invariant
            i <= n, n <= v@.len(), v@.len() == orig.len(),
            drawn_from(v@, orig),
            v@.to_multiset() == orig.to_multiset(),
            forall|k: int| n <= k < orig.len() ==> #[trigger] v@[k] == orig[k],
        decreases i,
    {
        i = i - 1;
        let j = upto(rng, i);
        let a = v[i];
        let b = v[j];
        let ghost before = v@;
        v.set(i, b);
        v.set(j, a);
        proof {
            lemma_swap_multiset(before, i as int, j as int);
            assert forall|k: int| 0 <= k < v@.len() implies orig.contains(#[trigger] v@[k]) by {
                if k == j as int {
                    assert(v@[k] == before[i as int]);
                    assert(orig.contains(before[i as int]));
                } else if k == i as int {
                    assert(v@[k] == before[j as int]);
                    assert(orig.contains(before[j as int]));
                } else {
                    assert(v@[k] == before[k]);
                    assert(orig.contains(before[k]));
                }
            }
        }
    }
}

} // verus!
