//! Decision policies. The engine asks the policy at every decision point;
//! every random draw goes through the game's own generator, handed in as a
//! parameter — a policy owns no generator.

use vstd::prelude::*;
use rand::rngs::StdRng;
use crate::cards::Tag;
use crate::effects::{ActionRes, RevealFilter};
use crate::rng::{below, below_u8, ratio, upto, upto_i64};
use crate::state::{GameState, PhaseUpgrade};

verus! {

/// Bonus of the Construction phase selector: draw a card before or after
/// building, or build a second blue/red card.
#[derive(Debug, Clone, Copy, PartialEq, Eq, Structural)]
pub enum ConstructionBonus {
    /// Draw 1 card after the phase's build.
    DrawCard,
    /// Draw 1 card before building: it may be built at once.
    DrawCardBefore,
    /// Build one more blue or red card.
    SecondBuild,
}

/// Options of the Action phase.
#[derive(Debug, Clone, Copy, PartialEq, Eq, Structural)]
pub enum ActionOpt {
    ForestWithPlants,
    ForestWithMc,
    TemperatureWithHeat,
    TemperatureWithMc,
    OceanWithMc,
    /// Discard a card from hand for MC.
    SellCard,
    /// The action of the given blue card in play.
    BlueAction(u16),
    /// The action printed on the player's corporation.
    CorpAction,
}

/// Where an action comes from.
#[derive(Debug, Clone, Copy, PartialEq, Eq, Structural)]
pub enum ActionSource {
    /// A blue card in play.
    Card(u16),
    /// The player's corporation board.
    Corp,
}

/// Where a Phase-card upgrade comes from.
#[derive(Debug, Clone, Copy, PartialEq, Eq, Structural)]
pub enum UpgradeSource {
    /// An effect applied when a card is built.
    Build,
    /// An effect applied by a card action.
    Action,
    /// The setup of a corporation.
    Setup,
}

/// What a « … or … » question is about, with what each option stands for.
#[derive(Debug, Clone, PartialEq, Eq)]
pub enum ChoiceContext {
    /// Pay to raise the TR once more (option 0) or decline (option 1).
    CorpTrBoost { corporation: Option<u16>, cost_mc: i64, steps: u8 },
    /// Which Phase card to upgrade, among `(phase, variant)` candidates.
    PhaseUpgrade { candidates: Vec<(u8, PhaseUpgrade)>, imposed_phase: Option<u8>, source: UpgradeSource },
    /// A printed alternative of a card: its branches by printed rank.
    CardAlternative { card: u16, source: UpgradeSource, branches: Vec<usize> },
    /// Pay with resources on `holder` (option 0) or not (option 1).
    MicrobeDiscount { card: u16, holder: u16, count: u32, amount: i64 },
    /// Spend plants for a discount (option 0) or not (option 1).
    PlantDiscount { card: u16, plants: i64, amount: i64 },
    /// Use heat as MC (option 0) or not (option 1).
    HeatAsMc { card: u16, cost: i64 },
    /// Discard a card to draw (option 0) or not (option 1).
    DiscardToDraw { card: Option<u16>, tag: Tag, draw_if: u8, draw_else: u8 },
    /// An amount: option `k` stands for `k + 1` units.
    SpendAmount { source: ActionSource, spend: ActionRes, gain: ActionRes, max: i64 },
    /// A printed alternative of a card action: branches by printed rank.
    ActionAlternative { card: u16, branches: Vec<usize> },
    /// The branches of a Phase card's selector bonus.
    SelectorBonus { phase: u8, variant: Option<PhaseUpgrade>, card_name: &'static str, branches: usize },
    /// Which green card's production is played again.
    ReplayProduction { candidates: Vec<u16> },
}

impl ChoiceContext {
    /// Number of options of the question.
    pub open spec fn option_count_spec(&self) -> int {
        match self {
            ChoiceContext::PhaseUpgrade { candidates, .. } => candidates@.len() as int,
            ChoiceContext::CardAlternative { branches, .. } => branches@.len() as int,
            ChoiceContext::SpendAmount { max, .. } => if *max < 0 { 0 } else { *max as int },
            ChoiceContext::ActionAlternative { branches, .. } => branches@.len() as int,
            ChoiceContext::SelectorBonus { branches, .. } => *branches as int,
            ChoiceContext::ReplayProduction { candidates } => candidates@.len() as int,
            _ => 2,
        }
    }

    /// Number of options of the question (an amount beyond `usize` counts
    /// as `usize::MAX` options).
    pub fn option_count(&self) -> (r: usize)
        ensures
            self.option_count_spec() <= usize::MAX ==> r == self.option_count_spec(),
            self.option_count_spec() > usize::MAX ==> r == usize::MAX,
    {
        match self {
            ChoiceContext::PhaseUpgrade { candidates, .. } => candidates.len(),
            ChoiceContext::CardAlternative { branches, .. } => branches.len(),
            ChoiceContext::SpendAmount { max, .. } => {
                if *max < 0 {
                    0
                } else if (*max as u64) > (usize::MAX as u64) {
                    usize::MAX
                } else {
                    *max as usize
                }
            }
            ChoiceContext::ActionAlternative { branches, .. } => branches.len(),
            ChoiceContext::SelectorBonus { branches, .. } => *branches,
            ChoiceContext::ReplayProduction { candidates } => candidates.len(),
            _ => 2,
        }
    }
}

/// `s` holds distinct indices, all below `n`.
pub open spec fn distinct_below(s: Seq<usize>, n: int) -> bool {
    &&& forall|i: int| 0 <= i < s.len() ==> (s[i] as int) < n
    &&& forall|i: int, j: int| 0 <= i < j < s.len() ==> s[i] != s[j]
}

/// Smallest number of cards whose discard, at `rate` MC each, brings `mc`
/// up to `cost`.
pub open spec fn min_discards(mc: int, cost: int, rate: int) -> int {
    if mc >= cost { 0 } else { (cost - mc + rate - 1) / rate }
}

/// `best` is the first place among the first `n` of `counts` that holds
/// their largest value.
pub open spec fn first_most_owned(counts: Seq<u32>, best: int, n: int) -> bool {
    &&& 0 <= best < n
    &&& forall|k: int| 0 <= k < n ==> #[trigger] counts[k] <= counts[best]
    &&& forall|k: int| 0 <= k < best ==> #[trigger] counts[k] < counts[best]
}

/// Decision points of the game flow.
pub trait Policy {
    /// The state of the game just before a decision of `player`.
    fn observe(&mut self, game: &GameState, player: usize) {
    }

    /// Corporation mulligan: replace both corporations (or none).
    fn corp_mulligan(&mut self, rng: &mut StdRng, player: usize, corps: &[u16]) -> bool;

    /// Project mulligan: indices in `hand` of the cards to replace.
    fn project_mulligan(&mut self, rng: &mut StdRng, player: usize, hand: &[u16]) -> Vec<usize>;

    /// Final choice of corporation (an index in `corps`).
    fn pick_corporation(&mut self, rng: &mut StdRng, player: usize, corps: &[u16]) -> (r: usize)
        requires corps@.len() > 0,
        ensures r < corps@.len();

    /// The phase chosen among `allowed`.
    fn pick_phase(&mut self, rng: &mut StdRng, player: usize, allowed: &[u8]) -> (r: u8)
        requires allowed@.len() > 0,
        ensures allowed@.contains(r);

    /// A card to build among the affordable hand indices, or `None`.
    fn choose_build(&mut self, rng: &mut StdRng, player: usize, affordable: &[usize]) -> (r: Option<usize>)
        ensures r matches Some(i) ==> affordable@.contains(i);

    /// The Construction selector's bonus.
    fn construction_bonus(&mut self, rng: &mut StdRng, player: usize) -> ConstructionBonus;

    /// The selector's bonus asked in two steps, first before the build:
    /// true to draw a card now (the bonus is then spent).
    fn construction_bonus_avant(&mut self, rng: &mut StdRng, player: usize) -> bool {
        let b = self.construction_bonus(rng, player);
        b == ConstructionBonus::DrawCardBefore
    }

    /// Second step, the build done: draw a card, or build a second blue or
    /// red card; a wish to draw before is read as a draw.
    fn construction_bonus_apres(&mut self, rng: &mut StdRng, player: usize) -> (r: ConstructionBonus)
        ensures r is DrawCard || r is SecondBuild,
    {
        match self.construction_bonus(rng, player) {
            ConstructionBonus::SecondBuild => ConstructionBonus::SecondBuild,
            _ => ConstructionBonus::DrawCard,
        }
    }

    /// One decision of the Action phase: an index in `options`, or `None` to pass.
    fn action_choice(&mut self, rng: &mut StdRng, player: usize, options: &[ActionOpt]) -> (r: Option<usize>)
        ensures r matches Some(i) ==> i < options@.len();

    /// Amount of a « spend any amount » action: uniform in `0..=max`.
    fn action_amount(&mut self, rng: &mut StdRng, player: usize, max: i64) -> (r: i64)
        default_ensures
            max <= 0 ==> r == 0,
            max > 0 ==> 0 <= r <= max,
    {
        if max <= 0 { 0 } else { upto_i64(rng, max) }
    }

    /// The card sold by the « sell a card » action (an index in `hand`).
    fn sell_card(&mut self, rng: &mut StdRng, player: usize, hand: &[u16]) -> (r: usize)
        default_ensures
            hand@.len() == 0 ==> r == 0,
            hand@.len() > 0 ==> r < hand@.len(),
    {
        if hand.len() == 0 { 0 } else { below(rng, hand.len()) }
    }

    /// How many cards to discard to complete a payment of `cost` with `mc`
    /// MC, at `rate` MC per card: by default the fewest that suffice.
    fn discard_payment_count(&mut self, rng: &mut StdRng, player: usize, mc: i64, cost: i64,
        hand: &[u16], rate: i64) -> (r: usize)
        requires
            mc < cost,
            rate > 0,
            mc + rate * hand@.len() >= cost,
        ensures
            r <= hand@.len(),
            mc + rate * r >= cost,
    {
        let hl: usize = hand.len();
        let missing: i128 = cost as i128 - mc as i128;
        let k: i128 = (missing + rate as i128 - 1) / rate as i128;
        proof {
            let m = missing as int;
            let t = rate as int;
            let l = hand@.len() as int;
            assert(m <= t * l);
            assert((m + t - 1) / t <= l) by (nonlinear_arith)
                requires m <= t * l, t > 0, m > 0, l >= 0;
            assert(t * ((m + t - 1) / t) >= m) by (nonlinear_arith)
                requires t > 0, m > 0;
            assert(0 <= (m + t - 1) / t) by (nonlinear_arith)
                requires t > 0, m > 0;
            assert(k as int == (m + t - 1) / t);
            assert(k <= l);
            assert(l == hl);
            assert(t * k >= m);
        }
        let r: usize = k as usize;
        assert(r as int == k as int);
        r
    }

    /// Chooses among `n` printed alternatives: uniform by default.
    fn choose_option(&mut self, rng: &mut StdRng, player: usize, n: usize) -> (r: usize)
        default_ensures
            n == 0 ==> r == 0,
            n > 0 ==> r < n,
    {
        if n == 0 { 0 } else { below(rng, n) }
    }

    /// The same question, saying what it is about.
    fn choose_option_ctx(&mut self, rng: &mut StdRng, player: usize, ctx: &ChoiceContext) -> usize {
        let n = ctx.option_count();
        self.choose_option(rng, player, n)
    }

    /// The card that receives a resource (an index in `candidates`; an index
    /// out of range declines).
    fn choose_res_target(&mut self, rng: &mut StdRng, player: usize, candidates: &[u16]) -> (r: usize)
        default_ensures
            candidates@.len() == 0 ==> r == 0,
            candidates@.len() > 0 ==> r < candidates@.len(),
    {
        if candidates.len() == 0 { 0 } else { below(rng, candidates.len()) }
    }

    /// The card a resource is removed from (same conventions).
    fn choose_res_source(&mut self, rng: &mut StdRng, player: usize, candidates: &[u16]) -> (r: usize)
        default_ensures
            candidates@.len() == 0 ==> r == 0,
            candidates@.len() > 0 ==> r < candidates@.len(),
    {
        if candidates.len() == 0 { 0 } else { below(rng, candidates.len()) }
    }

    /// The tag a joker becomes, an index in `joker_tag_choices()`: by default
    /// the tag the player owns most, the first one on a tie.
    fn pick_joker_tag(&mut self, rng: &mut StdRng, player: usize, card: u16, tag_counts: &[u32; 10]) -> (r: usize)
        ensures r < 10,
        default_ensures first_most_owned(tag_counts@, r as int, 10),
    {
        let mut best: usize = 0;
        let mut i: usize = 1;
        while i < 10
            invariant 1 <= i <= 10, best < i, first_most_owned(tag_counts@, best as int, i as int),
            decreases 10 - i,
        {
            if tag_counts[i] > tag_counts[best] {
                best = i;
            }
            i = i + 1;
        }
        best
    }

    /// The final tag of a joker as the card is played: an index in
    /// `candidats` (indices in `joker_tag_choices()` of the tags that keep
    /// the card payable). By default the tag the policy would pick freely
    /// when it is among them, else the candidate the player owns most (the
    /// first one on a tie). Asked with two candidates or more.
    fn pick_joker_tag_a_la_pose(&mut self, rng: &mut StdRng, player: usize, card: u16, tag_counts: &[u32; 10],
        candidats: &[usize]) -> (r: usize)
        requires candidats@.len() >= 2 ==> forall|k: int| 0 <= k < candidats@.len() ==> #[trigger] candidats@[k] < 10,
        ensures
            candidats@.len() > 0 ==> r < candidats@.len(),
            candidats@.len() == 0 ==> r == 0,
    {
        let libre = self.pick_joker_tag(rng, player, card, tag_counts);
        let mut k: usize = 0;
        while k < candidats.len()
            invariant k <= candidats@.len(),
            decreases candidats@.len() - k,
        {
            if candidats[k] == libre {
                return k;
            }
            k = k + 1;
        }
        if candidats.len() == 0 {
            return 0;
        }
        let mut best: usize = 0;
        let mut k: usize = 1;
        while k < candidats.len()
            invariant
                1 <= k, best < k, best < candidats@.len(),
                candidats@.len() >= 2 ==> forall|m: int| 0 <= m < candidats@.len() ==> #[trigger] candidats@[m] < 10,
            decreases candidats@.len() - k,
        {
            if tag_counts[candidats[k]] > tag_counts[candidats[best]] {
                best = k;
            }
            k = k + 1;
        }
        best
    }

    /// Research: which `keep` of the `drawn` cards are kept.
    fn research_keep(&mut self, rng: &mut StdRng, player: usize, drawn: &[u16], keep: usize) -> (r: Vec<usize>)
        requires keep <= drawn@.len(),
        ensures r@.len() == keep, distinct_below(r@, drawn@.len() as int);

    /// Cards revealed from the top of the pile: which `keep` of the
    /// `candidates` are taken (by default the research question).
    fn reveal_pick(&mut self, rng: &mut StdRng, player: usize, revealed: &[u16], candidates: &[u16],
        keep: usize, filter: &RevealFilter) -> (r: Vec<usize>)
        requires keep <= candidates@.len(),
        default_ensures r@.len() == keep, distinct_below(r@, candidates@.len() as int),
    {
        if keep == 0 {
            Vec::new()
        } else {
            self.research_keep(rng, player, candidates, keep)
        }
    }

    /// Which `n` cards of `hand` are discarded.
    fn discard_down(&mut self, rng: &mut StdRng, player: usize, hand: &[u16], n: usize) -> (r: Vec<usize>)
        requires n <= hand@.len(),
        ensures r@.len() == n, distinct_below(r@, hand@.len() as int);
}

/// The indices `0..n` in an order drawn by Fisher–Yates, cut to `keep`.
fn shuffled_prefix(rng: &mut StdRng, n: usize, keep: usize) -> (r: Vec<usize>)
    requires keep <= n,
    ensures r@.len() == keep, distinct_below(r@, n as int),
{
    let mut idx: Vec<usize> = Vec::new();
    let mut k: usize = 0;
    while k < n
        invariant
            k <= n,
            idx@.len() == k,
            forall|a: int| 0 <= a < k ==> idx@[a] == a,
        decreases n - k,
    {
        idx.push(k);
        k = k + 1;
    }
    let mut i: usize = n;
    while i > 1
        invariant
            i <= n,
            idx@.len() == n,
            distinct_below(idx@, n as int),
        decreases i,
    {
        i = i - 1;
        let j = upto(rng, i);
        let a = idx[i];
        let b = idx[j];
        idx[i] = b;
        idx[j] = a;
        proof {
            assert forall|x: int, y: int| 0 <= x < y < idx@.len() implies idx@[x] != idx@[y] by {
                let o = idx@;
                assert(o[x] != o[y] || x == y);
            }
        }
    }
    idx.truncate(keep);
    idx
}

/// Uniform random policy: every decision is drawn from the game's generator.
pub struct RandomPolicy;

impl Policy for RandomPolicy {
    fn corp_mulligan(&mut self, rng: &mut StdRng, player: usize, corps: &[u16]) -> bool {
        ratio(rng, 1, 2)
    }

    /// Each card is replaced or kept on a coin flip, independently.
    fn project_mulligan(&mut self, rng: &mut StdRng, player: usize, hand: &[u16]) -> (r: Vec<usize>)
        ensures
            forall|k: int| 0 <= k < r@.len() ==> (#[trigger] r@[k] as int) < hand@.len(),
            forall|k: int, l: int| 0 <= k < l < r@.len() ==> r@[k] < r@[l],
    {
        let mut out: Vec<usize> = Vec::new();
        let mut i: usize = 0;
        while i < hand.len()
            invariant
                i <= hand@.len(),
                forall|k: int| 0 <= k < out@.len() ==> (#[trigger] out@[k] as int) < i,
                forall|k: int, l: int| 0 <= k < l < out@.len() ==> out@[k] < out@[l],
            decreases hand@.len() - i,
        {
            if ratio(rng, 1, 2) {
                out.push(i);
            }
            i = i + 1;
        }
        out
    }

    fn pick_corporation(&mut self, rng: &mut StdRng, player: usize, corps: &[u16]) -> (r: usize) {
        below(rng, corps.len())
    }

    fn pick_phase(&mut self, rng: &mut StdRng, player: usize, allowed: &[u8]) -> (r: u8) {
        let i = below(rng, allowed.len());
        allowed[i]
    }

    fn choose_build(&mut self, rng: &mut StdRng, player: usize, affordable: &[usize]) -> (r: Option<usize>) {
        if affordable.len() == 0 || ratio(rng, 1, 4) {
            None
        } else {
            let i = below(rng, affordable.len());
            Some(affordable[i])
        }
    }

    /// The three options are drawn uniformly.
    fn construction_bonus(&mut self, rng: &mut StdRng, player: usize) -> ConstructionBonus {
        let k = below_u8(rng, 3);
        if k == 0 {
            ConstructionBonus::DrawCardBefore
        } else if k == 1 {
            ConstructionBonus::DrawCard
        } else {
            ConstructionBonus::SecondBuild
        }
    }

    /// One chance in `n + 1` of passing.
    fn action_choice(&mut self, rng: &mut StdRng, player: usize, options: &[ActionOpt]) -> (r: Option<usize>) {
        if options.len() == 0 {
            return None;
        }
        let pick = upto(rng, options.len());
        if pick == options.len() { None } else { Some(pick) }
    }

    fn research_keep(&mut self, rng: &mut StdRng, player: usize, drawn: &[u16], keep: usize) -> (r: Vec<usize>) {
        shuffled_prefix(rng, drawn.len(), keep)
    }

    fn discard_down(&mut self, rng: &mut StdRng, player: usize, hand: &[u16], n: usize) -> (r: Vec<usize>) {
        shuffled_prefix(rng, hand.len(), n)
    }
}

} // verus!
