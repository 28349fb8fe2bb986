//! The declarative vocabulary of card effects, and the phase-card tables.

use vstd::prelude::*;
use crate::cards::{Color, Tag, tag_index};
use crate::state::PhaseUpgrade;

verus! {

/// Kind of resource a card can hold.
#[derive(Debug, Clone, Copy, PartialEq, Eq, Structural)]
pub enum ResKind {
    Microbe,
    Animal,
    Science,
    Floater,
}

impl ResKind {
    /// Printed name of the resource kind.
    pub open spec fn name_spec(self) -> Seq<char> {
        match self {
            ResKind::Microbe => "microbe"@,
            ResKind::Animal => "animal"@,
            ResKind::Science => "science"@,
            ResKind::Floater => "floater"@,
        }
    }

    /// Printed name of the resource kind.
    pub fn name(self) -> (r: &'static str)
        ensures r@ == self.name_spec(),
    {
        match self {
            ResKind::Microbe => "microbe",
            ResKind::Animal => "animal",
            ResKind::Science => "science",
            ResKind::Floater => "floater",
        }
    }
}

/// Steel or titanium know-how.
#[derive(Debug, Clone, Copy, PartialEq, Eq, Structural)]
pub enum Capacity {
    Steel,
    Titanium,
}

/// A requirement printed on a card.
#[derive(Debug, Clone, Copy, PartialEq, Eq, Structural)]
pub enum Req {
    TempMin(u8),
    TempMax(u8),
    OxyMin(u8),
    OxyMax(u8),
    OceanMin(u8),
    OceanMax(u8),
    Tags(Tag, u8),
    SpendHeat(i64),
    SpendPlants(i64),
    SpendTr(i64),
    TrMin(i64),
    HasObjective,
}

/// A gain granted by « If you have an Objective, gain … ».
#[derive(Debug, Clone, Copy, PartialEq, Eq, Structural)]
pub enum ObjectiveGain {
    Mc(i64),
    Heat(i64),
    Plants(i64),
    Draw(u8),
    McProd(i64),
    HeatProd(i64),
    PlantProd(i64),
    CardProd(i64),
    Tr(u8),
}

/// A one-shot effect.
#[derive(Debug, Clone, PartialEq, Eq)]
pub enum Eff {
    Mc(i64),
    Heat(i64),
    Plants(i64),
    Draw(u8),
    McProd(i64),
    HeatProd(i64),
    PlantProd(i64),
    CardProd(i64),
    Temperature(u8),
    Oxygen(u8),
    Ocean(u8),
    Tr(u8),
    Infrastructure(u8),
    PlantsIfTags(Tag, u8, i64),
    TrPerTag(Tag),
    Forest(u8),
    DrawDiscard { draw: u8, discard: u8, from_drawn: bool },
    /// « If you have an Objective, gain … ».
    IfObjective(Vec<ObjectiveGain>),
}

/// A cost reduction carried by a card or a corporation.
#[derive(Debug, Clone, Copy, PartialEq, Eq, Structural)]
pub enum Reduction {
    /// `n` MC off every card that carries the tag.
    Tag(Tag, i64),
    /// `n` MC off every card.
    Global(i64),
    /// `amount` MC off every card whose printed price is at least `min`.
    MinPrice { min: i64, amount: i64 },
    /// `per` MC per unit of know-how off every card that carries the tag.
    PerCapacity { tag: Tag, cap: Capacity, per: i64 },
    /// Pay `count` resources of this card to get `amount` MC off.
    PayResources { kind: ResKind, count: u32, amount: i64 },
    /// Spend `plants` plants to get `amount` MC off.
    PayPlants { plants: i64, amount: i64 },
}

/// Division rounding toward zero, as `/` does on `i64`.
pub open spec fn trunc_div(n: i64, d: i64) -> i64 {
    if n >= 0 { (n as int / d as int) as i64 } else { (-((-(n as int)) / d as int)) as i64 }
}

pub open spec fn seq_has_tag(tags: Seq<Tag>, t: Tag) -> bool {
    exists|i: int| 0 <= i < tags.len() && tags[i] == t
}

/// Does the slice hold the tag?
pub fn has_tag(tags: &[Tag], t: Tag) -> (r: bool)
    ensures r == seq_has_tag(tags@, t),
{
    let mut i: usize = 0;
    while i < tags.len()
        invariant
            i <= tags@.len(),
            forall|k: int| 0 <= k < i ==> tags@[k] != t,
        decreases tags@.len() - i,
    {
        if tags[i] == t {
            return true;
        }
        i = i + 1;
    }
    false
}

impl Reduction {
    /// Fixed amount of this reduction for a card of given tags and printed price.
    pub open spec fn amount_for_spec(self, tags: Seq<Tag>, price: i64) -> int {
        match self {
            Reduction::Tag(t, n) => if seq_has_tag(tags, t) { n as int } else { 0 },
            Reduction::Global(n) => n as int,
            Reduction::MinPrice { min, amount } => if price >= min { amount as int } else { 0 },
            _ => 0,
        }
    }

    /// Fixed amount of this reduction for a card of given tags and printed price.
    pub fn amount_for(self, tags: &[Tag], price: i64) -> (r: i64)
        ensures r == self.amount_for_spec(tags@, price),
    {
        match self {
            Reduction::Tag(t, n) => if has_tag(tags, t) { n } else { 0 },
            Reduction::Global(n) => n,
            Reduction::MinPrice { min, amount } => if price >= min { amount } else { 0 },
            _ => 0,
        }
    }

    /// Know-how units that this reduction stands for: 2 MC per steel on
    /// building cards, 3 MC per titanium on space cards.
    pub open spec fn capacity_units_spec(self) -> Option<(Capacity, i64)> {
        match self {
            Reduction::Tag(Tag::Building, n) => Some((Capacity::Steel, trunc_div(n, 2))),
            Reduction::Tag(Tag::Space, n) => Some((Capacity::Titanium, trunc_div(n, 3))),
            _ => None,
        }
    }

    /// Know-how units that this reduction stands for.
    pub fn capacity_units(self) -> (r: Option<(Capacity, i64)>)
        ensures r == self.capacity_units_spec(),
    {
        match self {
            Reduction::Tag(Tag::Building, n) => Some((Capacity::Steel, n / 2)),
            Reduction::Tag(Tag::Space, n) => Some((Capacity::Titanium, n / 3)),
            _ => None,
        }
    }
}

/// Which tags of a played card set a trigger off.
#[derive(Debug, Clone, PartialEq, Eq)]
pub enum TrigCond {
    /// Every played card, once.
    AnyCard,
    /// Each tag of the played card that is one of these.
    AnyOfTags(Vec<Tag>),
}

/// Number of tags of `tags` that are in `set`.
pub open spec fn count_tags_in(tags: Seq<Tag>, set: Seq<Tag>) -> nat
    decreases tags.len(),
{
    if tags.len() == 0 {
        0
    } else {
        count_tags_in(tags.drop_last(), set) + if seq_has_tag(set, tags.last()) { 1nat } else { 0nat }
    }
}

pub proof fn lemma_count_tags_in_le(tags: Seq<Tag>, set: Seq<Tag>)
    ensures count_tags_in(tags, set) <= tags.len(),
    decreases tags.len(),
{
    if tags.len() > 0 {
        lemma_count_tags_in_le(tags.drop_last(), set);
    }
}

impl TrigCond {
    pub open spec fn matched_spec(&self, tags: Seq<Tag>) -> nat {
        match self {
            TrigCond::AnyCard => 1,
            TrigCond::AnyOfTags(set) => count_tags_in(tags, set@),
        }
    }

    /// How many times does a card of these tags satisfy the condition?
    pub fn matched_tags(&self, tags: &[Tag]) -> (r: usize)
        ensures r == self.matched_spec(tags@), r <= tags@.len() || r == 1,
    {
        match self {
            TrigCond::AnyCard => 1,
            TrigCond::AnyOfTags(set) => {
                let mut k: usize = 0;
                let mut i: usize = 0;
                while i < tags.len()
                    invariant
                        i <= tags@.len(),
                        k == count_tags_in(tags@.subrange(0, i as int), set@),
                        k <= i,
                    decreases tags@.len() - i,
                {
                    proof {
                        assert(tags@.subrange(0, i + 1).drop_last() =~= tags@.subrange(0, i as int));
                    }
                    if has_tag(set.as_slice(), tags[i]) {
                        k = k + 1;
                    }
                    i = i + 1;
                }
                proof { assert(tags@.subrange(0, tags@.len() as int) =~= tags@); }
                k
            }
        }
    }
}

/// Where a resource is put.
#[derive(Debug, Clone, Copy, PartialEq, Eq, Structural)]
pub enum ResTarget {
    SelfCard,
    Another,
    Any,
}

/// How many resources are put.
#[derive(Debug, Clone, Copy, PartialEq, Eq, Structural)]
pub enum ResAmount {
    Fixed(u32),
    /// « 3 microbes or 2 animals »: depends on what the target holds.
    ByKind { microbe: u32, other: u32 },
}

/// « Add n resources to … ».
#[derive(Debug, Clone, PartialEq, Eq)]
pub struct ResPut {
    pub target: ResTarget,
    pub kinds: Vec<ResKind>,
    pub amount: ResAmount,
}

/// An effect that may involve resources on cards.
#[derive(Debug, Clone, PartialEq, Eq)]
pub enum ResEff {
    Gain(Eff),
    /// « Upgrade a Phase card » (the phase imposed by the card, or free).
    PhaseUpgrade(Option<u8>),
    Put(ResPut),
    RemoveSelf(u32),
    RemoveAny(Vec<ResKind>, u32),
}

impl ResEff {
    /// Is this a resource put?
    pub fn is_put(&self) -> (r: bool)
        ensures r == (*self is Put),
    {
        match self {
            ResEff::Put(_) => true,
            _ => false,
        }
    }
}

/// A step of the build effects, in printed order.
#[derive(Debug, Clone, PartialEq, Eq)]
pub enum ResStep {
    Do(ResEff),
    Choose(Vec<Vec<ResEff>>),
}

/// What a trigger gives.
#[derive(Debug, Clone, PartialEq, Eq)]
pub enum TrigGain {
    Heat(i64),
    Plants(i64),
    Tr(u8),
    Draw(u8),
    ResSelf(u32),
    Choose(Vec<Vec<ResEff>>),
    MayDiscardDraw { if_tag: Tag, draw_if: u8, draw_else: u8 },
}

/// « When you play a [tag] … ».
#[derive(Debug, Clone, PartialEq, Eq)]
pub struct PlayTrigger {
    pub cond: TrigCond,
    pub gains: Vec<TrigGain>,
    pub include_self: bool,
    pub scale_by_matched_tags: bool,
}

/// Triggers on global events of the acting player.
#[derive(Debug, Clone, PartialEq, Eq)]
pub enum GlobalTrigger {
    OnRaiseTemperature(Vec<TrigGain>),
    OnFlipOcean(Vec<TrigGain>),
    OnRaiseOxygen(Vec<TrigGain>),
    OnBuildForest(Vec<TrigGain>),
}

/// A player resource named by an action.
#[derive(Debug, Clone, Copy, PartialEq, Eq, Structural)]
pub enum ActionRes {
    Heat,
    Mc,
    Plants,
}

/// A cost of a card action.
#[derive(Debug, Clone, Copy, PartialEq, Eq, Structural)]
pub enum ActionCost {
    Heat(i64),
    Mc(i64),
    Plants(i64),
    DiscardCard(u8),
    Tr(u8),
    McPerCapacity { base: i64, cap: Capacity, per: i64 },
}

/// Which revealed cards may be kept.
#[derive(Debug, Clone, PartialEq, Eq)]
pub enum RevealFilter {
    AnyOfTags(Vec<Tag>),
    ColorIsNot(Color),
}

/// « Reveal the top n cards; take up to `take` matching ones; discard the
/// others for `mc_per_discarded` MC each ».
#[derive(Debug, Clone, PartialEq, Eq)]
pub struct Reveal {
    pub n: u8,
    pub keep: RevealFilter,
    pub take: u8,
    pub mc_per_discarded: i64,
}

/// An effect of a card action.
#[derive(Debug, Clone, PartialEq, Eq)]
pub enum ActionEff {
    Draw(u8),
    Plants(i64),
    Mc(i64),
    Heat(i64),
    Tr(u8),
    Oxygen(u8),
    Temperature(u8),
    Reveal(Reveal),
    Ocean(u8),
    Forest(u8),
    PhaseUpgrade,
    DrawDiscard { draw: u8, discard: u8, from_drawn: bool },
}

/// The action printed on a blue card (or a corporation).
#[derive(Debug, Clone, PartialEq, Eq)]
pub enum Action {
    Fixed { cost: Vec<ActionCost>, effect: Vec<ActionEff> },
    SpendUpTo { spend: ActionRes, gain: ActionRes, cap: i64 },
    HeatToMc,
    FlipOceanTagDiscount { base: i64, per_tag: Tag },
    RaiseTempBlueDiscount { base: i64, threshold: u32, reduction: i64 },
    DiscardDraw(i64),
    Res(Vec<Vec<ResEff>>),
}

/// « If you chose the action phase this round … ».
#[derive(Debug, Clone, PartialEq, Eq)]
pub struct PhaseBonus {
    /// The phase the player must have chosen (0 = none required).
    pub phase: u8,
    /// The revealed Phase card must be upgraded.
    pub require_upgraded: bool,
    /// Replaces the printed cost.
    pub cost: Option<Vec<ActionCost>>,
    pub extra: Vec<ActionEff>,
}

/// What a derived production counts.
#[derive(Debug, Clone, Copy, PartialEq, Eq, Structural)]
pub enum ProdCount {
    Tag(Tag),
    Forests,
}

/// What a derived production yields.
#[derive(Debug, Clone, Copy, PartialEq, Eq, Structural)]
pub enum ProdRes {
    Mc,
    Heat,
    Plants,
}

/// « 1 res per `per` counted things », recomputed at every production.
#[derive(Debug, Clone, Copy, PartialEq, Eq, Structural)]
pub struct DerivedProd {
    pub count: ProdCount,
    pub per: i64,
    pub res: ProdRes,
}

/// Permanent bonus of the research phase.
#[derive(Debug, Clone, Copy, PartialEq, Eq, Structural)]
pub struct ResearchBonus {
    pub draw: usize,
    pub keep: usize,
}

/// A permission to build a card: colours, printed price cap, free or paid.
#[derive(Debug, Clone, Copy, PartialEq, Eq, Structural)]
pub struct BuildGrant {
    pub green: bool,
    pub blue: bool,
    pub red: bool,
    pub max_printed_cost: Option<i64>,
    pub free: bool,
}

impl BuildGrant {
    pub open spec fn admits_spec(&self, color: Color, price: i64) -> bool {
        &&& match color {
            Color::Green => self.green,
            Color::Blue => self.blue,
            Color::Red => self.red,
        }
        &&& match self.max_printed_cost {
            Some(m) => price <= m,
            None => true,
        }
    }

    /// Does the permission admit a card of this colour and printed price?
    pub fn admits(&self, color: Color, price: i64) -> (r: bool)
        ensures r == self.admits_spec(color, price),
    {
        let c = match color {
            Color::Green => self.green,
            Color::Blue => self.blue,
            Color::Red => self.red,
        };
        c && match self.max_printed_cost {
            Some(m) => price <= m,
            None => true,
        }
    }
}

/// Modifier armed for the next card of the phase.
#[derive(Debug, Clone, Copy, PartialEq, Eq, Structural)]
pub struct NextCardMod {
    pub discount: i64,
    pub color_flex: bool,
}

impl NextCardMod {
    pub fn none() -> (r: NextCardMod)
        ensures r.discount == 0, !r.color_flex,
    {
        NextCardMod { discount: 0, color_flex: false }
    }

    /// Nothing armed?
    pub fn is_empty(&self) -> (r: bool)
        ensures r == (self.discount == 0 && !self.color_flex),
    {
        self.discount == 0 && !self.color_flex
    }
}

/// Production printed on a corporation board.
#[derive(Debug, Clone, Copy, PartialEq, Eq, Structural)]
pub struct StartProd {
    pub mc: i64,
    pub heat: i64,
    pub plants: i64,
}

/// « The first time your TR is raised each phase, you may pay … ».
#[derive(Debug, Clone, Copy, PartialEq, Eq, Structural)]
pub struct TrBoost {
    pub cost_mc: i64,
    pub steps: u8,
}

/// Encoded printed effects of a project card.
#[derive(Debug, Clone, PartialEq, Eq)]
pub struct CardEffects {
    pub reqs: Vec<Req>,
    pub effects: Vec<Eff>,
    pub on_build: Vec<ResStep>,
    pub reductions: Vec<Reduction>,
    pub play_triggers: Vec<PlayTrigger>,
    pub global_triggers: Vec<GlobalTrigger>,
    pub action: Option<Action>,
    pub phase_bonus: Option<PhaseBonus>,
    pub prod: Option<DerivedProd>,
    pub research: Option<ResearchBonus>,
    pub discard_bonus: i64,
    pub standard_discount: i64,
    pub req_color_flex: bool,
    pub grants: Vec<BuildGrant>,
    pub next_card: Option<NextCardMod>,
    pub reveal_bonus: Vec<Eff>,
    pub action_trigger: Vec<ActionEff>,
    pub holds: Option<ResKind>,
}

/// Encoded printed effects of a corporation.
#[derive(Debug, Clone, PartialEq, Eq)]
pub struct CorpEffects {
    pub start_prod: StartProd,
    pub start_draw: u8,
    pub setup: Vec<ResEff>,
    pub reductions: Vec<Reduction>,
    pub play_triggers: Vec<PlayTrigger>,
    pub heat_as_mc: bool,
    pub forest_plant_rebate: i64,
    pub tr_boost: Option<TrBoost>,
    pub research: Option<ResearchBonus>,
    pub discard_bonus: i64,
    pub req_color_flex: bool,
    pub action: Option<Action>,
    pub phase_bonus: Option<PhaseBonus>,
}

/// An effect that raises no global parameter (those set off triggers).
pub open spec fn eff_basic(e: Eff) -> bool {
    !(e is Temperature || e is Oxygen || e is Ocean || e is Forest)
}

pub open spec fn res_eff_basic(e: ResEff) -> bool {
    e matches ResEff::Gain(g) ==> eff_basic(g)
}

/// Every effect of every branch raises no global parameter.
pub open spec fn branches_basic(bs: Seq<Vec<ResEff>>) -> bool {
    forall|i: int, j: int| 0 <= i < bs.len() && 0 <= j < bs[i]@.len() ==> res_eff_basic(#[trigger] bs[i]@[j])
}

pub open spec fn trig_gain_basic(g: TrigGain) -> bool {
    g matches TrigGain::Choose(bs) ==> branches_basic(bs@)
}

/// Trigger gains raise no global parameter: a trigger never sets off
/// another trigger.
pub open spec fn gains_basic(gs: Seq<TrigGain>) -> bool {
    forall|i: int| 0 <= i < gs.len() ==> trig_gain_basic(#[trigger] gs[i])
}

pub open spec fn global_trigger_gains(t: GlobalTrigger) -> Seq<TrigGain> {
    match t {
        GlobalTrigger::OnRaiseTemperature(gs) => gs@,
        GlobalTrigger::OnFlipOcean(gs) => gs@,
        GlobalTrigger::OnRaiseOxygen(gs) => gs@,
        GlobalTrigger::OnBuildForest(gs) => gs@,
    }
}

/// A reduction paid with resources or plants takes MC off, never adds.
pub open spec fn reduction_sound(r: Reduction) -> bool {
    &&& (r matches Reduction::PayResources { amount, .. } ==> amount >= 0)
    &&& (r matches Reduction::PayPlants { amount, .. } ==> amount >= 0)
}

/// Encoding rules of a project card: its triggers set off no trigger, its
/// paid reductions are reductions.
pub open spec fn card_sound(e: CardEffects) -> bool {
    &&& forall|i: int| 0 <= i < e.play_triggers@.len() ==> gains_basic((#[trigger] e.play_triggers@[i]).gains@)
    &&& forall|i: int| 0 <= i < e.global_triggers@.len() ==> gains_basic(global_trigger_gains(#[trigger] e.global_triggers@[i]))
    &&& forall|i: int| 0 <= i < e.reductions@.len() ==> reduction_sound(#[trigger] e.reductions@[i])
}

/// A gain a corporation trigger can give: a corporation is no card in play,
/// it holds no resource.
pub open spec fn corp_gain_ok(g: TrigGain) -> bool {
    !(g is ResSelf || g is Choose)
}

/// Encoding rules of a corporation: its setup only upgrades a Phase card or
/// gains, its triggers hold no resource and set off no trigger.
pub open spec fn corp_sound(e: CorpEffects) -> bool {
    &&& forall|i: int| 0 <= i < e.setup@.len() ==> ((#[trigger] e.setup@[i]) is PhaseUpgrade || e.setup@[i] is Gain)
    &&& forall|i: int, j: int| 0 <= i < e.play_triggers@.len() && 0 <= j < e.play_triggers@[i].gains@.len()
        ==> corp_gain_ok(#[trigger] e.play_triggers@[i].gains@[j])
    &&& forall|i: int| 0 <= i < e.reductions@.len() ==> reduction_sound(#[trigger] e.reductions@[i])
}

/// Colour band of a temperature level (violet, red, yellow, white).
pub open spec fn temp_color_spec(level: u8) -> u8 {
    if level <= 5 { 0 } else if level <= 10 { 1 } else if level <= 15 { 2 } else { 3 }
}

/// Colour band of an oxygen level (violet, red, yellow, white).
pub open spec fn oxy_color_spec(level: u8) -> u8 {
    if level <= 3 { 0 } else if level <= 7 { 1 } else if level <= 11 { 2 } else { 3 }
}

/// Colour band of a temperature level.
pub fn temp_color(level: u8) -> (r: u8)
    ensures r == temp_color_spec(level),
{
    if level <= 5 { 0 } else if level <= 10 { 1 } else if level <= 15 { 2 } else { 3 }
}

/// Colour band of an oxygen level.
pub fn oxy_color(level: u8) -> (r: u8)
    ensures r == oxy_color_spec(level),
{
    if level <= 3 { 0 } else if level <= 7 { 1 } else if level <= 11 { 2 } else { 3 }
}

} // verus!

verus! {

/// One branch of a Phase card's selector bonus.
#[derive(Debug, Clone, PartialEq, Eq)]
pub struct SelectorGrant {
    pub mc_discount: i64,
    pub mc: i64,
    pub draw: u8,
    pub extra_activations: u8,
    pub builds: Vec<BuildGrant>,
    pub research_draw: usize,
    pub research_keep: usize,
    pub reveal: Option<Reveal>,
    pub replay_green_prod: bool,
}

/// A Phase card: its printed name and its bonus branches (several = « or »).
#[derive(Debug, Clone, PartialEq, Eq)]
pub struct SelectorSpec {
    pub name: &'static str,
    pub branches: Vec<SelectorGrant>,
}

/// An empty bonus branch.
pub fn grant_none() -> (r: SelectorGrant)
    ensures
        r.mc_discount == 0 && r.mc == 0 && r.draw == 0 && r.extra_activations == 0,
        r.builds@.len() == 0 && r.research_draw == 0 && r.research_keep == 0,
        r.reveal is None && !r.replay_green_prod,
{
    SelectorGrant {
        mc_discount: 0,
        mc: 0,
        draw: 0,
        extra_activations: 0,
        builds: Vec::new(),
        research_draw: 0,
        research_keep: 0,
        reveal: None,
        replay_green_prod: false,
    }
}

/// Permission of any colour, no price cap, paid.
pub open spec fn grant_color(green: bool, blue: bool, red: bool) -> BuildGrant {
    BuildGrant { green, blue, red, max_printed_cost: None, free: false }
}

/// The empty Phase card (no phase asked): one branch that grants nothing.
pub fn selector_spec_none() -> (r: SelectorSpec)
    ensures
        r.branches@.len() == 1,
        r.branches@[0].mc_discount == 0 && r.branches@[0].mc == 0,
        r.branches@[0].draw == 0 && r.branches@[0].extra_activations == 0,
        r.branches@[0].builds@.len() == 0,
        r.branches@[0].research_draw == 0 && r.branches@[0].research_keep == 0,
        r.branches@[0].reveal is None && !r.branches@[0].replay_green_prod,
{
    SelectorSpec { name: "", branches: vec![grant_none()] }
}

/// A bonus branch with the given fields.
fn grant(mc_discount: i64, mc: i64, draw: u8, extra_activations: u8, builds: Vec<BuildGrant>,
    research_draw: usize, research_keep: usize, reveal: Option<Reveal>, replay_green_prod: bool) -> (r: SelectorGrant)
    ensures
        r.mc_discount == mc_discount && r.mc == mc && r.draw == draw,
        r.extra_activations == extra_activations && r.builds == builds,
        r.research_draw == research_draw && r.research_keep == research_keep,
        r.reveal == reveal && r.replay_green_prod == replay_green_prod,
{
    SelectorGrant { mc_discount, mc, draw, extra_activations, builds, research_draw, research_keep, reveal, replay_green_prod }
}

/// Paid permission of the given colours, no price cap.
pub fn grant_colors(green: bool, blue: bool, red: bool) -> (r: BuildGrant)
    ensures r == grant_color(green, blue, red),
{
    BuildGrant { green, blue, red, max_printed_cost: None, free: false }
}

/// The ordinary build of the Development phase: one green card, paid.
pub fn grant_development() -> (r: BuildGrant)
    ensures r == grant_color(true, false, false),
{
    grant_colors(true, false, false)
}

/// The ordinary build of the Construction phase: one blue or red card, paid.
pub fn grant_construction() -> (r: BuildGrant)
    ensures r == grant_color(false, true, true),
{
    grant_colors(false, true, true)
}

/// Every branch of a Phase card exists and holds at most one build.
pub open spec fn spec_shape_ok(s: SelectorSpec) -> bool {
    &&& 1 <= s.branches@.len() <= 2
    &&& forall|i: int| 0 <= i < s.branches@.len() ==> s.branches@[i].builds@.len() <= 1
}

/// Branch `i` of a Phase card grants exactly the given amounts and builds.
pub open spec fn branch_is(s: SelectorSpec, i: int, mc_discount: i64, mc: i64, draw: u8, extra: u8,
    builds: Seq<BuildGrant>, research_draw: usize, research_keep: usize, reveal: Option<Reveal>, replay: bool) -> bool {
    let g = s.branches@[i];
    &&& g.mc_discount == mc_discount && g.mc == mc && g.draw == draw && g.extra_activations == extra
    &&& g.builds@ == builds && g.research_draw == research_draw && g.research_keep == research_keep
    &&& g.reveal == reveal && g.replay_green_prod == replay
}

/// The reveal of the upgraded Action card: 3 cards, take one that is not green.
pub open spec fn reveal_3a() -> Reveal {
    Reveal { n: 3, keep: RevealFilter::ColorIsNot(Color::Green), take: 1, mc_per_discarded: 0 }
}

/// The printed bonus of Phase card `phase`, normal (`up == None`) or upgraded.
///
/// I: 3 MC off the card built. II: draw a card, or build a second blue or
/// red card. III: one more blue-card activation. IV: 4 MC. V: 3 more cards
/// drawn, 1 more kept. I-A: 6 MC off. I-B: 3 MC off and a second green
/// card. II-A: draw a card and build a second blue or red card. II-B: a
/// second blue or red card, or 6 MC. III-A: one more activation, and reveal
/// 3 cards, take one that is not green. III-B: two more activations. IV-A:
/// the production of one green card once more. IV-B: 4 MC. V-A: 2 more
/// drawn, 2 more kept. V-B: 6 more drawn, 1 more kept.
pub open spec fn phase_card_ok(s: SelectorSpec, phase: u8, up: Option<PhaseUpgrade>) -> bool {
    let none = Seq::<BuildGrant>::empty();
    let green = seq![grant_color(true, false, false)];
    let blue_red = seq![grant_color(false, true, true)];
    &&& spec_shape_ok(s)
    &&& match up {
        None => {
            if phase == 1 { s.branches@.len() == 1 && branch_is(s, 0, 3, 0, 0, 0, none, 0, 0, None, false) }
            else if phase == 2 { s.branches@.len() == 2 && branch_is(s, 0, 0, 0, 1, 0, none, 0, 0, None, false)
                && branch_is(s, 1, 0, 0, 0, 0, blue_red, 0, 0, None, false) }
            else if phase == 3 { s.branches@.len() == 1 && branch_is(s, 0, 0, 0, 0, 1, none, 0, 0, None, false) }
            else if phase == 4 { s.branches@.len() == 1 && branch_is(s, 0, 0, 4, 0, 0, none, 0, 0, None, false) }
            else { s.branches@.len() == 1 && branch_is(s, 0, 0, 0, 0, 0, none, 3, 1, None, false) }
        },
        Some(PhaseUpgrade::VariantA) => {
            if phase == 1 { s.branches@.len() == 1 && branch_is(s, 0, 6, 0, 0, 0, none, 0, 0, None, false) }
            else if phase == 2 { s.branches@.len() == 1 && branch_is(s, 0, 0, 0, 1, 0, blue_red, 0, 0, None, false) }
            else if phase == 3 { s.branches@.len() == 1 && branch_is(s, 0, 0, 0, 0, 1, none, 0, 0, Some(reveal_3a()), false) }
            else if phase == 4 { s.branches@.len() == 1 && branch_is(s, 0, 0, 0, 0, 0, none, 0, 0, None, true) }
            else { s.branches@.len() == 1 && branch_is(s, 0, 0, 0, 0, 0, none, 2, 2, None, false) }
        },
        Some(PhaseUpgrade::VariantB) => {
            if phase == 1 { s.branches@.len() == 1 && branch_is(s, 0, 3, 0, 0, 0, green, 0, 0, None, false) }
            else if phase == 2 { s.branches@.len() == 2 && branch_is(s, 0, 0, 0, 0, 0, blue_red, 0, 0, None, false)
                && branch_is(s, 1, 0, 6, 0, 0, none, 0, 0, None, false) }
            else if phase == 3 { s.branches@.len() == 1 && branch_is(s, 0, 0, 0, 0, 2, none, 0, 0, None, false) }
            else if phase == 4 { s.branches@.len() == 1 && branch_is(s, 0, 0, 4, 0, 0, none, 0, 0, None, false) }
            else { s.branches@.len() == 1 && branch_is(s, 0, 0, 0, 0, 0, none, 6, 1, None, false) }
        },
    }
}

/// The Phase card of phase `phase` (1..=5), not upgraded.
pub fn phase_base(phase: u8) -> (r: SelectorSpec)
    requires 1 <= phase <= 5,
    ensures phase_card_ok(r, phase, None),
{
    let b = if phase == 1 {
        vec![grant(3, 0, 0, 0, Vec::new(), 0, 0, None, false)]
    } else if phase == 2 {
        vec![grant(0, 0, 1, 0, Vec::new(), 0, 0, None, false),
            grant(0, 0, 0, 0, vec![grant_construction()], 0, 0, None, false)]
    } else if phase == 3 {
        vec![grant(0, 0, 0, 1, Vec::new(), 0, 0, None, false)]
    } else if phase == 4 {
        vec![grant(0, 4, 0, 0, Vec::new(), 0, 0, None, false)]
    } else {
        vec![grant(0, 0, 0, 0, Vec::new(), 3, 1, None, false)]
    };
    let name: &'static str = if phase == 1 {
        "Développement"
    } else if phase == 2 {
        "Construction"
    } else if phase == 3 {
        "Action"
    } else if phase == 4 {
        "Production"
    } else {
        "Recherche"
    };
    proof {
        assert forall|k: int| 0 <= k < b@.len() implies
            (b@[k].builds@ =~= Seq::<BuildGrant>::empty() || b@[k].builds@ =~= seq![grant_color(false, true, true)]) by {}
        if phase == 2 {
            assert(b@[0].builds@ =~= Seq::<BuildGrant>::empty());
            assert(b@[1].builds@ =~= seq![grant_color(false, true, true)]);
        } else {
            assert(b@[0].builds@ =~= Seq::<BuildGrant>::empty());
        }
    }
    SelectorSpec { name, branches: b }
}

/// The upgraded Phase card of phase `phase` (1..=5), variant A or B
/// (`b == false` or `true`).
pub fn phase_upgraded(phase: u8, b: bool) -> (r: SelectorSpec)
    requires 1 <= phase <= 5,
    ensures phase_card_ok(r, phase, Some(if b { PhaseUpgrade::VariantB } else { PhaseUpgrade::VariantA })),
{
    let g: Vec<SelectorGrant> = if phase == 1 {
        if !b {
            vec![grant(6, 0, 0, 0, Vec::new(), 0, 0, None, false)]
        } else {
            vec![grant(3, 0, 0, 0, vec![grant_development()], 0, 0, None, false)]
        }
    } else if phase == 2 {
        if !b {
            vec![grant(0, 0, 1, 0, vec![grant_construction()], 0, 0, None, false)]
        } else {
            vec![grant(0, 0, 0, 0, vec![grant_construction()], 0, 0, None, false),
                grant(0, 6, 0, 0, Vec::new(), 0, 0, None, false)]
        }
    } else if phase == 3 {
        if !b {
            let r = Reveal { n: 3, keep: RevealFilter::ColorIsNot(Color::Green), take: 1, mc_per_discarded: 0 };
            vec![grant(0, 0, 0, 1, Vec::new(), 0, 0, Some(r), false)]
        } else {
            vec![grant(0, 0, 0, 2, Vec::new(), 0, 0, None, false)]
        }
    } else if phase == 4 {
        if !b {
            vec![grant(0, 0, 0, 0, Vec::new(), 0, 0, None, true)]
        } else {
            vec![grant(0, 4, 0, 0, Vec::new(), 0, 0, None, false)]
        }
    } else {
        if !b {
            vec![grant(0, 0, 0, 0, Vec::new(), 2, 2, None, false)]
        } else {
            vec![grant(0, 0, 0, 0, Vec::new(), 6, 1, None, false)]
        }
    };
    let name: &'static str = match (phase, b) {
        (1, false) => "Développement A",
        (1, true) => "Développement B",
        (2, false) => "Construction A",
        (2, true) => "Construction B",
        (3, false) => "Action A",
        (3, true) => "Action B",
        (4, false) => "Production A",
        (4, true) => "Production B",
        (_, false) => "Recherche A",
        (_, true) => "Recherche B",
    };
    proof {
        if phase == 1 && b {
            assert(g@[0].builds@ =~= seq![grant_color(true, false, false)]);
        } else if phase == 2 {
            assert(g@[0].builds@ =~= seq![grant_color(false, true, true)]);
            if b {
                assert(g@[1].builds@ =~= Seq::<BuildGrant>::empty());
            }
        } else {
            assert(g@[0].builds@ =~= Seq::<BuildGrant>::empty());
        }
    }
    SelectorSpec { name, branches: g }
}


// ------------------------------------------------- checking the encoding

/// Does the effect raise no global parameter?
pub fn eff_is_basic(e: &Eff) -> (r: bool)
    ensures r == eff_basic(*e),
{
    match e {
        Eff::Temperature(_) | Eff::Oxygen(_) | Eff::Ocean(_) | Eff::Forest(_) => false,
        _ => true,
    }
}

/// Every effect of every branch raises no global parameter?
pub fn branches_are_basic(bs: &Vec<Vec<ResEff>>) -> (r: bool)
    ensures r == branches_basic(bs@),
{
    let mut i: usize = 0;
    while i < bs.len()
        invariant
            i <= bs@.len(),
            forall|a: int, b: int| 0 <= a < i && 0 <= b < bs@[a]@.len() ==> res_eff_basic(#[trigger] bs@[a]@[b]),
        decreases bs@.len() - i,
    {
        let mut j: usize = 0;
        while j < bs[i].len()
            invariant
                i < bs@.len(), j <= bs@[i as int]@.len(),
                forall|a: int, b: int| 0 <= a < i && 0 <= b < bs@[a]@.len() ==> res_eff_basic(#[trigger] bs@[a]@[b]),
                forall|b: int| 0 <= b < j ==> res_eff_basic(#[trigger] bs@[i as int]@[b]),
            decreases bs@[i as int]@.len() - j,
        {
            let ok = match &bs[i][j] {
                ResEff::Gain(g) => eff_is_basic(g),
                _ => true,
            };
            if !ok {
                assert(!res_eff_basic(bs@[i as int]@[j as int]));
                return false;
            }
            j = j + 1;
        }
        i = i + 1;
    }
    true
}

/// Does the gain raise no global parameter?
pub fn trig_gain_is_basic(g: &TrigGain) -> (r: bool)
    ensures r == trig_gain_basic(*g),
{
    match g {
        TrigGain::Choose(bs) => branches_are_basic(bs),
        _ => true,
    }
}

/// Do the gains raise no global parameter?
pub fn gains_are_basic(gs: &Vec<TrigGain>) -> (r: bool)
    ensures r == gains_basic(gs@),
{
    let mut i: usize = 0;
    while i < gs.len()
        invariant i <= gs@.len(), forall|k: int| 0 <= k < i ==> trig_gain_basic(#[trigger] gs@[k]),
        decreases gs@.len() - i,
    {
        if !trig_gain_is_basic(&gs[i]) {
            return false;
        }
        i = i + 1;
    }
    true
}

/// Is the reduction a reduction?
pub fn reduction_is_sound(r: &Reduction) -> (b: bool)
    ensures b == reduction_sound(*r),
{
    match r {
        Reduction::PayResources { amount, .. } => *amount >= 0,
        Reduction::PayPlants { amount, .. } => *amount >= 0,
        _ => true,
    }
}

/// Are the reductions reductions?
pub fn reductions_are_sound(rs: &Vec<Reduction>) -> (b: bool)
    ensures b == forall|i: int| 0 <= i < rs@.len() ==> reduction_sound(#[trigger] rs@[i]),
{
    let mut i: usize = 0;
    while i < rs.len()
        invariant i <= rs@.len(), forall|k: int| 0 <= k < i ==> reduction_sound(#[trigger] rs@[k]),
        decreases rs@.len() - i,
    {
        if !reduction_is_sound(&rs[i]) {
            return false;
        }
        i = i + 1;
    }
    true
}

/// The gains of a global trigger.
fn global_gains(t: &GlobalTrigger) -> (r: &Vec<TrigGain>)
    ensures r@ == global_trigger_gains(*t),
{
    match t {
        GlobalTrigger::OnRaiseTemperature(gs) => gs,
        GlobalTrigger::OnFlipOcean(gs) => gs,
        GlobalTrigger::OnRaiseOxygen(gs) => gs,
        GlobalTrigger::OnBuildForest(gs) => gs,
    }
}

/// Does a card's encoding follow the rules (`card_sound`)?
pub fn card_is_sound(e: &CardEffects) -> (r: bool)
    ensures r == card_sound(*e),
{
    let mut i: usize = 0;
    while i < e.play_triggers.len()
        invariant i <= e.play_triggers@.len(),
            forall|k: int| 0 <= k < i ==> gains_basic((#[trigger] e.play_triggers@[k]).gains@),
        decreases e.play_triggers@.len() - i,
    {
        if !gains_are_basic(&e.play_triggers[i].gains) {
            return false;
        }
        i = i + 1;
    }
    let mut j: usize = 0;
    while j < e.global_triggers.len()
        invariant j <= e.global_triggers@.len(),
            forall|k: int| 0 <= k < j ==> gains_basic(global_trigger_gains(#[trigger] e.global_triggers@[k])),
        decreases e.global_triggers@.len() - j,
    {
        if !gains_are_basic(global_gains(&e.global_triggers[j])) {
            return false;
        }
        j = j + 1;
    }
    reductions_are_sound(&e.reductions)
}

/// Does a corporation's encoding follow the rules (`corp_sound`)?
pub fn corp_is_sound(e: &CorpEffects) -> (r: bool)
    ensures r == corp_sound(*e),
{
    let mut i: usize = 0;
    while i < e.setup.len()
        invariant i <= e.setup@.len(),
            forall|k: int| 0 <= k < i ==> ((#[trigger] e.setup@[k]) is PhaseUpgrade || e.setup@[k] is Gain),
        decreases e.setup@.len() - i,
    {
        match &e.setup[i] {
            ResEff::PhaseUpgrade(_) | ResEff::Gain(_) => {}
            _ => return false,
        }
        i = i + 1;
    }
    let mut a: usize = 0;
    while a < e.play_triggers.len()
        invariant
            a <= e.play_triggers@.len(),
            forall|x: int, y: int| 0 <= x < a && 0 <= y < e.play_triggers@[x].gains@.len()
                ==> corp_gain_ok(#[trigger] e.play_triggers@[x].gains@[y]),
        decreases e.play_triggers@.len() - a,
    {
        let gs = &e.play_triggers[a].gains;
        let mut b: usize = 0;
        while b < gs.len()
            invariant
                a < e.play_triggers@.len(), gs@ == e.play_triggers@[a as int].gains@, b <= gs@.len(),
                forall|x: int, y: int| 0 <= x < a && 0 <= y < e.play_triggers@[x].gains@.len()
                    ==> corp_gain_ok(#[trigger] e.play_triggers@[x].gains@[y]),
                forall|y: int| 0 <= y < b ==> corp_gain_ok(#[trigger] e.play_triggers@[a as int].gains@[y]),
            decreases gs@.len() - b,
        {
            match &gs[b] {
                TrigGain::ResSelf(_) | TrigGain::Choose(_) => return false,
                _ => {}
            }
            b = b + 1;
        }
        a = a + 1;
    }
    reductions_are_sound(&e.reductions)
}

} // verus!
