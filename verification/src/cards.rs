//! The card database: project cards, corporations, tags and colours.

use vstd::prelude::*;
use crate::effects::{CardEffects, CorpEffects, ResKind};

verus! {

/// Number of countable tags (the joker is not one of them).
pub const TAG_COUNT: usize = 10;

/// A tag printed on a card.
#[derive(Debug, Clone, Copy, PartialEq, Eq, Structural)]
pub enum Tag {
    Building,
    Space,
    Power,
    Science,
    Jupiter,
    Earth,
    Plant,
    Microbe,
    Animal,
    Event,
    /// The joker tag: it stands for the tag its owner chooses.
    Joker,
}

/// The ten tags a joker can become, in the order of `Tag::index`.
pub open spec fn joker_choice(i: int) -> Tag {
    if i == 0 { Tag::Building }
    else if i == 1 { Tag::Space }
    else if i == 2 { Tag::Power }
    else if i == 3 { Tag::Science }
    else if i == 4 { Tag::Jupiter }
    else if i == 5 { Tag::Earth }
    else if i == 6 { Tag::Plant }
    else if i == 7 { Tag::Microbe }
    else if i == 8 { Tag::Animal }
    else { Tag::Event }
}

/// The ten tags a joker can become, in the order of `Tag::index`.
pub fn joker_tag_choices() -> (r: Vec<Tag>)
    ensures
        r@.len() == TAG_COUNT,
        forall|i: int| 0 <= i < TAG_COUNT ==> r@[i] == joker_choice(i),
{
    vec![Tag::Building, Tag::Space, Tag::Power, Tag::Science, Tag::Jupiter,
        Tag::Earth, Tag::Plant, Tag::Microbe, Tag::Animal, Tag::Event]
}

/// Counter slot of a tag; the joker has none.
pub open spec fn tag_index(t: Tag) -> Option<usize> {
    match t {
        Tag::Building => Some(0usize),
        Tag::Space => Some(1usize),
        Tag::Power => Some(2usize),
        Tag::Science => Some(3usize),
        Tag::Jupiter => Some(4usize),
        Tag::Earth => Some(5usize),
        Tag::Plant => Some(6usize),
        Tag::Microbe => Some(7usize),
        Tag::Animal => Some(8usize),
        Tag::Event => Some(9usize),
        Tag::Joker => None,
    }
}

impl Tag {
    /// The tag's name as printed on the command line and in reports.
    pub open spec fn name_spec(self) -> Seq<char> {
        match self {
            Tag::Building => "BUILDING"@,
            Tag::Space => "SPACE"@,
            Tag::Power => "POWER"@,
            Tag::Science => "SCIENCE"@,
            Tag::Jupiter => "JUPITER"@,
            Tag::Earth => "EARTH"@,
            Tag::Plant => "PLANT"@,
            Tag::Microbe => "MICROBE"@,
            Tag::Animal => "ANIMAL"@,
            Tag::Event => "EVENT"@,
            Tag::Joker => "JOKER"@,
        }
    }

    /// The tag's name as printed on the command line and in reports.
    pub fn as_str(self) -> (r: &'static str)
        ensures r@ == self.name_spec(),
    {
        match self {
            Tag::Building => "BUILDING",
            Tag::Space => "SPACE",
            Tag::Power => "POWER",
            Tag::Science => "SCIENCE",
            Tag::Jupiter => "JUPITER",
            Tag::Earth => "EARTH",
            Tag::Plant => "PLANT",
            Tag::Microbe => "MICROBE",
            Tag::Animal => "ANIMAL",
            Tag::Event => "EVENT",
            Tag::Joker => "JOKER",
        }
    }

    /// Counter slot of this tag (`None` for the joker).
    pub fn index(self) -> (r: Option<usize>)
        ensures
            r == tag_index(self),
            r matches Some(i) ==> i < TAG_COUNT,
    {
        match self {
            Tag::Building => Some(0),
            Tag::Space => Some(1),
            Tag::Power => Some(2),
            Tag::Science => Some(3),
            Tag::Jupiter => Some(4),
            Tag::Earth => Some(5),
            Tag::Plant => Some(6),
            Tag::Microbe => Some(7),
            Tag::Animal => Some(8),
            Tag::Event => Some(9),
            Tag::Joker => None,
        }
    }

    /// Is this the joker tag?
    pub fn is_joker(self) -> (r: bool)
        ensures r == (self == Tag::Joker),
    {
        match self {
            Tag::Joker => true,
            _ => false,
        }
    }
}

/// Project card colour.
#[derive(Debug, Clone, Copy, PartialEq, Eq, Structural)]
pub enum Color {
    Green,
    Blue,
    Red,
}

pub open spec fn color_index(c: Color) -> usize {
    match c {
        Color::Green => 0usize,
        Color::Blue => 1usize,
        Color::Red => 2usize,
    }
}

impl Color {
    /// Counter slot of the colour (green 0, blue 1, red 2).
    pub fn index(self) -> (r: usize)
        ensures r == color_index(self), r < 3,
    {
        match self {
            Color::Green => 0,
            Color::Blue => 1,
            Color::Red => 2,
        }
    }
}

/// What a dynamic victory-point count is about.
#[derive(Debug, Clone, Copy, PartialEq, Eq, Structural)]
pub enum VpKind {
    Jupiter,
    Earth,
    Forest,
    BlueCard,
    AnyCard,
    Animal,
    Microbe,
    Science,
    Unsupported,
}

/// `points` VP for every `resources` counted things.
#[derive(Debug, Clone, Copy, PartialEq, Eq, Structural)]
pub struct VpDynamic {
    pub kind: VpKind,
    pub points: i64,
    pub resources: i64,
}

/// A project card.
#[derive(Debug, Clone)]
pub struct ProjectCard {
    pub name: String,
    pub price: i64,
    pub color: Color,
    pub tags: Vec<Tag>,
    pub vp: i64,
    pub vp_dynamic: Option<VpDynamic>,
    /// Part of the draw pile of the boxes in play.
    pub in_deck: bool,
    /// Encoded printed effects, `None` for a card without encoding.
    pub effect: Option<CardEffects>,
}

impl ProjectCard {
    /// The kind of resource this card holds, if any.
    pub open spec fn holds_spec(&self) -> Option<ResKind> {
        match self.effect {
            Some(e) => e.holds,
            None => None,
        }
    }

    /// The kind of resource this card holds, if any.
    pub fn holds(&self) -> (r: Option<ResKind>)
        ensures r == self.holds_spec(),
    {
        match &self.effect {
            Some(e) => e.holds,
            None => None,
        }
    }

    /// Are all printed powers of this card applied by the engine?
    pub fn effets_geres(&self) -> (r: bool)
        ensures r == self.effect.is_some(),
    {
        self.effect.is_some()
    }
}

/// A corporation board.
#[derive(Debug, Clone)]
pub struct Corporation {
    pub name: String,
    pub starting_mc: i64,
    pub tags: Vec<Tag>,
    pub effect: Option<CorpEffects>,
}

/// Boxes (base game, Discovery expansion).
#[derive(Debug, Clone, Copy, PartialEq, Eq, Structural)]
pub enum Boite {
    Base,
    Decouverte,
}

/// The set of boxes in play.
#[derive(Debug, Clone, Copy, PartialEq, Eq, Structural)]
pub struct BoiteSet {
    pub base: bool,
    pub decouverte: bool,
}

impl BoiteSet {
    /// Is box `b` in play?
    pub fn contains(&self, b: Boite) -> (r: bool)
        ensures r == match b { Boite::Base => self.base, Boite::Decouverte => self.decouverte },
    {
        match b {
            Boite::Base => self.base,
            Boite::Decouverte => self.decouverte,
        }
    }
}

/// The whole card database.
#[derive(Debug, Clone)]
pub struct CardsDb {
    pub projects: Vec<ProjectCard>,
    pub corporations: Vec<Corporation>,
    /// Is the card effect layer on? Off = the bare rules skeleton.
    pub effects_on: bool,
    pub boites: BoiteSet,
    /// Number of project cards dealt in a game (conservation of cards).
    pub deck_project_count: usize,
}

/// Same text?
pub fn same_text(a: &str, b: &str) -> (r: bool)
    ensures r == (a@ == b@),
{
    let n = a.unicode_len();
    let m = b.unicode_len();
    if n != m {
        return false;
    }
    let mut i: usize = 0;
    while i < n
        invariant
            n == a@.len(),
            m == b@.len(),
            n == m,
            i <= n,
            forall|k: int| 0 <= k < i ==> a@[k] == b@[k],
        decreases n - i,
    {
        if a.get_char(i) != b.get_char(i) {
            return false;
        }
        i = i + 1;
    }
    assert(a@ =~= b@);
    true
}

/// Project cards of the game's boxes among the first `n`.
pub open spec fn in_deck_upto(db: &CardsDb, n: int) -> Seq<u16>
    decreases n,
{
    if n <= 0 {
        Seq::empty()
    } else {
        let prev = in_deck_upto(db, n - 1);
        if db.projects@[n - 1].in_deck { prev.push((n - 1) as u16) } else { prev }
    }
}

/// Number of project cards dealt in a game.
pub open spec fn in_deck_count(db: &CardsDb) -> int {
    in_deck_upto(db, db.projects@.len() as int).len() as int
}

/// Builds the database of a game: its cards, its corporations, the effect
/// layer on or off, the boxes in play; the number of cards dealt is the
/// number of project cards in the draw pile.
pub fn new_db(projects: Vec<ProjectCard>, corporations: Vec<Corporation>, effects_on: bool, boites: BoiteSet) -> (r: CardsDb)
    ensures
        r.projects@ == projects@, r.corporations@ == corporations@, r.effects_on == effects_on,
        r.boites == boites,
        r.deck_project_count as int == in_deck_count(&r),
{
    let mut n: usize = 0;
    let mut i: usize = 0;
    while i < projects.len()
        invariant
            i <= projects@.len(),
            n as int == in_deck_upto_seq(projects@, i as int).len(),
            n <= i,
        decreases projects@.len() - i,
    {
        if projects[i].in_deck {
            n = n + 1;
        }
        i = i + 1;
    }
    let r = CardsDb { projects, corporations, effects_on, boites, deck_project_count: n };
    proof { lemma_in_deck_upto_seq(&r, r.projects@.len() as int); }
    r
}

/// The ids of the project cards in the draw pile among the first `n`.
pub open spec fn in_deck_upto_seq(projects: Seq<ProjectCard>, n: int) -> Seq<u16>
    decreases n,
{
    if n <= 0 {
        Seq::empty()
    } else {
        let prev = in_deck_upto_seq(projects, n - 1);
        if projects[n - 1].in_deck { prev.push((n - 1) as u16) } else { prev }
    }
}

proof fn lemma_in_deck_upto_seq(db: &CardsDb, n: int)
    ensures in_deck_upto(db, n) == in_deck_upto_seq(db.projects@, n),
    decreases n,
{
    if n > 0 {
        lemma_in_deck_upto_seq(db, n - 1);
    }
}

impl CardsDb {
    /// Ids fit in `u16`.
    pub open spec fn wf(&self) -> bool {
        &&& self.projects@.len() <= 65536
        &&& self.corporations@.len() <= 65536
    }

    /// The card that `name` designates: the first card of the draw pile
    /// with that name (variants of the same name outside the pile are never
    /// chosen).
    pub open spec fn resolves_to(&self, name: Seq<char>, i: int) -> bool {
        &&& 0 <= i < self.projects@.len()
        &&& self.projects@[i].name@ == name
        &&& self.projects@[i].in_deck
        &&& forall|j: int| 0 <= j < i ==> !(self.projects@[j].name@ == name && self.projects@[j].in_deck)
    }

    /// Resolve a card name.
    pub fn resolve_card(&self, name: &str) -> (r: Option<u16>)
        ensures
            r matches Some(i) ==> self.resolves_to(name@, i as int),
            r is None ==> forall|j: int| 0 <= j < self.projects@.len() && j < 65536 ==>
                !(self.projects@[j].name@ == name@ && self.projects@[j].in_deck),
    {
        let n = self.projects.len();
        let mut i: usize = 0;
        while i < n && i < 65536
            invariant
                n == self.projects@.len(),
                i <= n,
                forall|j: int| 0 <= j < i ==> !(self.projects@[j].name@ == name@ && self.projects@[j].in_deck),
            decreases n - i,
        {
            if self.projects[i].in_deck && same_text(self.projects[i].name.as_str(), name) {
                return Some(i as u16);
            }
            i = i + 1;
        }
        None
    }
}

} // verus!
