//! The text-log grammar: its ordered pattern rules, the trailer
//! sub-grammar, and the tables that map words of the log to values.

use vstd::prelude::*;
use crate::message::{
    CRIT,
    CRUSHING,
    DEFLECT,
    DODGE,
    EVADE,
    FULL_ABSORB,
    FULL_BLOCK,
    FULL_RESIST,
    GLANCING,
    HIT,
    PARRY,
    PARTIAL_ABSORB,
    PARTIAL_BLOCK,
    PARTIAL_RESIST,
    SCHOOL_ARCANE,
    SCHOOL_FIRE,
    SCHOOL_FROST,
    SCHOOL_HOLY,
    SCHOOL_NATURE,
    SCHOOL_PHYSICAL,
    SCHOOL_SHADOW,
};
use crate::text::{parse_u32, parse_u32_spec, str_eq};

verus! {

/// The capture groups of the first match of a regular expression in a
/// text: group 0 is the whole match, a group that did not take part is
/// `None`; `None` overall when nothing matches.
pub uninterp spec fn regex_captures(pattern: Seq<char>, text: Seq<char>) -> Option<Seq<Option<Seq<char>>>>;

pub open spec fn captures_view(v: Seq<Option<String>>) -> Seq<Option<Seq<char>>> {
    Seq::new(
        v.len(),
        |i: int|
            match v[i] {
                Some(s) => Some(s@),
                None => None,
            },
    )
}

/// Relies on regex's `Regex::new` and `Regex::captures`: the groups of the
/// leftmost-first match of `pattern` in `text`, a function of the two texts
/// alone. A pattern that does not compile matches nothing.
#[verifier::external_body]
pub(crate) fn captures(pattern: &str, text: &str) -> (r: Option<Vec<Option<String>>>)
    ensures
        match r {
            None => regex_captures(pattern@, text@) is None,
            Some(v) => regex_captures(pattern@, text@) == Some(captures_view(v@)),
        },
{
    let re = regex::Regex::new(pattern).ok()?;
    re.captures(text).map(|c| c.iter().map(|m| m.map(|m| m.as_str().to_string())).collect())
}

/// The milliseconds since the epoch that a log date `dd.mm.yy HH:MM:SS`
/// denotes, read as UTC; `None` for text in another shape.
pub uninterp spec fn log_datetime_millis(s: Seq<char>) -> Option<i64>;

/// Relies on chrono's `NaiveDateTime::parse_from_str` with the format
/// `%d.%m.%y %H:%M:%S` and `and_utc().timestamp_millis()`: the result
/// depends on the text alone.
#[verifier::external_body]
pub(crate) fn parse_log_datetime(s: &str) -> (r: Option<i64>)
    ensures
        r == log_datetime_millis(s@),
{
    chrono::NaiveDateTime::parse_from_str(s, "%d.%m.%y %H:%M:%S").ok().map(|t| t.and_utc().timestamp_millis())
}

/// The lower-case form of a text.
pub uninterp spec fn lower_of(s: Seq<char>) -> Seq<char>;

/// Relies on `str::to_lowercase`: the result depends on the text alone.
#[verifier::external_body]
pub(crate) fn lowercase(s: &str) -> (r: String)
    ensures
        r@ == lower_of(s@),
{
    s.to_lowercase()
}

/// The class id that a lower-case class name denotes.
pub open spec fn hero_class_spec(s: Seq<char>) -> Option<u8> {
    if s == "warrior"@ {
        Some(1u8)
    } else if s == "paladin"@ {
        Some(2u8)
    } else if s == "hunter"@ {
        Some(3u8)
    } else if s == "rogue"@ {
        Some(4u8)
    } else if s == "priest"@ {
        Some(5u8)
    } else if s == "shaman"@ {
        Some(7u8)
    } else if s == "mage"@ {
        Some(8u8)
    } else if s == "warlock"@ {
        Some(9u8)
    } else if s == "druid"@ {
        Some(11u8)
    } else {
        None
    }
}

pub fn hero_class_id(s: &str) -> (r: Option<u8>)
    ensures
        r == hero_class_spec(s@),
{
    if str_eq(s, "warrior") {
        Some(1)
    } else if str_eq(s, "paladin") {
        Some(2)
    } else if str_eq(s, "hunter") {
        Some(3)
    } else if str_eq(s, "rogue") {
        Some(4)
    } else if str_eq(s, "priest") {
        Some(5)
    } else if str_eq(s, "shaman") {
        Some(7)
    } else if str_eq(s, "mage") {
        Some(8)
    } else if str_eq(s, "warlock") {
        Some(9)
    } else if str_eq(s, "druid") {
        Some(11)
    } else {
        None
    }
}

/// The race id that a lower-case race name denotes.
pub open spec fn race_spec(s: Seq<char>) -> Option<u8> {
    if s == "human"@ {
        Some(1u8)
    } else if s == "orc"@ {
        Some(2u8)
    } else if s == "dwarf"@ {
        Some(3u8)
    } else if s == "night elf"@ || s == "nightelf"@ {
        Some(4u8)
    } else if s == "undead"@ || s == "scourge"@ {
        Some(5u8)
    } else if s == "tauren"@ {
        Some(6u8)
    } else if s == "gnome"@ {
        Some(7u8)
    } else if s == "troll"@ {
        Some(8u8)
    } else {
        None
    }
}

pub fn race_id(s: &str) -> (r: Option<u8>)
    ensures
        r == race_spec(s@),
{
    if str_eq(s, "human") {
        Some(1)
    } else if str_eq(s, "orc") {
        Some(2)
    } else if str_eq(s, "dwarf") {
        Some(3)
    } else if str_eq(s, "night elf") || str_eq(s, "nightelf") {
        Some(4)
    } else if str_eq(s, "undead") || str_eq(s, "scourge") {
        Some(5)
    } else if str_eq(s, "tauren") {
        Some(6)
    } else if str_eq(s, "gnome") {
        Some(7)
    } else if str_eq(s, "troll") {
        Some(8)
    } else {
        None
    }
}

/// Capture group `i`, when the match has it.
pub fn group(caps: &Vec<Option<String>>, i: usize) -> (r: Option<&str>)
    ensures
        match r {
            Some(s) => i < caps@.len() && (caps@[i as int] matches Some(g) && s@ == g@),
            None => i >= caps@.len() || caps@[i as int] is None,
        },
{
    if i < caps.len() {
        match &caps[i] {
            Some(s) => Some(s.as_str()),
            None => None,
        }
    } else {
        None
    }
}

/// The school mask that a school word names.
pub open spec fn school_spec(w: Seq<char>) -> Option<u8> {
    if w == "Physical"@ {
        Some(SCHOOL_PHYSICAL)
    } else if w == "Arcane"@ {
        Some(SCHOOL_ARCANE)
    } else if w == "Fire"@ {
        Some(SCHOOL_FIRE)
    } else if w == "Frost"@ {
        Some(SCHOOL_FROST)
    } else if w == "Shadow"@ {
        Some(SCHOOL_SHADOW)
    } else if w == "Nature"@ {
        Some(SCHOOL_NATURE)
    } else if w == "Holy"@ {
        Some(SCHOOL_HOLY)
    } else {
        None
    }
}

pub fn parse_school(w: &str) -> (r: Option<u8>)
    ensures
        r == school_spec(w@),
{
    if str_eq(w, "Physical") {
        Some(SCHOOL_PHYSICAL)
    } else if str_eq(w, "Arcane") {
        Some(SCHOOL_ARCANE)
    } else if str_eq(w, "Fire") {
        Some(SCHOOL_FIRE)
    } else if str_eq(w, "Frost") {
        Some(SCHOOL_FROST)
    } else if str_eq(w, "Shadow") {
        Some(SCHOOL_SHADOW)
    } else if str_eq(w, "Nature") {
        Some(SCHOOL_NATURE)
    } else if str_eq(w, "Holy") {
        Some(SCHOOL_HOLY)
    } else {
        None
    }
}

/// The outcome that an avoidance word of the log names.
pub open spec fn avoidance_spec(w: Seq<char>) -> Option<u32> {
    if w == "blocked"@ || w == "blocks"@ {
        Some(FULL_BLOCK)
    } else if w == "parried"@ || w == "parries"@ {
        Some(PARRY)
    } else if w == "evaded"@ || w == "evades"@ {
        Some(EVADE)
    } else if w == "dodged"@ || w == "dodges"@ {
        Some(DODGE)
    } else if w == "deflected"@ || w == "deflects"@ {
        Some(DEFLECT)
    } else if w == "resisted"@ || w == "resists"@ {
        Some(FULL_RESIST)
    } else if w == "absorbs"@ {
        Some(FULL_ABSORB)
    } else {
        None
    }
}

pub fn parse_avoidance(w: &str) -> (r: Option<u32>)
    ensures
        r == avoidance_spec(w@),
{
    if str_eq(w, "blocked") || str_eq(w, "blocks") {
        Some(FULL_BLOCK)
    } else if str_eq(w, "parried") || str_eq(w, "parries") {
        Some(PARRY)
    } else if str_eq(w, "evaded") || str_eq(w, "evades") {
        Some(EVADE)
    } else if str_eq(w, "dodged") || str_eq(w, "dodges") {
        Some(DODGE)
    } else if str_eq(w, "deflected") || str_eq(w, "deflects") {
        Some(DEFLECT)
    } else if str_eq(w, "resisted") || str_eq(w, "resists") {
        Some(FULL_RESIST)
    } else if str_eq(w, "absorbs") {
        Some(FULL_ABSORB)
    } else {
        None
    }
}

/// `CRIT` for the "cr" of "crits", `HIT` otherwise.
pub fn hit_or_crit(w: &str) -> (r: u32)
    ensures
        r == if w@ == "cr"@ {
            CRIT
        } else {
            HIT
        },
{
    if str_eq(w, "cr") {
        CRIT
    } else {
        HIT
    }
}

pub const TRAILER_RESISTED: &'static str = r"\((\d+) resisted\)";
pub const TRAILER_BLOCKED: &'static str = r"\((\d+) blocked\)";
pub const TRAILER_ABSORBED: &'static str = r"\((\d+) absorbed\)";
pub const TRAILER_GLANCING: &'static str = r"\(glancing\)";
pub const TRAILER_CRUSHING: &'static str = r"\(crushing\)";

/// The amount of a partial clause of a trailer, `None` when the trailer has
/// no such clause or its amount does not fit.
pub open spec fn trailer_amount(pattern: Seq<char>, trailer: Seq<char>) -> Option<u32> {
    match regex_captures(pattern, trailer) {
        Some(c) => if c.len() > 1 && c[1] is Some {
            parse_u32_spec(c[1]->0)
        } else {
            None
        },
        None => None,
    }
}

/// What a trailer clause says of a hit: partial resist, block and absorb
/// amounts, and the glancing and crushing flags.
pub struct Trailer {
    pub resisted: Option<u32>,
    pub blocked: Option<u32>,
    pub absorbed: Option<u32>,
    pub glancing: bool,
    pub crushing: bool,
}

impl Trailer {
    /// The flags that the trailer adds to a hit mask.
    pub open spec fn mask_spec(&self) -> u32 {
        (if self.resisted is Some { PARTIAL_RESIST } else { 0u32 }) | (if self.blocked is Some {
            PARTIAL_BLOCK
        } else {
            0u32
        }) | (if self.absorbed is Some { PARTIAL_ABSORB } else { 0u32 }) | (if self.glancing {
            GLANCING
        } else {
            0u32
        }) | (if self.crushing { CRUSHING } else { 0u32 })
    }

    pub fn mask(&self) -> (r: u32)
        ensures
            r == self.mask_spec(),
    {
        (if self.resisted.is_some() { PARTIAL_RESIST } else { 0 }) | (if self.blocked.is_some() {
            PARTIAL_BLOCK
        } else {
            0
        }) | (if self.absorbed.is_some() { PARTIAL_ABSORB } else { 0 }) | (if self.glancing {
            GLANCING
        } else {
            0
        }) | (if self.crushing { CRUSHING } else { 0 })
    }
}

fn clause_amount(pattern: &str, trailer: &str) -> (r: Option<u32>)
    ensures
        r == trailer_amount(pattern@, trailer@),
{
    match captures(pattern, trailer) {
        Some(c) => {
            match group(&c, 1) {
                Some(g) => parse_u32(g),
                None => None,
            }
        },
        None => None,
    }
}

/// Reads the trailing clause of a damage line.
pub fn parse_trailer(trailer: &str) -> (r: Trailer)
    ensures
        r.resisted == trailer_amount(TRAILER_RESISTED@, trailer@),
        r.blocked == trailer_amount(TRAILER_BLOCKED@, trailer@),
        r.absorbed == trailer_amount(TRAILER_ABSORBED@, trailer@),
        r.glancing == regex_captures(TRAILER_GLANCING@, trailer@) is Some,
        r.crushing == regex_captures(TRAILER_CRUSHING@, trailer@) is Some,
{
    Trailer {
        resisted: clause_amount(TRAILER_RESISTED, trailer),
        blocked: clause_amount(TRAILER_BLOCKED, trailer),
        absorbed: clause_amount(TRAILER_ABSORBED, trailer),
        glancing: captures(TRAILER_GLANCING, trailer).is_some(),
        crushing: captures(TRAILER_CRUSHING, trailer).is_some(),
    }
}

pub const ARMS: &'static str = "51|0|0";
pub const FURY: &'static str = "0|51|0";
pub const PROTECTION: &'static str = "0|0|51";

/// Talent strings of the first, second and third tree.
pub open spec fn tree_talents(tree: u8) -> Seq<char> {
    if tree == 0 {
        ARMS@
    } else if tree == 1 {
        FURY@
    } else {
        PROTECTION@
    }
}

pub fn tree_talent_str(tree: u8) -> (r: &'static str)
    ensures
        r@ == tree_talents(tree),
{
    if tree == 0 {
        ARMS
    } else if tree == 1 {
        FURY
    } else {
        PROTECTION
    }
}

/// The talent tree that an aura gained reveals.
pub open spec fn aura_gain_tree(s: Seq<char>) -> Option<u8> {
    if s == "Arcane Eclipse"@ || s == "Nature Eclipse"@ {
        Some(0u8)
    } else if s == "Blood Frenzy"@ || s == "Berserk"@ {
        Some(1u8)
    } else if s == "Tidal Surge"@ {
        Some(2u8)
    } else if s == "Holy Might"@ {
        Some(2u8)
    } else if s == "Tree of Life Form"@ {
        Some(2u8)
    } else if s == "Arcane Power"@ {
        Some(0u8)
    } else if s == "Combustion"@ {
        Some(1u8)
    } else if s == "Ice Barrier"@ {
        Some(2u8)
    } else if s == "Seal of Command"@ {
        Some(2u8)
    } else if s == "Elemental Mastery"@ {
        Some(0u8)
    } else if s == "Stormstrike"@ {
        Some(1u8)
    } else if s == "Envenom"@ {
        Some(0u8)
    } else if s == "Adrenaline Rush"@ {
        Some(1u8)
    } else if s == "Frenzy Effect"@ {
        Some(0u8)
    } else {
        None
    }
}

pub fn aura_gain_talents(s: &str) -> (r: Option<u8>)
    ensures
        r == aura_gain_tree(s@),
{
    if str_eq(s, "Arcane Eclipse") || str_eq(s, "Nature Eclipse") {
        Some(0)
    } else if str_eq(s, "Blood Frenzy") || str_eq(s, "Berserk") {
        Some(1)
    } else if str_eq(s, "Tidal Surge") {
        Some(2)
    } else if str_eq(s, "Holy Might") {
        Some(2)
    } else if str_eq(s, "Tree of Life Form") {
        Some(2)
    } else if str_eq(s, "Arcane Power") {
        Some(0)
    } else if str_eq(s, "Combustion") {
        Some(1)
    } else if str_eq(s, "Ice Barrier") {
        Some(2)
    } else if str_eq(s, "Seal of Command") {
        Some(2)
    } else if str_eq(s, "Elemental Mastery") {
        Some(0)
    } else if str_eq(s, "Stormstrike") {
        Some(1)
    } else if str_eq(s, "Envenom") {
        Some(0)
    } else if str_eq(s, "Adrenaline Rush") {
        Some(1)
    } else if str_eq(s, "Frenzy Effect") {
        Some(0)
    } else {
        None
    }
}

/// The talent tree that an ability cast reveals.
pub open spec fn cast_tree(s: Seq<char>) -> Option<u8> {
    if s == "Mortal Strike"@ || s == "Sweeping Strikes"@ {
        Some(0u8)
    } else if s == "Bloodthirst"@ {
        Some(1u8)
    } else if s == "Shield Slam"@ {
        Some(2u8)
    } else if s == "Bulwark of the Righteous"@ {
        Some(1u8)
    } else if s == "Bestial Wrath"@ {
        Some(0u8)
    } else if s == "Piercing Shots"@ {
        Some(1u8)
    } else if s == "Carve"@ {
        Some(2u8)
    } else if s == "Enlighten"@ {
        Some(0u8)
    } else if s == "Proclaim Champion"@ {
        Some(1u8)
    } else if s == "Vampiric Embrace"@ {
        Some(2u8)
    } else if s == "Dark Harvest"@ {
        Some(0u8)
    } else if s == "Power Overwhelming"@ {
        Some(1u8)
    } else if s == "Conflagrate"@ {
        Some(2u8)
    } else if s == "Mark for Death"@ {
        Some(2u8)
    } else {
        None
    }
}

pub fn cast_talents(s: &str) -> (r: Option<u8>)
    ensures
        r == cast_tree(s@),
{
    if str_eq(s, "Mortal Strike") || str_eq(s, "Sweeping Strikes") {
        Some(0)
    } else if str_eq(s, "Bloodthirst") {
        Some(1)
    } else if str_eq(s, "Shield Slam") {
        Some(2)
    } else if str_eq(s, "Bulwark of the Righteous") {
        Some(1)
    } else if str_eq(s, "Bestial Wrath") {
        Some(0)
    } else if str_eq(s, "Piercing Shots") {
        Some(1)
    } else if str_eq(s, "Carve") {
        Some(2)
    } else if str_eq(s, "Enlighten") {
        Some(0)
    } else if str_eq(s, "Proclaim Champion") {
        Some(1)
    } else if str_eq(s, "Vampiric Embrace") {
        Some(2)
    } else if str_eq(s, "Dark Harvest") {
        Some(0)
    } else if str_eq(s, "Power Overwhelming") {
        Some(1)
    } else if str_eq(s, "Conflagrate") {
        Some(2)
    } else if str_eq(s, "Mark for Death") {
        Some(2)
    } else {
        None
    }
}

/// The talent tree that a heal reveals.
pub open spec fn heal_tree(s: Seq<char>) -> Option<u8> {
    if s == "Holy Shock"@ {
        Some(0u8)
    } else {
        None
    }
}

pub fn heal_talents(s: &str) -> (r: Option<u8>)
    ensures
        r == heal_tree(s@),
{
    if str_eq(s, "Holy Shock") {
        Some(0)
    } else {
        None
    }
}

} // verus!
