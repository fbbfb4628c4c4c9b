//! The character builds a parsing session observed: for every tracked
//! player of known class, one build per recorded specialization, carrying
//! the first gear snapshot and the guild membership.

use vstd::prelude::*;
use crate::participant::{GearSlot, Participant, talents_view};
use crate::parser::WoWVanillaParser;
use crate::unit::player_unit_id;

verus! {

/// The class id recorded for a player whose class was never seen.
pub const UNKNOWN_CLASS: u8 = 12;

/// The level recorded for every observed build.
pub const OBSERVED_LEVEL: u8 = 60;

#[derive(Clone, Copy, Debug, PartialEq, Eq, Structural)]
pub struct CharacterItem {
    pub item_id: u32,
    pub enchant_id: Option<u32>,
}

#[derive(Clone, Debug)]
pub struct CharacterBuild {
    pub server_uid: u64,
    pub timestamp: u64,
    pub name: String,
    pub hero_class_id: u8,
    pub race_id: u8,
    pub gender: bool,
    pub level: u8,
    pub talent_specialization: Option<String>,
    /// Head, neck, shoulder, back, chest, shirt, tabard, wrist, main hand,
    /// off hand, ranged, gloves, belt, legs, boots, two rings, two trinkets.
    pub gear: Vec<Option<CharacterItem>>,
    /// Guild id, guild name, rank name and rank index.
    pub guild: Option<(u64, String, String, u8)>,
}

/// One dated entry of the builds a session observed; the closing entry,
/// dated at the time of the call, carries no build.
#[derive(Clone, Debug)]
pub struct CharacterEntry {
    pub timestamp: u64,
    pub server_uid: u64,
    pub build: Option<CharacterBuild>,
}

pub open spec fn item_of(slot: GearSlot) -> Option<CharacterItem> {
    match slot {
        Some(s) => Some(CharacterItem { item_id: s.0, enchant_id: s.1 }),
        None => None,
    }
}

pub fn create_character_item_dto(slot: &GearSlot) -> (r: Option<CharacterItem>)
    ensures
        r == item_of(*slot),
{
    match slot {
        Some(s) => Some(CharacterItem { item_id: s.0, enchant_id: s.1 }),
        None => None,
    }
}

/// Where armory slot `i` is found in a combatant snapshot.
pub open spec fn slot_source(i: int) -> int {
    if i == 3 {
        14
    } else if i == 4 {
        4
    } else if i == 5 {
        3
    } else if i == 6 {
        18
    } else if i == 7 {
        8
    } else if i == 8 {
        15
    } else if i == 9 {
        16
    } else if i == 10 {
        17
    } else if i == 11 {
        9
    } else if i == 12 {
        5
    } else if i == 13 {
        6
    } else if i == 14 {
        7
    } else if i == 15 {
        10
    } else if i == 16 {
        11
    } else if i == 17 {
        12
    } else if i == 18 {
        13
    } else {
        i
    }
}

fn slot_source_exec(i: usize) -> (r: usize)
    requires
        i < 19,
    ensures
        r == slot_source(i as int),
        r < 19,
{
    if i == 3 {
        14
    } else if i == 4 {
        4
    } else if i == 5 {
        3
    } else if i == 6 {
        18
    } else if i == 7 {
        8
    } else if i == 8 {
        15
    } else if i == 9 {
        16
    } else if i == 10 {
        17
    } else if i == 11 {
        9
    } else if i == 12 {
        5
    } else if i == 13 {
        6
    } else if i == 14 {
        7
    } else if i == 15 {
        10
    } else if i == 16 {
        11
    } else if i == 17 {
        12
    } else if i == 18 {
        13
    } else {
        i
    }
}

/// The armory gear of a snapshot; a slot the snapshot lacks is empty.
pub open spec fn armory_gear(setup: Seq<GearSlot>) -> Seq<Option<CharacterItem>> {
    Seq::new(
        19,
        |i: int|
            if slot_source(i) < setup.len() {
                item_of(setup[slot_source(i)])
            } else {
                None
            },
    )
}

fn first_gear(p: &Participant) -> (r: Vec<Option<CharacterItem>>)
    ensures
        r@ == match p.gear_setups {
            Some(setups) => if setups@.len() > 0 {
                armory_gear(setups@[0].1@)
            } else {
                Seq::new(19, |i: int| None::<CharacterItem>)
            },
            None => Seq::new(19, |i: int| None::<CharacterItem>),
        },
{
    let mut gear: Vec<Option<CharacterItem>> = Vec::new();
    let mut i: usize = 0;
    while i < 19
        invariant
            i <= 19,
            gear@.len() == i,
            forall|j: int| 0 <= j < i ==> #[trigger] gear@[j] == match p.gear_setups {
                Some(setups) => if setups@.len() > 0 {
                    armory_gear(setups@[0].1@)[j]
                } else {
                    None
                },
                None => None,
            },
        decreases 19 - i,
    {
        let slot = match &p.gear_setups {
            Some(setups) => if setups.len() > 0 {
                let src = slot_source_exec(i);
                if src < setups[0].1.len() {
                    create_character_item_dto(&setups[0].1[src])
                } else {
                    None
                }
            } else {
                None
            },
            None => None,
        };
        gear.push(slot);
        i = i + 1;
    }
    proof {
        if p.gear_setups is Some && p.gear_setups->0@.len() > 0 {
            assert(gear@ =~= armory_gear(p.gear_setups->0@[0].1@));
        } else {
            assert(gear@ =~= Seq::new(19, |i: int| None::<CharacterItem>));
        }
    }
    gear
}

/// A player build is kept when its class is known, or when it stands for a
/// controlled or self-damage variant.
pub open spec fn keeps_build(p: Participant) -> bool {
    p.is_player && (match p.hero_class_id {
        Some(c) => c != UNKNOWN_CLASS,
        None => false,
    } || p.is_mind_control || p.is_self_damage)
}

/// The dated specializations of a build: the first seen with the first
/// recorded talents, each recorded change, and the last seen with the
/// latest talents; only the first seen, without talents, when none were
/// recorded.
pub open spec fn build_dates(p: Participant) -> Seq<(u64, Option<Seq<char>>)> {
    let t = talents_view(p.talents@);
    if t.len() == 0 {
        seq![(p.first_seen, None)]
    } else {
        seq![(p.first_seen, t[0].1)] + t + seq![(p.last_seen, t.last().1)]
    }
}

/// The dated builds of the kept players among `ps`, in order.
pub open spec fn all_builds(ps: Seq<Participant>) -> Seq<(u64, u64, Option<Seq<char>>)>
    decreases ps.len(),
{
    if ps.len() == 0 {
        seq![]
    } else {
        let p = ps.last();
        if keeps_build(p) {
            all_builds(ps.drop_last()) + build_dates(p).map_values(|d: (u64, Option<Seq<char>>)| (p.id, d.0, d.1))
        } else {
            all_builds(ps.drop_last())
        }
    }
}

/// A build of a kept player among the first `n` participants.
pub open spec fn built_from(uid: u64, ps: Seq<Participant>, n: int) -> bool {
    exists|k: int| 0 <= k < n && keeps_build(ps[k]) && ps[k].id == uid
}

pub open spec fn opt_view(o: Option<String>) -> Option<Seq<char>> {
    match o {
        Some(s) => Some(s@),
        None => None,
    }
}

pub open spec fn entry_view(e: CharacterEntry) -> (u64, u64, Option<Seq<char>>) {
    (
        e.server_uid,
        e.timestamp,
        match e.build {
            Some(b) => opt_view(b.talent_specialization),
            None => None,
        },
    )
}

fn copy_talents(t: &Option<String>) -> (r: Option<String>)
    ensures
        match r {
            Some(s) => t matches Some(u) && s@ == u@,
            None => t is None,
        },
{
    match t {
        Some(s) => Some(s.clone()),
        None => None,
    }
}

impl WoWVanillaParser {
    fn push_build(
        p: &Participant,
        gear: &Vec<Option<CharacterItem>>,
        timestamp: u64,
        talent: Option<String>,
        out: &mut Vec<CharacterEntry>,
    )
        ensures
            final(out)@.map_values(|b: CharacterEntry| entry_view(b)) == old(out)@.map_values(
                |b: CharacterEntry| entry_view(b),
            ).push((p.id, timestamp, opt_view(talent))),
            old(out)@.len() <= final(out)@.len(),
            forall|i: int| 0 <= i < old(out)@.len() ==> #[trigger] final(out)@[i] == old(out)@[i],
            forall|i: int| old(out)@.len() <= i < final(out)@.len() ==> (#[trigger] final(out)@[i]).build is Some,
    {
        let guild = match &p.guild_args {
            Some(g) => Some((player_unit_id(g.0.as_str()), g.0.clone(), g.1.clone(), g.2)),
            None => None,
        };
        let ghost tv = opt_view(talent);
        let b = CharacterBuild {
            server_uid: p.id,
            timestamp,
            name: p.name.clone(),
            hero_class_id: match p.hero_class_id {
                Some(c) => c,
                None => UNKNOWN_CLASS,
            },
            race_id: match p.race_id {
                Some(r) => r,
                None => 1,
            },
            gender: match p.gender_id {
                Some(g) => g,
                None => false,
            },
            level: OBSERVED_LEVEL,
            talent_specialization: talent,
            gear: gear.clone(),
            guild,
        };
        let e = CharacterEntry { timestamp, server_uid: p.id, build: Some(b) };
        assert(entry_view(e) == (p.id, timestamp, tv));
        let ghost before = out@.map_values(|b: CharacterEntry| entry_view(b));
        out.push(e);
        assert(out@.map_values(|b: CharacterEntry| entry_view(b)) =~= before.push(entry_view(e)));
    }

    fn participant_builds(p: &Participant, out: &mut Vec<CharacterEntry>)
        ensures
            final(out)@.map_values(|b: CharacterEntry| entry_view(b)) == old(out)@.map_values(
                |b: CharacterEntry| entry_view(b),
            ) + build_dates(*p).map_values(|d: (u64, Option<Seq<char>>)| (p.id, d.0, d.1)),
            old(out)@.len() <= final(out)@.len(),
            forall|i: int| 0 <= i < old(out)@.len() ==> #[trigger] final(out)@[i] == old(out)@[i],
            forall|i: int| old(out)@.len() <= i < final(out)@.len() ==> (#[trigger] final(out)@[i]).build is Some,
    {
        let gear = first_gear(p);
        let ghost first = out@;
        let n = p.talents.len();
        let ghost start = out@.map_values(|b: CharacterEntry| entry_view(b));
        let ghost t = talents_view(p.talents@);
        if n == 0 {
            Self::push_build(p, &gear, p.first_seen, None, out);
            assert(build_dates(*p).map_values(|d: (u64, Option<Seq<char>>)| (p.id, d.0, d.1)) =~= seq![
                (p.id, p.first_seen, None::<Seq<char>>),
            ]);
            assert(start.push((p.id, p.first_seen, None::<Seq<char>>)) =~= start + seq![
                (p.id, p.first_seen, None::<Seq<char>>),
            ]);
            return;
        }
        let ghost f = |d: (u64, Option<Seq<char>>)| (p.id, d.0, d.1);
        Self::push_build(p, &gear, p.first_seen, copy_talents(&p.talents[0].1), out);
        let mut k: usize = 0;
        while k < n
            invariant
                n == p.talents@.len(),
                n > 0,
                t == talents_view(p.talents@),
                k <= n,
                out@.map_values(|b: CharacterEntry| entry_view(b)) == start.push((p.id, p.first_seen, t[0].1))
                    + t.subrange(0, k as int).map_values(|d: (u64, Option<Seq<char>>)| (p.id, d.0, d.1)),
                first.len() <= out@.len(),
                first == old(out)@,
                forall|i: int| 0 <= i < first.len() ==> #[trigger] out@[i] == first[i],
                forall|i: int| first.len() <= i < out@.len() ==> (#[trigger] out@[i]).build is Some,
            decreases n - k,
        {
            let ghost before = out@.map_values(|b: CharacterEntry| entry_view(b));
            Self::push_build(p, &gear, p.talents[k].0, copy_talents(&p.talents[k].1), out);
            assert(t[k as int] == (p.talents@[k as int].0, match p.talents@[k as int].1 {
                Some(s) => Some(s@),
                None => None,
            }));
            assert(t.subrange(0, k + 1).map_values(|d: (u64, Option<Seq<char>>)| (p.id, d.0, d.1)) =~= t.subrange(
                0,
                k as int,
            ).map_values(|d: (u64, Option<Seq<char>>)| (p.id, d.0, d.1)).push((p.id, t[k as int].0, t[k as int].1)));
            k = k + 1;
        }
        assert(t.last() == t[n - 1]);
        Self::push_build(p, &gear, p.last_seen, copy_talents(&p.talents[n - 1].1), out);
        assert(t.subrange(0, n as int) =~= t);
        assert(build_dates(*p).map_values(|d: (u64, Option<Seq<char>>)| (p.id, d.0, d.1)) =~= seq![
            (p.id, p.first_seen, t[0].1),
        ] + t.map_values(|d: (u64, Option<Seq<char>>)| (p.id, d.0, d.1)) + seq![(p.id, p.last_seen, t.last().1)]);
        assert(out@.map_values(|b: CharacterEntry| entry_view(b)) =~= start + (seq![(p.id, p.first_seen, t[0].1)]
            + t.map_values(|d: (u64, Option<Seq<char>>)| (p.id, d.0, d.1)) + seq![(p.id, p.last_seen, t.last().1)]));
    }

    /// The builds of every kept player, participant by participant, each
    /// dated as `build_dates` says, then a closing entry without a build
    /// dated at the time of the call (ms).
    pub fn get_involved_character_builds(&self) -> (r: Vec<CharacterEntry>)
        ensures
            exists|now: u64|
                r@.map_values(|b: CharacterEntry| entry_view(b)) == all_builds(self.participants@).push(
                    (0u64, now, None::<Seq<char>>),
                ),
            r@.len() > 0 && r@.last().build is None && r@.last().server_uid == 0,
            forall|i: int| 0 <= i < r@.len() - 1 ==> (#[trigger] r@[i]).build is Some,
    {
        let mut out: Vec<CharacterEntry> = Vec::new();
        let mut j: usize = 0;
        assert(out@.map_values(|b: CharacterEntry| entry_view(b)) =~= all_builds(self.participants@.subrange(0, 0)));
        while j < self.participants.len()
            invariant
                j <= self.participants@.len(),
                out@.map_values(|b: CharacterEntry| entry_view(b)) == all_builds(self.participants@.subrange(0, j as int)),
                forall|i: int| 0 <= i < out@.len() ==> (#[trigger] out@[i]).build is Some,
            decreases self.participants@.len() - j,
        {
            let p = &self.participants[j];
            assert(self.participants@.subrange(0, j + 1).drop_last() =~= self.participants@.subrange(0, j as int));
            assert(self.participants@.subrange(0, j + 1).last() == *p);
            let known = match p.hero_class_id {
                Some(c) => c != UNKNOWN_CLASS,
                None => false,
            };
            if p.is_player && (known || p.is_mind_control || p.is_self_damage) {
                let ghost before = out@;
                Self::participant_builds(p, &mut out);
                assert forall|i: int| 0 <= i < out@.len() implies (#[trigger] out@[i]).build is Some by {
                    if i < before.len() {
                        assert(out@[i] == before[i]);
                    } else {
                        assert(out@[i].build is Some);
                    }
                }
            }
            j = j + 1;
        }
        assert(self.participants@.subrange(0, j as int) =~= self.participants@);
        let now_ms = match crate::time_util::now().checked_mul(1000) {
            Some(ms) => ms,
            None => u64::MAX,
        };
        let ghost before = out@.map_values(|b: CharacterEntry| entry_view(b));
        let e = CharacterEntry { timestamp: now_ms, server_uid: 0, build: None };
        out.push(e);
        assert(out@.map_values(|b: CharacterEntry| entry_view(b)) =~= before.push((0u64, now_ms, None::<Seq<char>>)));
        out
    }
}

} // verus!
