//! The text-log parser: each line is matched against the ordered rules of
//! the grammar, and the first rule whose actors, abilities and numbers all
//! resolve yields the line's messages. Resolving also tracks participants,
//! their damage-credit ledgers and their observed specializations.

use vstd::prelude::*;
use vstd::multiset::Multiset;
use vstd::string::*;
use crate::data::Data;
use crate::event::{DamageComponent, add_sat};
use crate::grammar::{
    aura_gain_talents,
    aura_gain_tree,
    captures,
    captures_view,
    cast_talents,
    cast_tree,
    group,
    hero_class_id,
    hero_class_spec,
    lower_of,
    lowercase,
    race_id,
    heal_talents,
    heal_tree,
    hit_or_crit,
    log_datetime_millis,
    parse_avoidance,
    parse_log_datetime,
    parse_school,
    parse_trailer,
    regex_captures,
    tree_talent_str,
    tree_talents,
};
use crate::message::{
    CRIT,
    AuraApplication,
    DamageDone,
    Death,
    FULL_ABSORB,
    FULL_RESIST,
    HIT,
    HealDone,
    IMMUNE,
    Interrupt,
    InstanceMap,
    Loot,
    MISS,
    Message,
    MessageType,
    REFLECT,
    Summon,
    SCHOOL_PHYSICAL,
    SpellCast,
    UnAura,
};
use crate::participant::{Participant, talents_recorded};
use crate::search::{
    first_index,
    lemma_first_exists,
    lemma_first_index_is,
    lemma_first_index_is_first,
    lemma_first_index_none,
    lemma_first_index_push,
    lemma_first_index_push_new,
};
use crate::resolve::{parse_spell_args, parse_unit, spell_cache_view, spell_resolution, unit_cache_view, unit_resolution};
use crate::participant::GearSlot;
use crate::text::{parse_u32, parse_u32_spec, split_spec, starts_with_seq, replace_char, split_char, str_contains, str_eq, str_starts_with};
use crate::unit::{player_unit_id, player_unit_id_spec};
use crate::unit::Unit;

verus! {

/// Lines of this shape come from a logging fault and are rejected outright.
pub const RE_BUG_DAMAGE_SPELL_HIT_OR_CRIT: &'static str = r"(.+[^\s])\s's (cr|h)its (.+[^\s]) for (\d+)\.\s?(.*)";

pub const RE_LOOT: &'static str = r"LOOT: ([^&]+)&(.+[^\s]) receives loot: \|c([a-zA-Z0-9]+)\|Hitem:(\d+):(\d+):(\d+):(\d+)\|h\[([a-zA-Z0-9\s']+)\]\|h\|rx(\d+)\.";

pub const RE_ZONE_INFO: &'static str = r"ZONE_INFO: ([^&]+)&(.+[^\s])\&(\d+)";

/// Item and enchant ids above these are not of this game version.
pub const MAX_ITEM_ID: u32 = 25818;
pub const MAX_ENCHANT_ID: u32 = 3000;

/// The number of pattern rules.
pub const RULE_COUNT: usize = 31;

/// The pattern of rule `k`, most specific first.
pub open spec fn rule_pattern_spec(k: int) -> Seq<char> {
    rule_pattern_str(k)@
}

pub open spec fn rule_pattern_str(k: int) -> &'static str {
    if k == 0 {
        r"(.+[^\s]) begins to cast (.+[^\s])\."
    } else if k == 1 {
        r"(.+[^\s]) gains (\d+) (Health|health|Mana|Rage|Energy|Happiness|Focus) from (.+[^\s])\s's (.+[^\s])\."
    } else if k == 2 {
        r"(.+[^\s])\s's (.+[^\s]) (cr|h)its (.+[^\s]) for (\d+)\.\s?(.*)"
    } else if k == 3 {
        r"(.+[^\s])\s's (.+[^\s]) (cr|h)its (.+[^\s]) for (\d+) ([a-zA-Z]+) damage\.\s?(.*)"
    } else if k == 4 {
        r"(.+[^\s]) suffers (\d+) ([a-zA-Z]+) damage from (.+[^\s])\s's (.+[^\s])\.\s?(.*)"
    } else if k == 5 {
        r"(.+[^\s]) reflects (\d+) ([a-zA-Z]+) damage to (.+[^\s])\."
    } else if k == 6 {
        r"(.+[^\s]) (cr|h)its (.+[^\s]) for (\d+)\.\s?(.*)"
    } else if k == 7 {
        r"(.+[^\s]) (cr|h)its (.+[^\s]) for (\d+) ([a-zA-Z]+) damage\.\s?(.*)"
    } else if k == 8 {
        r"(.+[^\s])\s's (.+[^\s]) critically heals (.+[^\s]) for (\d+)\."
    } else if k == 9 {
        r"(.+[^\s])\s's (.+[^\s]) heals (.+[^\s]) for (\d+)\."
    } else if k == 10 {
        r"(.+[^\s]) (is afflicted by|gains) (.+[^\s]) \((\d+)\)\."
    } else if k == 11 {
        r"(.+[^\s]) fades from (.+[^\s])\."
    } else if k == 12 {
        r"(.+[^\s])\s's (.+[^\s]) causes (.+[^\s]) (\d+) damage\.\s?(.*)"
    } else if k == 13 {
        r"(.+[^\s])\s's (.+[^\s]) misse(s|d) (.+[^\s])\."
    } else if k == 14 {
        r"(.+[^\s])\s's (.+[^\s]) was (blocked|parried|evaded|dodged|resisted|deflected) by (.+[^\s])\."
    } else if k == 15 {
        r"(.+[^\s])\s's (.+[^\s]) is absorbed by (.+[^\s])\."
    } else if k == 16 {
        r"(.+[^\s]) absorbs (.+[^\s])\s's (.+[^\s])\."
    } else if k == 17 {
        r"(.+[^\s])\s's (.+[^\s]) is reflected back by (.+[^\s])\."
    } else if k == 18 {
        r"(.+[^\s]) resists (.+[^\s])\s's (.+[^\s])\."
    } else if k == 19 {
        r"(.+[^\s])\s's (.+[^\s]) fails\. (.+[^\s]) is immune\."
    } else if k == 20 {
        r"(.+[^\s]) misses (.+[^\s])\."
    } else if k == 21 {
        r"(.+[^\s]) attacks\. (.+[^\s]) (blocks|parries|evades|dodges|deflects)\."
    } else if k == 22 {
        r"(.+[^\s]) attacks\. (.+[^\s]) (absorbs|resists) all the damage\."
    } else if k == 23 {
        r"(.+[^\s]) attacks but (.+[^\s]) is immune\."
    } else if k == 24 {
        r"(.+[^\s]) (casts|performs|uses) (.+[^\s]) on (.+[^\s]): (.+)\."
    } else if k == 25 {
        r"(.+[^\s]) (casts|performs|uses) (.+[^\s]) on (.+[^\s])\."
    } else if k == 26 {
        r"(.+[^\s]) (casts|performs|uses) (.+[^\s])\."
    } else if k == 27 {
        r"(.+[^\s]) (dies|is destroyed)\."
    } else if k == 28 {
        r"(.+[^\s]) is slain by (.+[^\s])(!|\.)"
    } else if k == 29 {
        r"(.+[^\s])\s's (.+[^\s]) is removed\."
    } else {
        r"(.+[^\s]) interrupts (.+[^\s])\s's (.+[^\s])\."
    }
}

pub fn rule_pattern(k: usize) -> (r: &'static str)
    ensures
        r == rule_pattern_str(k as int),
{
    if k == 0 {
        r"(.+[^\s]) begins to cast (.+[^\s])\."
    } else if k == 1 {
        r"(.+[^\s]) gains (\d+) (Health|health|Mana|Rage|Energy|Happiness|Focus) from (.+[^\s])\s's (.+[^\s])\."
    } else if k == 2 {
        r"(.+[^\s])\s's (.+[^\s]) (cr|h)its (.+[^\s]) for (\d+)\.\s?(.*)"
    } else if k == 3 {
        r"(.+[^\s])\s's (.+[^\s]) (cr|h)its (.+[^\s]) for (\d+) ([a-zA-Z]+) damage\.\s?(.*)"
    } else if k == 4 {
        r"(.+[^\s]) suffers (\d+) ([a-zA-Z]+) damage from (.+[^\s])\s's (.+[^\s])\.\s?(.*)"
    } else if k == 5 {
        r"(.+[^\s]) reflects (\d+) ([a-zA-Z]+) damage to (.+[^\s])\."
    } else if k == 6 {
        r"(.+[^\s]) (cr|h)its (.+[^\s]) for (\d+)\.\s?(.*)"
    } else if k == 7 {
        r"(.+[^\s]) (cr|h)its (.+[^\s]) for (\d+) ([a-zA-Z]+) damage\.\s?(.*)"
    } else if k == 8 {
        r"(.+[^\s])\s's (.+[^\s]) critically heals (.+[^\s]) for (\d+)\."
    } else if k == 9 {
        r"(.+[^\s])\s's (.+[^\s]) heals (.+[^\s]) for (\d+)\."
    } else if k == 10 {
        r"(.+[^\s]) (is afflicted by|gains) (.+[^\s]) \((\d+)\)\."
    } else if k == 11 {
        r"(.+[^\s]) fades from (.+[^\s])\."
    } else if k == 12 {
        r"(.+[^\s])\s's (.+[^\s]) causes (.+[^\s]) (\d+) damage\.\s?(.*)"
    } else if k == 13 {
        r"(.+[^\s])\s's (.+[^\s]) misse(s|d) (.+[^\s])\."
    } else if k == 14 {
        r"(.+[^\s])\s's (.+[^\s]) was (blocked|parried|evaded|dodged|resisted|deflected) by (.+[^\s])\."
    } else if k == 15 {
        r"(.+[^\s])\s's (.+[^\s]) is absorbed by (.+[^\s])\."
    } else if k == 16 {
        r"(.+[^\s]) absorbs (.+[^\s])\s's (.+[^\s])\."
    } else if k == 17 {
        r"(.+[^\s])\s's (.+[^\s]) is reflected back by (.+[^\s])\."
    } else if k == 18 {
        r"(.+[^\s]) resists (.+[^\s])\s's (.+[^\s])\."
    } else if k == 19 {
        r"(.+[^\s])\s's (.+[^\s]) fails\. (.+[^\s]) is immune\."
    } else if k == 20 {
        r"(.+[^\s]) misses (.+[^\s])\."
    } else if k == 21 {
        r"(.+[^\s]) attacks\. (.+[^\s]) (blocks|parries|evades|dodges|deflects)\."
    } else if k == 22 {
        r"(.+[^\s]) attacks\. (.+[^\s]) (absorbs|resists) all the damage\."
    } else if k == 23 {
        r"(.+[^\s]) attacks but (.+[^\s]) is immune\."
    } else if k == 24 {
        r"(.+[^\s]) (casts|performs|uses) (.+[^\s]) on (.+[^\s]): (.+)\."
    } else if k == 25 {
        r"(.+[^\s]) (casts|performs|uses) (.+[^\s]) on (.+[^\s])\."
    } else if k == 26 {
        r"(.+[^\s]) (casts|performs|uses) (.+[^\s])\."
    } else if k == 27 {
        r"(.+[^\s]) (dies|is destroyed)\."
    } else if k == 28 {
        r"(.+[^\s]) is slain by (.+[^\s])(!|\.)"
    } else if k == 29 {
        r"(.+[^\s])\s's (.+[^\s]) is removed\."
    } else {
        r"(.+[^\s]) interrupts (.+[^\s])\s's (.+[^\s])\."
    }
}


/// Within this many ms after a dispel, a cast on the dispelled target is
/// taken as the dispel's cause.
pub const DISPEL_CAST_WINDOW: u64 = 100;

/// The dispel attribution scan over the first `k` messages: the messages
/// afterwards and the position of the dispel still waiting for its cast.
pub open spec fn dispel_scan(ms: Seq<Message>, k: int) -> (Seq<Message>, Option<int>)
    decreases k,
{
    if k <= 0 {
        (ms, None)
    } else {
        let (cur, last) = dispel_scan(ms, k - 1);
        let m = cur[k - 1];
        match m.message_type {
            MessageType::Dispel(_) => (cur, Some(k - 1)),
            MessageType::SpellCast(sc) => match last {
                None => (cur, None),
                Some(d) => if m.timestamp <= cur[d].timestamp + DISPEL_CAST_WINDOW {
                    match cur[d].message_type {
                        MessageType::Dispel(un) => if sc.target matches Some(t) && t.unit_id == un.target.unit_id {
                            (
                                cur.update(
                                    d,
                                    Message {
                                        message_type: MessageType::Dispel(
                                            UnAura { un_aura_caster: sc.caster, un_aura_spell_id: sc.spell_id, ..un },
                                        ),
                                        ..cur[d]
                                    },
                                ),
                                None,
                            )
                        } else {
                            (cur, last)
                        },
                        _ => (cur, last),
                    }
                } else {
                    (cur, None)
                },
            },
            _ => (cur, last),
        }
    }
}

pub open spec fn summon_of(e: (u64, u64)) -> Message {
    Message {
        timestamp: 0,
        message_type: MessageType::Summon(
            Summon {
                owner: Unit { is_player: true, unit_id: e.1, is_self_damage: false, is_mind_control: false },
                unit: Unit { is_player: false, unit_id: e.0, is_self_damage: false, is_mind_control: false },
            },
        ),
    }
}

pub open spec fn sorted_by_time(s: Seq<Message>) -> bool {
    forall|i: int, j: int| 0 <= i < j < s.len() ==> #[trigger] s[i].timestamp <= #[trigger] s[j].timestamp
}

pub open spec fn later_than(ts: u64) -> spec_fn(Message) -> bool {
    |m: Message| m.timestamp > ts
}

/// Where a message of time `ts` goes in a sorted sequence: after every
/// message of its time or earlier.
pub open spec fn later_index(s: Seq<Message>, ts: u64) -> int {
    match first_index(s, later_than(ts)) {
        Some(i) => i,
        None => s.len() as int,
    }
}

/// Insertion sort by time: each message goes after those of equal time
/// already placed, so equal times keep their order.
pub open spec fn sort_spec(s: Seq<Message>) -> Seq<Message>
    decreases s.len(),
{
    if s.len() == 0 {
        seq![]
    } else {
        let sorted = sort_spec(s.drop_last());
        sorted.insert(later_index(sorted, s.last().timestamp), s.last())
    }
}

fn first_later(sorted: &Vec<Message>, ts: u64) -> (r: usize)
    requires
        sorted_by_time(sorted@),
    ensures
        r <= sorted@.len(),
        forall|i: int| 0 <= i < r ==> #[trigger] sorted@[i].timestamp <= ts,
        forall|i: int| r <= i < sorted@.len() ==> #[trigger] sorted@[i].timestamp > ts,
        r == later_index(sorted@, ts),
{
    let mut i: usize = 0;
    while i < sorted.len()
        invariant
            i <= sorted@.len(),
            sorted_by_time(sorted@),
            forall|j: int| 0 <= j < i ==> #[trigger] sorted@[j].timestamp <= ts,
        decreases sorted@.len() - i,
    {
        if sorted[i].timestamp > ts {
            assert forall|j: int| i <= j < sorted@.len() implies #[trigger] sorted@[j].timestamp > ts by {
                if j > i {
                    assert(sorted@[i as int].timestamp <= sorted@[j].timestamp);
                }
            }
            proof {
                assert forall|j: int| 0 <= j < i implies !(#[trigger] later_than(ts)(sorted@[j])) by {}
                lemma_first_index_is(sorted@, later_than(ts), i as int);
            }
            return i;
        }
        i = i + 1;
    }
    proof {
        assert forall|j: int| 0 <= j < sorted@.len() implies !(#[trigger] later_than(ts)(sorted@[j])) by {}
        lemma_first_index_none(sorted@, later_than(ts));
    }
    i
}

/// Orders messages by time, keeping equal times in their order.
pub fn sort_by_time(messages: &mut Vec<Message>)
    ensures
        final(messages)@ == sort_spec(old(messages)@),
        sorted_by_time(final(messages)@),
        final(messages)@.to_multiset() == old(messages)@.to_multiset(),
{
    broadcast use vstd::seq_lib::group_to_multiset_ensures;

    let mut sorted: Vec<Message> = Vec::new();
    let ghost orig = messages@;
    let ghost mut k: int = 0;
    assert(orig.subrange(0, 0) =~= seq![]);
    assert(orig.subrange(0, orig.len() as int) =~= orig);
    assert(sorted@.to_multiset() =~= Multiset::empty());
    while messages.len() > 0
        invariant
            sorted_by_time(sorted@),
            sorted@.to_multiset().add(messages@.to_multiset()) == orig.to_multiset(),
            0 <= k <= orig.len(),
            messages@ == orig.subrange(k, orig.len() as int),
            sorted@ == sort_spec(orig.subrange(0, k)),
        decreases messages@.len(),
    {
        let ghost rest = messages@;
        assert(orig.subrange(0, k + 1).drop_last() =~= orig.subrange(0, k));
        assert(orig.subrange(0, k + 1).last() == orig[k]);
        assert(rest[0] == orig[k]);
        let x = messages.remove(0);
        proof {
            vstd::seq_lib::to_multiset_remove(rest, 0);
        }
        assert(rest.remove(0).to_multiset() == rest.to_multiset().remove(x));
        let p = first_later(&sorted, x.timestamp);
        let ghost before = sorted@;
        sorted.insert(p, x);
        assert(sorted@ == before.insert(p as int, x));
        proof {
            vstd::seq_lib::to_multiset_insert(before, p as int, x);
        }
        assert(sorted@.to_multiset() == before.to_multiset().insert(x));
        assert forall|i: int, j: int| 0 <= i < j < sorted@.len() implies #[trigger] sorted@[i].timestamp
            <= #[trigger] sorted@[j].timestamp by {
            if i < p && j < p {
                assert(sorted@[i] == before[i] && sorted@[j] == before[j]);
            } else if i < p && j == p {
                assert(sorted@[i] == before[i]);
            } else if i < p {
                assert(sorted@[i] == before[i] && sorted@[j] == before[j - 1]);
            } else if i == p {
                assert(sorted@[j] == before[j - 1]);
            } else {
                assert(sorted@[i] == before[i - 1] && sorted@[j] == before[j - 1]);
            }
        }
        proof {
            assert(rest[0] == x);
            assert(rest.contains(x));
            vstd::seq_lib::to_multiset_contains(rest, x);
        }
        assert(rest.to_multiset().contains(x));
        assert(sorted@.to_multiset().add(messages@.to_multiset()) =~= orig.to_multiset());
        assert(messages@ =~= orig.subrange(k + 1, orig.len() as int));
        proof {
            k = k + 1;
        }
    }
    assert(orig.subrange(0, k) =~= orig);
    assert(messages@.to_multiset() =~= Multiset::empty());
    assert(sorted@.to_multiset() =~= orig.to_multiset());
    *messages = sorted;
}


proof fn lemma_dispel_scan_len(ms: Seq<Message>, k: int)
    requires
        0 <= k <= ms.len(),
    ensures
        dispel_scan(ms, k).0.len() == ms.len(),
        forall|j: int| k <= j < ms.len() ==> #[trigger] dispel_scan(ms, k).0[j] == ms[j],
        dispel_scan(ms, k).1 matches Some(d) ==> 0 <= d < k,
    decreases k,
{
    if k > 0 {
        lemma_dispel_scan_len(ms, k - 1);
    }
}

/// The ability id recorded for damage reflected by a damage shield.
pub const DAMAGE_SHIELD_SPELL: u32 = 2;

/// An ability hit: its cast and its damage, or the damage alone.
pub open spec fn spell_damage_shape(v: Seq<MessageType>) -> bool {
    (v.len() == 2 && v[0] is SpellCast && v[1] is SpellDamage) || (v.len() == 1 && v[0] is SpellDamage)
}

/// The messages that rule `k` yields.
pub open spec fn rule_yields(k: int, v: Seq<MessageType>) -> bool {
    if k == 0 {
        v.len() == 1 && v[0] is SpellCastAttempt
    } else if k == 1 || k == 8 || k == 9 {
        v.len() == 2 && v[0] is SpellCast && v[1] is Heal
    } else if k == 2 || k == 3 || k == 4 || k == 5 || k == 12 {
        spell_damage_shape(v)
    } else if k == 6 || k == 7 || (20 <= k <= 23) {
        v.len() == 1 && v[0] is MeleeDamage
    } else if k == 10 || k == 11 {
        v.len() == 1 && v[0] is AuraApplication
    } else if 13 <= k <= 19 {
        v.len() == 2 && v[0] is SpellCast && v[1] is SpellDamage
    } else if 24 <= k <= 26 {
        v.len() == 1 && v[0] is SpellCast
    } else if k == 27 || k == 28 {
        v.len() == 1 && v[0] is Death
    } else if k == 29 {
        v.len() == 1 && v[0] is Dispel
    } else {
        v.len() == 2 && v[0] is SpellCast && v[1] is Interrupt
    }
}

/// How long (ms) before its first logged action an actor is taken to be in
/// combat already.
pub open spec fn npc_appearance_offset_spec(entry: u32) -> Option<i64> {
    if entry == 15990 {
        Some(-228000i64)
    } else if entry == 12435 {
        Some(-300000i64)
    } else if entry == 11583 {
        Some(-180000i64)
    } else if entry == 65534 {
        Some(-3000i64)
    } else if entry == 15928 {
        Some(-30000i64)
    } else {
        None
    }
}

/// How long (ms) without activity an actor stays in combat.
pub open spec fn npc_timeout_spec(entry: u32) -> Option<u64> {
    if entry == 65534 {
        Some(90000u64)
    } else if entry == 15990 {
        Some(180000u64)
    } else if entry == 15928 || entry == 15299 || entry == 16060 {
        Some(80000u64)
    } else if entry == 11583 {
        Some(120000u64)
    } else {
        None
    }
}

pub open spec fn death_implied_spec(entry: u32) -> Option<Seq<(u32, i64, i64)>> {
    if entry == 15929 || entry == 15930 {
        Some(seq![(15928u32, -1000i64, 180000i64)])
    } else if entry == 16427 || entry == 16428 || entry == 16429 {
        Some(seq![(65534u32, 0i64, 180000i64)])
    } else if entry == 12557 || entry == 14456 || entry == 12416 || entry == 12422 || entry == 12420 {
        Some(seq![(12435u32, 0i64, 240000i64)])
    } else if 14261 <= entry <= 14265 {
        Some(seq![(11583u32, 0i64, 180000i64)])
    } else {
        None
    }
}

pub open spec fn in_combat_implied_spec(entry: u32) -> Option<Seq<u32>> {
    if (16124 <= entry <= 16127) || (16148 <= entry <= 16150) {
        Some(seq![16060u32])
    } else if entry == 12557 || entry == 14456 || entry == 12416 || entry == 12422 || entry == 12420 {
        Some(seq![12435u32])
    } else if entry == 16427 || entry == 16429 || entry == 16428 {
        Some(seq![65534u32])
    } else if entry == 15667 {
        Some(seq![15299u32])
    } else if (14261 <= entry <= 14265) || entry == 10162 || entry == 10163 {
        Some(seq![11583u32])
    } else {
        None
    }
}

pub struct WoWVanillaParser {
    pub server_id: u32,
    pub cache_unit: Vec<(String, Unit)>,
    pub cache_spell_id: Vec<(String, Option<u32>)>,
    pub participants: Vec<Participant>,
    /// Pet unit id to owner unit id.
    pub pet_owner: Vec<(u64, u64)>,
    /// Messages found inside lines that are not combat events (loot, zone).
    pub bonus_messages: Vec<Message>,
}

/// The unit that stands for an unknown caster.
pub open spec fn unknown_player() -> Unit {
    Unit { is_player: true, unit_id: 0, is_self_damage: false, is_mind_control: false }
}


/// The aura that marks an externally triggered respec.
pub const RESPEC_MARKER: &'static str = "Scrambled Brain";

pub open spec fn participant_is(id: u64) -> spec_fn(Participant) -> bool {
    |p: Participant| p.id == id
}

/// The position of the participant of a unit.
pub open spec fn participant_index(ps: Seq<Participant>, id: u64) -> Option<int> {
    first_index(ps, participant_is(id))
}

/// `b` is `a` with only its participants changed.
pub open spec fn same_but_participants(a: WoWVanillaParser, b: WoWVanillaParser) -> bool {
    &&& a.server_id == b.server_id
    &&& a.cache_unit == b.cache_unit
    &&& a.cache_spell_id == b.cache_spell_id
    &&& a.pet_owner == b.pet_owner
    &&& a.bonus_messages == b.bonus_messages
}

/// `b` is `a` with the participant at `i` replaced in a way `f` allows.
pub open spec fn one_participant_changed(a: WoWVanillaParser, b: WoWVanillaParser, i: int) -> bool {
    &&& same_but_participants(a, b)
    &&& b.participants@.len() == a.participants@.len()
    &&& forall|j: int| 0 <= j < a.participants@.len() && j != i ==> #[trigger] b.participants@[j] == a.participants@[j]
}

/// The talents of the tree revealed, if any, are recorded for the unit's
/// participant; nothing else changes.
pub open spec fn spec_inferred(a: WoWVanillaParser, b: WoWVanillaParser, unit_id: u64, tree: Option<u8>, ts: u64) -> bool {
    match (tree, participant_index(a.participants@, unit_id)) {
        (Some(t), Some(i)) => one_participant_changed(a, b, i) && talents_recorded(
            a.participants@[i],
            b.participants@[i],
            ts,
            tree_talents(t),
        ),
        _ => b == a,
    }
}

/// The unit's participant, if any, notes a respec marker at `ts`; nothing
/// else changes.
pub open spec fn brainwash_marked(a: WoWVanillaParser, b: WoWVanillaParser, unit_id: u64, ts: u64) -> bool {
    match participant_index(a.participants@, unit_id) {
        Some(i) => one_participant_changed(a, b, i) && b.participants@[i] == (Participant {
            last_brainwash: ts,
            ..a.participants@[i]
        }),
        None => b == a,
    }
}


pub open spec fn min_u32(a: u32, b: u32) -> u32 {
    if a <= b {
        a
    } else {
        b
    }
}

/// The damage credit of a unit's participant; 0 when it has none.
pub open spec fn ledger_of(ps: Seq<Participant>, id: u64) -> u32 {
    match participant_index(ps, id) {
        Some(i) => ps[i].available_effective_heal,
        None => 0,
    }
}

/// Class, race and gender once known are never overwritten, and the
/// participants known keep their places.
pub open spec fn profiles_kept(a: Seq<Participant>, b: Seq<Participant>) -> bool {
    &&& a.len() <= b.len()
    &&& forall|j: int| 0 <= j < a.len() ==> {
        &&& #[trigger] b[j].id == a[j].id
        &&& (a[j].hero_class_id is Some ==> b[j].hero_class_id == a[j].hero_class_id)
        &&& (a[j].race_id is Some ==> b[j].race_id == a[j].race_id)
        &&& (a[j].gender_id is Some ==> b[j].gender_id == a[j].gender_id)
    }
}

/// What a heal line yields: the cast, and the heal whose effective part is
/// what the target's ledger `ledger` covers.
pub open spec fn heal_messages(caster: Unit, target: Unit, spell_id: u32, amount: u32, ledger: u32, hit_mask: u32) -> Seq<
    MessageType,
> {
    seq![
        MessageType::SpellCast(SpellCast { caster, target: Some(target), spell_id, hit_mask }),
        MessageType::Heal(
            HealDone {
                caster,
                target,
                spell_id,
                total_heal: amount,
                effective_heal: min_u32(amount, ledger),
                absorb: 0,
                hit_mask,
            },
        ),
    ]
}

/// The target's ledger gave up the effective heal; every other ledger is
/// unchanged.
pub open spec fn heal_taken(a: Seq<Participant>, b: Seq<Participant>, target: u64, amount: u32) -> bool {
    &&& ledger_of(b, target) == ledger_of(a, target) - min_u32(amount, ledger_of(a, target))
    &&& forall|id: u64| id != target ==> #[trigger] ledger_of(b, id) == ledger_of(a, id)
}

/// The victim's ledger grew by the damage (saturating); every other ledger
/// is unchanged.
pub open spec fn damage_taken(a: Seq<Participant>, b: Seq<Participant>, victim: u64, damage: u32) -> bool {
    &&& ledger_of(b, victim) == add_sat(ledger_of(a, victim), damage)
    &&& forall|id: u64| id != victim ==> #[trigger] ledger_of(b, id) == ledger_of(a, id)
}

/// The damage a message reports, if it is a damage message.
pub open spec fn damage_of(m: MessageType) -> Option<DamageDone> {
    match m {
        MessageType::SpellDamage(d) => Some(d),
        MessageType::MeleeDamage(d) => Some(d),
        _ => None,
    }
}

/// Capture group `i` of a match, when it took part.
pub open spec fn group_of(c: Seq<Option<String>>, i: int) -> Option<Seq<char>> {
    if 0 <= i < c.len() {
        match c[i] {
            Some(g) => Some(g@),
            None => None,
        }
    } else {
        None
    }
}

/// The references, ability and amount of a heal line all resolve.
pub open spec fn heal_line_resolves(
    a: WoWVanillaParser,
    data: Data,
    caster: Option<Seq<char>>,
    spell: Option<Seq<char>>,
    target: Option<Seq<char>>,
    amount: Option<Seq<char>>,
) -> bool {
    &&& caster is Some && spell is Some && target is Some && amount is Some
    &&& unit_resolution(unit_cache_view(a.cache_unit@), data, caster->0).0 is Some
    &&& spell_resolution(spell_cache_view(a.cache_spell_id@), data, spell->0).0 is Some
    &&& unit_resolution(unit_resolution(unit_cache_view(a.cache_unit@), data, caster->0).1, data, target->0).0 is Some
    &&& parse_u32_spec(amount->0) is Some
}

/// The messages of a heal line whose parts all resolve.
pub open spec fn heal_line_messages(
    a: WoWVanillaParser,
    data: Data,
    caster: Seq<char>,
    spell: Seq<char>,
    target: Seq<char>,
    amount: Seq<char>,
    hit_mask: u32,
) -> Seq<MessageType> {
    let (c, c1) = unit_resolution(unit_cache_view(a.cache_unit@), data, caster);
    let t = unit_resolution(c1, data, target).0;
    heal_messages(
        c->0,
        t->0,
        spell_resolution(spell_cache_view(a.cache_spell_id@), data, spell).0->0,
        parse_u32_spec(amount)->0,
        ledger_of(a.participants@, t->0.unit_id),
        hit_mask,
    )
}

/// The heal mask of a heal rule: critical for rule 8.
pub open spec fn heal_rule_mask(k: int) -> u32 {
    if k == 8 {
        CRIT
    } else {
        HIT
    }
}

/// The parts of a plain melee hit line (`A hits V for N.`) all resolve.
pub open spec fn melee_line_resolves(a: WoWVanillaParser, data: Data, cv: Seq<Option<Seq<char>>>) -> bool {
    let (att, c1) = unit_resolution(unit_cache_view(a.cache_unit@), data, cap(cv, 1)->0);
    &&& cap(cv, 1) is Some && cap(cv, 2) is Some && cap(cv, 3) is Some && cap(cv, 4) is Some && cap(cv, 5) is Some
    &&& att is Some
    &&& unit_resolution(c1, data, cap(cv, 3)->0).0 is Some
    &&& parse_u32_spec(cap(cv, 4)->0) is Some
}

/// What a resolved plain melee hit line yields: one melee damage message
/// from the attacker to the victim, of the stated amount.
pub open spec fn melee_line_result(a: WoWVanillaParser, b: WoWVanillaParser, data: Data, cv: Seq<Option<Seq<char>>>, v: Seq<MessageType>) -> bool {
    let (att, c1) = unit_resolution(unit_cache_view(a.cache_unit@), data, cap(cv, 1)->0);
    let victim = unit_resolution(c1, data, cap(cv, 3)->0).0->0;
    let damage = parse_u32_spec(cap(cv, 4)->0)->0;
    &&& v.len() == 1
    &&& v[0] matches MessageType::MeleeDamage(dd) && dd.attacker == att->0 && dd.victim == victim
        && dd.damage_components@.len() == 1 && dd.damage_components@[0].damage == damage
        && dd.damage_components@[0].school_mask == SCHOOL_PHYSICAL
    &&& damage_taken(a.participants@, b.participants@, victim.unit_id, damage)
}

/// The plain melee hit rule is the first that matches the line, and all of
/// its parts resolve.
pub open spec fn melee_line_first(a: WoWVanillaParser, data: Data, content: Seq<char>) -> bool {
    &&& first_match(6, content)
    &&& regex_captures(rule_pattern_spec(6), content) matches Some(cv)
    &&& melee_line_resolves(a, data, cv)
}

/// Heal rule `k` is the first rule that matches the line, and all of its
/// parts resolve.
pub open spec fn heal_line_first(k: int, a: WoWVanillaParser, data: Data, content: Seq<char>) -> bool {
    &&& first_match(k, content)
    &&& regex_captures(rule_pattern_spec(k), content) matches Some(cv)
    &&& heal_line_resolves(a, data, cap(cv, 1), cap(cv, 2), cap(cv, 3), cap(cv, 4))
}

/// No faulty shape and no rule before `k` matches the line.
pub open spec fn first_match(k: int, content: Seq<char>) -> bool {
    &&& regex_captures(RE_BUG_DAMAGE_SPELL_HIT_OR_CRIT@, content) is None
    &&& forall|j: int| 0 <= j < k ==> #[trigger] regex_captures(rule_pattern_spec(j), content) is None
}

pub open spec fn is_heal_rule(k: int) -> bool {
    k == 1 || k == 8 || k == 9
}

pub open spec fn is_damage_rule(k: int) -> bool {
    k == 2 || k == 3 || k == 4 || k == 5 || k == 6 || k == 7 || k == 12
}

/// What rule `k` does to the ledgers: a heal takes its effective part
/// from the target's ledger, damage adds to the victim's, anything else
/// leaves them.
pub open spec fn rule_effect(k: int, a: WoWVanillaParser, b: WoWVanillaParser, v: Seq<MessageType>) -> bool {
    if is_heal_rule(k) {
        v.len() == 2 && (v[1] matches MessageType::Heal(h) && h.effective_heal == min_u32(
            h.total_heal,
            ledger_of(a.participants@, h.target.unit_id),
        ) && heal_taken(a.participants@, b.participants@, h.target.unit_id, h.total_heal))
    } else if is_damage_rule(k) {
        v.len() > 0 && (damage_of(v.last()) matches Some(dd) && dd.damage_components@.len() == 1 && damage_taken(
            a.participants@,
            b.participants@,
            dd.victim.unit_id,
            dd.damage_components@[0].damage,
        ))
    } else {
        ledgers_kept(a.participants@, b.participants@)
    }
}

pub open spec fn ledgers_kept(a: Seq<Participant>, b: Seq<Participant>) -> bool {
    forall|id: u64| #[trigger] ledger_of(b, id) == ledger_of(a, id)
}

/// Participants untouched but for talents and respec markers.
pub open spec fn participants_framed(a: Seq<Participant>, b: Seq<Participant>) -> bool {
    &&& profiles_kept(a, b)
    &&& a.len() == b.len()
    &&& ledgers_kept(a, b)
}

proof fn lemma_index_same_ids(a: Seq<Participant>, b: Seq<Participant>, id: u64)
    requires
        a.len() == b.len(),
        forall|j: int| 0 <= j < a.len() ==> #[trigger] b[j].id == a[j].id,
    ensures
        participant_index(b, id) == participant_index(a, id),
{
    match participant_index(a, id) {
        Some(i) => {
            lemma_first_index_is_first(a, participant_is(id));
            assert forall|j: int| 0 <= j < i implies !(#[trigger] participant_is(id)(b[j])) by {
                assert(!participant_is(id)(a[j]));
            }
            assert(participant_is(id)(b[i]));
            lemma_first_index_is(b, participant_is(id), i);
        },
        None => {
            assert forall|j: int| 0 <= j < b.len() implies !(#[trigger] participant_is(id)(b[j])) by {
                if participant_is(id)(a[j]) {
                    lemma_first_exists(a, participant_is(id), j);
                }
            }
            lemma_first_index_none(b, participant_is(id));
        },
    }
}

proof fn lemma_index_push(a: Seq<Participant>, p: Participant, id: u64)
    ensures
        participant_index(a.push(p), id) == match participant_index(a, id) {
            Some(i) => Some(i),
            None => if p.id == id {
                Some(a.len() as int)
            } else {
                None
            },
        },
{
    match participant_index(a, id) {
        Some(i) => {
            lemma_first_index_push(a, participant_is(id), p);
        },
        None => {
            if p.id == id {
                lemma_first_index_push_new(a, participant_is(id), p);
            } else {
                assert forall|j: int| 0 <= j < a.push(p).len() implies !(#[trigger] participant_is(id)(a.push(p)[j])) by {
                    if j < a.len() {
                        assert(a.push(p)[j] == a[j]);
                        if participant_is(id)(a[j]) {
                            lemma_first_exists(a, participant_is(id), j);
                        }
                    }
                }
                lemma_first_index_none(a.push(p), participant_is(id));
            }
        },
    }
}


/// Capture group `i` of a match's view.
pub open spec fn cap(cv: Seq<Option<Seq<char>>>, i: int) -> Option<Seq<char>> {
    if 0 <= i < cv.len() {
        cv[i]
    } else {
        None
    }
}

/// The bonus message of a loot line's captures: the receiver's loot at the
/// line's date, when every part resolves.
pub open spec fn loot_messages(a: WoWVanillaParser, data: Data, cv: Seq<Option<Seq<char>>>) -> Seq<Message> {
    let date = cap(cv, 1);
    let receiver = cap(cv, 2);
    let item = cap(cv, 4);
    let count = cap(cv, 9);
    if date is Some && receiver is Some && item is Some && count is Some && log_datetime_millis(date->0) is Some
        && log_datetime_millis(date->0)->0 >= 0 && unit_resolution(unit_cache_view(a.cache_unit@), data, receiver->0).0 is Some
        && parse_u32_spec(item->0) is Some && parse_u32_spec(count->0) is Some {
        seq![
            Message {
                timestamp: log_datetime_millis(date->0)->0 as u64,
                message_type: MessageType::Loot(
                    Loot {
                        unit: unit_resolution(unit_cache_view(a.cache_unit@), data, receiver->0).0->0,
                        item_id: parse_u32_spec(item->0)->0,
                        count: parse_u32_spec(count->0)->0,
                    },
                ),
            },
        ]
    } else {
        seq![]
    }
}

/// The bonus message of a zone line's captures: the instance of a map the
/// catalog knows, at the line's date.
pub open spec fn zone_messages(data: Data, cv: Seq<Option<Seq<char>>>) -> Seq<Message> {
    let date = cap(cv, 1);
    let map = cap(cv, 2);
    let instance = cap(cv, 3);
    if date is Some && map is Some && instance is Some && log_datetime_millis(date->0) is Some
        && log_datetime_millis(date->0)->0 >= 0 && data.map_id_by_name(map->0) is Some && parse_u32_spec(instance->0) is Some {
        seq![
            Message {
                timestamp: log_datetime_millis(date->0)->0 as u64,
                message_type: MessageType::InstanceMap(
                    InstanceMap {
                        map_id: data.map_id_by_name(map->0)->0,
                        instance_id: parse_u32_spec(instance->0)->0,
                        map_difficulty: 0,
                        unit: Unit { is_player: false, unit_id: 1, is_self_damage: false, is_mind_control: false },
                    },
                ),
            },
        ]
    } else {
        seq![]
    }
}


/// The `&`-separated fields of a combatant line after its prefix.
pub open spec fn combatant_fields(content: Seq<char>) -> Seq<Seq<char>> {
    let start: int = if starts_with_seq(content, "COMBATANT_INFO: "@) {
        16
    } else {
        15
    };
    if content.len() < start {
        seq![]
    } else {
        split_spec(content.subrange(start, content.len() as int), '&')
    }
}

/// The class recorded for a unit's participant, if any.
pub open spec fn class_of(ps: Seq<Participant>, id: u64) -> Option<u8> {
    match participant_index(ps, id) {
        Some(i) => ps[i].hero_class_id,
        None => None,
    }
}

proof fn lemma_update_keeps(a: Seq<Participant>, b: Seq<Participant>, i: int)
    requires
        0 <= i < a.len(),
        b == a.update(i, b[i]),
        b[i].id == a[i].id,
        b[i].available_effective_heal == a[i].available_effective_heal,
        a[i].hero_class_id is Some ==> b[i].hero_class_id == a[i].hero_class_id,
        a[i].race_id is Some ==> b[i].race_id == a[i].race_id,
        a[i].gender_id is Some ==> b[i].gender_id == a[i].gender_id,
    ensures
        profiles_kept(a, b),
        ledgers_kept(a, b),
        forall|id: u64| #[trigger] participant_index(b, id) == participant_index(a, id),
{
    assert forall|j: int| 0 <= j < a.len() implies #[trigger] b[j].id == a[j].id by {}
    assert forall|id: u64| #[trigger] participant_index(b, id) == participant_index(a, id) by {
        lemma_index_same_ids(a, b, id);
    }
}


/// Ledgers that an earlier, failed rule left alone do not change what the
/// successful rule did to them.
proof fn lemma_effect_from_start(k: int, a: WoWVanillaParser, m: WoWVanillaParser, b: WoWVanillaParser, v: Seq<MessageType>)
    requires
        ledgers_kept(a.participants@, m.participants@),
        rule_effect(k, m, b, v),
    ensures
        rule_effect(k, a, b, v),
{
}



proof fn lemma_profiles_trans(a: Seq<Participant>, b: Seq<Participant>, c: Seq<Participant>)
    requires
        profiles_kept(a, b),
        profiles_kept(b, c),
    ensures
        profiles_kept(a, c),
{
}

impl WoWVanillaParser {
    pub open spec fn wf(&self) -> bool {
        forall|i: int| 0 <= i < self.participants@.len() ==> (#[trigger] self.participants@[i]).wf()
    }

    pub fn new(server_id: u32) -> (r: WoWVanillaParser)
        ensures
            r.wf(),
            r.server_id == server_id,
            r.participants@.len() == 0,
    {
        WoWVanillaParser {
            server_id,
            cache_unit: Vec::new(),
            cache_spell_id: Vec::new(),
            participants: Vec::new(),
            pet_owner: Vec::new(),
            bonus_messages: Vec::new(),
        }
    }

    pub fn find_participant(&self, unit_id: u64) -> (r: Option<usize>)
        ensures
            match r {
                Some(i) => i < self.participants@.len() && self.participants@[i as int].id == unit_id
                    && participant_index(self.participants@, unit_id) == Some(i as int),
                None => (forall|j: int| 0 <= j < self.participants@.len() ==> #[trigger] self.participants@[j].id != unit_id)
                    && participant_index(self.participants@, unit_id) is None,
            },
    {
        let mut i: usize = 0;
        while i < self.participants.len()
            invariant
                i <= self.participants@.len(),
                forall|j: int| 0 <= j < i ==> #[trigger] self.participants@[j].id != unit_id,
            decreases self.participants@.len() - i,
        {
            if self.participants[i].id == unit_id {
                proof {
                    assert forall|j: int| 0 <= j < i implies !(#[trigger] participant_is(unit_id)(self.participants@[j])) by {}
                    lemma_first_index_is(self.participants@, participant_is(unit_id), i as int);
                }
                return Some(i);
            }
            i = i + 1;
        }
        proof {
            assert forall|j: int| 0 <= j < self.participants@.len() implies !(#[trigger] participant_is(unit_id)(self.participants@[j])) by {}
            lemma_first_index_none(self.participants@, participant_is(unit_id));
        }
        None
    }

    /// Records that a unit was seen at `ts`: a new participant the first
    /// time, an extended presence afterwards.
    pub fn collect_participant(&mut self, unit: &Unit, name: &str, ts: u64)
        requires
            old(self).wf(),
        ensures
            final(self).wf(),
            same_but_participants(*old(self), *final(self)),
            participant_index(final(self).participants@, unit.unit_id) is Some,
            forall|id: u64| #[trigger] ledger_of(final(self).participants@, id) == ledger_of(old(self).participants@, id),
            profiles_kept(old(self).participants@, final(self).participants@),
    {
        let ghost before = self.participants@;
        match self.find_participant(unit.unit_id) {
            Some(i) => {
                self.participants[i].add_participation_point(ts);
                assert forall|j: int| 0 <= j < before.len() implies #[trigger] self.participants@[j].id == before[j].id by {}
                assert forall|id: u64| #[trigger] ledger_of(self.participants@, id) == ledger_of(before, id) by {
                    lemma_index_same_ids(before, self.participants@, id);
                }
                proof {
                    lemma_index_same_ids(before, self.participants@, unit.unit_id);
                }
            },
            None => {
                let p = Participant::new(
                    unit.unit_id,
                    unit.is_player,
                    unit.is_self_damage,
                    unit.is_mind_control,
                    String::from_str(name),
                    ts,
                );
                self.participants.push(p);
                assert forall|id: u64| #[trigger] ledger_of(self.participants@, id) == ledger_of(before, id) by {
                    lemma_index_push(before, p, id);
                }
                proof {
                    lemma_index_push(before, p, unit.unit_id);
                }
            },
        }
    }

    fn credit_damage(&mut self, unit_id: u64, damage: u32)
        requires
            old(self).wf(),
        ensures
            final(self).wf(),
            same_but_participants(*old(self), *final(self)),
            profiles_kept(old(self).participants@, final(self).participants@),
            final(self).participants@.len() == old(self).participants@.len(),
            participant_index(old(self).participants@, unit_id) is Some ==> ledger_of(final(self).participants@, unit_id)
                == add_sat(ledger_of(old(self).participants@, unit_id), damage),
            forall|id: u64| id != unit_id ==> #[trigger] ledger_of(final(self).participants@, id) == ledger_of(old(self).participants@, id),
            forall|id: u64| #[trigger] participant_index(final(self).participants@, id) == participant_index(old(self).participants@, id),
    {
        let ghost before = self.participants@;
        if let Some(i) = self.find_participant(unit_id) {
            self.participants[i].attribute_damage(damage);
            assert forall|j: int| 0 <= j < before.len() implies #[trigger] self.participants@[j].id == before[j].id by {}
            assert forall|id: u64| #[trigger] participant_index(self.participants@, id) == participant_index(before, id) by {
                lemma_index_same_ids(before, self.participants@, id);
            }
        }
    }

    /// The effective part of a heal received by `unit_id`.
    fn credit_heal(&mut self, unit_id: u64, heal: u32) -> (r: u32)
        requires
            old(self).wf(),
        ensures
            final(self).wf(),
            same_but_participants(*old(self), *final(self)),
            profiles_kept(old(self).participants@, final(self).participants@),
            final(self).participants@.len() == old(self).participants@.len(),
            r == min_u32(heal, ledger_of(old(self).participants@, unit_id)),
            ledger_of(final(self).participants@, unit_id) == ledger_of(old(self).participants@, unit_id) - r,
            forall|id: u64| id != unit_id ==> #[trigger] ledger_of(final(self).participants@, id) == ledger_of(old(self).participants@, id),
            forall|id: u64| #[trigger] participant_index(final(self).participants@, id) == participant_index(old(self).participants@, id),
    {
        let ghost before = self.participants@;
        if let Some(i) = self.find_participant(unit_id) {
            let r = self.participants[i].attribute_heal(heal);
            assert forall|j: int| 0 <= j < before.len() implies #[trigger] self.participants@[j].id == before[j].id by {}
            assert forall|id: u64| #[trigger] participant_index(self.participants@, id) == participant_index(before, id) by {
                lemma_index_same_ids(before, self.participants@, id);
            }
            r
        } else {
            0
        }
    }

    fn record_tree(&mut self, unit_id: u64, tree: Option<u8>, ts: u64)
        requires
            old(self).wf(),
        ensures
            final(self).wf(),
            participants_framed(old(self).participants@, final(self).participants@),
            spec_inferred(*old(self), *final(self), unit_id, tree, ts),
    {
        if let Some(t) = tree {
            if let Some(i) = self.find_participant(unit_id) {
                let ghost before = self.participants@;
                self.participants[i].record_talents(ts, tree_talent_str(t));
                assert(forall|j: int| 0 <= j < before.len() && j != i ==> self.participants@[j] == before[j]);
                assert forall|j: int| 0 <= j < before.len() implies #[trigger] self.participants@[j].id == before[j].id by {}
                assert forall|id: u64| #[trigger] ledger_of(self.participants@, id) == ledger_of(before, id) by {
                    lemma_index_same_ids(before, self.participants@, id);
                }
                return;
            }
        }
    }

    /// Specialization inferred from an ability cast.
    pub fn assign_spec_from_cast(&mut self, unit_id: u64, spell: &str, ts: u64)
        requires
            old(self).wf(),
        ensures
            final(self).wf(),
            participants_framed(old(self).participants@, final(self).participants@),
            spec_inferred(*old(self), *final(self), unit_id, cast_tree(spell@), ts),
    {
        self.record_tree(unit_id, cast_talents(spell), ts);
    }

    /// Specialization inferred from a heal.
    pub fn assign_spec_from_heal(&mut self, unit_id: u64, spell: &str, ts: u64)
        requires
            old(self).wf(),
        ensures
            final(self).wf(),
            participants_framed(old(self).participants@, final(self).participants@),
            spec_inferred(*old(self), *final(self), unit_id, heal_tree(spell@), ts),
    {
        self.record_tree(unit_id, heal_talents(spell), ts);
    }

    /// Specialization inferred from an aura gained; the respec marker aura
    /// instead dates the next specialization change.
    pub fn assign_spec_from_aura_gain(&mut self, unit_id: u64, spell: &str, ts: u64)
        requires
            old(self).wf(),
        ensures
            final(self).wf(),
            participants_framed(old(self).participants@, final(self).participants@),
            if spell@ == RESPEC_MARKER@ {
                brainwash_marked(*old(self), *final(self), unit_id, ts)
            } else {
                spec_inferred(*old(self), *final(self), unit_id, aura_gain_tree(spell@), ts)
            },
    {
        if str_eq(spell, RESPEC_MARKER) {
            if let Some(i) = self.find_participant(unit_id) {
                let ghost before = self.participants@;
                self.participants[i].last_brainwash = ts;
                assert(self.participants@ == before.update(i as int, Participant { last_brainwash: ts, ..before[i as int] }));
                assert forall|j: int| 0 <= j < before.len() implies #[trigger] self.participants@[j].id == before[j].id by {}
                assert forall|id: u64| #[trigger] ledger_of(self.participants@, id) == ledger_of(before, id) by {
                    lemma_index_same_ids(before, self.participants@, id);
                }
            }
        } else {
            self.record_tree(unit_id, aura_gain_talents(spell), ts);
        }
    }

    fn unit(&mut self, data: &Data, name: &str) -> (r: Option<Unit>)
        ensures
            final(self).participants@ == old(self).participants@,
            final(self).pet_owner@ == old(self).pet_owner@,
            final(self).bonus_messages@ == old(self).bonus_messages@,
            final(self).cache_spell_id@ == old(self).cache_spell_id@,
            (r, unit_cache_view(final(self).cache_unit@)) == unit_resolution(unit_cache_view(old(self).cache_unit@), *data, name@),
    {
        parse_unit(&mut self.cache_unit, data, name)
    }

    fn spell(&mut self, data: &Data, name: &str) -> (r: Option<u32>)
        ensures
            final(self).participants@ == old(self).participants@,
            final(self).pet_owner@ == old(self).pet_owner@,
            final(self).bonus_messages@ == old(self).bonus_messages@,
            final(self).cache_unit@ == old(self).cache_unit@,
            (r, spell_cache_view(final(self).cache_spell_id@)) == spell_resolution(spell_cache_view(old(self).cache_spell_id@), *data, name@),
    {
        parse_spell_args(&mut self.cache_spell_id, data, name)
    }

    /// A spell whose effect on the victim is a single outcome flag: the
    /// cast and its damage message, without damage.
    fn spell_outcome(
        &mut self,
        data: &Data,
        ts: u64,
        attacker_name: &str,
        spell_name: &str,
        victim_name: &str,
        hit_mask: u32,
    ) -> (r: Option<Vec<MessageType>>)
        requires
            old(self).wf(),
        ensures
            final(self).wf(),
            profiles_kept(old(self).participants@, final(self).participants@),
            ledgers_kept(old(self).participants@, final(self).participants@),
            r matches Some(v) ==> v@.len() == 2 && v@[0] is SpellCast && v@[1] is SpellDamage,
    {
        let attacker = self.unit(data, attacker_name)?;
        let spell_id = self.spell(data, spell_name)?;
        let victim = self.unit(data, victim_name)?;
        self.collect_participant(&attacker, attacker_name, ts);
        self.collect_participant(&victim, victim_name, ts);
        self.assign_spec_from_cast(attacker.unit_id, spell_name, ts);
        Some(
            vec![
                MessageType::SpellCast(SpellCast { caster: attacker, target: Some(victim), spell_id, hit_mask }),
                MessageType::SpellDamage(
                    DamageDone {
                        attacker,
                        victim,
                        spell_id: Some(spell_id),
                        spell_name: Some(String::from_str(spell_name)),
                        hit_mask,
                        blocked: 0,
                        damage_over_time: false,
                        damage_components: Vec::new(),
                    },
                ),
            ],
        )
    }

    /// A melee swing whose outcome is a single flag, without damage.
    fn melee_outcome(&mut self, data: &Data, ts: u64, attacker_name: &str, victim_name: &str, hit_mask: u32) -> (r:
        Option<Vec<MessageType>>)
        requires
            old(self).wf(),
        ensures
            final(self).wf(),
            profiles_kept(old(self).participants@, final(self).participants@),
            ledgers_kept(old(self).participants@, final(self).participants@),
            r matches Some(v) ==> v@.len() == 1 && v@[0] is MeleeDamage,
    {
        let attacker = self.unit(data, attacker_name)?;
        let victim = self.unit(data, victim_name)?;
        self.collect_participant(&attacker, attacker_name, ts);
        self.collect_participant(&victim, victim_name, ts);
        Some(
            vec![
                MessageType::MeleeDamage(
                    DamageDone {
                        attacker,
                        victim,
                        spell_id: None,
                        spell_name: None,
                        hit_mask,
                        blocked: 0,
                        damage_over_time: false,
                        damage_components: Vec::new(),
                    },
                ),
            ],
        )
    }

    /// A hit with an amount: spell damage (with its cast) when `spell` is
    /// given, melee damage otherwise. The victim's ledger is credited. With
    /// `zero_is_absorb`, a hit of no damage is the absorbed part alone.
    fn damage_hit(
        &mut self,
        data: &Data,
        ts: u64,
        attacker: Unit,
        attacker_name: &str,
        spell: Option<(u32, Option<&str>)>,
        victim_name: &str,
        hit_word: Option<&str>,
        amount: &str,
        school: u8,
        trailer: &str,
        zero_is_absorb: bool,
    ) -> (r: Option<Vec<MessageType>>)
        requires
            old(self).wf(),
        ensures
            final(self).wf(),
            profiles_kept(old(self).participants@, final(self).participants@),
            r matches Some(v) ==> if spell is Some {
                spell_damage_shape(v@)
            } else {
                v@.len() == 1 && v@[0] is MeleeDamage
            },
            ({
                let victim = unit_resolution(unit_cache_view(old(self).cache_unit@), *data, victim_name@).0;
                let damage = parse_u32_spec(amount@);
                &&& (r is Some <==> (victim is Some && damage is Some))
                &&& (r is None ==> ledgers_kept(old(self).participants@, final(self).participants@))
                &&& (r matches Some(v) ==> damage_of(v@.last()) matches Some(dd) && dd.attacker == attacker
                    && dd.victim == victim->0 && dd.damage_components@.len() == 1
                    && dd.damage_components@[0].damage == damage->0 && dd.damage_components@[0].school_mask == school)
                &&& (r is Some ==> damage_taken(old(self).participants@, final(self).participants@, victim->0.unit_id, damage->0))
            }),
    {
        let victim = self.unit(data, victim_name)?;
        let damage = crate::text::parse_u32(amount)?;
        let t = parse_trailer(trailer);
        let base = match hit_word {
            Some(w) => hit_or_crit(w),
            None => HIT,
        };
        let hit_mask = base | t.mask();
        self.collect_participant(&attacker, attacker_name, ts);
        self.collect_participant(&victim, victim_name, ts);
        self.credit_damage(victim.unit_id, damage);
        let absorb_only = zero_is_absorb && damage == 0;
        let blocked = match t.blocked {
            Some(b) => if absorb_only { 0 } else { b },
            None => 0,
        };
        let resisted = match t.resisted {
            Some(b) => if absorb_only { 0 } else { b },
            None => 0,
        };
        let absorbed = match t.absorbed {
            Some(b) => b,
            None => 0,
        };
        let components = vec![DamageComponent { school_mask: school, damage, resisted_or_glanced: resisted, absorbed }];
        match spell {
            Some((spell_id, spell_name)) => {
                let name = match spell_name {
                    Some(n) => {
                        self.assign_spec_from_cast(attacker.unit_id, n, ts);
                        Some(String::from_str(n))
                    },
                    None => None,
                };
                let dd = DamageDone {
                    attacker,
                    victim,
                    spell_id: Some(spell_id),
                    spell_name: name,
                    hit_mask,
                    blocked,
                    damage_over_time: false,
                    damage_components: components,
                };
                if absorb_only {
                    Some(vec![MessageType::SpellDamage(dd)])
                } else {
                    Some(
                        vec![
                            MessageType::SpellCast(SpellCast { caster: attacker, target: Some(victim), spell_id, hit_mask }),
                            MessageType::SpellDamage(dd),
                        ],
                    )
                }
            },
            None => Some(
                vec![
                    MessageType::MeleeDamage(
                        DamageDone {
                            attacker,
                            victim,
                            spell_id: None,
                            spell_name: None,
                            hit_mask,
                            blocked,
                            damage_over_time: false,
                            damage_components: components,
                        },
                    ),
                ],
            ),
        }
    }

    /// A heal of `amount` by `caster_name`'s ability: its cast and the heal,
    /// whose effective part is taken from the target's ledger.
    fn heal(
        &mut self,
        data: &Data,
        ts: u64,
        caster_name: &str,
        spell_name: &str,
        target_name: &str,
        amount: &str,
        hit_mask: u32,
        from_aura: bool,
    ) -> (r: Option<Vec<MessageType>>)
        requires
            old(self).wf(),
        ensures
            final(self).wf(),
            profiles_kept(old(self).participants@, final(self).participants@),
            ({
                let (caster, c1) = unit_resolution(unit_cache_view(old(self).cache_unit@), *data, caster_name@);
                let target = unit_resolution(c1, *data, target_name@).0;
                let spell = spell_resolution(spell_cache_view(old(self).cache_spell_id@), *data, spell_name@).0;
                let amount_v = parse_u32_spec(amount@);
                &&& (r is Some <==> (caster is Some && spell is Some && target is Some && amount_v is Some))
                &&& (r is None ==> ledgers_kept(old(self).participants@, final(self).participants@))
                &&& (r matches Some(v) ==> v@ == heal_messages(
                    caster->0,
                    target->0,
                    spell->0,
                    amount_v->0,
                    ledger_of(old(self).participants@, target->0.unit_id),
                    hit_mask,
                ))
                &&& (r is Some ==> heal_taken(old(self).participants@, final(self).participants@, target->0.unit_id, amount_v->0))
            }),
    {
        let caster = self.unit(data, caster_name)?;
        let spell_id = self.spell(data, spell_name)?;
        let target = self.unit(data, target_name)?;
        let amount = crate::text::parse_u32(amount)?;
        self.collect_participant(&caster, caster_name, ts);
        self.collect_participant(&target, target_name, ts);
        let effective_heal = self.credit_heal(target.unit_id, amount);
        if from_aura {
            self.assign_spec_from_aura_gain(caster.unit_id, spell_name, ts);
        } else {
            self.assign_spec_from_heal(caster.unit_id, spell_name, ts);
        }
        let v = vec![
            MessageType::SpellCast(SpellCast { caster, target: Some(target), spell_id, hit_mask }),
            MessageType::Heal(
                HealDone { caster, target, spell_id, total_heal: amount, effective_heal, absorb: 0, hit_mask },
            ),
        ];
        assert(v@ =~= heal_messages(caster, target, spell_id, amount, ledger_of(old(self).participants@, target.unit_id), hit_mask));
        Some(v)
    }

    /// An ability cast, with or without a target.
    fn cast(&mut self, data: &Data, ts: u64, caster_name: &str, spell_name: &str, target_name: Option<&str>) -> (r:
        Option<Vec<MessageType>>)
        requires
            old(self).wf(),
        ensures
            final(self).wf(),
            profiles_kept(old(self).participants@, final(self).participants@),
            ledgers_kept(old(self).participants@, final(self).participants@),
            r matches Some(v) ==> v@.len() == 1 && v@[0] is SpellCast,
    {
        let caster = self.unit(data, caster_name)?;
        let spell_id = self.spell(data, spell_name)?;
        let target = match target_name {
            Some(n) => {
                let t = self.unit(data, n)?;
                self.collect_participant(&t, n, ts);
                Some(t)
            },
            None => None,
        };
        self.collect_participant(&caster, caster_name, ts);
        self.assign_spec_from_cast(caster.unit_id, spell_name, ts);
        Some(vec![MessageType::SpellCast(SpellCast { caster, target, spell_id, hit_mask: HIT })])
    }

    /// Applies rule `k` to its captures; `None` when a reference, an ability
    /// or a number of the line does not resolve.
    fn heal_rule(&mut self, data: &Data, ts: u64, k: usize, c: &Vec<Option<String>>) -> (r: Option<Vec<MessageType>>)
        requires
            old(self).wf(),
            is_heal_rule(k as int),
        ensures
            final(self).wf(),
            profiles_kept(old(self).participants@, final(self).participants@),
            r matches Some(v) ==> rule_yields(k as int, v@) && rule_effect(k as int, *old(self), *final(self), v@),
            r is None ==> ledgers_kept(old(self).participants@, final(self).participants@),
            (k == 8 || k == 9) ==> (r is Some <==> heal_line_resolves(
                *old(self),
                *data,
                group_of(c@, 1),
                group_of(c@, 2),
                group_of(c@, 3),
                group_of(c@, 4),
            )),
            (k == 8 || k == 9) ==> (r matches Some(v) ==> (v@[1] matches MessageType::Heal(h) && parse_u32_spec(
                group_of(c@, 4)->0,
            ) == Some(h.total_heal))),
            (k == 8 || k == 9) ==> (r matches Some(v) ==> v@ == heal_line_messages(
                *old(self),
                *data,
                group_of(c@, 1)->0,
                group_of(c@, 2)->0,
                group_of(c@, 3)->0,
                group_of(c@, 4)->0,
                heal_rule_mask(k as int),
            )),
    {
        if k == 1 {
            if !str_contains(group(c, 3)?, "ealth") {
                return None;
            }
            self.heal(data, ts, group(c, 4)?, group(c, 5)?, group(c, 1)?, group(c, 2)?, HIT, true)
        } else {
            let mask = if k == 8 {
                CRIT
            } else {
                HIT
            };
            let g1 = group(c, 1)?;
            let g2 = group(c, 2)?;
            let g3 = group(c, 3)?;
            let g4 = group(c, 4)?;
            assert(group_of(c@, 1) == Some(g1@) && group_of(c@, 2) == Some(g2@));
            assert(group_of(c@, 3) == Some(g3@) && group_of(c@, 4) == Some(g4@));
            assert(mask == heal_rule_mask(k as int));
            let ghost before = *self;
            let r = self.heal(data, ts, g1, g2, g3, g4, mask, false);
            assert(r matches Some(v) ==> v@ == heal_line_messages(before, *data, g1@, g2@, g3@, g4@, mask));
            r
        }
    }

    fn damage_rule(&mut self, data: &Data, ts: u64, k: usize, c: &Vec<Option<String>>) -> (r: Option<Vec<MessageType>>)
        requires
            old(self).wf(),
            is_damage_rule(k as int),
        ensures
            final(self).wf(),
            profiles_kept(old(self).participants@, final(self).participants@),
            r matches Some(v) ==> rule_yields(k as int, v@) && rule_effect(k as int, *old(self), *final(self), v@),
            r is None ==> ledgers_kept(old(self).participants@, final(self).participants@),
            k == 6 ==> (r is Some <==> melee_line_resolves(*old(self), *data, captures_view(c@))),
            k == 6 ==> (r matches Some(v) ==> melee_line_result(*old(self), *final(self), *data, captures_view(c@), v@)),
    {
        let ghost cv = captures_view(c@);
        assert(forall|i: int| #[trigger] cap(cv, i) == group_of(c@, i));
        if k == 2 || k == 3 {
            let attacker_name = group(c, 1)?;
            let attacker = self.unit(data, attacker_name)?;
            let spell_name = group(c, 2)?;
            let spell_id = self.spell(data, spell_name)?;
            let (school, trailer) = if k == 2 {
                (SCHOOL_PHYSICAL, group(c, 6)?)
            } else {
                (parse_school(group(c, 6)?)?, group(c, 7)?)
            };
            self.damage_hit(
                data,
                ts,
                attacker,
                attacker_name,
                Some((spell_id, Some(spell_name))),
                group(c, 4)?,
                Some(group(c, 3)?),
                group(c, 5)?,
                school,
                trailer,
                k == 3,
            )
        } else if k == 4 {
            let school = parse_school(group(c, 3)?)?;
            let spell_name = group(c, 5)?;
            let spell_id = self.spell(data, spell_name)?;
            let source_name = group(c, 4)?;
            let mut attacker_name = String::from_str(source_name);
            if str_eq(spell_name, "Power Overwhelming") && !str_contains(source_name, "self damage") {
                let first = self.unit(data, source_name)?;
                self.assign_spec_from_cast(first.unit_id, spell_name, ts);
                attacker_name.append(" (self damage)");
            }
            let attacker = self.unit(data, attacker_name.as_str())?;
            self.damage_hit(
                data,
                ts,
                attacker,
                attacker_name.as_str(),
                Some((spell_id, Some(spell_name))),
                group(c, 1)?,
                None,
                group(c, 2)?,
                school,
                group(c, 6)?,
                false,
            )
        } else if k == 5 {
            let attacker_name = group(c, 1)?;
            let attacker = self.unit(data, attacker_name)?;
            let school = parse_school(group(c, 3)?)?;
            self.damage_hit(
                data,
                ts,
                attacker,
                attacker_name,
                Some((DAMAGE_SHIELD_SPELL, None)),
                group(c, 4)?,
                None,
                group(c, 2)?,
                school,
                "",
                false,
            )
        } else if k == 6 || k == 7 {
            let attacker_name = group(c, 1)?;
            let ghost before = *self;
            let attacker = self.unit(data, attacker_name)?;
            let (school, trailer) = if k == 6 {
                (SCHOOL_PHYSICAL, group(c, 5)?)
            } else {
                (parse_school(group(c, 5)?)?, group(c, 6)?)
            };
            self.damage_hit(
                data,
                ts,
                attacker,
                attacker_name,
                None,
                group(c, 3)?,
                Some(group(c, 2)?),
                group(c, 4)?,
                school,
                trailer,
                false,
            )
        } else {
            let spell_name = group(c, 2)?;
            let spell_id = self.spell(data, spell_name)?;
            let source_name = group(c, 1)?;
            let mut attacker_name = String::from_str(source_name);
            if str_eq(spell_name, "Soul Link") && !str_contains(source_name, "self damage") {
                attacker_name.append(" (self damage)");
            }
            let attacker = self.unit(data, attacker_name.as_str())?;
            self.damage_hit(
                data,
                ts,
                attacker,
                attacker_name.as_str(),
                Some((spell_id, Some(spell_name))),
                group(c, 3)?,
                None,
                group(c, 4)?,
                SCHOOL_PHYSICAL,
                group(c, 5)?,
                false,
            )
        }
    }

    fn other_rule(&mut self, data: &Data, ts: u64, k: usize, c: &Vec<Option<String>>) -> (r: Option<Vec<MessageType>>)
        requires
            old(self).wf(),
            !is_heal_rule(k as int),
            !is_damage_rule(k as int),
        ensures
            final(self).wf(),
            profiles_kept(old(self).participants@, final(self).participants@),
            r matches Some(v) ==> rule_yields(k as int, v@),
            ledgers_kept(old(self).participants@, final(self).participants@),
    {
        if k == 0 {
            let caster = self.unit(data, group(c, 1)?)?;
            let spell_name = group(c, 2)?;
            let spell_id = self.spell(data, spell_name)?;
            self.assign_spec_from_cast(caster.unit_id, spell_name, ts);
            Some(vec![MessageType::SpellCastAttempt(SpellCast { caster, target: None, spell_id, hit_mask: HIT })])
        } else if k == 10 {
            let target_name = group(c, 1)?;
            let target = self.unit(data, target_name)?;
            let spell_name = group(c, 3)?;
            let spell_id = self.spell(data, spell_name)?;
            let stacks = crate::text::parse_u32(group(c, 4)?)?;
            if stacks > 127 {
                return None;
            }
            self.collect_participant(&target, target_name, ts);
            self.assign_spec_from_aura_gain(target.unit_id, spell_name, ts);
            Some(
                vec![
                    MessageType::AuraApplication(
                        AuraApplication {
                            caster: Unit { is_player: true, unit_id: 0, is_self_damage: false, is_mind_control: false },
                            target,
                            spell_id,
                            stack_amount: stacks,
                            delta: stacks as i8,
                        },
                    ),
                ],
            )
        } else if k == 11 {
            let target_name = group(c, 2)?;
            let target = self.unit(data, target_name)?;
            let spell_id = self.spell(data, group(c, 1)?)?;
            self.collect_participant(&target, target_name, ts);
            Some(
                vec![
                    MessageType::AuraApplication(
                        AuraApplication {
                            caster: Unit { is_player: true, unit_id: 0, is_self_damage: false, is_mind_control: false },
                            target,
                            spell_id,
                            stack_amount: 0,
                            delta: -1,
                        },
                    ),
                ],
            )
        } else if k == 13 {
            self.spell_outcome(data, ts, group(c, 1)?, group(c, 2)?, group(c, 4)?, MISS)
        } else if k == 14 {
            let mask = parse_avoidance(group(c, 3)?)?;
            self.spell_outcome(data, ts, group(c, 1)?, group(c, 2)?, group(c, 4)?, mask)
        } else if k == 15 {
            self.spell_outcome(data, ts, group(c, 1)?, group(c, 2)?, group(c, 3)?, FULL_ABSORB)
        } else if k == 16 {
            self.spell_outcome(data, ts, group(c, 2)?, group(c, 3)?, group(c, 1)?, FULL_ABSORB)
        } else if k == 17 {
            self.spell_outcome(data, ts, group(c, 1)?, group(c, 2)?, group(c, 3)?, REFLECT)
        } else if k == 18 {
            self.spell_outcome(data, ts, group(c, 2)?, group(c, 3)?, group(c, 1)?, FULL_RESIST)
        } else if k == 19 {
            self.spell_outcome(data, ts, group(c, 1)?, group(c, 2)?, group(c, 3)?, IMMUNE)
        } else if k == 20 {
            self.melee_outcome(data, ts, group(c, 1)?, group(c, 2)?, MISS)
        } else if k == 21 || k == 22 {
            let mask = parse_avoidance(group(c, 3)?)?;
            self.melee_outcome(data, ts, group(c, 1)?, group(c, 2)?, mask)
        } else if k == 23 {
            self.melee_outcome(data, ts, group(c, 1)?, group(c, 2)?, IMMUNE)
        } else if k == 24 || k == 25 {
            self.cast(data, ts, group(c, 1)?, group(c, 3)?, Some(group(c, 4)?))
        } else if k == 26 {
            self.cast(data, ts, group(c, 1)?, group(c, 3)?, None)
        } else if k == 27 || k == 28 {
            let victim_name = group(c, 1)?;
            let victim = self.unit(data, victim_name)?;
            let cause = if k == 28 {
                let cause_name = group(c, 2)?;
                let cause = self.unit(data, cause_name)?;
                self.collect_participant(&cause, cause_name, ts);
                Some(cause)
            } else {
                None
            };
            self.collect_participant(&victim, victim_name, ts);
            Some(vec![MessageType::Death(Death { cause, victim })])
        } else if k == 29 {
            let target_name = group(c, 1)?;
            let target = self.unit(data, target_name)?;
            let target_spell_id = self.spell(data, group(c, 2)?)?;
            self.collect_participant(&target, target_name, ts);
            Some(
                vec![
                    MessageType::Dispel(
                        UnAura {
                            un_aura_caster: Unit { is_player: true, unit_id: 0, is_self_damage: false, is_mind_control: false },
                            target,
                            aura_caster: None,
                            un_aura_spell_id: 42,
                            target_spell_id,
                            un_aura_amount: 1,
                        },
                    ),
                ],
            )
        } else {
            let caster = self.unit(data, group(c, 1)?)?;
            let target_name = group(c, 2)?;
            let target = self.unit(data, target_name)?;
            let interrupted_spell_id = self.spell(data, group(c, 3)?)?;
            self.collect_participant(&target, target_name, ts);
            Some(
                vec![
                    MessageType::SpellCast(SpellCast { caster, target: Some(target), spell_id: 2139, hit_mask: HIT }),
                    MessageType::Interrupt(Interrupt { target, interrupted_spell_id }),
                ],
            )
        }
    }

    pub fn apply_rule(&mut self, data: &Data, ts: u64, k: usize, c: &Vec<Option<String>>) -> (r: Option<Vec<MessageType>>)
        requires
            old(self).wf(),
        ensures
            final(self).wf(),
            profiles_kept(old(self).participants@, final(self).participants@),
            r matches Some(v) ==> rule_yields(k as int, v@) && rule_effect(k as int, *old(self), *final(self), v@),
            r is None ==> ledgers_kept(old(self).participants@, final(self).participants@),
            (k == 8 || k == 9) ==> (r is Some <==> heal_line_resolves(
                *old(self),
                *data,
                group_of(c@, 1),
                group_of(c@, 2),
                group_of(c@, 3),
                group_of(c@, 4),
            )),
            (k == 8 || k == 9) ==> (r matches Some(v) ==> (v@[1] matches MessageType::Heal(h) && parse_u32_spec(
                group_of(c@, 4)->0,
            ) == Some(h.total_heal))),
            (k == 8 || k == 9) ==> (r matches Some(v) ==> v@ == heal_line_messages(
                *old(self),
                *data,
                group_of(c@, 1)->0,
                group_of(c@, 2)->0,
                group_of(c@, 3)->0,
                group_of(c@, 4)->0,
                heal_rule_mask(k as int),
            )),
            k == 6 ==> (r is Some <==> melee_line_resolves(*old(self), *data, captures_view(c@))),
            k == 6 ==> (r matches Some(v) ==> melee_line_result(*old(self), *final(self), *data, captures_view(c@), v@)),
    {
        if k == 1 || k == 8 || k == 9 {
            self.heal_rule(data, ts, k, c)
        } else if k == 2 || k == 3 || k == 4 || k == 5 || k == 6 || k == 7 || k == 12 {
            self.damage_rule(data, ts, k, c)
        } else {
            self.other_rule(data, ts, k, c)
        }
    }

    /// A loot line: the looted item becomes a bonus message when the date,
    /// the receiver and the numbers resolve.
    fn loot_line(&mut self, data: &Data, event_ts: u64, line: &str) -> (matched: bool)
        requires
            old(self).wf(),
        ensures
            final(self).wf(),
            profiles_kept(old(self).participants@, final(self).participants@),
            ledgers_kept(old(self).participants@, final(self).participants@),
            final(self).pet_owner@ == old(self).pet_owner@,
            matched == regex_captures(RE_LOOT@, line@) is Some,
            !matched ==> *final(self) == *old(self),
            matched ==> final(self).bonus_messages@ == old(self).bonus_messages@ + loot_messages(
                *old(self),
                *data,
                regex_captures(RE_LOOT@, line@)->0,
            ),
    {
        let c = match captures(RE_LOOT, line) {
            Some(c) => c,
            None => return false,
        };
        let ghost cv = captures_view(c@);
        let ghost before = self.bonus_messages@;
        let ghost expected = loot_messages(*old(self), *data, cv);
        assert(forall|i: int| 0 <= i < c@.len() ==> #[trigger] cv[i] == group_of(c@, i));
        let ok = self.loot_message(data, event_ts, &c);
        if !ok {
            assert(self.bonus_messages@ =~= before + expected);
        }
        true
    }

    fn loot_message(&mut self, data: &Data, event_ts: u64, c: &Vec<Option<String>>) -> (pushed: bool)
        requires
            old(self).wf(),
        ensures
            final(self).wf(),
            profiles_kept(old(self).participants@, final(self).participants@),
            ledgers_kept(old(self).participants@, final(self).participants@),
            final(self).pet_owner@ == old(self).pet_owner@,
            pushed ==> final(self).bonus_messages@ == old(self).bonus_messages@ + loot_messages(*old(self), *data, captures_view(c@)),
            !pushed ==> final(self).bonus_messages@ == old(self).bonus_messages@ && loot_messages(*old(self), *data, captures_view(c@)).len() == 0,
    {
        let ghost cv = captures_view(c@);
        assert(forall|i: int| 0 <= i < c@.len() ==> #[trigger] cv[i] == group_of(c@, i));
        let ghost old_self = *self;
        let d = match group(c, 1) { Some(g) => g, None => return false };
        let timestamp = match parse_log_datetime(d) { Some(t) => t, None => return false };
        let receiver_name = match group(c, 2) { Some(g) => g, None => return false };
        let receiver = match self.unit(data, receiver_name) { Some(u) => u, None => return false };
        self.collect_participant(&receiver, receiver_name, event_ts);
        let items = match group(c, 4) { Some(g) => g, None => return false };
        let item_id = match parse_u32(items) { Some(x) => x, None => return false };
        let counts = match group(c, 9) { Some(g) => g, None => return false };
        let count = match parse_u32(counts) { Some(x) => x, None => return false };
        if timestamp < 0 {
            return false;
        }
        let m = Message { timestamp: timestamp as u64, message_type: MessageType::Loot(Loot { unit: receiver, item_id, count }) };
        let ghost before = self.bonus_messages@;
        self.bonus_messages.push(m);
        assert(loot_messages(old_self, *data, cv) =~= seq![m]);
        assert(self.bonus_messages@ =~= before + seq![m]);
        true
    }

    /// A zone line: the instance of a known map becomes a bonus message.
    fn zone_line(&mut self, data: &Data, line: &str) -> (matched: bool)
        requires
            old(self).wf(),
        ensures
            final(self).wf(),
            final(self).participants == old(self).participants,
            final(self).pet_owner@ == old(self).pet_owner@,
            matched == regex_captures(RE_ZONE_INFO@, line@) is Some,
            !matched ==> *final(self) == *old(self),
            matched ==> final(self).bonus_messages@ == old(self).bonus_messages@ + zone_messages(
                *data,
                regex_captures(RE_ZONE_INFO@, line@)->0,
            ),
    {
        let c = match captures(RE_ZONE_INFO, line) {
            Some(c) => c,
            None => return false,
        };
        let ghost cv = captures_view(c@);
        assert(forall|i: int| 0 <= i < c@.len() ==> #[trigger] cv[i] == group_of(c@, i));
        let ghost before = self.bonus_messages@;
        let ghost expected = zone_messages(*data, cv);
        let d = match group(&c, 1) { Some(g) => g, None => { assert(before + expected =~= before); return true } };
        let timestamp = match parse_log_datetime(d) { Some(t) => t, None => { assert(before + expected =~= before); return true } };
        let map_name = match group(&c, 2) { Some(g) => g, None => { assert(before + expected =~= before); return true } };
        let ids = match group(&c, 3) { Some(g) => g, None => { assert(before + expected =~= before); return true } };
        let instance_id = match parse_u32(ids) { Some(x) => x, None => { assert(before + expected =~= before); return true } };
        if let Some(map_id) = data.get_map_id_by_name(map_name) {
            if timestamp >= 0 {
                let m = Message {
                    timestamp: timestamp as u64,
                    message_type: MessageType::InstanceMap(
                        InstanceMap {
                            map_id,
                            instance_id,
                            map_difficulty: 0,
                            unit: Unit { is_player: false, unit_id: 1, is_self_damage: false, is_mind_control: false },
                        },
                    ),
                };
                self.bonus_messages.push(m);
                assert(expected =~= seq![m]);
                assert(self.bonus_messages@ =~= before + seq![m]);
                return true;
            }
        }
        assert(before + expected =~= before);
        true
    }

    /// A pet line `PET: date&owner&pet`: the pet, when named and resolved,
    /// is recorded as the owner's.
    fn pet_line(&mut self, data: &Data, line: &str)
        requires
            old(self).wf(),
        ensures
            final(self).wf(),
            final(self).participants@ == old(self).participants@,
            final(self).bonus_messages@ == old(self).bonus_messages@,
            final(self).pet_owner@ == old(self).pet_owner@ || exists|pet: u64, owner: u64|
                final(self).pet_owner@ == old(self).pet_owner@.push((pet, owner)) && starts_with_seq(line@, "PET: "@),
    {
        if str_starts_with(line, "PET: ") {
            proof {
                reveal_strlit("PET: ");
            }
            let args = split_char(line.substring_char(5, line.unicode_len()), '&');
            if args.len() < 3 {
                return;
            }
            if parse_log_datetime(args[0].as_str()).is_none() {
                return;
            }
            let owner = player_unit_id(args[1].as_str());
            let pet_name = args[2].as_str();
            if !str_eq(pet_name, "nil") && pet_name.unicode_len() > 0 {
                if let Some(pet) = self.unit(data, pet_name) {
                    self.pet_owner.push((pet.unit_id, owner));
                }
            }
        }
    }

    fn side_line(&mut self, data: &Data, event_ts: u64, line: &str)
        requires
            old(self).wf(),
        ensures
            final(self).wf(),
            profiles_kept(old(self).participants@, final(self).participants@),
            ledgers_kept(old(self).participants@, final(self).participants@),
    {
        if self.loot_line(data, event_ts, line) {
            return;
        }
        if self.zone_line(data, line) {
            return;
        }
        self.pet_line(data, line);
    }

    /// Loot, zone and pet lines, one or a `CONSOLIDATED: ` batch of them
    /// joined by `{`.
    pub fn parse_side_lines(&mut self, data: &Data, event_ts: u64, content: &str)
        requires
            old(self).wf(),
        ensures
            final(self).wf(),
            profiles_kept(old(self).participants@, final(self).participants@),
            ledgers_kept(old(self).participants@, final(self).participants@),
    {
        let prefix = "CONSOLIDATED: ";
        if str_starts_with(content, prefix) {
            proof {
                reveal_strlit("CONSOLIDATED: ");
            }
            let rest = content.substring_char(14, content.unicode_len());
            let parts = split_char(rest, '{');
            let mut i: usize = 0;
            while i < parts.len()
                invariant
                    self.wf(),
                    profiles_kept(old(self).participants@, self.participants@),
                    ledgers_kept(old(self).participants@, self.participants@),
                decreases parts@.len() - i,
            {
                self.side_line(data, event_ts, parts[i].as_str());
                i = i + 1;
            }
        } else {
            self.side_line(data, event_ts, content);
        }
    }

    fn gear_slot(arg: &str) -> (r: Option<GearSlot>) {
        if str_eq(arg, "nil") {
            return Some(None);
        }
        let item_args = split_char(arg, ':');
        if item_args.len() < 2 {
            return Some(None);
        }
        let item_id = parse_u32(item_args[0].as_str())?;
        let enchant_id = parse_u32(item_args[1].as_str())?;
        if item_id == 0 || item_id > MAX_ITEM_ID {
            Some(None)
        } else if enchant_id == 0 || enchant_id > MAX_ENCHANT_ID {
            Some(Some((item_id, None, None)))
        } else {
            Some(Some((item_id, Some(enchant_id), None)))
        }
    }

    /// A combatant snapshot: `&`-separated date, name, class, race, gender,
    /// pet, guild name, guild rank name, guild rank index, nineteen gear
    /// slots and the talents. Seeds what the participant does not have yet;
    /// a field that does not resolve ends the reading there.
    pub fn parse_combatant_info(&mut self, data: &Data, event_ts: u64, content: &str)
        requires
            old(self).wf(),
        ensures
            final(self).wf(),
            profiles_kept(old(self).participants@, final(self).participants@),
            ledgers_kept(old(self).participants@, final(self).participants@),
            ({
                let f = combatant_fields(content@);
                (f.len() > 28 && (log_datetime_millis(f[0]) matches Some(t) && t >= 0)) ==> class_of(
                    final(self).participants@,
                    player_unit_id_spec(f[1]),
                ) == match class_of(old(self).participants@, player_unit_id_spec(f[1])) {
                    Some(c) => Some(c),
                    None => hero_class_spec(lower_of(f[2])),
                }
            }),
    {
        self.combatant_info(data, event_ts, content);
    }

    #[verifier::rlimit(50)]
    fn combatant_info(&mut self, data: &Data, event_ts: u64, content: &str) -> (r: Option<()>)
        requires
            old(self).wf(),
        ensures
            final(self).wf(),
            profiles_kept(old(self).participants@, final(self).participants@),
            ledgers_kept(old(self).participants@, final(self).participants@),
            ({
                let f = combatant_fields(content@);
                (f.len() > 28 && (log_datetime_millis(f[0]) matches Some(t) && t >= 0)) ==> class_of(
                    final(self).participants@,
                    player_unit_id_spec(f[1]),
                ) == match class_of(old(self).participants@, player_unit_id_spec(f[1])) {
                    Some(c) => Some(c),
                    None => hero_class_spec(lower_of(f[2])),
                }
            }),
    {
        let n = content.unicode_len();
        let start: usize = if str_starts_with(content, "COMBATANT_INFO: ") {
            16
        } else {
            15
        };
        if n < start {
            return None;
        }
        proof {
            reveal_strlit("COMBATANT_INFO: ");
        }
        let args = split_char(content.substring_char(start, n), '&');
        let ghost f = combatant_fields(content@);
        assert(args@.len() == f.len());
        assert(forall|x: int| 0 <= x < f.len() ==> (#[trigger] args@[x])@ == f[x]);
        if args.len() <= 28 {
            return None;
        }
        let timestamp = parse_log_datetime(args[0].as_str())?;
        if timestamp < 0 {
            return None;
        }
        let player_name = args[1].as_str();
        let unit_id = player_unit_id(player_name);
        let ghost start_ps = self.participants@;
        let i = match self.find_participant(unit_id) {
            Some(i) => i,
            None => {
                let p = Participant::new(unit_id, true, false, false, String::from_str(player_name), event_ts);
                self.participants.push(p);
                proof {
                    assert forall|id: u64| #[trigger] ledger_of(self.participants@, id) == ledger_of(start_ps, id) by {
                        lemma_index_push(start_ps, p, id);
                    }
                    lemma_index_push(start_ps, p, unit_id);
                    assert forall|id: u64| #[trigger] class_of(self.participants@, id) == class_of(start_ps, id) || id == unit_id by {
                        lemma_index_push(start_ps, p, id);
                    }
                }
                self.participants.len() - 1
            },
        };
        assert(participant_index(self.participants@, unit_id) == Some(i as int));
        assert(class_of(self.participants@, unit_id) == class_of(start_ps, unit_id));
        if self.participants[i].hero_class_id.is_none() {
            let class = lowercase(args[2].as_str());
            let id = hero_class_id(class.as_str())?;
            let ghost prev = self.participants@;
            self.participants[i].hero_class_id = Some(id);
            proof {
                lemma_update_keeps(prev, self.participants@, i as int);
            }
        }
        let ghost class_now = class_of(self.participants@, unit_id);
        let ghost f2 = lower_of(combatant_fields(content@)[2]);
        assert(class_now == match class_of(start_ps, unit_id) {
            Some(c) => Some(c),
            None => hero_class_spec(f2),
        });
        assert(class_now is Some);
        if self.participants[i].gender_id.is_none() {
            let ghost prev = self.participants@;
            if str_eq(args[4].as_str(), "2") {
                self.participants[i].gender_id = Some(false);
                proof {
                    lemma_update_keeps(prev, self.participants@, i as int);
                    assert(class_of(self.participants@, unit_id) == class_of(prev, unit_id));
                }
            } else if str_eq(args[4].as_str(), "3") {
                self.participants[i].gender_id = Some(true);
                proof {
                    lemma_update_keeps(prev, self.participants@, i as int);
                    assert(class_of(self.participants@, unit_id) == class_of(prev, unit_id));
                }
            }
        }
        if self.participants[i].race_id.is_none() {
            let race = lowercase(args[3].as_str());
            let id = race_id(race.as_str())?;
            let ghost prev = self.participants@;
            self.participants[i].race_id = Some(id);
            proof {
                lemma_update_keeps(prev, self.participants@, i as int);
                assert(class_of(self.participants@, unit_id) == class_of(prev, unit_id));
            }
        }
        let ghost mid = self.participants@;
        assert(class_of(mid, unit_id) == class_now);
        assert(profiles_kept(start_ps, mid));
        assert(ledgers_kept(start_ps, mid));
        let r = self.combatant_extras(data, event_ts, i, unit_id, timestamp, &args);
        assert(class_of(self.participants@, unit_id) == class_of(mid, unit_id));
        proof {
            lemma_profiles_trans(start_ps, mid, self.participants@);
        }
        r
    }

    fn combatant_extras(
        &mut self,
        data: &Data,
        event_ts: u64,
        i: usize,
        unit_id: u64,
        timestamp: i64,
        args: &Vec<String>,
    ) -> (r: Option<()>)
        requires
            old(self).wf(),
            i < old(self).participants@.len(),
            args@.len() > 28,
            timestamp >= 0,
        ensures
            final(self).wf(),
            profiles_kept(old(self).participants@, final(self).participants@),
            ledgers_kept(old(self).participants@, final(self).participants@),
            final(self).participants@.len() == old(self).participants@.len(),
            forall|id: u64| #[trigger] participant_index(final(self).participants@, id) == participant_index(old(self).participants@, id),
    {
        let ghost start_ps = self.participants@;
        let guild_name = args[6].as_str();
        let rank_name = args[7].as_str();
        if self.participants[i].guild_args.is_none() && !str_eq(guild_name, "nil") && !str_eq(rank_name, "nil") {
            let rank_index = parse_u32(args[8].as_str())?;
            if rank_index > 255 {
                return None;
            }
            let ghost prev = self.participants@;
            assert(profiles_kept(start_ps, prev) && ledgers_kept(start_ps, prev));
            self.participants[i].guild_args = Some(
                (String::from_str(guild_name), String::from_str(rank_name), rank_index as u8),
            );
            proof {
                lemma_update_keeps(prev, self.participants@, i as int);
            }
        }
        let pet_name = args[5].as_str();
        if !str_eq(pet_name, "nil") && pet_name.unicode_len() > 0 {
            let pet = self.unit(data, pet_name)?;
            self.pet_owner.push((pet.unit_id, unit_id));
        }
        let mut any_gear = false;
        let mut k: usize = 9;
        while k < 28
            invariant
                args@.len() > 28,
                9 <= k <= 28,
            decreases 28 - k,
        {
            if !str_eq(args[k].as_str(), "nil") {
                any_gear = true;
            }
            k = k + 1;
        }
        if any_gear {
            let mut gear: Vec<GearSlot> = Vec::new();
            let mut k: usize = 9;
            let ghost before_gear = self.participants@;
            while k < 28
                invariant
                    self.wf(),
                    args@.len() > 28,
                    9 <= k <= 28,
                    i < self.participants@.len(),
                    self.participants@ == before_gear,
                    start_ps == old(self).participants@,
                    profiles_kept(start_ps, before_gear),
                    ledgers_kept(start_ps, before_gear),
                    before_gear.len() == start_ps.len(),
                    forall|id: u64| #[trigger] participant_index(before_gear, id) == participant_index(start_ps, id),
                decreases 28 - k,
            {
                let slot = Self::gear_slot(args[k].as_str())?;
                gear.push(slot);
                k = k + 1;
            }
            let ghost prev = self.participants@;
            assert(profiles_kept(start_ps, prev) && ledgers_kept(start_ps, prev));
            let p = &mut self.participants[i];
            match &mut p.gear_setups {
                Some(setups) => setups.push((timestamp as u64, gear)),
                None => {
                    p.gear_setups = Some(vec![(timestamp as u64, gear)]);
                },
            }
            proof {
                lemma_update_keeps(prev, self.participants@, i as int);
            }
        }
        let talents = args[28].as_str();
        if !str_eq(talents, "nil") && str_contains(talents, "}") {
            proof {
                reveal_strlit("|");
            }
            let spec = replace_char(talents, '}', "|");
            let ghost prev = self.participants@;
            assert(profiles_kept(start_ps, prev) && ledgers_kept(start_ps, prev));
            self.participants[i].talents.push((event_ts, Some(spec)));
            proof {
                lemma_update_keeps(prev, self.participants@, i as int);
            }
        }
        Some(())
    }

    /// Attributes each dispel to the cast on its target that follows within
    /// 100 ms, adds a summon message for each known pet, and orders the
    /// messages by time.
    pub fn do_message_post_processing(&self, messages: &mut Vec<Message>)
        ensures
            final(messages)@ == sort_spec(dispel_scan(old(messages)@, old(messages)@.len() as int).0
                + self.pet_owner@.map_values(|e: (u64, u64)| summon_of(e))),
            sorted_by_time(final(messages)@),
            final(messages)@.to_multiset() == (dispel_scan(old(messages)@, old(messages)@.len() as int).0
                + self.pet_owner@.map_values(|e: (u64, u64)| summon_of(e))).to_multiset(),
    {
        let n = messages.len();
        let ghost orig = messages@;
        let mut last_dispel: Option<usize> = None;
        let mut i: usize = 0;
        while i < n
            invariant
                n == orig.len(),
                i <= n,
                messages@.len() == n,
                (messages@, match last_dispel {
                    Some(d) => Some(d as int),
                    None => None,
                }) == dispel_scan(orig, i as int),
                forall|j: int| i <= j < n ==> #[trigger] messages@[j] == orig[j],
                last_dispel matches Some(d) ==> d < i,
            decreases n - i,
        {
            proof {
                lemma_dispel_scan_len(orig, i as int);
            }
            let ts = messages[i].timestamp;
            let mut apply: Option<(usize, Unit, u32)> = None;
            match &messages[i].message_type {
                MessageType::Dispel(_) => {
                    last_dispel = Some(i);
                },
                MessageType::SpellCast(sc) => {
                    if let Some(d) = last_dispel {
                        let dts = messages[d].timestamp;
                        if dts <= u64::MAX - DISPEL_CAST_WINDOW && ts <= dts + DISPEL_CAST_WINDOW || dts > u64::MAX
                            - DISPEL_CAST_WINDOW {
                            if let MessageType::Dispel(un) = &messages[d].message_type {
                                if let Some(t) = &sc.target {
                                    if t.unit_id == un.target.unit_id {
                                        apply = Some((d, sc.caster, sc.spell_id));
                                    }
                                }
                            }
                        } else {
                            last_dispel = None;
                        }
                    }
                },
                _ => {},
            }
            if let Some((d, caster, spell_id)) = apply {
                if let MessageType::Dispel(un) = &messages[d].message_type {
                    let mut u = *un;
                    u.un_aura_caster = caster;
                    u.un_aura_spell_id = spell_id;
                    let ghost before = messages@;
                    messages[d].message_type = MessageType::Dispel(u);
                    assert(messages@ =~= before.update(
                        d as int,
                        Message { message_type: MessageType::Dispel(u), ..before[d as int] },
                    ));
                }
                last_dispel = None;
            }
            i = i + 1;
        }
        let ghost scanned = messages@;
        let mut k: usize = 0;
        while k < self.pet_owner.len()
            invariant
                k <= self.pet_owner@.len(),
                messages@ == scanned + self.pet_owner@.subrange(0, k as int).map_values(|e: (u64, u64)| summon_of(e)),
            decreases self.pet_owner@.len() - k,
        {
            let (pet, owner) = self.pet_owner[k];
            messages.push(
                Message {
                    timestamp: 0,
                    message_type: MessageType::Summon(
                        Summon {
                            owner: Unit { is_player: true, unit_id: owner, is_self_damage: false, is_mind_control: false },
                            unit: Unit { is_player: false, unit_id: pet, is_self_damage: false, is_mind_control: false },
                        },
                    ),
                },
            );
            assert(self.pet_owner@.subrange(0, k + 1).map_values(|e: (u64, u64)| summon_of(e)) =~= self.pet_owner@.subrange(
                0,
                k as int,
            ).map_values(|e: (u64, u64)| summon_of(e)).push(summon_of(self.pet_owner@[k as int])));
            k = k + 1;
        }
        assert(self.pet_owner@.subrange(0, k as int) =~= self.pet_owner@);
        sort_by_time(messages);
    }

    pub fn get_npc_appearance_offset(&self, entry: u32) -> (r: Option<i64>)
        ensures
            r == npc_appearance_offset_spec(entry),
    {
        if entry == 15990 {
            Some(-228000)
        } else if entry == 12435 {
            Some(-300000)
        } else if entry == 11583 {
            Some(-180000)
        } else if entry == 65534 {
            Some(-3000)
        } else if entry == 15928 {
            Some(-30000)
        } else {
            None
        }
    }

    pub fn get_npc_timeout(&self, entry: u32) -> (r: Option<u64>)
        ensures
            r == npc_timeout_spec(entry),
    {
        if entry == 65534 {
            Some(90000)
        } else if entry == 15990 {
            Some(180000)
        } else if entry == 15928 || entry == 15299 || entry == 16060 {
            Some(80000)
        } else if entry == 11583 {
            Some(120000)
        } else {
            None
        }
    }

    /// The actors whose combat state a death implies: each with the offset
    /// (ms) of the implied state and how long it lasts.
    pub fn get_death_implied_npc_combat_state_and_offset(&self, entry: u32) -> (r: Option<Vec<(u32, i64, i64)>>)
        ensures
            match r {
                Some(v) => death_implied_spec(entry) == Some(v@),
                None => death_implied_spec(entry) is None,
            },
    {
        if entry == 15929 || entry == 15930 {
            Some(vec![(15928, -1000, 180000)])
        } else if entry == 16427 || entry == 16428 || entry == 16429 {
            Some(vec![(65534, 0, 180000)])
        } else if entry == 12557 || entry == 14456 || entry == 12416 || entry == 12422 || entry == 12420 {
            Some(vec![(12435, 0, 240000)])
        } else if 14261 <= entry && entry <= 14265 {
            Some(vec![(11583, 0, 180000)])
        } else {
            None
        }
    }

    /// The actors that enter combat whenever `entry` does.
    pub fn get_in_combat_implied_npc_combat(&self, entry: u32) -> (r: Option<Vec<u32>>)
        ensures
            match r {
                Some(v) => in_combat_implied_spec(entry) == Some(v@),
                None => in_combat_implied_spec(entry) is None,
            },
    {
        if (16124 <= entry && entry <= 16127) || (16148 <= entry && entry <= 16150) {
            Some(vec![16060])
        } else if entry == 12557 || entry == 14456 || entry == 12416 || entry == 12422 || entry == 12420 {
            Some(vec![12435])
        } else if entry == 16427 || entry == 16429 || entry == 16428 {
            Some(vec![65534])
        } else if entry == 15667 {
            Some(vec![15299])
        } else if (14261 <= entry && entry <= 14265) || entry == 10162 || entry == 10163 {
            Some(vec![11583])
        } else {
            None
        }
    }

    /// Abilities of `entry` that are ignored after it died.
    pub fn get_ignore_after_death_ignore_abilities(&self, entry: u32) -> (r: Option<Vec<u32>>)
        ensures
            match r {
                Some(v) => entry == 14020 && v@ == seq![23169u32, 23155, 23315, 23316],
                None => entry != 14020,
            },
    {
        if entry == 14020 {
            Some(vec![23169, 23155, 23315, 23316])
        } else {
            None
        }
    }

    /// Parses one line of the text log. A line of the faulty shape gives
    /// nothing; otherwise the rules are tried in order and the first whose
    /// references all resolve gives the messages. Loot, zone and pet lines
    /// (also when batched after `CONSOLIDATED: `) and combatant snapshots
    /// update the session and give no message.
    pub fn parse_cbl_line(&mut self, data: &Data, event_ts: u64, content: &str) -> (r: Option<Vec<MessageType>>)
        requires
            old(self).wf(),
        ensures
            final(self).wf(),
            regex_captures(RE_BUG_DAMAGE_SPELL_HIT_OR_CRIT@, content@) is Some ==> r is None && *final(self) == *old(self),
            profiles_kept(old(self).participants@, final(self).participants@),
            r is None ==> ledgers_kept(old(self).participants@, final(self).participants@),
            r matches Some(v) ==> exists|k: int|
                0 <= k < RULE_COUNT && #[trigger] regex_captures(rule_pattern_spec(k), content@) is Some
                    && rule_yields(k, v@) && rule_effect(k, *old(self), *final(self), v@),
            forall|k: int|
                (k == 8 || k == 9) && #[trigger] heal_line_first(k, *old(self), *data, content@) ==> (r matches Some(
                    v,
                ) && v@ == heal_line_messages(
                    *old(self),
                    *data,
                    cap(regex_captures(rule_pattern_spec(k), content@)->0, 1)->0,
                    cap(regex_captures(rule_pattern_spec(k), content@)->0, 2)->0,
                    cap(regex_captures(rule_pattern_spec(k), content@)->0, 3)->0,
                    cap(regex_captures(rule_pattern_spec(k), content@)->0, 4)->0,
                    heal_rule_mask(k),
                )),
            melee_line_first(*old(self), *data, content@) ==> (r matches Some(v) && melee_line_result(
                *old(self),
                *final(self),
                *data,
                regex_captures(rule_pattern_spec(6), content@)->0,
                v@,
            )),
    {
        if captures(RE_BUG_DAMAGE_SPELL_HIT_OR_CRIT, content).is_some() {
            return None;
        }
        let ghost start = *self;
        let mut k: usize = 0;
        while k < 29
            invariant
                self.wf(),
                regex_captures(RE_BUG_DAMAGE_SPELL_HIT_OR_CRIT@, content@) is None,
                start == *old(self),
                profiles_kept(start.participants@, self.participants@),
                ledgers_kept(start.participants@, self.participants@),
                k <= 29,
                (forall|j: int| 0 <= j < k ==> #[trigger] regex_captures(rule_pattern_spec(j), content@) is None) ==> *self
                    == start,
                forall|j: int|
                    (j == 8 || j == 9) && j < k ==> !heal_line_first(j, start, *data, content@),
                6 < k ==> !melee_line_first(start, *data, content@),
            decreases 29 - k,
        {
            let ghost all_none_before = forall|j: int| 0 <= j < k ==> #[trigger] regex_captures(rule_pattern_spec(j), content@) is None;
            if let Some(c) = captures(rule_pattern(k), content) {
                assert(regex_captures(rule_pattern_spec(k as int), content@) is Some);
                let ghost mid = *self;
                let ghost cv = captures_view(c@);
                assert(forall|i: int| 0 <= i < c@.len() ==> #[trigger] cv[i] == group_of(c@, i));
                assert(forall|i: int| #[trigger] cap(cv, i) == group_of(c@, i));
                if let Some(v) = self.apply_rule(data, event_ts, k, &c) {
                    proof {
                        lemma_effect_from_start(k as int, start, mid, *self, v@);
                    }
                    return Some(v);
                }
            }
            k = k + 1;
        }
        self.parse_side_lines(data, event_ts, content);
        if str_starts_with(content, "COMBATANT_INFO:") {
            self.parse_combatant_info(data, event_ts, content);
            return None;
        }
        let mut k: usize = 29;
        while k < RULE_COUNT
            invariant
                self.wf(),
                regex_captures(RE_BUG_DAMAGE_SPELL_HIT_OR_CRIT@, content@) is None,
                start == *old(self),
                profiles_kept(start.participants@, self.participants@),
                ledgers_kept(start.participants@, self.participants@),
                forall|j: int| (j == 8 || j == 9) ==> !heal_line_first(j, start, *data, content@),
                !melee_line_first(start, *data, content@),
            decreases RULE_COUNT - k,
        {
            if let Some(c) = captures(rule_pattern(k), content) {
                assert(regex_captures(rule_pattern_spec(k as int), content@) is Some);
                let ghost mid = *self;
                if let Some(v) = self.apply_rule(data, event_ts, k, &c) {
                    proof {
                        lemma_effect_from_start(k as int, start, mid, *self, v@);
                    }
                    return Some(v);
                }
            }
            k = k + 1;
        }
        None
    }
}

} // verus!
