//! The per-instance attempt state machine: which attempts are active, how
//! each event changes them, and which attempts each event closes.

use vstd::prelude::*;
use crate::attempt::{Attempt, AttemptModel, credit, credit_row, is_kill_spec, new_attempt_model};
use crate::data::{Data, EncounterNpc, RetrieveEncounterNpc, required_death_npc};
use crate::event::{
    Actor,
    Creature,
    Event,
    EventType,
    PowerType,
    components_total,
    get_owner_or_self,
    get_spell_components_total,
    owner_or_self,
};
use crate::search::{
    first_index,
    lemma_first_exists,
    lemma_first_index_is,
    lemma_first_index_is_first,
    lemma_first_index_none,
};
use crate::unit::npc_unit_id_spec;

verus! {

broadcast use vstd::std_specs::hash::group_hash_axioms;

/// At most this many players (and vehicles) may still be in combat for an
/// attempt to end.
pub const KILL_MIN_INFIGHT_UNITS: usize = 5;

/// Within this many ms of the last tracked death, player exits do not end
/// an attempt of a multi-phase encounter.
pub const PHASE_LULL: u64 = 30000;

/// How far (ms) ahead a pending death is looked for.
pub const LOOK_AHEAD_WINDOW: u64 = 1000;

/// The catalog id whose death finishes its encounter whatever its role.
pub const MULTI_PHASE_FINISHER_NPC: u32 = 15263;

/// The encounter whose hard-mode buffs are tracked.
pub const BUFF_HARD_MODE_ENCOUNTER: u32 = 126;

/// Encounters that open with an add phase: their boss is required from the
/// start, and player exits do not end them during a lull between phases.
pub open spec fn has_add_phase(encounter_id: u32) -> bool {
    encounter_id == 42 || encounter_id == 29 || encounter_id == 22 || encounter_id == 17
        || encounter_id == 57 || encounter_id == 54 || encounter_id == 46
}

pub fn encounter_has_add_phase(encounter_id: u32) -> (r: bool)
    ensures
        r == has_add_phase(encounter_id),
{
    encounter_id == 42 || encounter_id == 29 || encounter_id == 22 || encounter_id == 17
        || encounter_id == 57 || encounter_id == 54 || encounter_id == 46
}

/// The auras that mark a hard mode.
pub open spec fn is_hard_mode_buff(spell_id: u32) -> bool {
    spell_id == 62670 || spell_id == 62650 || spell_id == 62671 || spell_id == 62702
}

pub struct InstanceAttempts {
    pub active: Vec<Attempt>,
    /// Set once a percent-of-players-in-combat event is seen: from then on
    /// that channel alone ends attempts.
    pub has_percent_players_in_combat: bool,
    pub previous_percent_players_in_combat: u32,
}

pub struct TrackerModel {
    pub active: Seq<AttemptModel>,
    pub has_percent: bool,
    pub previous_percent: u32,
}

pub open spec fn models_of(v: Seq<Attempt>) -> Seq<AttemptModel> {
    v.map_values(|a: Attempt| a@)
}

impl View for InstanceAttempts {
    type V = TrackerModel;

    open spec fn view(&self) -> TrackerModel {
        TrackerModel {
            active: models_of(self.active@),
            has_percent: self.has_percent_players_in_combat,
            previous_percent: self.previous_percent_players_in_combat,
        }
    }
}

pub open spec fn encounter_is(encounter_id: u32) -> spec_fn(AttemptModel) -> bool {
    |a: AttemptModel| a.encounter_id == encounter_id
}

pub open spec fn active_index(s: Seq<AttemptModel>, encounter_id: u32) -> Option<int> {
    first_index(s, encounter_is(encounter_id))
}

/// At most one active attempt per encounter.
pub open spec fn unique_encounters(s: Seq<AttemptModel>) -> bool {
    forall|i: int, j: int|
        0 <= i < s.len() && 0 <= j < s.len() && i != j ==> #[trigger] s[i].encounter_id
            != #[trigger] s[j].encounter_id
}

/// The unit ids of the actors that must die for an encounter.
pub open spec fn required_death_set(data: Data, encounter_id: u32) -> Set<u64> {
    Set::new(
        |x: u64|
            exists|i: int|
                0 <= i < data.encounter_npcs@.len() && required_death_npc(
                    #[trigger] data.encounter_npcs@[i],
                    encounter_id,
                ) && x == npc_unit_id_spec(data.encounter_npcs@[i].npc_id),
    )
}

pub open spec fn close_at(a: AttemptModel, ts: u64) -> AttemptModel {
    AttemptModel { end_ts: ts, ..a }
}

pub open spec fn is_death_of(e: Event, creature_id: u64) -> bool {
    &&& e.event is Death
    &&& e.subject matches Actor::Creature(c) && c.creature_id == creature_id
}

/// A buffered event at or after `id` that lies past the look-ahead window.
pub open spec fn ends_look_ahead(e: Event, id: u32, ts: u64) -> bool {
    e.id >= id && e.timestamp > ts + LOOK_AHEAD_WINDOW
}

/// Among the buffered events from `ev` on, before the first that lies more
/// than a second after it, the creature dies.
pub open spec fn look_ahead_death_spec(events: Seq<Event>, ev: Event, creature_id: u64) -> bool {
    exists|j: int|
        0 <= j < events.len() && events[j].id >= ev.id && is_death_of(#[trigger] events[j], creature_id)
            && forall|k: int| 0 <= k <= j ==> !ends_look_ahead(#[trigger] events[k], ev.id, ev.timestamp)
}

pub fn look_ahead_death(events: &Vec<Event>, ev: &Event, creature_id: u64) -> (r: bool)
    ensures
        r == look_ahead_death_spec(events@, *ev, creature_id),
{
    let mut i: usize = 0;
    while i < events.len()
        invariant
            i <= events@.len(),
            forall|k: int| 0 <= k < i ==> !ends_look_ahead(#[trigger] events@[k], ev.id, ev.timestamp),
            forall|k: int|
                0 <= k < i ==> !(events@[k].id >= ev.id && is_death_of(#[trigger] events@[k], creature_id)),
        decreases events@.len() - i,
    {
        let e = &events[i];
        if e.id >= ev.id {
            if e.timestamp > LOOK_AHEAD_WINDOW && e.timestamp - LOOK_AHEAD_WINDOW > ev.timestamp {
                assert(ends_look_ahead(events@[i as int], ev.id, ev.timestamp));
                assert forall|j: int|
                    0 <= j < events@.len() && events@[j].id >= ev.id && is_death_of(
                        #[trigger] events@[j],
                        creature_id,
                    ) implies !(forall|k: int|
                    0 <= k <= j ==> !ends_look_ahead(
                        #[trigger] events@[k],
                        ev.id,
                        ev.timestamp,
                    )) by {
                    if j < i {
                    } else {
                        assert(0 <= i <= j);
                    }
                }
                return false;
            }
            let is_death = match &e.event {
                EventType::Death { .. } => match &e.subject {
                    Actor::Creature(c) => c.creature_id == creature_id,
                    _ => false,
                },
                _ => false,
            };
            if is_death {
                assert(is_death_of(events@[i as int], creature_id));
                return true;
            }
        }
        i = i + 1;
    }
    false
}

/// Credits what an event's actor does to the ranking ledgers of the active
/// attempts: damage and threat to the attempt of the victim's encounter,
/// healing to every active attempt.
pub open spec fn ranking_step(s: Seq<AttemptModel>, data: Data, ev: Event) -> Seq<AttemptModel> {
    match owner_or_self(ev.subject) {
        None => s,
        Some(who) => match ev.event {
            EventType::SpellDamage { victim, components } => damage_step(s, data, who, victim, components_total(components@)),
            EventType::MeleeDamage { victim, components } => damage_step(s, data, who, victim, components_total(components@)),
            EventType::Heal { effective } => s.map_values(
                |a: AttemptModel| AttemptModel { ranking_heal: credit(a.ranking_heal, who, effective), ..a },
            ),
            EventType::Threat { threatened, amount } => threat_step(s, data, who, threatened, amount),
            _ => s,
        },
    }
}

/// The active attempt of the encounter that a victim belongs to.
pub open spec fn victim_index(s: Seq<AttemptModel>, data: Data, victim: Actor) -> Option<int> {
    match victim {
        Actor::Creature(c) => match data.encounter_npc_spec(c.encounter_npc_id) {
            Some(en) => active_index(s, en.encounter_id),
            None => None,
        },
        _ => None,
    }
}

pub open spec fn damage_step(s: Seq<AttemptModel>, data: Data, who: u32, victim: Actor, amount: u32) -> Seq<
    AttemptModel,
> {
    match victim_index(s, data, victim) {
        Some(i) => s.update(i, AttemptModel { ranking_damage: credit(s[i].ranking_damage, who, amount), ..s[i] }),
        None => s,
    }
}

pub open spec fn threat_step(s: Seq<AttemptModel>, data: Data, who: u32, victim: Actor, amount: u32) -> Seq<
    AttemptModel,
> {
    match victim_index(s, data, victim) {
        Some(i) => s.update(i, AttemptModel { ranking_threat: credit(s[i].ranking_threat, who, amount), ..s[i] }),
        None => s,
    }
}


/// How a tracked actor entering combat changes its attempt.
pub open spec fn enter_model(base: AttemptModel, en: EncounterNpc, creature_id: u64) -> AttemptModel {
    AttemptModel {
        required: if en.requires_death {
            base.required.insert(creature_id)
        } else {
            base.required
        },
        creatures_in_combat: base.creatures_in_combat.insert(creature_id),
        pivot_creature: if en.is_pivot {
            Some(creature_id)
        } else {
            base.pivot_creature
        },
        ..base
    }
}

/// A freshly opened attempt; an encounter with an add phase requires its
/// boss from the start.
pub open spec fn opened_model(data: Data, encounter_id: u32, ts: u64) -> AttemptModel {
    let a = new_attempt_model(encounter_id, ts, data.has_pivot_spec(encounter_id));
    if has_add_phase(encounter_id) {
        AttemptModel { required: required_death_set(data, encounter_id), ..a }
    } else {
        a
    }
}

pub open spec fn creature_enter_step(
    s: Seq<AttemptModel>,
    data: Data,
    en: EncounterNpc,
    creature_id: u64,
    ts: u64,
) -> Seq<AttemptModel> {
    match active_index(s, en.encounter_id) {
        Some(i) => s.update(i, enter_model(s[i], en, creature_id)),
        None => if en.can_start_encounter {
            s.push(enter_model(opened_model(data, en.encounter_id, ts), en, creature_id))
        } else {
            s
        },
    }
}

/// Whether a tracked actor leaving combat ends its attempt: nothing tracked
/// is left in combat and few players and vehicles are; unless the actor is
/// still required and its death follows within a second.
pub open spec fn exit_committable(
    before: AttemptModel,
    after: AttemptModel,
    en: EncounterNpc,
    creature_id: u64,
    death_follows: bool,
) -> bool {
    &&& after.creatures_in_combat.is_empty()
    &&& before.infight_player.len() <= KILL_MIN_INFIGHT_UNITS
    &&& before.infight_vehicle.len() <= KILL_MIN_INFIGHT_UNITS
    &&& !(en.requires_death && !before.required.is_empty() && before.required.contains(creature_id)
        && death_follows)
}

pub open spec fn creature_exit_step(
    m: TrackerModel,
    en: EncounterNpc,
    creature_id: u64,
    ts: u64,
    death_follows: bool,
) -> (Seq<AttemptModel>, Seq<AttemptModel>) {
    let s = m.active;
    match active_index(s, en.encounter_id) {
        None => (s, seq![]),
        Some(i) => {
            let after = AttemptModel {
                creatures_in_combat: s[i].creatures_in_combat.remove(creature_id),
                ..s[i]
            };
            if !m.has_percent && exit_committable(s[i], after, en, creature_id, death_follows) {
                (s.remove(i), seq![close_at(after, ts)])
            } else {
                (s.update(i, after), seq![])
            }
        },
    }
}

pub open spec fn creature_death_step(
    m: TrackerModel,
    en: EncounterNpc,
    npc_id: u32,
    creature_id: u64,
    ts: u64,
) -> (Seq<AttemptModel>, Seq<AttemptModel>) {
    let s = m.active;
    match active_index(s, en.encounter_id) {
        None => (s, seq![]),
        Some(i) => {
            let a1 = AttemptModel {
                required: s[i].required.remove(creature_id),
                last_creature_death: ts,
                ..s[i]
            };
            let finishes = s[i].pivot_creature == Some(creature_id) || npc_id == MULTI_PHASE_FINISHER_NPC;
            let a2 = if finishes {
                AttemptModel { pivot_is_finished: true, required: Set::empty(), ..a1 }
            } else {
                a1
            };
            if !m.has_percent && a2.required.is_empty() {
                (s.remove(i), seq![close_at(a2, ts)])
            } else {
                (s.update(i, a2), seq![])
            }
        },
    }
}

/// The pivot's health at or below its threshold (in percent of maximum).
pub open spec fn below_threshold(en: EncounterNpc, max_power: u32, current_power: u32) -> bool {
    match en.health_treshold {
        Some(t) => max_power > 0 && current_power * 100 <= t * max_power,
        None => false,
    }
}

pub open spec fn power_step(
    m: TrackerModel,
    en: EncounterNpc,
    power_type: PowerType,
    max_power: u32,
    current_power: u32,
    ts: u64,
) -> (Seq<AttemptModel>, Seq<AttemptModel>) {
    let s = m.active;
    if power_type == PowerType::Health && en.is_pivot && below_threshold(en, max_power, current_power) {
        match active_index(s, en.encounter_id) {
            None => (s, seq![]),
            Some(i) => {
                let a = AttemptModel { pivot_is_finished: true, required: Set::empty(), ..s[i] };
                if !m.has_percent {
                    (s.remove(i), seq![close_at(a, ts)])
                } else {
                    (s.update(i, a), seq![])
                }
            },
        }
    } else {
        (s, seq![])
    }
}

/// Whether a player leaving combat ends an attempt.
pub open spec fn closes_on_player_exit(a: AttemptModel, ts: u64) -> bool {
    &&& !(has_add_phase(a.encounter_id) && ts < a.last_creature_death + PHASE_LULL)
    &&& a.infight_player.len() <= KILL_MIN_INFIGHT_UNITS
    &&& a.infight_vehicle.len() <= KILL_MIN_INFIGHT_UNITS
    &&& (a.required.is_empty() || a.creatures_in_combat.is_empty())
}

/// Splits the attempts into those that stay and those that a player's exit
/// closes, in order.
pub open spec fn player_exit_sweep(s: Seq<AttemptModel>, ts: u64) -> (Seq<AttemptModel>, Seq<AttemptModel>)
    decreases s.len(),
{
    if s.len() == 0 {
        (seq![], seq![])
    } else {
        let (kept, closed) = player_exit_sweep(s.drop_last(), ts);
        if closes_on_player_exit(s.last(), ts) {
            (kept, closed.push(close_at(s.last(), ts)))
        } else {
            (kept.push(s.last()), closed)
        }
    }
}

pub open spec fn with_player(s: Seq<AttemptModel>, character_id: u32, in_combat: bool) -> Seq<AttemptModel> {
    Seq::new(
        s.len(),
        |i: int|
            AttemptModel {
                infight_player: if in_combat {
                    s[i].infight_player.insert(character_id)
                } else {
                    s[i].infight_player.remove(character_id)
                },
                ..s[i]
            },
    )
}

pub open spec fn aura_step(s: Seq<AttemptModel>, spell_id: u32) -> Seq<AttemptModel> {
    if is_hard_mode_buff(spell_id) {
        match active_index(s, BUFF_HARD_MODE_ENCOUNTER) {
            Some(i) => s.update(i, AttemptModel { hard_mode_found_buffs: s[i].hard_mode_found_buffs.insert(spell_id), ..s[i] }),
            None => s,
        }
    } else {
        s
    }
}

pub open spec fn with_active(m: TrackerModel, s: Seq<AttemptModel>) -> TrackerModel {
    TrackerModel { active: s, ..m }
}

/// One event of an instance: the state afterwards and the attempts it
/// closed, in the order they closed.
pub open spec fn event_step(m: TrackerModel, data: Data, events: Seq<Event>, index: int) -> (
    TrackerModel,
    Seq<AttemptModel>,
) {
    let ev = events[index];
    let ts = ev.timestamp;
    match ev.event {
        EventType::PercentPlayersInCombat { percentage } => {
            let closing = percentage == 0 && m.previous_percent > 0;
            (
                TrackerModel {
                    active: if closing {
                        seq![]
                    } else {
                        m.active
                    },
                    has_percent: true,
                    previous_percent: percentage,
                },
                if closing {
                    m.active.map_values(|a: AttemptModel| close_at(a, ts))
                } else {
                    seq![]
                },
            )
        },
        EventType::SpellDamage { .. } | EventType::MeleeDamage { .. } | EventType::Heal { .. }
        | EventType::Threat { .. } => (with_active(m, ranking_step(m.active, data, ev)), seq![]),
        _ => match ev.subject {
            Actor::Creature(c) => match data.encounter_npc_spec(c.encounter_npc_id) {
                None => (m, seq![]),
                Some(en) => match ev.event {
                    EventType::CombatState { in_combat } => if in_combat {
                        (with_active(m, creature_enter_step(m.active, data, en, c.creature_id, ts)), seq![])
                    } else {
                        let r = creature_exit_step(
                            m,
                            en,
                            c.creature_id,
                            ts,
                            look_ahead_death_spec(events, ev, c.creature_id),
                        );
                        (with_active(m, r.0), r.1)
                    },
                    EventType::Death { .. } => {
                        let r = creature_death_step(m, en, c.encounter_npc_id, c.creature_id, ts);
                        (with_active(m, r.0), r.1)
                    },
                    EventType::Power { power_type, max_power, current_power } => {
                        let r = power_step(m, en, power_type, max_power, current_power, ts);
                        (with_active(m, r.0), r.1)
                    },
                    _ => (m, seq![]),
                },
            },
            Actor::Player(p) => match ev.event {
                EventType::CombatState { in_combat } => {
                    let s = with_player(m.active, p.character_id, in_combat);
                    if in_combat || m.has_percent {
                        (with_active(m, s), seq![])
                    } else {
                        let r = player_exit_sweep(s, ts);
                        (with_active(m, r.0), r.1)
                    }
                },
                EventType::AuraApplication { spell_id } => (with_active(m, aura_step(m.active, spell_id)), seq![]),
                _ => (m, seq![]),
            },
        },
    }
}


proof fn lemma_unique_update(s: Seq<AttemptModel>, i: int, a: AttemptModel)
    requires
        unique_encounters(s),
        0 <= i < s.len(),
        a.encounter_id == s[i].encounter_id,
    ensures
        unique_encounters(s.update(i, a)),
{
    let t = s.update(i, a);
    assert forall|x: int, y: int|
        0 <= x < t.len() && 0 <= y < t.len() && x != y implies #[trigger] t[x].encounter_id
        != #[trigger] t[y].encounter_id by {
        assert(t[x].encounter_id == s[x].encounter_id);
        assert(t[y].encounter_id == s[y].encounter_id);
    }
}

proof fn lemma_unique_remove(s: Seq<AttemptModel>, i: int)
    requires
        unique_encounters(s),
        0 <= i < s.len(),
    ensures
        unique_encounters(s.remove(i)),
{
    let t = s.remove(i);
    assert forall|x: int, y: int|
        0 <= x < t.len() && 0 <= y < t.len() && x != y implies #[trigger] t[x].encounter_id
        != #[trigger] t[y].encounter_id by {
        let sx = if x < i { x } else { x + 1 };
        let sy = if y < i { y } else { y + 1 };
        assert(t[x] == s[sx]);
        assert(t[y] == s[sy]);
    }
}

proof fn lemma_unique_push(s: Seq<AttemptModel>, a: AttemptModel)
    requires
        unique_encounters(s),
        active_index(s, a.encounter_id) is None,
    ensures
        unique_encounters(s.push(a)),
{
    let t = s.push(a);
    assert forall|j: int| 0 <= j < s.len() implies s[j].encounter_id != a.encounter_id by {
        if s[j].encounter_id == a.encounter_id {
            assert(encounter_is(a.encounter_id)(s[j]));
            lemma_first_exists(s, encounter_is(a.encounter_id), j);
        }
    }
    assert forall|x: int, y: int|
        0 <= x < t.len() && 0 <= y < t.len() && x != y implies #[trigger] t[x].encounter_id
        != #[trigger] t[y].encounter_id by {
        if x < s.len() {
            assert(t[x] == s[x]);
        }
        if y < s.len() {
            assert(t[y] == s[y]);
        }
    }
}

proof fn lemma_unique_same_ids(s: Seq<AttemptModel>, t: Seq<AttemptModel>)
    requires
        unique_encounters(s),
        s.len() == t.len(),
        forall|i: int| 0 <= i < s.len() ==> #[trigger] t[i].encounter_id == s[i].encounter_id,
    ensures
        unique_encounters(t),
{
    assert forall|x: int, y: int|
        0 <= x < t.len() && 0 <= y < t.len() && x != y implies #[trigger] t[x].encounter_id
        != #[trigger] t[y].encounter_id by {
        assert(t[x].encounter_id == s[x].encounter_id);
        assert(t[y].encounter_id == s[y].encounter_id);
    }
}

fn apply_buff(a: &mut Attempt, spell_id: u32)
    ensures
        final(a)@ == (AttemptModel { hard_mode_found_buffs: old(a)@.hard_mode_found_buffs.insert(spell_id), ..old(a)@ }),
{
    a.hard_mode_found_buffs.insert(spell_id);
}


proof fn lemma_ranking_step_ids(s: Seq<AttemptModel>, data: Data, ev: Event)
    ensures
        ranking_step(s, data, ev).len() == s.len(),
        forall|i: int| 0 <= i < s.len() ==> #[trigger] ranking_step(s, data, ev)[i].encounter_id == s[i].encounter_id,
{
}

proof fn lemma_sweep_kept(s: Seq<AttemptModel>, ts: u64)
    requires
        unique_encounters(s),
    ensures
        unique_encounters(player_exit_sweep(s, ts).0),
        forall|k: int| 0 <= k < player_exit_sweep(s, ts).0.len() ==> exists|j: int|
            0 <= j < s.len() && #[trigger] player_exit_sweep(s, ts).0[k].encounter_id == s[j].encounter_id,
    decreases s.len(),
{
    if s.len() > 0 {
        let d = s.drop_last();
        assert(unique_encounters(d)) by {
            assert forall|x: int, y: int|
                0 <= x < d.len() && 0 <= y < d.len() && x != y implies #[trigger] d[x].encounter_id
                != #[trigger] d[y].encounter_id by {
                assert(d[x] == s[x] && d[y] == s[y]);
            }
        }
        lemma_sweep_kept(d, ts);
        let kept = player_exit_sweep(d, ts).0;
        let r = player_exit_sweep(s, ts).0;
        if !closes_on_player_exit(s.last(), ts) {
            assert(r == kept.push(s.last()));
            assert forall|x: int, y: int|
                0 <= x < r.len() && 0 <= y < r.len() && x != y implies #[trigger] r[x].encounter_id
                != #[trigger] r[y].encounter_id by {
                if x < kept.len() && y < kept.len() {
                    assert(r[x] == kept[x] && r[y] == kept[y]);
                } else if x < kept.len() {
                    assert(r[x] == kept[x]);
                    let j = choose|j: int| 0 <= j < d.len() && #[trigger] kept[x].encounter_id == d[j].encounter_id;
                    assert(d[j] == s[j]);
                    assert(s[j].encounter_id != s[s.len() - 1].encounter_id);
                } else if y < kept.len() {
                    assert(r[y] == kept[y]);
                    let j = choose|j: int| 0 <= j < d.len() && #[trigger] kept[y].encounter_id == d[j].encounter_id;
                    assert(d[j] == s[j]);
                    assert(s[j].encounter_id != s[s.len() - 1].encounter_id);
                }
            }
            assert forall|k: int| 0 <= k < r.len() implies exists|j: int|
                0 <= j < s.len() && #[trigger] r[k].encounter_id == s[j].encounter_id by {
                if k < kept.len() {
                    assert(r[k] == kept[k]);
                    let j = choose|j: int| 0 <= j < d.len() && #[trigger] kept[k].encounter_id == d[j].encounter_id;
                    assert(d[j] == s[j]);
                } else {
                    assert(r[k] == s[s.len() - 1]);
                }
            }
        } else {
            assert forall|k: int| 0 <= k < r.len() implies exists|j: int|
                0 <= j < s.len() && #[trigger] r[k].encounter_id == s[j].encounter_id by {
                let j = choose|j: int| 0 <= j < d.len() && #[trigger] kept[k].encounter_id == d[j].encounter_id;
                assert(d[j] == s[j]);
            }
        }
    }
}

/// Whatever the event, a state with at most one active attempt per
/// encounter keeps that property.
pub proof fn lemma_event_step_keeps_unique(m: TrackerModel, data: Data, events: Seq<Event>, index: int)
    requires
        unique_encounters(m.active),
        0 <= index < events.len(),
    ensures
        unique_encounters(event_step(m, data, events, index).0.active),
{
    let ev = events[index];
    let s = m.active;
    lemma_ranking_step_ids(s, data, ev);
    lemma_unique_same_ids(s, ranking_step(s, data, ev));
    match ev.subject {
        Actor::Creature(c) => match data.encounter_npc_spec(c.encounter_npc_id) {
            Some(en) => {
                match active_index(s, en.encounter_id) {
                    Some(i) => {
                        lemma_first_index_is_first(s, encounter_is(en.encounter_id));
                        lemma_unique_update(s, i, enter_model(s[i], en, c.creature_id));
                        lemma_unique_update(s, i, AttemptModel { creatures_in_combat: s[i].creatures_in_combat.remove(c.creature_id), ..s[i] });
                        lemma_unique_remove(s, i);
                        let a1 = AttemptModel { required: s[i].required.remove(c.creature_id), last_creature_death: ev.timestamp, ..s[i] };
                        lemma_unique_update(s, i, a1);
                        lemma_unique_update(s, i, AttemptModel { pivot_is_finished: true, required: Set::empty(), ..a1 });
                        lemma_unique_update(s, i, AttemptModel { pivot_is_finished: true, required: Set::empty(), ..s[i] });
                    },
                    None => {
                        if en.can_start_encounter {
                            lemma_unique_push(s, enter_model(opened_model(data, en.encounter_id, ev.timestamp), en, c.creature_id));
                        }
                    },
                }
            },
            None => {},
        },
        Actor::Player(p) => {
            match ev.event {
                EventType::CombatState { in_combat } => {
                    let w = with_player(s, p.character_id, in_combat);
                    lemma_unique_same_ids(s, w);
                    lemma_sweep_kept(w, ev.timestamp);
                },
                EventType::AuraApplication { spell_id } => {
                    match active_index(s, BUFF_HARD_MODE_ENCOUNTER) {
                        Some(i) => {
                            lemma_first_index_is_first(s, encounter_is(BUFF_HARD_MODE_ENCOUNTER));
                            lemma_unique_update(s, i, AttemptModel { hard_mode_found_buffs: s[i].hard_mode_found_buffs.insert(spell_id), ..s[i] });
                        },
                        None => {},
                    }
                },
                _ => {},
            }
        },
    }
    assert(unique_encounters(seq![])) by {
        let e: Seq<AttemptModel> = seq![];
        assert forall|x: int, y: int|
            0 <= x < e.len() && 0 <= y < e.len() && x != y implies #[trigger] e[x].encounter_id
            != #[trigger] e[y].encounter_id by {}
    }
}

/// Attempt mutations, each stated over the model.
fn apply_enter(a: &mut Attempt, en: EncounterNpc, creature_id: u64)
    ensures
        final(a)@ == enter_model(old(a)@, en, creature_id),
{
    if en.requires_death {
        a.creatures_required_to_die.insert(creature_id);
    }
    a.creatures_in_combat.insert(creature_id);
    if en.is_pivot {
        a.pivot_creature = Some(creature_id);
    }
}

fn apply_leave(a: &mut Attempt, creature_id: u64)
    ensures
        final(a)@ == (AttemptModel { creatures_in_combat: old(a)@.creatures_in_combat.remove(creature_id), ..old(a)@ }),
{
    a.creatures_in_combat.remove(&creature_id);
}

fn apply_death(a: &mut Attempt, creature_id: u64, ts: u64)
    ensures
        final(a)@ == (AttemptModel {
            required: old(a)@.required.remove(creature_id),
            last_creature_death: ts,
            ..old(a)@
        }),
{
    a.creatures_required_to_die.remove(&creature_id);
    a.last_creature_death = ts;
}

fn apply_finish(a: &mut Attempt)
    ensures
        final(a)@ == (AttemptModel { pivot_is_finished: true, required: Set::empty(), ..old(a)@ }),
{
    a.pivot_is_finished = true;
    a.creatures_required_to_die.clear();
}

fn apply_player(a: &mut Attempt, character_id: u32, in_combat: bool)
    ensures
        final(a)@ == (AttemptModel {
            infight_player: if in_combat {
                old(a)@.infight_player.insert(character_id)
            } else {
                old(a)@.infight_player.remove(character_id)
            },
            ..old(a)@
        }),
{
    if in_combat {
        a.infight_player.insert(character_id);
    } else {
        a.infight_player.remove(&character_id);
    }
}

fn closes_exec(a: &Attempt, ts: u64) -> (r: bool)
    ensures
        r == closes_on_player_exit(a@, ts),
{
    if encounter_has_add_phase(a.encounter_id) && (a.last_creature_death > u64::MAX - PHASE_LULL
        || ts < a.last_creature_death + PHASE_LULL) {
        return false;
    }
    a.infight_player.len() <= KILL_MIN_INFIGHT_UNITS && a.infight_vehicle.len() <= KILL_MIN_INFIGHT_UNITS
        && (a.creatures_required_to_die.is_empty() || a.creatures_in_combat.is_empty())
}


/// Healing is credited to the healer's owner under every active attempt of
/// the instance at once.
pub proof fn lemma_heal_credits_every_active_attempt(
    s: Seq<AttemptModel>,
    data: Data,
    ev: Event,
    who: u32,
    effective: u32,
)
    requires
        ev.event == (EventType::Heal { effective }),
        owner_or_self(ev.subject) == Some(who),
    ensures
        ranking_step(s, data, ev).len() == s.len(),
        forall|i: int|
            0 <= i < s.len() ==> (#[trigger] ranking_step(s, data, ev)[i]).ranking_heal == credit(
                s[i].ranking_heal,
                who,
                effective,
            ) && ranking_step(s, data, ev)[i].encounter_id == s[i].encounter_id,
{
}

/// A pivot whose health falls to its threshold ends its active attempt at
/// once, as a kill: nothing is left required and the pivot is finished.
pub proof fn lemma_pivot_threshold_commits_kill(m: TrackerModel, data: Data, events: Seq<Event>, index: int)
    requires
        0 <= index < events.len(),
        !m.has_percent,
        events[index].subject matches Actor::Creature(c) && ({
            &&& data.encounter_npc_spec(c.encounter_npc_id) matches Some(en)
            &&& en.is_pivot
            &&& active_index(m.active, en.encounter_id) is Some
            &&& events[index].event matches EventType::Power { power_type, max_power, current_power }
                && power_type == PowerType::Health && below_threshold(en, max_power, current_power)
        }),
    ensures
        event_step(m, data, events, index).1.len() == 1,
        event_step(m, data, events, index).1[0].required.is_empty(),
        event_step(m, data, events, index).1[0].pivot_is_finished,
        is_kill_spec(event_step(m, data, events, index).1[0]),
        event_step(m, data, events, index).1[0].end_ts == events[index].timestamp,
{
}

impl InstanceAttempts {
    pub open spec fn wf(&self) -> bool {
        unique_encounters(self@.active)
    }

    pub fn new() -> (r: InstanceAttempts)
        ensures
            r.wf(),
            r@.active.len() == 0,
            !r@.has_percent,
            r@.previous_percent == 0,
    {
        InstanceAttempts {
            active: Vec::new(),
            has_percent_players_in_combat: false,
            previous_percent_players_in_combat: 0,
        }
    }

    /// The position of the active attempt of an encounter.
    pub fn find_active(&self, encounter_id: u32) -> (r: Option<usize>)
        ensures
            match r {
                Some(i) => active_index(self@.active, encounter_id) == Some(i as int),
                None => active_index(self@.active, encounter_id) is None,
            },
    {
        let ghost s = self@.active;
        let mut i: usize = 0;
        while i < self.active.len()
            invariant
                i <= self.active@.len(),
                s == self@.active,
                forall|j: int| 0 <= j < i ==> !(#[trigger] encounter_is(encounter_id)(s[j])),
            decreases self.active@.len() - i,
        {
            if self.active[i].encounter_id == encounter_id {
                proof {
                    lemma_first_index_is(s, encounter_is(encounter_id), i as int);
                }
                return Some(i);
            }
            i = i + 1;
        }
        proof {
            lemma_first_index_none(s, encounter_is(encounter_id));
        }
        None
    }

    fn victim_attempt(&self, data: &Data, victim: &Actor) -> (r: Option<usize>)
        ensures
            match r {
                Some(i) => victim_index(self@.active, *data, *victim) == Some(i as int),
                None => victim_index(self@.active, *data, *victim) is None,
            },
    {
        match victim {
            Actor::Creature(c) => match data.get_encounter_npc(c.encounter_npc_id) {
                Some(en) => self.find_active(en.encounter_id),
                None => None,
            },
            _ => None,
        }
    }


    fn close(&mut self, i: usize, ts: u64, closed: &mut Vec<Attempt>)
        requires
            old(self).wf(),
            i < old(self)@.active.len(),
        ensures
            final(self).wf(),
            final(self)@ == with_active(old(self)@, old(self)@.active.remove(i as int)),
            models_of(final(closed)@) == models_of(old(closed)@).push(close_at(old(self)@.active[i as int], ts)),
    {
        let ghost before = self@;
        let mut a = self.active.remove(i);
        a.end_ts = ts;
        proof {
            lemma_unique_remove(before.active, i as int);
        }
        assert(self@.active =~= before.active.remove(i as int));
        let ghost cs = models_of(closed@);
        closed.push(a);
        assert(models_of(closed@) =~= cs.push(close_at(before.active[i as int], ts)));
    }

    fn enter_creature(&mut self, data: &Data, en: EncounterNpc, creature_id: u64, ts: u64)
        requires
            old(self).wf(),
        ensures
            final(self).wf(),
            final(self)@ == with_active(old(self)@, creature_enter_step(old(self)@.active, *data, en, creature_id, ts)),
    {
        let ghost before = self@;
        let i = match self.find_active(en.encounter_id) {
            Some(i) => i,
            None => {
                if !en.can_start_encounter {
                    assert(self@ == with_active(before, before.active));
                    return;
                }
                let mut a = Attempt::new(en.encounter_id, ts, data.encounter_has_pivot(en.encounter_id));
                if encounter_has_add_phase(en.encounter_id) {
                    let ids = data.get_required_death_creature_ids(en.encounter_id);
                    let mut k: usize = 0;
                    while k < ids.len()
                        invariant
                            k <= ids@.len(),
                            a@ == (AttemptModel { required: a@.required, ..new_attempt_model(en.encounter_id, ts, data.has_pivot_spec(en.encounter_id)) }),
                            forall|x: u64| a@.required.contains(x) <==> exists|j: int| 0 <= j < k && #[trigger] ids@[j] == x,
                        decreases ids@.len() - k,
                    {
                        a.creatures_required_to_die.insert(ids[k]);
                        k = k + 1;
                        assert forall|x: u64| a@.required.contains(x) <==> exists|j: int| 0 <= j < k && #[trigger] ids@[j] == x by {
                            if a@.required.contains(x) && x != ids@[k - 1] {
                            }
                            if x == ids@[k - 1] {
                                assert(ids@[k - 1] == x);
                            }
                        }
                    }
                    assert forall|x: u64| a@.required.contains(x) <==> ids@.contains(x) by {
                        if ids@.contains(x) {
                            let j = choose|j: int| 0 <= j < ids@.len() && ids@[j] == x;
                            assert(ids@[j] == x);
                        }
                    }
                    assert forall|x: u64| #[trigger] a@.required.contains(x) == required_death_set(*data, en.encounter_id).contains(x) by {
                        assert(a@.required.contains(x) == ids@.contains(x));
                    }
                    assert(a@.required =~= required_death_set(*data, en.encounter_id));
                }
                assert(a@ == opened_model(*data, en.encounter_id, ts));
                proof {
                    lemma_unique_push(before.active, a@);
                }
                self.active.push(a);
                assert(self@.active =~= before.active.push(opened_model(*data, en.encounter_id, ts)));
                self.active.len() - 1
            },
        };
        let ghost mid = self@.active;
        apply_enter(&mut self.active[i], en, creature_id);
        assert(self@.active =~= mid.update(i as int, enter_model(mid[i as int], en, creature_id)));
        proof {
            lemma_unique_update(mid, i as int, enter_model(mid[i as int], en, creature_id));
            if active_index(before.active, en.encounter_id) is None {
                let o = opened_model(*data, en.encounter_id, ts);
                assert(mid == before.active.push(o));
                assert(self@.active =~= before.active.push(enter_model(o, en, creature_id)));
            }
        }
    }

    fn exit_creature(
        &mut self,
        events: &Vec<Event>,
        ev: &Event,
        en: EncounterNpc,
        creature_id: u64,
        closed: &mut Vec<Attempt>,
    )
        requires
            old(self).wf(),
            models_of(old(closed)@).len() == 0,
        ensures
            final(self).wf(),
            ({
                let r = creature_exit_step(old(self)@, en, creature_id, ev.timestamp, look_ahead_death_spec(events@, *ev, creature_id));
                final(self)@ == with_active(old(self)@, r.0) && models_of(final(closed)@) == r.1
            }),
    {
        let ghost before = self@;
        let i = match self.find_active(en.encounter_id) {
            Some(i) => i,
            None => {
                assert(self@ == with_active(before, before.active));
                assert(models_of(closed@) =~= seq![]);
                return;
            },
        };
        let infight_ok = self.active[i].infight_player.len() <= KILL_MIN_INFIGHT_UNITS
            && self.active[i].infight_vehicle.len() <= KILL_MIN_INFIGHT_UNITS;
        let pending = en.requires_death && !self.active[i].creatures_required_to_die.is_empty()
            && self.active[i].creatures_required_to_die.contains(&creature_id);
        apply_leave(&mut self.active[i], creature_id);
        let ghost after = AttemptModel { creatures_in_combat: before.active[i as int].creatures_in_combat.remove(creature_id), ..before.active[i as int] };
        assert(self@.active =~= before.active.update(i as int, after));
        proof {
            lemma_unique_update(before.active, i as int, after);
        }
        let committable = (self.active[i].creatures_in_combat.is_empty() && infight_ok)
            && !(pending && look_ahead_death(events, ev, creature_id));
        if !self.has_percent_players_in_combat && committable {
            let ghost mid = self@;
            self.close(i, ev.timestamp, closed);
            assert(before.active.update(i as int, after).remove(i as int) =~= before.active.remove(i as int));
            assert(models_of(closed@) =~= seq![close_at(after, ev.timestamp)]);
        } else {
            assert(models_of(closed@) =~= seq![]);
        }
    }

    fn creature_death(&mut self, en: EncounterNpc, npc_id: u32, creature_id: u64, ts: u64, closed: &mut Vec<Attempt>)
        requires
            old(self).wf(),
            models_of(old(closed)@).len() == 0,
        ensures
            final(self).wf(),
            ({
                let r = creature_death_step(old(self)@, en, npc_id, creature_id, ts);
                final(self)@ == with_active(old(self)@, r.0) && models_of(final(closed)@) == r.1
            }),
    {
        let ghost before = self@;
        let i = match self.find_active(en.encounter_id) {
            Some(i) => i,
            None => {
                assert(self@ == with_active(before, before.active));
                assert(models_of(closed@) =~= seq![]);
                return;
            },
        };
        let finishes = self.active[i].pivot_creature == Some(creature_id) || npc_id == MULTI_PHASE_FINISHER_NPC;
        apply_death(&mut self.active[i], creature_id, ts);
        if finishes {
            apply_finish(&mut self.active[i]);
        }
        let ghost a1 = AttemptModel { required: before.active[i as int].required.remove(creature_id), last_creature_death: ts, ..before.active[i as int] };
        let ghost a2 = if finishes { AttemptModel { pivot_is_finished: true, required: Set::empty(), ..a1 } } else { a1 };
        assert(self@.active =~= before.active.update(i as int, a2));
        proof {
            lemma_unique_update(before.active, i as int, a2);
        }
        if !self.has_percent_players_in_combat && self.active[i].creatures_required_to_die.is_empty() {
            self.close(i, ts, closed);
            assert(before.active.update(i as int, a2).remove(i as int) =~= before.active.remove(i as int));
            assert(models_of(closed@) =~= seq![close_at(a2, ts)]);
        } else {
            assert(models_of(closed@) =~= seq![]);
        }
    }

    fn pivot_power(
        &mut self,
        en: EncounterNpc,
        power_type: PowerType,
        max_power: u32,
        current_power: u32,
        ts: u64,
        closed: &mut Vec<Attempt>,
    )
        requires
            old(self).wf(),
            models_of(old(closed)@).len() == 0,
        ensures
            final(self).wf(),
            ({
                let r = power_step(old(self)@, en, power_type, max_power, current_power, ts);
                final(self)@ == with_active(old(self)@, r.0) && models_of(final(closed)@) == r.1
            }),
    {
        let ghost before = self@;
        let crossed = match en.health_treshold {
            Some(t) => {
                assert((t as u64) * (max_power as u64) <= 255 * 0xFFFFFFFF) by (nonlinear_arith)
                    requires
                        t <= 255,
                        max_power <= 0xFFFFFFFF,
                ;
                max_power > 0 && (current_power as u64) * 100 <= (t as u64) * (max_power as u64)
            },
            None => false,
        };
        if !(power_type == PowerType::Health && en.is_pivot && crossed) {
            assert(self@ == with_active(before, before.active));
            assert(models_of(closed@) =~= seq![]);
            return;
        }
        let i = match self.find_active(en.encounter_id) {
            Some(i) => i,
            None => {
                assert(self@ == with_active(before, before.active));
                assert(models_of(closed@) =~= seq![]);
                return;
            },
        };
        apply_finish(&mut self.active[i]);
        let ghost a = AttemptModel { pivot_is_finished: true, required: Set::empty(), ..before.active[i as int] };
        assert(self@.active =~= before.active.update(i as int, a));
        proof {
            lemma_unique_update(before.active, i as int, a);
        }
        if !self.has_percent_players_in_combat {
            self.close(i, ts, closed);
            assert(before.active.update(i as int, a).remove(i as int) =~= before.active.remove(i as int));
            assert(models_of(closed@) =~= seq![close_at(a, ts)]);
        } else {
            assert(models_of(closed@) =~= seq![]);
        }
    }


    fn player_combat(&mut self, character_id: u32, in_combat: bool, ts: u64, closed: &mut Vec<Attempt>)
        requires
            old(self).wf(),
            models_of(old(closed)@).len() == 0,
        ensures
            final(self).wf(),
            ({
                let s = with_player(old(self)@.active, character_id, in_combat);
                if in_combat || old(self)@.has_percent {
                    final(self)@ == with_active(old(self)@, s) && models_of(final(closed)@).len() == 0
                } else {
                    final(self)@ == with_active(old(self)@, player_exit_sweep(s, ts).0)
                        && models_of(final(closed)@) == player_exit_sweep(s, ts).1
                }
            }),
    {
        let ghost before = self@;
        let ghost target = with_player(before.active, character_id, in_combat);
        assert(target.len() == before.active.len());
        let mut i: usize = 0;
        while i < self.active.len()
            invariant
                i <= self.active@.len(),
                self.active@.len() == before.active.len(),
                target == with_player(before.active, character_id, in_combat),
                forall|j: int| 0 <= j < i ==> #[trigger] self@.active[j] == target[j],
                forall|j: int| i <= j < before.active.len() ==> #[trigger] self@.active[j] == before.active[j],
                self.has_percent_players_in_combat == before.has_percent,
                self.previous_percent_players_in_combat == before.previous_percent,
            decreases self.active@.len() - i,
        {
            let ghost prev = self@.active;
            assert(prev[i as int] == before.active[i as int]);
            apply_player(&mut self.active[i], character_id, in_combat);
            assert(target[i as int] == (AttemptModel {
                infight_player: if in_combat {
                    before.active[i as int].infight_player.insert(character_id)
                } else {
                    before.active[i as int].infight_player.remove(character_id)
                },
                ..before.active[i as int]
            }));
            assert(self@.active =~= prev.update(i as int, target[i as int]));
            i = i + 1;
        }
        assert(self@.active =~= target);
        proof {
            lemma_unique_same_ids(before.active, target);
        }
        if in_combat || self.has_percent_players_in_combat {
            return;
        }
        let ghost orig = target;
        let mut i: usize = 0;
        let ghost mut k: int = 0;
        assert(orig.subrange(0, 0) =~= seq![]);
        assert(models_of(closed@) =~= seq![]);
        while i < self.active.len()
            invariant
                0 <= i <= k <= orig.len(),
                self@.active.len() == i + (orig.len() - k),
                self@.active.subrange(0, i as int) == player_exit_sweep(orig.subrange(0, k), ts).0,
                models_of(closed@) == player_exit_sweep(orig.subrange(0, k), ts).1,
                self@.active.subrange(i as int, self@.active.len() as int) == orig.subrange(k, orig.len() as int),
                self.wf(),
                self.has_percent_players_in_combat == before.has_percent,
                self.previous_percent_players_in_combat == before.previous_percent,
            decreases orig.len() - k,
        {
            let ghost cur = self@.active;
            assert(orig.subrange(0, k + 1).drop_last() =~= orig.subrange(0, k));
            assert(cur.subrange(i as int, cur.len() as int)[0] == cur[i as int]);
            assert(orig[k] == cur[i as int]);
            assert(orig.subrange(0, k + 1).last() == orig[k]);
            if closes_exec(&self.active[i], ts) {
                self.close(i, ts, closed);
                assert(self@.active.subrange(0, i as int) =~= cur.subrange(0, i as int));
                assert(self@.active.subrange(i as int, self@.active.len() as int) =~= cur.subrange(i + 1, cur.len() as int));
                assert(orig.subrange(k + 1, orig.len() as int) =~= orig.subrange(k, orig.len() as int).subrange(1, orig.len() - k));
                assert(cur.subrange(i + 1, cur.len() as int) =~= cur.subrange(i as int, cur.len() as int).subrange(1, cur.len() - i));
            } else {
                assert(self@.active.subrange(0, i + 1) =~= cur.subrange(0, i as int).push(cur[i as int]));
                assert(orig.subrange(k + 1, orig.len() as int) =~= orig.subrange(k, orig.len() as int).subrange(1, orig.len() - k));
                assert(cur.subrange(i + 1, cur.len() as int) =~= cur.subrange(i as int, cur.len() as int).subrange(1, cur.len() - i));
                i = i + 1;
            }
            proof {
                k = k + 1;
            }
        }
        assert(orig.subrange(0, k) =~= orig);
        assert(self@.active =~= self@.active.subrange(0, i as int));
    }

    fn hard_mode_buff(&mut self, spell_id: u32)
        requires
            old(self).wf(),
        ensures
            final(self).wf(),
            final(self)@ == with_active(old(self)@, aura_step(old(self)@.active, spell_id)),
    {
        let ghost before = self@;
        if spell_id == 62670 || spell_id == 62650 || spell_id == 62671 || spell_id == 62702 {
            if let Some(i) = self.find_active(BUFF_HARD_MODE_ENCOUNTER) {
                apply_buff(&mut self.active[i], spell_id);
                let ghost a = AttemptModel { hard_mode_found_buffs: before.active[i as int].hard_mode_found_buffs.insert(spell_id), ..before.active[i as int] };
                assert(self@.active =~= before.active.update(i as int, a));
                proof {
                    lemma_unique_update(before.active, i as int, a);
                }
                return;
            }
        }
        assert(self@ == with_active(before, before.active));
    }

    fn percent_in_combat(&mut self, percentage: u32, ts: u64, closed: &mut Vec<Attempt>)
        requires
            old(self).wf(),
            models_of(old(closed)@).len() == 0,
        ensures
            final(self).wf(),
            ({
                let closing = percentage == 0 && old(self)@.previous_percent > 0;
                &&& final(self)@.has_percent
                &&& final(self)@.previous_percent == percentage
                &&& final(self)@.active == if closing { seq![] } else { old(self)@.active }
                &&& models_of(final(closed)@) == if closing {
                    old(self)@.active.map_values(|a: AttemptModel| close_at(a, ts))
                } else {
                    seq![]
                }
            }),
    {
        let ghost orig = self@.active;
        self.has_percent_players_in_combat = true;
        if percentage == 0 && self.previous_percent_players_in_combat > 0 {
            let ghost mut k: int = 0;
            assert(models_of(closed@) =~= orig.subrange(0, 0).map_values(|a: AttemptModel| close_at(a, ts)));
            while self.active.len() > 0
                invariant
                    0 <= k <= orig.len(),
                    self@.active == orig.subrange(k, orig.len() as int),
                    models_of(closed@) == orig.subrange(0, k).map_values(|a: AttemptModel| close_at(a, ts)),
                    self.wf(),
                    self.has_percent_players_in_combat,
                    self.previous_percent_players_in_combat == old(self).previous_percent_players_in_combat,
                decreases self.active@.len(),
            {
                let ghost cs = models_of(closed@);
                self.close(0, ts, closed);
                assert(orig.subrange(k, orig.len() as int).remove(0) =~= orig.subrange(k + 1, orig.len() as int));
                assert(orig.subrange(0, k + 1).map_values(|a: AttemptModel| close_at(a, ts)) =~= cs.push(close_at(orig[k], ts)));
                proof {
                    k = k + 1;
                }
            }
            assert(k == orig.len());
            assert(orig.subrange(0, k) =~= orig);
            assert(self@.active =~= seq![]);
        } else {
            assert(models_of(closed@) =~= seq![]);
        }
        self.previous_percent_players_in_combat = percentage;
    }

    /// Applies one buffered event of the instance and returns the attempts
    /// that it closed, in order; `events` is the instance's buffer, used to
    /// look ahead for a pending death.
    pub fn process_event(&mut self, data: &Data, events: &Vec<Event>, index: usize) -> (closed: Vec<Attempt>)
        requires
            old(self).wf(),
            index < events@.len(),
        ensures
            final(self).wf(),
            (final(self)@, models_of(closed@)) == event_step(old(self)@, *data, events@, index as int),
    {
        let ghost before = self@;
        let ev = &events[index];
        let ts = ev.timestamp;
        let mut closed: Vec<Attempt> = Vec::new();
        assert(models_of(closed@) =~= seq![]);
        match &ev.event {
            EventType::PercentPlayersInCombat { percentage } => {
                self.percent_in_combat(*percentage, ts, &mut closed);
            },
            EventType::SpellDamage { .. } | EventType::MeleeDamage { .. } | EventType::Heal { .. }
            | EventType::Threat { .. } => {
                self.process_ranking(data, ev);
            },
            _ => match &ev.subject {
                Actor::Creature(c) => {
                    if let Some(en) = data.get_encounter_npc(c.encounter_npc_id) {
                        match &ev.event {
                            EventType::CombatState { in_combat } => {
                                if *in_combat {
                                    self.enter_creature(data, en, c.creature_id, ts);
                                } else {
                                    self.exit_creature(events, ev, en, c.creature_id, &mut closed);
                                }
                            },
                            EventType::Death { .. } => {
                                self.creature_death(en, c.encounter_npc_id, c.creature_id, ts, &mut closed);
                            },
                            EventType::Power { power_type, max_power, current_power } => {
                                self.pivot_power(en, *power_type, *max_power, *current_power, ts, &mut closed);
                            },
                            _ => {},
                        }
                    }
                },
                Actor::Player(p) => match &ev.event {
                    EventType::CombatState { in_combat } => {
                        self.player_combat(p.character_id, *in_combat, ts, &mut closed);
                    },
                    EventType::AuraApplication { spell_id } => {
                        self.hard_mode_buff(*spell_id);
                    },
                    _ => {},
                },
            },
        }
        closed
    }

    pub fn process_ranking(&mut self, data: &Data, ev: &Event)
        requires
            old(self).wf(),
        ensures
            final(self).wf(),
            final(self)@.active == ranking_step(old(self)@.active, *data, *ev),
            final(self)@.has_percent == old(self)@.has_percent,
            final(self)@.previous_percent == old(self)@.previous_percent,
    {
        let who = match get_owner_or_self(&ev.subject) {
            Some(w) => w,
            None => return,
        };
        match &ev.event {
            EventType::SpellDamage { victim, components } | EventType::MeleeDamage { victim, components } => {
                if let Some(i) = self.victim_attempt(data, victim) {
                    let amount = get_spell_components_total(components);
                    let ghost before = self@.active;
                    credit_row(&mut self.active[i].ranking_damage, who, amount);
                    assert(self@.active =~= before.update(
                        i as int,
                        AttemptModel { ranking_damage: credit(before[i as int].ranking_damage, who, amount), ..before[i as int] },
                    ));
                }
            },
            EventType::Heal { effective } => {
                let ghost before = self@.active;
                let mut i: usize = 0;
                while i < self.active.len()
                    invariant
                        i <= self.active@.len(),
                        self.active@.len() == before.len(),
                        forall|j: int| 0 <= j < i ==> #[trigger] self@.active[j] == (AttemptModel {
                            ranking_heal: credit(before[j].ranking_heal, who, *effective),
                            ..before[j]
                        }),
                        forall|j: int| i <= j < before.len() ==> #[trigger] self@.active[j] == before[j],
                        self.has_percent_players_in_combat == old(self).has_percent_players_in_combat,
                        self.previous_percent_players_in_combat == old(self).previous_percent_players_in_combat,
                    decreases self.active@.len() - i,
                {
                    let ghost prev = self@.active;
                    credit_row(&mut self.active[i].ranking_heal, who, *effective);
                    assert(self@.active =~= prev.update(
                        i as int,
                        AttemptModel { ranking_heal: credit(prev[i as int].ranking_heal, who, *effective), ..prev[i as int] },
                    ));
                    i = i + 1;
                }
                assert(self@.active =~= before.map_values(
                    |a: AttemptModel| AttemptModel { ranking_heal: credit(a.ranking_heal, who, *effective), ..a },
                ));
            },
            EventType::Threat { threatened, amount } => {
                if let Some(i) = self.victim_attempt(data, threatened) {
                    let ghost before = self@.active;
                    credit_row(&mut self.active[i].ranking_threat, who, *amount);
                    assert(self@.active =~= before.update(
                        i as int,
                        AttemptModel { ranking_threat: credit(before[i as int].ranking_threat, who, *amount), ..before[i as int] },
                    ));
                }
            },
            _ => {},
        }
    }
}

} // verus!
