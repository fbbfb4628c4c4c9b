use backend::attempt::{commit_attempt, Attempt};
use backend::data::{Data, EncounterNpc};
use backend::event::{Actor, Creature, DamageComponent, Event, EventType, Player, PowerType};
use backend::server::{InstanceBuffer, Server};
use backend::tracker::InstanceAttempts;
use backend::unit::npc_unit_id;

fn encounter_npc(npc_id: u32, encounter_id: u32, requires_death: bool, is_pivot: bool, health_treshold: Option<u8>) -> EncounterNpc {
    EncounterNpc { npc_id, encounter_id, requires_death, can_start_encounter: true, is_pivot, health_treshold }
}

fn catalog() -> Data {
    Data {
        spells: vec![],
        npcs: vec![],
        encounter_npcs: vec![
            encounter_npc(100, 1, true, false, None),
            encounter_npc(101, 1, true, false, None),
            encounter_npc(200, 2, true, true, Some(20)),
            encounter_npc(201, 2, true, false, None),
        ],
        items: vec![],
        maps: vec![],
    }
}

fn creature(npc: u32) -> Actor {
    Actor::Creature(Creature { creature_id: npc_unit_id(npc), encounter_npc_id: npc, owner: None })
}

fn ev(id: u32, timestamp: u64, subject: Actor, event: EventType) -> Event {
    Event { id, timestamp, subject, event }
}

fn run(tracker: &mut InstanceAttempts, data: &Data, events: &Vec<Event>) -> Vec<Attempt> {
    let mut closed = Vec::new();
    for i in 0..events.len() {
        closed.extend(tracker.process_event(data, events, i));
    }
    closed
}

fn attempt(start_ts: u64, end_ts: u64) -> Attempt {
    let mut a = Attempt::new(1, start_ts, false);
    a.end_ts = end_ts;
    a
}

#[test]
fn attempt_of_exactly_five_seconds_is_discarded() {
    assert!(commit_attempt(attempt(10_000, 15_000)).is_none());
}

#[test]
fn attempt_just_over_five_seconds_is_persisted() {
    let rec = commit_attempt(attempt(10_000, 15_001)).expect("persisted");
    assert_eq!(rec.start_ts, 10_000);
    assert_eq!(rec.end_ts, 15_001);
    assert_eq!(rec.encounter_id, 1);
    assert!(rec.is_kill);
}

#[test]
fn attempt_ending_before_it_starts_is_discarded() {
    assert!(commit_attempt(attempt(20_000, 10_000)).is_none());
}

#[test]
fn non_kill_record_carries_no_rankings() {
    let mut a = attempt(0, 60_000);
    a.creatures_required_to_die.insert(7);
    a.ranking_damage.push((3, 500));
    let rec = commit_attempt(a).expect("persisted");
    assert!(!rec.is_kill);
    assert!(rec.ranking_damage.is_empty());
}

#[test]
fn kill_record_keeps_rankings() {
    let mut a = attempt(0, 60_000);
    a.ranking_damage.push((3, 500));
    a.ranking_heal.push((4, 70));
    let rec = commit_attempt(a).expect("persisted");
    assert_eq!(rec.ranking_damage, vec![(3, 500)]);
    assert_eq!(rec.ranking_heal, vec![(4, 70)]);
}

#[test]
fn yogg_saron_without_buffs_is_reclassified() {
    let mut a = Attempt::new(126, 0, false);
    a.end_ts = 300_000;
    assert_eq!(commit_attempt(a).unwrap().encounter_id, 161);
}

#[test]
fn flame_leviathan_with_two_buffs_is_reclassified() {
    let mut a = Attempt::new(114, 0, false);
    a.end_ts = 300_000;
    a.hard_mode_found_buffs.insert(1);
    a.hard_mode_found_buffs.insert(2);
    assert_eq!(commit_attempt(a).unwrap().encounter_id, 147);
}

#[test]
fn hodir_fast_kill_is_reclassified_and_slow_is_not() {
    let mut fast = Attempt::new(124, 0, false);
    fast.end_ts = 122_000;
    assert_eq!(commit_attempt(fast).unwrap().encounter_id, 162);
    let mut slow = Attempt::new(124, 0, false);
    slow.end_ts = 122_001;
    assert_eq!(commit_attempt(slow).unwrap().encounter_id, 124);
}

#[test]
fn two_required_deaths_commit_a_kill() {
    let data = catalog();
    let events = vec![
        ev(1, 0, creature(100), EventType::CombatState { in_combat: true }),
        ev(2, 1000, creature(101), EventType::CombatState { in_combat: true }),
        ev(3, 50000, creature(100), EventType::Death { murder: None }),
        ev(4, 50001, creature(101), EventType::Death { murder: None }),
    ];
    let mut tracker = InstanceAttempts::new();
    let closed = run(&mut tracker, &data, &events);
    assert_eq!(closed.len(), 1);
    assert!(tracker.active.is_empty());
    let rec = commit_attempt(closed.into_iter().next().unwrap()).unwrap();
    assert_eq!(rec.start_ts, 0);
    assert_eq!(rec.end_ts, 50001);
    assert_eq!(rec.encounter_id, 1);
    assert!(rec.is_kill);
}

#[test]
fn one_required_death_keeps_attempt_open() {
    let data = catalog();
    let events = vec![
        ev(1, 0, creature(100), EventType::CombatState { in_combat: true }),
        ev(2, 1000, creature(101), EventType::CombatState { in_combat: true }),
        ev(3, 50000, creature(100), EventType::Death { murder: None }),
    ];
    let mut tracker = InstanceAttempts::new();
    let closed = run(&mut tracker, &data, &events);
    assert!(closed.is_empty());
    assert_eq!(tracker.active.len(), 1);
    assert_eq!(tracker.active[0].last_creature_death, 50000);
}

#[test]
fn pivot_health_threshold_commits_kill() {
    let data = catalog();
    let events = vec![
        ev(1, 0, creature(200), EventType::CombatState { in_combat: true }),
        ev(2, 100, creature(201), EventType::CombatState { in_combat: true }),
        ev(3, 10000, creature(200), EventType::Power { power_type: PowerType::Health, max_power: 1000, current_power: 150 }),
    ];
    let mut tracker = InstanceAttempts::new();
    let closed = run(&mut tracker, &data, &events);
    assert_eq!(closed.len(), 1);
    let a = &closed[0];
    assert!(a.creatures_required_to_die.is_empty());
    assert!(a.pivot_is_finished);
    assert!(a.encounter_has_pivot);
    assert!(a.is_kill());
    assert_eq!(a.end_ts, 10000);
}

#[test]
fn pivot_health_above_threshold_changes_nothing() {
    let data = catalog();
    let events = vec![
        ev(1, 0, creature(200), EventType::CombatState { in_combat: true }),
        ev(2, 10000, creature(200), EventType::Power { power_type: PowerType::Health, max_power: 1000, current_power: 500 }),
    ];
    let mut tracker = InstanceAttempts::new();
    let closed = run(&mut tracker, &data, &events);
    assert!(closed.is_empty());
    assert_eq!(tracker.active.len(), 1);
    assert!(!tracker.active[0].pivot_is_finished);
}

#[test]
fn heal_is_credited_to_every_active_attempt() {
    let data = catalog();
    let healer = Actor::Player(Player { character_id: 9 });
    let events = vec![
        ev(1, 0, creature(100), EventType::CombatState { in_combat: true }),
        ev(2, 10, creature(200), EventType::CombatState { in_combat: true }),
        ev(3, 20, healer, EventType::Heal { effective: 50 }),
    ];
    let mut tracker = InstanceAttempts::new();
    run(&mut tracker, &data, &events);
    assert_eq!(tracker.active.len(), 2);
    assert_eq!(tracker.active[0].ranking_heal, vec![(9, 50)]);
    assert_eq!(tracker.active[1].ranking_heal, vec![(9, 50)]);
}

#[test]
fn damage_is_credited_to_the_victims_encounter_and_owner() {
    let data = catalog();
    let pet = Actor::Creature(Creature { creature_id: 5, encounter_npc_id: 999, owner: Some(9) });
    let component = DamageComponent { school_mask: 1, damage: 120, resisted_or_glanced: 0, absorbed: 0 };
    let events = vec![
        ev(1, 0, creature(100), EventType::CombatState { in_combat: true }),
        ev(2, 10, creature(200), EventType::CombatState { in_combat: true }),
        ev(3, 20, pet, EventType::MeleeDamage { victim: creature(200), components: vec![component, component] }),
        ev(4, 30, Actor::Player(Player { character_id: 9 }), EventType::Threat { threatened: creature(100), amount: 7 }),
    ];
    let mut tracker = InstanceAttempts::new();
    run(&mut tracker, &data, &events);
    assert!(tracker.active[0].ranking_damage.is_empty());
    assert_eq!(tracker.active[1].ranking_damage, vec![(9, 240)]);
    assert_eq!(tracker.active[0].ranking_threat, vec![(9, 7)]);
}

#[test]
fn at_most_one_attempt_per_encounter() {
    let data = catalog();
    let events = vec![
        ev(1, 0, creature(100), EventType::CombatState { in_combat: true }),
        ev(2, 5, creature(101), EventType::CombatState { in_combat: true }),
        ev(3, 9, creature(100), EventType::CombatState { in_combat: true }),
    ];
    let mut tracker = InstanceAttempts::new();
    run(&mut tracker, &data, &events);
    assert_eq!(tracker.active.len(), 1);
    assert_eq!(tracker.active[0].creatures_in_combat.len(), 2);
    assert_eq!(tracker.active[0].start_ts, 0);
}

#[test]
fn percent_channel_ends_all_attempts() {
    let data = catalog();
    let system = Actor::Player(Player { character_id: 0 });
    let events = vec![
        ev(1, 0, system, EventType::PercentPlayersInCombat { percentage: 100 }),
        ev(2, 10, creature(100), EventType::CombatState { in_combat: true }),
        ev(3, 20, creature(200), EventType::CombatState { in_combat: true }),
        ev(4, 30, creature(100), EventType::Death { murder: None }),
        ev(5, 40, creature(101), EventType::CombatState { in_combat: true }),
        ev(6, 90000, system, EventType::PercentPlayersInCombat { percentage: 0 }),
    ];
    let mut tracker = InstanceAttempts::new();
    let closed = run(&mut tracker, &data, &events);
    assert_eq!(closed.len(), 2);
    assert!(closed.iter().all(|a| a.end_ts == 90000));
    assert!(tracker.active.is_empty());
    assert!(tracker.has_percent_players_in_combat);
}

#[test]
fn creature_leaving_combat_ends_attempt_without_kill() {
    let data = catalog();
    let events = vec![
        ev(1, 0, creature(100), EventType::CombatState { in_combat: true }),
        ev(2, 20000, creature(100), EventType::CombatState { in_combat: false }),
        ev(3, 25000, creature(100), EventType::Death { murder: None }),
    ];
    let mut tracker = InstanceAttempts::new();
    let mut closed = tracker.process_event(&data, &events, 0);
    closed.extend(tracker.process_event(&data, &events, 1));
    assert_eq!(closed.len(), 1);
    assert!(tracker.active.is_empty());
    let rec = commit_attempt(closed.pop().unwrap()).unwrap();
    assert!(!rec.is_kill);
    assert_eq!(rec.end_ts, 20000);
}

#[test]
fn pending_death_keeps_attempt_open() {
    let data = catalog();
    let events = vec![
        ev(1, 0, creature(100), EventType::CombatState { in_combat: true }),
        ev(2, 20000, creature(100), EventType::CombatState { in_combat: false }),
        ev(3, 20500, creature(100), EventType::Death { murder: None }),
    ];
    let mut tracker = InstanceAttempts::new();
    let closed = run(&mut tracker, &data, &events);
    assert_eq!(closed.len(), 1);
    let rec = commit_attempt(closed.into_iter().next().unwrap()).unwrap();
    assert!(rec.is_kill);
    assert_eq!(rec.end_ts, 20500);
}

#[test]
fn player_exit_ends_attempt_with_no_creature_in_combat() {
    let data = catalog();
    let p = Actor::Player(Player { character_id: 4 });
    let events = vec![
        ev(1, 0, creature(100), EventType::CombatState { in_combat: true }),
        ev(2, 1, p, EventType::CombatState { in_combat: true }),
        ev(3, 9000, p, EventType::CombatState { in_combat: false }),
    ];
    let mut tracker = InstanceAttempts::new();
    let closed = run(&mut tracker, &data, &events);
    assert!(closed.is_empty());
    assert!(tracker.active[0].infight_player.is_empty());
}

#[test]
fn post_processing_reports_attempts_loot_and_progress() {
    let mut data = catalog();
    data.items.push(backend::data::Item { id: 77, quality: 5 });
    data.items.push(backend::data::Item { id: 78, quality: 2 });
    let looter = Actor::Player(Player { character_id: 3 });
    let events = vec![
        ev(1, 0, creature(100), EventType::CombatState { in_combat: true }),
        ev(2, 1000, creature(101), EventType::CombatState { in_combat: true }),
        ev(3, 50000, creature(100), EventType::Death { murder: None }),
        ev(4, 50001, creature(101), EventType::Death { murder: None }),
        ev(5, 60000, looter, EventType::Loot { item_id: 77, amount: 1 }),
        ev(6, 60001, looter, EventType::Loot { item_id: 78, amount: 1 }),
    ];
    let mut server = Server {
        server_id: 1,
        expansion_id: 1,
        instances: vec![InstanceBuffer {
            instance_id: 10,
            instance_meta_id: 42,
            committed_events: events,
            committed_events_count: 6,
            attempts: InstanceAttempts::new(),
        }],
    };
    let out = server.perform_post_processing(&data);
    assert_eq!(out.attempts.len(), 1);
    assert_eq!(out.attempts[0].0, 42);
    assert!(out.attempts[0].1.is_kill);
    assert_eq!(out.loot.len(), 1);
    assert_eq!(out.loot[0].item_id, 77);
    assert_eq!(out.progress.len(), 1);
    assert_eq!(out.progress[0].last_event_id, 6);
    assert_eq!(out.progress[0].end_ts, 60001);
    assert_eq!(out.events[0].1.len(), 6);
    assert!(server.instances[0].committed_events.is_empty());
}
