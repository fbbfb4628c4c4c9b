use backend::data::{Data, EncounterNpc, Npc, RetrieveEncounterNpc, RetrieveSpell, Spell};
use backend::participant::Participant;
use backend::resolve::{parse_spell_args, parse_spell_args_periodic, parse_unit};
use backend::unit::{npc_unit_id, player_unit_id, Unit};

fn spell(id: u32, name: &str) -> Spell {
    Spell {
        id,
        expansion_id: 1,
        name: name.to_string(),
        subtext: String::new(),
        cost: 0,
        cost_in_percent: 0,
        power_type: 0,
        cast_time: 0,
        school_mask: 1,
        dispel_type: 0,
        range_max: 0,
        cooldown: 0,
        duration: 0,
        icon: 0,
        description: String::new(),
        aura: String::new(),
    }
}

fn catalog() -> Data {
    Data {
        spells: vec![vec![spell(10, "Fireball"), spell(11, "Corruption (dot)"), spell(12, "Greater Heal"), spell(13, "Corruption")]],
        npcs: vec![Npc { id: 15263, name: "The Prophet Skeram".to_string() }, Npc { id: 11583, name: "Nefarian".to_string() }],
        encounter_npcs: vec![
            EncounterNpc { npc_id: 11583, encounter_id: 29, requires_death: true, can_start_encounter: true, is_pivot: false, health_treshold: None },
            EncounterNpc { npc_id: 10162, encounter_id: 29, requires_death: false, can_start_encounter: true, is_pivot: true, health_treshold: Some(20) },
        ],
        items: vec![],
        maps: vec![],
    }
}

#[test]
fn ledger_limits_effective_heal() {
    let mut p = Participant::new(1, true, false, false, "Alice".to_string(), 0);
    assert_eq!(p.available_effective_heal(), 0);
    p.attribute_damage(100);
    assert_eq!(p.attribute_heal(150), 100);
    assert_eq!(p.available_effective_heal(), 0);
    assert_eq!(p.attribute_heal(10), 0);
}

#[test]
fn heal_below_ledger_is_fully_effective() {
    let mut p = Participant::new(1, true, false, false, "Alice".to_string(), 0);
    p.attribute_damage(300);
    assert_eq!(p.attribute_heal(120), 120);
    assert_eq!(p.available_effective_heal(), 180);
}

#[test]
fn ledger_saturates() {
    let mut p = Participant::new(1, true, false, false, "Alice".to_string(), 0);
    p.attribute_damage(u32::MAX);
    p.attribute_damage(5);
    assert_eq!(p.available_effective_heal(), u32::MAX);
}

#[test]
fn presence_window_extends_within_timeout() {
    let mut p = Participant::new(1, true, false, false, "Alice".to_string(), 1000);
    p.add_participation_point(301_000);
    assert_eq!(p.active_intervals, vec![(1000, 301_000)]);
    assert_eq!(p.last_seen, 301_000);
}

#[test]
fn presence_window_closes_after_timeout() {
    let mut p = Participant::new(1, true, false, false, "Alice".to_string(), 1000);
    p.add_participation_point(301_001);
    assert_eq!(p.active_intervals, vec![(1000, 31_000), (301_001, 301_001)]);
    p.add_participation_point(200);
    assert_eq!(p.last_seen, 301_001);
}

#[test]
fn talents_recorded_on_change_only() {
    let mut p = Participant::new(1, true, false, false, "Alice".to_string(), 0);
    p.record_talents(100, "0|51|0");
    p.record_talents(200, "0|51|0");
    assert_eq!(p.talents, vec![(100, Some("0|51|0".to_string()))]);
}

#[test]
fn respec_marker_dates_the_change() {
    let mut p = Participant::new(1, true, false, false, "Alice".to_string(), 0);
    p.record_talents(100, "51|0|0");
    p.last_brainwash = 5000;
    p.record_talents(9000, "0|0|51");
    assert_eq!(
        p.talents,
        vec![(100, Some("51|0|0".to_string())), (4000, Some("51|0|0".to_string())), (5000, Some("0|0|51".to_string()))]
    );
    assert_eq!(p.last_brainwash, 0);
}

#[test]
fn same_npc_reference_resolves_to_same_unit() {
    let data = catalog();
    let mut cache = Vec::new();
    let first = parse_unit(&mut cache, &data, "Nefarian").unwrap();
    let second = parse_unit(&mut cache, &data, "Nefarian").unwrap();
    assert_eq!(first, second);
    assert_eq!(first.unit_id, npc_unit_id(11583));
    assert!(!first.is_player);
    assert_eq!(cache.len(), 1);
}

#[test]
fn npc_ids_follow_the_encoding() {
    assert_eq!(npc_unit_id(15263), 17379391218093391872);
    assert_ne!(npc_unit_id(1), npc_unit_id(2));
    assert_eq!(npc_unit_id(0), 0xF130000000000000);
}

#[test]
fn player_ids_come_from_the_name_digest() {
    assert_eq!(player_unit_id("Alice"), 848102120459355533);
    assert_eq!(player_unit_id("Bob"), 981698824937199684);
    assert!(player_unit_id("Alice") < npc_unit_id(0));
}

#[test]
fn player_reference_flags() {
    let data = catalog();
    let mut cache = Vec::new();
    let alice = parse_unit(&mut cache, &data, "Alice").unwrap();
    assert_eq!(alice, Unit { is_player: true, is_self_damage: false, is_mind_control: false, unit_id: player_unit_id("Alice") });
    let self_damage = parse_unit(&mut cache, &data, "Alice (self damage)").unwrap();
    assert!(self_damage.is_self_damage && !self_damage.is_mind_control);
    assert_ne!(self_damage.unit_id, alice.unit_id);
    let controlled = parse_unit(&mut cache, &data, "Alice (Mind Control)").unwrap();
    assert!(controlled.is_mind_control);
}

#[test]
fn unknown_and_possessive_references_fail() {
    let data = catalog();
    let mut cache = Vec::new();
    assert!(parse_unit(&mut cache, &data, "Unknown").is_none());
    assert!(parse_unit(&mut cache, &data, "Alice's Fireball").is_none());
    assert!(cache.is_empty());
}

#[test]
fn spell_names_resolve_exact_then_substring() {
    let data = catalog();
    let mut cache = Vec::new();
    assert_eq!(parse_spell_args(&mut cache, &data, "Fireball"), Some(10));
    assert_eq!(parse_spell_args(&mut cache, &data, "Greater"), Some(12));
    assert_eq!(parse_spell_args(&mut cache, &data, "Frostbolt"), None);
    assert_eq!(parse_spell_args(&mut cache, &data, "Unknown"), None);
    assert_eq!(cache.len(), 3);
}

#[test]
fn periodic_spell_prefers_plain_name() {
    let data = catalog();
    let mut cache = Vec::new();
    assert_eq!(parse_spell_args_periodic(&mut cache, &data, "Corruption"), Some(13));
    assert_eq!(parse_spell_args_periodic(&mut cache, &data, "Frostbolt"), None);
    assert_eq!(parse_spell_args_periodic(&mut cache, &data, "Fireball"), Some(10));
}

#[test]
fn spell_lookup_by_expansion() {
    let data = catalog();
    assert_eq!(data.get_spell(1, 12).map(|s| s.name), Some("Greater Heal".to_string()));
    assert!(data.get_spell(0, 12).is_none());
    assert!(data.get_spell(2, 12).is_none());
    assert_eq!(data.get_spell_by_name(1, &"Corruption".to_string()).map(|s| s.id), Some(13));
}

#[test]
fn encounter_catalog_queries() {
    let data = catalog();
    assert_eq!(data.get_encounter_npc(10162).map(|e| e.encounter_id), Some(29));
    assert!(data.get_encounter_npc(1).is_none());
    assert_eq!(data.get_required_death_creature_ids(29), vec![npc_unit_id(11583)]);
    assert!(data.encounter_has_pivot(29));
    assert!(!data.encounter_has_pivot(30));
    assert_eq!(data.get_all_encounter_npcs().len(), 2);
}

#[test]
fn repeated_talents_change_nothing() {
    let mut p = Participant::new(1, true, false, false, "Alice".to_string(), 0);
    p.record_talents(100, "0|51|0");
    p.last_brainwash = 700;
    p.record_talents(200, "0|51|0");
    assert_eq!(p.talents, vec![(100, Some("0|51|0".to_string()))]);
    assert_eq!(p.last_brainwash, 700);
}
