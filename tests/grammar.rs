use backend::data::{Data, Item, MapInfo, Npc, Spell};
use backend::grammar::parse_trailer;
use backend::message::{Message, SpellCast, UnAura, MessageType, CRIT, FULL_ABSORB, HIT, MISS, PARRY, PARTIAL_RESIST, SCHOOL_FIRE};
use backend::parser::WoWVanillaParser;
use backend::unit::{npc_unit_id, player_unit_id, Unit};
use backend::participant::Participant;

fn spell(id: u32, name: &str) -> Spell {
    Spell {
        id,
        expansion_id: 1,
        name: name.to_string(),
        subtext: String::new(),
        cost: 0,
        cost_in_percent: 0,
        power_type: 0,
        cast_time: 0,
        school_mask: 1,
        dispel_type: 0,
        range_max: 0,
        cooldown: 0,
        duration: 0,
        icon: 0,
        description: String::new(),
        aura: String::new(),
    }
}

fn catalog() -> Data {
    Data {
        spells: vec![vec![
            spell(133, "Fireball"),
            spell(2060, "Greater Heal"),
            spell(12294, "Mortal Strike"),
            spell(774, "Rejuvenation"),
            spell(23333, "Arcane Power"),
        ]],
        npcs: vec![Npc { id: 11583, name: "Nefarian".to_string() }],
        encounter_npcs: vec![],
        items: vec![Item { id: 19364, quality: 5 }],
        maps: vec![MapInfo { id: 469, name: "Blackwing Lair".to_string() }],
    }
}

#[test]
fn melee_hit_line() {
    let data = catalog();
    let mut p = WoWVanillaParser::new(1);
    let msgs = p.parse_cbl_line(&data, 1000, "Alice hits Nefarian for 120.").unwrap();
    assert_eq!(msgs.len(), 1);
    match &msgs[0] {
        MessageType::MeleeDamage(d) => {
            assert_eq!(d.attacker.unit_id, player_unit_id("Alice"));
            assert_eq!(d.victim.unit_id, npc_unit_id(11583));
            assert_eq!(d.hit_mask, HIT);
            assert_eq!(d.damage_components[0].damage, 120);
        },
        other => panic!("unexpected {:?}", other),
    }
    assert_eq!(p.participants.len(), 2);
}

#[test]
fn spell_crit_with_school_and_trailer() {
    let data = catalog();
    let mut p = WoWVanillaParser::new(1);
    let msgs = p.parse_cbl_line(&data, 1000, "Alice 's Fireball crits Nefarian for 2000 Fire damage. (150 resisted)").unwrap();
    assert_eq!(msgs.len(), 2);
    match &msgs[1] {
        MessageType::SpellDamage(d) => {
            assert_eq!(d.spell_id, Some(133));
            assert_eq!(d.hit_mask, CRIT | PARTIAL_RESIST);
            assert_eq!(d.damage_components[0].school_mask, SCHOOL_FIRE);
            assert_eq!(d.damage_components[0].resisted_or_glanced, 150);
        },
        other => panic!("unexpected {:?}", other),
    }
}

#[test]
fn heal_is_limited_by_damage_taken() {
    let data = catalog();
    let mut p = WoWVanillaParser::new(1);
    p.parse_cbl_line(&data, 1000, "Nefarian hits Bob for 300.").unwrap();
    let msgs = p.parse_cbl_line(&data, 2000, "Alice 's Greater Heal heals Bob for 500.").unwrap();
    match &msgs[1] {
        MessageType::Heal(h) => {
            assert_eq!(h.total_heal, 500);
            assert_eq!(h.effective_heal, 300);
            assert_eq!(h.spell_id, 2060);
        },
        other => panic!("unexpected {:?}", other),
    }
}

#[test]
fn faulty_line_is_rejected() {
    let data = catalog();
    let mut p = WoWVanillaParser::new(1);
    assert!(p.parse_cbl_line(&data, 1000, "Alice 's hits Nefarian for 120.").is_none());
}

#[test]
fn unresolvable_line_gives_nothing() {
    let data = catalog();
    let mut p = WoWVanillaParser::new(1);
    assert!(p.parse_cbl_line(&data, 1000, "Alice 's Frostbolt hits Nefarian for 120.").is_none());
    assert!(p.parse_cbl_line(&data, 1000, "The sun rises").is_none());
}

#[test]
fn avoidance_and_miss_lines() {
    let data = catalog();
    let mut p = WoWVanillaParser::new(1);
    let msgs = p.parse_cbl_line(&data, 1000, "Alice attacks. Nefarian parries.").unwrap();
    match &msgs[0] {
        MessageType::MeleeDamage(d) => assert_eq!(d.hit_mask, PARRY),
        other => panic!("unexpected {:?}", other),
    }
    let msgs = p.parse_cbl_line(&data, 1000, "Alice misses Nefarian.").unwrap();
    match &msgs[0] {
        MessageType::MeleeDamage(d) => assert_eq!(d.hit_mask, MISS),
        other => panic!("unexpected {:?}", other),
    }
    let msgs = p.parse_cbl_line(&data, 1000, "Alice 's Fireball is absorbed by Nefarian.").unwrap();
    match &msgs[1] {
        MessageType::SpellDamage(d) => assert_eq!(d.hit_mask, FULL_ABSORB),
        other => panic!("unexpected {:?}", other),
    }
}

#[test]
fn death_lines() {
    let data = catalog();
    let mut p = WoWVanillaParser::new(1);
    let msgs = p.parse_cbl_line(&data, 1000, "Nefarian dies.").unwrap();
    match &msgs[0] {
        MessageType::Death(d) => {
            assert_eq!(d.victim.unit_id, npc_unit_id(11583));
            assert!(d.cause.is_none());
        },
        other => panic!("unexpected {:?}", other),
    }
    let msgs = p.parse_cbl_line(&data, 1000, "Bob is slain by Nefarian!").unwrap();
    match &msgs[0] {
        MessageType::Death(d) => assert_eq!(d.cause.map(|c| c.unit_id), Some(npc_unit_id(11583))),
        other => panic!("unexpected {:?}", other),
    }
}

#[test]
fn cast_reveals_specialization() {
    let data = catalog();
    let mut p = WoWVanillaParser::new(1);
    let msgs = p.parse_cbl_line(&data, 5000, "Alice casts Mortal Strike on Nefarian.").unwrap();
    assert!(matches!(msgs[0], MessageType::SpellCast(_)));
    let alice = p.participants.iter().find(|x| x.id == player_unit_id("Alice")).unwrap();
    assert_eq!(alice.talents, vec![(5000, Some("51|0|0".to_string()))]);
}

#[test]
fn aura_gain_line() {
    let data = catalog();
    let mut p = WoWVanillaParser::new(1);
    let msgs = p.parse_cbl_line(&data, 5000, "Alice gains Arcane Power (1).").unwrap();
    match &msgs[0] {
        MessageType::AuraApplication(a) => {
            assert_eq!(a.spell_id, 23333);
            assert_eq!(a.stack_amount, 1);
            assert_eq!(a.delta, 1);
        },
        other => panic!("unexpected {:?}", other),
    }
    let alice = p.participants.iter().find(|x| x.id == player_unit_id("Alice")).unwrap();
    assert_eq!(alice.talents, vec![(5000, Some("51|0|0".to_string()))]);
}

#[test]
fn loot_line_becomes_bonus_message() {
    let data = catalog();
    let mut p = WoWVanillaParser::new(1);
    let line = "LOOT: 12.05.23 20:15:30&Alice receives loot: |cffa335ee|Hitem:19364:0:0:0|h[Ashkandi]|h|rx1.";
    assert!(p.parse_cbl_line(&data, 1000, line).is_none());
    assert_eq!(p.bonus_messages.len(), 1);
    assert_eq!(p.bonus_messages[0].timestamp, 1683922530000);
    match &p.bonus_messages[0].message_type {
        MessageType::Loot(l) => {
            assert_eq!(l.item_id, 19364);
            assert_eq!(l.count, 1);
        },
        other => panic!("unexpected {:?}", other),
    }
}

#[test]
fn consolidated_zone_and_pet_lines() {
    let data = catalog();
    let mut p = WoWVanillaParser::new(1);
    let line = "CONSOLIDATED: ZONE_INFO: 12.05.23 20:15:30&Blackwing Lair&7{PET: 12.05.23 20:15:30&Alice&Wolfie";
    assert!(p.parse_cbl_line(&data, 1000, line).is_none());
    assert_eq!(p.bonus_messages.len(), 1);
    match &p.bonus_messages[0].message_type {
        MessageType::InstanceMap(m) => {
            assert_eq!(m.map_id, 469);
            assert_eq!(m.instance_id, 7);
        },
        other => panic!("unexpected {:?}", other),
    }
    assert_eq!(p.pet_owner, vec![(player_unit_id("Wolfie"), player_unit_id("Alice"))]);
}

#[test]
fn combatant_info_seeds_participant() {
    let data = catalog();
    let mut p = WoWVanillaParser::new(1);
    let mut fields = vec!["12.05.23 20:15:30", "Alice", "WARRIOR", "Human", "3", "nil", "Guild", "Officer", "1"];
    fields.push("19364:0:0:0");
    for _ in 0..18 {
        fields.push("nil");
    }
    fields.push("5}3}0");
    let line = format!("COMBATANT_INFO: {}", fields.join("&"));
    assert!(p.parse_cbl_line(&data, 1000, &line).is_none());
    let alice = p.participants.iter().find(|x| x.id == player_unit_id("Alice")).unwrap();
    assert_eq!(alice.hero_class_id, Some(1));
    assert_eq!(alice.race_id, Some(1));
    assert_eq!(alice.gender_id, Some(true));
    assert_eq!(alice.guild_args, Some(("Guild".to_string(), "Officer".to_string(), 1)));
    let setups = alice.gear_setups.as_ref().unwrap();
    assert_eq!(setups[0].0, 1683922530000);
    assert_eq!(setups[0].1[0], Some((19364, None, None)));
    assert_eq!(alice.talents, vec![(1000, Some("5|3|0".to_string()))]);
}

#[test]
fn trailer_clauses() {
    let t = parse_trailer("(12 resisted) (30 absorbed) (glancing)");
    assert_eq!(t.resisted, Some(12));
    assert_eq!(t.absorbed, Some(30));
    assert_eq!(t.blocked, None);
    assert!(t.glancing);
    assert!(!t.crushing);
    let t = parse_trailer("");
    assert_eq!(t.mask(), 0);
}

fn player(id: u64) -> Unit {
    Unit { is_player: true, is_self_damage: false, is_mind_control: false, unit_id: id }
}

#[test]
fn dispel_is_attributed_to_following_cast() {
    let mut p = WoWVanillaParser::new(1);
    p.pet_owner.push((77, 5));
    let dispel = UnAura { un_aura_caster: player(0), target: player(2), aura_caster: None, un_aura_spell_id: 42, target_spell_id: 10, un_aura_amount: 1 };
    let cast = SpellCast { caster: player(3), target: Some(player(2)), spell_id: 4987, hit_mask: HIT };
    let mut messages = vec![
        Message { timestamp: 100, message_type: MessageType::Dispel(dispel) },
        Message { timestamp: 150, message_type: MessageType::SpellCast(cast) },
    ];
    p.do_message_post_processing(&mut messages);
    assert_eq!(messages.len(), 3);
    assert!(matches!(messages[0].message_type, MessageType::Summon(s) if s.unit.unit_id == 77 && s.owner.unit_id == 5));
    match &messages[1].message_type {
        MessageType::Dispel(u) => {
            assert_eq!(u.un_aura_caster.unit_id, 3);
            assert_eq!(u.un_aura_spell_id, 4987);
        },
        other => panic!("unexpected {:?}", other),
    }
}

#[test]
fn late_cast_does_not_claim_dispel() {
    let p = WoWVanillaParser::new(1);
    let dispel = UnAura { un_aura_caster: player(0), target: player(2), aura_caster: None, un_aura_spell_id: 42, target_spell_id: 10, un_aura_amount: 1 };
    let cast = SpellCast { caster: player(3), target: Some(player(2)), spell_id: 4987, hit_mask: HIT };
    let mut messages = vec![
        Message { timestamp: 300, message_type: MessageType::SpellCast(cast) },
        Message { timestamp: 100, message_type: MessageType::Dispel(dispel) },
        Message { timestamp: 201, message_type: MessageType::SpellCast(cast) },
    ];
    p.do_message_post_processing(&mut messages);
    assert_eq!(messages.iter().map(|m| m.timestamp).collect::<Vec<_>>(), vec![100, 201, 300]);
    match &messages[0].message_type {
        MessageType::Dispel(u) => assert_eq!(u.un_aura_caster.unit_id, 0),
        other => panic!("unexpected {:?}", other),
    }
}

#[test]
fn builds_follow_recorded_talents() {
    let mut p = WoWVanillaParser::new(1);
    let mut alice = Participant::new(1, true, false, false, "Alice".to_string(), 100);
    alice.hero_class_id = Some(1);
    alice.last_seen = 900;
    alice.record_talents(400, "0|51|0");
    let mut bob = Participant::new(2, true, false, false, "Bob".to_string(), 100);
    bob.hero_class_id = Some(2);
    let stranger = Participant::new(3, true, false, false, "Eve".to_string(), 100);
    p.participants = vec![alice, bob, stranger];
    let entries = p.get_involved_character_builds();
    assert_eq!(entries.len(), 5);
    let last = entries.last().unwrap();
    assert_eq!(last.server_uid, 0);
    assert!(last.build.is_none());
    assert!(last.timestamp > 1_600_000_000_000);
    let summary: Vec<(u64, u64, Option<String>)> = entries[..4]
        .iter()
        .map(|e| (e.server_uid, e.timestamp, e.build.as_ref().and_then(|b| b.talent_specialization.clone())))
        .collect();
    assert_eq!(
        summary,
        vec![
            (1, 100, Some("0|51|0".to_string())),
            (1, 400, Some("0|51|0".to_string())),
            (1, 900, Some("0|51|0".to_string())),
            (2, 100, None),
        ]
    );
    let first = entries[0].build.as_ref().unwrap();
    assert_eq!(first.gear.len(), 19);
    assert_eq!(first.level, 60);
}

#[test]
fn respec_marker_dates_next_change() {
    let data = catalog();
    let mut p = WoWVanillaParser::new(1);
    p.parse_cbl_line(&data, 1000, "Alice casts Mortal Strike on Nefarian.").unwrap();
    let id = player_unit_id("Alice");
    p.assign_spec_from_aura_gain(id, "Scrambled Brain", 5000);
    p.assign_spec_from_cast(id, "Bloodthirst", 9000);
    let alice = p.participants.iter().find(|x| x.id == id).unwrap();
    assert_eq!(
        alice.talents,
        vec![(1000, Some("51|0|0".to_string())), (4000, Some("51|0|0".to_string())), (5000, Some("0|51|0".to_string()))]
    );
}

#[test]
fn damage_then_heal_moves_the_ledger() {
    let data = catalog();
    let mut p = WoWVanillaParser::new(1);
    p.parse_cbl_line(&data, 1000, "Nefarian 's Fireball hits Bob for 250.").unwrap();
    let bob = player_unit_id("Bob");
    assert_eq!(p.participants.iter().find(|x| x.id == bob).unwrap().available_effective_heal(), 250);
    let msgs = p.parse_cbl_line(&data, 2000, "Alice 's Greater Heal critically heals Bob for 100.").unwrap();
    match &msgs[1] {
        MessageType::Heal(h) => {
            assert_eq!(h.effective_heal, 100);
            assert_eq!(h.hit_mask, CRIT);
        },
        other => panic!("unexpected {:?}", other),
    }
    assert_eq!(p.participants.iter().find(|x| x.id == bob).unwrap().available_effective_heal(), 150);
}

#[test]
fn combatant_info_keeps_known_class() {
    let data = catalog();
    let mut p = WoWVanillaParser::new(1);
    let mut fields = vec!["12.05.23 20:15:30", "Alice", "MAGE", "Gnome", "2", "nil", "nil", "nil", "0"];
    for _ in 0..19 {
        fields.push("nil");
    }
    fields.push("nil");
    let line = format!("COMBATANT_INFO: {}", fields.join("&"));
    assert!(p.parse_cbl_line(&data, 1000, &line).is_none());
    fields[2] = "PRIEST";
    fields[3] = "Troll";
    let line = format!("COMBATANT_INFO: {}", fields.join("&"));
    assert!(p.parse_cbl_line(&data, 2000, &line).is_none());
    let alice = p.participants.iter().find(|x| x.id == player_unit_id("Alice")).unwrap();
    assert_eq!(alice.hero_class_id, Some(8));
    assert_eq!(alice.race_id, Some(7));
    assert_eq!(alice.gender_id, Some(false));
}

#[test]
fn faulty_line_changes_nothing() {
    let data = catalog();
    let mut p = WoWVanillaParser::new(1);
    assert!(p.parse_cbl_line(&data, 1000, "Alice 's crits Nefarian for 120.").is_none());
    assert!(p.participants.is_empty());
    assert!(p.cache_unit.is_empty());
}
