use backend::instance::{Instance, InstanceFailure, InstanceAttempt, InstanceKills, SpeedKill, SpeedRun, UnrankAttempt};
use backend::ranking::{
    calculate_season_index, create_ranking_export, ranking_query, ranking_results, CharacterMoment, StoredRanking, helper_get_best_ranking, InstanceMeta, PrivacyType, RankingResult,
    RankingResultMeta,
};
use backend::time_util::{format_ts_ms, ts_after_days};

fn meta(id: u32, privacy_type: PrivacyType) -> InstanceMeta {
    InstanceMeta {
        instance_meta_id: id,
        server_id: 1,
        start_ts: 0,
        end_ts: None,
        expired: None,
        map_id: 469,
        participants: vec![],
        map_difficulty: None,
        uploaded_user: 1,
        upload_id: 1,
        privacy_type,
        updated_specs: false,
    }
}

fn result(encounter_id: u32, character_id: u32, instance_meta_id: u32, amount: u32) -> RankingResult {
    let rr = RankingResultMeta {
        instance_meta_id,
        attempt_id: amount,
        amount,
        duration: 1000,
        difficulty_id: 0,
        character_spec: 0,
        season_index: 1,
    };
    RankingResult {
        id: 1,
        encounter_id,
        server_id: 1,
        character_id,
        character_name: format!("C{}", character_id),
        hero_class_id: 1,
        instance_meta_id,
        attempt_id: amount,
        amount,
        duration: 1000,
        difficulty_id: 0,
        character_spec: 0,
        season_index: 1,
        ranking_result: rr,
    }
}

fn rm(amount: u32, duration: u64) -> RankingResultMeta {
    RankingResultMeta { instance_meta_id: 1, attempt_id: amount, amount, duration, difficulty_id: 0, character_spec: 0, season_index: 0 }
}

#[test]
fn season_index_boundaries() {
    assert_eq!(calculate_season_index(0), 0);
    assert_eq!(calculate_season_index(1731470399999), 0);
    assert_eq!(calculate_season_index(1731470400000), 1);
    assert_eq!(calculate_season_index(1731470400000 + 604800000), 2);
    assert_eq!(calculate_season_index(1731470400000 + 604800000 - 1), 1);
}

#[test]
fn timestamp_formatting() {
    assert_eq!(format_ts_ms(3723004), "01:02:03.004");
    assert_eq!(format_ts_ms(0), "00:00:00.000");
    assert_eq!(format_ts_ms(90000000 + 59999), "01:00:59.999");
}

#[test]
fn days_from_a_time() {
    assert_eq!(ts_after_days(100, 2), 100 + 2 * 86400);
    assert_eq!(ts_after_days(u64::MAX - 1, 1), u64::MAX);
}

#[test]
fn export_groups_public_results() {
    let metas = vec![meta(1, PrivacyType::Public), meta(2, PrivacyType::Private)];
    let rankings = vec![result(5, 10, 1, 100), result(5, 11, 1, 200), result(5, 10, 1, 300), result(6, 10, 2, 50), result(7, 12, 3, 70)];
    let export = create_ranking_export(&metas, &rankings);
    assert_eq!(export.len(), 1);
    assert_eq!(export[0].0, 5);
    let chars = &export[0].1;
    assert_eq!(chars.len(), 2);
    assert_eq!(chars[0].0, 10);
    assert_eq!(chars[0].1.name, "C10");
    assert_eq!(chars[0].2.iter().map(|r| r.amount).collect::<Vec<_>>(), vec![100, 300]);
    assert_eq!(chars[1].0, 11);
}

#[test]
fn best_ranking_by_rate() {
    let best = helper_get_best_ranking(vec![rm(100, 10), rm(300, 20), rm(50, 2)]);
    assert_eq!(best.amount, 50);
    let none = helper_get_best_ranking(vec![]);
    assert_eq!(none.amount, 0);
    assert_eq!(none.duration, 1);
}

#[test]
fn delete_and_unrank() {
    let mut instance = Instance::new();
    instance.instance_metas.1.push(meta(1, PrivacyType::Public));
    instance.instance_metas.1.push(meta(2, PrivacyType::Public));
    instance.delete_instance_meta(1);
    assert_eq!(instance.instance_metas.1.len(), 1);
    assert_eq!(instance.instance_metas.1[0].instance_meta_id, 2);
    instance.speed_runs.push(SpeedRun {
        instance_meta_id: 2,
        map_id: 469,
        guild_id: 0,
        guild_name: "Pug Raid".to_string(),
        server_id: 1,
        duration: 10,
        difficulty_id: 0,
        season_index: 1,
    });
    instance.speed_kills.push(SpeedKill {
        instance_meta_id: 2,
        attempt_id: 9,
        encounter_id: 5,
        guild_id: 0,
        guild_name: "Pug Raid".to_string(),
        server_id: 1,
        duration: 10,
        difficulty_id: 0,
        season_index: 1,
    });
    instance.unrank_attempt(Some(2), 8).unwrap();
    assert!(instance.speed_runs.is_empty());
    assert_eq!(instance.speed_kills.len(), 1);
    assert_eq!(instance.unrank_attempt(None, 9), Err(InstanceFailure::InvalidInput));
    assert_eq!(instance.speed_kills.len(), 1);
    instance.unrank_attempt(Some(3), 9).unwrap();
    assert!(instance.speed_kills.is_empty());
}


#[test]
fn ranking_query_narrows_by_filters() {
    let base = "SELECT id, encounter_id, server_id, character_id, character_name, hero_class_id, instance_meta_id, attempt_id, amount, duration, difficulty_id, character_spec, season_index FROM ranking_results_damage";
    assert_eq!(ranking_query("ranking_results_damage", None, None), base);
    assert_eq!(ranking_query("ranking_results_damage", Some(2), None), format!("{} WHERE season_index = :season", base));
    assert_eq!(
        ranking_query("ranking_results_damage", Some(2), Some(5)),
        format!("{} WHERE season_index = :season AND server_id = :server_id", base)
    );
    assert_eq!(ranking_query("ranking_results_damage", None, Some(5)), format!("{} WHERE server_id = :server_id", base));
}

fn kill(attempt_id: u32, encounter_id: u32, start_ts: u64, end_ts: u64, difficulty_id: u8) -> InstanceAttempt {
    InstanceAttempt { attempt_id, encounter_id, start_ts, end_ts, rankable: true, difficulty_id, season_index: 3 }
}

#[test]
fn speed_kills_for_public_instances_only() {
    let mut instance = Instance::new();
    instance.instance_metas.1.push(meta(1, PrivacyType::Public));
    instance.instance_metas.1.push(meta(2, PrivacyType::Private));
    let mut unranked = kill(12, 23, 0, 100, 0);
    unranked.rankable = false;
    let kills = vec![
        InstanceKills { instance_meta_id: 1, attempts: vec![kill(11, 22, 1000, 61000, 0), unranked], guild: Some((7, "Guild".to_string())) },
        InstanceKills { instance_meta_id: 2, attempts: vec![kill(13, 22, 0, 100, 0)], guild: None },
    ];
    instance.calculate_speed_kills(&kills);
    assert_eq!(instance.speed_kills.len(), 1);
    let k = &instance.speed_kills[0];
    assert_eq!((k.attempt_id, k.duration, k.guild_id, k.server_id, k.season_index), (11, 60000, 7, 1, 3));
    instance.calculate_speed_kills(&kills);
    assert_eq!(instance.speed_kills.len(), 1);
}

#[test]
fn speed_run_needs_every_encounter_of_the_map() {
    let mut instance = Instance::new();
    instance.instance_metas.1.push(meta(1, PrivacyType::Public));
    instance.instance_metas.1.push(meta(2, PrivacyType::Public));
    let full: Vec<InstanceAttempt> = (22..30).map(|e| kill(e, e, 1000 * e as u64, 1000 * e as u64 + 500, 0)).collect();
    let partial: Vec<InstanceAttempt> = (22..29).map(|e| kill(e + 100, e, 0, 10, 0)).collect();
    let kills = vec![
        InstanceKills { instance_meta_id: 1, attempts: full, guild: None },
        InstanceKills { instance_meta_id: 2, attempts: partial, guild: None },
    ];
    instance.calculate_speed_runs(&kills);
    assert_eq!(instance.speed_runs.len(), 1);
    let r = &instance.speed_runs[0];
    assert_eq!(r.instance_meta_id, 1);
    assert_eq!(r.duration, 29500 - 22000);
    assert_eq!(r.guild_name, "Pug Raid");
    instance.calculate_speed_runs(&kills);
    assert_eq!(instance.speed_runs.len(), 1);
}

#[test]
fn stored_rows_become_results_of_known_classes() {
    let row = |id: u32, start_ts: u64| StoredRanking {
        id,
        character_id: 4,
        encounter_id: 22,
        attempt_id: 9,
        amount: 5000,
        duration: 60000,
        instance_meta_id: 1,
        difficulty_id: 0,
        start_ts,
        server_id: 2,
    };
    let known = CharacterMoment { hero_class_id: 8, character_name: "Alice".to_string(), character_spec: 2 };
    let placeholder = CharacterMoment { hero_class_id: 12, character_name: "Eve".to_string(), character_spec: 0 };
    let rows = vec![(row(1, 1731470400000 + 604800000), Some(known)), (row(2, 0), Some(placeholder)), (row(3, 0), None)];
    let results = ranking_results(&rows);
    assert_eq!(results.len(), 1);
    assert_eq!(results[0].id, 1);
    assert_eq!(results[0].character_name, "Alice");
    assert_eq!(results[0].season_index, 2);
    assert_eq!(results[0].ranking_result.season_index, 2);
    assert_eq!(results[0].ranking_result.character_spec, 2);
}
