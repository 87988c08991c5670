use omajinai::recalculate::{
    completion_payload, effective_mods, leaderboard_keys, mods_plan, player_action, recalc_mode,
    record_game_mode, score_calculation, PassAction, PassEvent, PlayerAction, RecalcPass,
    RecalculateMessage, Stage, MODE_COUNT,
};
use omajinai::requests::GameMode;
use omajinai::score::{Score, UserInfo};

const MODES: [i32; 11] = [0, 1, 2, 3, 4, 5, 6, 8, 12, 16, 20];

fn record(mode: i8, mods: i32, lazer: bool, mods_json: Option<&str>) -> Score {
    Score {
        id: 1,
        mode,
        mods,
        score: 1_234_567,
        map_md5: "abc".to_string(),
        max_combo: 300,
        ngeki: 1,
        n300: 250,
        nkatu: 2,
        n100: 20,
        n50: 3,
        nmiss: 4,
        userid: 42,
        map_id: 75,
        mods_json: mods_json.map(|s| s.to_string()),
        lazer,
    }
}

#[test]
fn relax_is_masked_in_exempt_variants() {
    assert_eq!(effective_mods(12, 128 | 8), 8);
    assert_eq!(effective_mods(16, 128 | 64 | 8), 72);
    assert_eq!(effective_mods(12, 8), 8);
    assert_eq!(effective_mods(16, -1), !128);
}

#[test]
fn relax_is_kept_elsewhere() {
    for mode in [0i8, 1, 2, 3, 4, 5, 6, 8, 20] {
        assert_eq!(effective_mods(mode, 128 | 8), 136);
    }
}

#[test]
fn mods_plan_of_legacy_records() {
    let p = mods_plan(&record(12, 128 | 16, false, None));
    assert_eq!(p.text, "16");
    assert_eq!(p.mode, GameMode::Osu);
    assert!(p.legacy_as_bits);
    let p = mods_plan(&record(4, 128 | 16, false, None));
    assert_eq!(p.text, "144");
    assert_eq!(p.mode, GameMode::Osu);
    let p = mods_plan(&record(5, 0, false, None));
    assert_eq!(p.text, "0");
    assert_eq!(p.mode, GameMode::Taiko);
}

#[test]
fn mods_plan_of_new_format_records() {
    let p = mods_plan(&record(16, 128, true, Some("[{\"acronym\":\"HD\"}]")));
    assert_eq!(p.text, "[{\"acronym\":\"HD\"}]");
    assert!(!p.legacy_as_bits);
    let p = mods_plan(&record(16, 128 | 64, true, None));
    assert_eq!(p.text, "64");
    let p = mods_plan(&record(3, 128 | 64, true, None));
    assert_eq!(p.text, "192");
    assert_eq!(p.mode, GameMode::Mania);
}

#[test]
fn record_modes_reduce_modulo_four() {
    assert_eq!(record_game_mode(0), GameMode::Osu);
    assert_eq!(record_game_mode(5), GameMode::Taiko);
    assert_eq!(record_game_mode(6), GameMode::Catch);
    assert_eq!(record_game_mode(12), GameMode::Osu);
    assert_eq!(record_game_mode(20), GameMode::Osu);
    assert_eq!(record_game_mode(-1), GameMode::Mania);
    assert_eq!(record_game_mode(-128), GameMode::Osu);
    assert_eq!(record_game_mode(127), GameMode::Mania);
}

#[test]
fn score_calculation_uses_stored_counts() {
    let c = score_calculation(&record(0, 0, false, None));
    assert_eq!(c.beatmap_id, 75);
    assert_eq!((c.combo, c.n300, c.n100, c.n50, c.misses, c.n_geki, c.n_katu), (300, 250, 20, 3, 4, 1, 2));
    assert_eq!(c.legacy_total_score, Some(1_234_567));
    assert!(!c.lazer);
    let c = score_calculation(&record(0, 0, true, None));
    assert_eq!(c.legacy_total_score, None);
    assert!(c.lazer);
    let mut r = record(0, 0, false, None);
    r.max_combo = -1;
    assert_eq!(score_calculation(&r).combo, u32::MAX);
}

#[test]
fn players_without_records_are_skipped() {
    assert_eq!(player_action(0), PlayerAction::Skip);
    assert_eq!(player_action(1), PlayerAction::PersistStats);
    assert_eq!(player_action(100), PlayerAction::PersistStats);
}

#[test]
fn restricted_players_get_no_ranking_writes() {
    let info = UserInfo { country: "jp".to_string(), privs: 2 | 4 };
    assert!(leaderboard_keys(0, &info).is_empty());
    let info = UserInfo { country: "jp".to_string(), privs: 0 };
    assert!(leaderboard_keys(12, &info).is_empty());
}

#[test]
fn unrestricted_players_are_ranked_globally_and_by_region() {
    let info = UserInfo { country: "jp".to_string(), privs: 1 | 8 };
    assert_eq!(
        leaderboard_keys(12, &info),
        vec!["bancho:leaderboard:12".to_string(), "bancho:leaderboard:12:jp".to_string()]
    );
    assert_eq!(
        leaderboard_keys(300, &info),
        vec!["bancho:leaderboard:44".to_string(), "bancho:leaderboard:44:jp".to_string()]
    );
}

#[test]
fn modes_of_a_pass() {
    assert_eq!(MODE_COUNT, MODES.len());
    for (i, m) in MODES.iter().enumerate() {
        assert_eq!(recalc_mode(i), *m);
    }
}

fn drive(pass: &mut RecalcPass, events: &[PassEvent], actions: &mut Vec<PassAction>) {
    for e in events {
        actions.push(pass.step(*e));
    }
}

#[test]
fn trigger_runs_every_mode_and_publishes_once() {
    let msg = RecalculateMessage::parse("42").unwrap();
    let (mut pass, first) = RecalcPass::start(msg);
    let mut actions = vec![first];
    for _ in 0..MODE_COUNT {
        drive(
            &mut pass,
            &[PassEvent::Updated, PassEvent::Failed, PassEvent::StreamEnded],
            &mut actions,
        );
        drive(&mut pass, &[PassEvent::Failed, PassEvent::Updated, PassEvent::StreamEnded], &mut actions);
    }
    let streamed: Vec<i32> = actions
        .iter()
        .filter_map(|a| match a {
            PassAction::StreamRecords(m) => Some(*m),
            _ => None,
        })
        .collect();
    assert_eq!(streamed, MODES.to_vec());
    let players: Vec<i32> = actions
        .iter()
        .filter_map(|a| match a {
            PassAction::StreamPlayers(m) => Some(*m),
            _ => None,
        })
        .collect();
    assert_eq!(players, MODES.to_vec());
    let published: Vec<&PassAction> =
        actions.iter().filter(|a| matches!(a, PassAction::Publish(_))).collect();
    assert_eq!(published, vec![&PassAction::Publish(42)]);
    assert_eq!(actions.last(), Some(&PassAction::Publish(42)));
    assert_eq!(pass.stage, Stage::Finished);
    assert_eq!(pass.step(PassEvent::StreamEnded), PassAction::Idle);
    assert_eq!(pass.step(PassEvent::Updated), PassAction::Idle);
    assert_eq!(completion_payload(42), "42");
}

#[test]
fn failed_records_do_not_stop_the_pass() {
    let (mut pass, first) = RecalcPass::start(RecalculateMessage { user_id: 7 });
    assert_eq!(first, PassAction::StreamRecords(0));
    assert_eq!(pass.step(PassEvent::Failed), PassAction::Continue);
    assert_eq!(pass.step(PassEvent::Failed), PassAction::Continue);
    assert_eq!(pass.stage, Stage::Records);
    assert_eq!(pass.step(PassEvent::StreamEnded), PassAction::StreamPlayers(0));
    assert_eq!(pass.stage, Stage::Players);
}

#[test]
fn updates_are_counted_per_stage() {
    let (mut pass, _) = RecalcPass::start(RecalculateMessage { user_id: 7 });
    pass.step(PassEvent::Updated);
    pass.step(PassEvent::Failed);
    pass.step(PassEvent::Updated);
    assert_eq!(pass.updated, 2);
    pass.step(PassEvent::StreamEnded);
    assert_eq!(pass.updated, 0);
}

#[test]
fn broken_record_stream_skips_that_player_stage() {
    let (mut pass, _) = RecalcPass::start(RecalculateMessage { user_id: -3 });
    assert_eq!(pass.step(PassEvent::StreamFailed), PassAction::StreamRecords(1));
    assert_eq!(pass.mode_index, 1);
    let mut actions = Vec::new();
    for _ in 1..MODE_COUNT {
        drive(&mut pass, &[PassEvent::StreamFailed], &mut actions);
    }
    assert_eq!(actions.last(), Some(&PassAction::Publish(-3)));
    assert_eq!(completion_payload(-3), "-3");
}

#[test]
fn publishing_needs_every_stage_to_end() {
    let (mut pass, _) = RecalcPass::start(RecalculateMessage { user_id: 42 });
    let mut actions = Vec::new();
    for _ in 0..(2 * MODE_COUNT - 1) {
        drive(&mut pass, &[PassEvent::Updated, PassEvent::StreamEnded], &mut actions);
    }
    assert!(!actions.iter().any(|a| matches!(a, PassAction::Publish(_))));
    assert_eq!(pass.step(PassEvent::StreamEnded), PassAction::Publish(42));
}
