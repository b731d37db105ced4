use afl::scoring::{calculate_margin_error, refit_due, SeasonTally};
use afl::season::{plan_season, round_state, season_last_round, RoundState, Step};
use afl::tipping::SquiggleMatch;

fn game(round: i32, home: &str, away: &str, status: Option<&str>) -> SquiggleMatch {
    SquiggleMatch {
        abehinds: None,
        agoals: None,
        ascore: None,
        ateam: Some(away.to_string()),
        ateamid: None,
        hbehinds: None,
        hgoals: None,
        hscore: None,
        hteam: Some(home.to_string()),
        hteamid: None,
        complete: None,
        date: "2024-04-01 10:10:10".to_string(),
        id: 0,
        is_final: 0,
        is_grand_final: 0,
        localtime: "2024-04-01 10:10:10".to_string(),
        round,
        roundname: None,
        timestr: status.map(|s| s.to_string()),
        tz: "+10:00".to_string(),
        unixtime: 0,
        updated: None,
        venue: None,
        winner: None,
        winnerteamid: None,
        year: Some(2024),
    }
}

fn step(index: usize, update: bool, score: bool, tip: bool, headline: bool) -> Step {
    Step { index, update, score, tip, headline }
}

#[test]
fn round_states_follow_statuses() {
    let ms = vec![
        game(0, "A", "B", Some("Full Time")),
        game(0, "C", "D", Some("Full Time")),
        game(1, "A", "C", Some("Full Time")),
        game(1, "B", "D", Some("Q2 10:00")),
        game(2, "A", "D", None),
    ];
    assert_eq!(round_state(&ms, 0), RoundState::Complete);
    assert_eq!(round_state(&ms, 1), RoundState::InProgress);
    assert_eq!(round_state(&ms, 2), RoundState::NotStarted);
    assert_eq!(round_state(&ms, 7), RoundState::NotStarted);
}

#[test]
fn round_with_untimed_match_is_in_progress() {
    let ms = vec![game(3, "A", "B", Some("Full Time")), game(3, "C", "D", None)];
    assert_eq!(round_state(&ms, 3), RoundState::InProgress);
}

#[test]
fn last_round_is_the_highest() {
    let ms = vec![game(2, "A", "B", None), game(5, "C", "D", None), game(1, "A", "D", None)];
    assert_eq!(season_last_round(&ms), 5);
    assert_eq!(season_last_round(&vec![]), -1);
    assert_eq!(season_last_round(&vec![game(-3, "A", "B", None)]), -1);
}

#[test]
fn plan_scores_complete_rounds_and_tips_the_round_in_progress() {
    let ms = vec![
        game(0, "A", "B", Some("Full Time")),
        game(1, "A", "C", Some("Full Time")),
        game(0, "C", "D", Some("Full Time")),
        game(1, "B", "D", Some("Q3 2:00")),
        game(2, "A", "D", None),
    ];
    let steps = plan_season(&ms);
    assert_eq!(
        steps,
        vec![
            step(0, true, true, false, true),
            step(2, true, true, false, false),
            step(1, true, false, true, false),
            step(3, false, false, true, false),
        ]
    );
}

#[test]
fn plan_halts_at_first_round_not_started() {
    let ms = vec![
        game(0, "A", "B", Some("Full Time")),
        game(1, "A", "C", None),
        game(1, "B", "D", None),
        game(2, "A", "D", Some("Full Time")),
    ];
    let steps = plan_season(&ms);
    assert_eq!(steps, vec![step(0, true, true, false, true)]);
    assert!(steps.iter().all(|s| !s.tip));
}

#[test]
fn plan_never_updates_with_unfinished_match() {
    let ms = vec![
        game(0, "A", "B", Some("Full Time")),
        game(0, "C", "D", Some("Full Time")),
        game(1, "A", "C", Some("Q1 5:00")),
        game(1, "B", "D", Some("Full Time")),
    ];
    let steps = plan_season(&ms);
    assert_eq!(steps.len(), 4);
    for s in &steps {
        let full_time = ms[s.index].timestr.as_deref() == Some("Full Time");
        assert_eq!(s.update, full_time);
    }
    assert!(!steps[2].update);
    assert!(steps[2].tip && steps[3].tip && steps[3].update);
}

#[test]
fn plan_stops_when_round_zero_is_missing() {
    let ms = vec![game(1, "A", "B", Some("Full Time"))];
    assert!(plan_season(&ms).is_empty());
}

#[test]
fn plan_of_empty_season_is_empty() {
    assert!(plan_season(&vec![]).is_empty());
}

#[test]
fn plan_runs_through_every_complete_round() {
    let ms = vec![
        game(0, "A", "B", Some("Full Time")),
        game(1, "B", "A", Some("Full Time")),
        game(2, "A", "B", Some("Full Time")),
    ];
    let steps = plan_season(&ms);
    assert_eq!(
        steps,
        vec![
            step(0, true, true, false, true),
            step(1, true, true, false, true),
            step(2, true, true, false, true),
        ]
    );
}

#[test]
fn tally_scores_each_kind_of_result() {
    let mut t = SeasonTally::new();
    assert!(t.has_room());
    // a correct pick: 20 predicted, 12 observed
    assert_eq!(t.record(false, true, 20, 12, true), 8);
    // a wrong pick: 15 predicted, 30 observed the other way
    assert_eq!(t.record(false, false, 15, 30, false), 45);
    // a draw: the predicted margin is the error
    assert_eq!(t.record(true, true, 7, 0, false), 7);
    // a correct pick that undershoots
    assert_eq!(t.record(false, true, 3, 40, true), 37);
    assert_eq!(
        t,
        SeasonTally { total: 3, num_games: 4, error_margin: 45, mae: 97 }
    );
}

#[test]
fn tally_without_room_reports_it() {
    let t = SeasonTally { total: 0, num_games: u32::MAX, error_margin: 0, mae: 0 };
    assert!(!t.has_room());
    let t = SeasonTally { total: 0, num_games: 0, error_margin: 0, mae: i64::MAX };
    assert!(!t.has_room());
}

#[test]
fn refit_is_due_beyond_the_threshold() {
    assert!(!refit_due(0));
    assert!(!refit_due(25));
    assert!(refit_due(26));
}

#[test]
fn margin_error_sums_over_observations() {
    let predicted = vec![10, 20, -5, 0];
    let margins = vec![4, 25, 6, 0];
    let correct = vec![true, false, true, true];
    // |10 - 4| + |20 + 25| + |-5 - 6| + |0 - 0|
    assert_eq!(calculate_margin_error(&predicted, &margins, &correct), 62);
}

#[test]
fn margin_error_stops_at_shortest_list() {
    let predicted = vec![10, 20, 30];
    let margins = vec![0, 0];
    let correct = vec![true, true, true];
    assert_eq!(calculate_margin_error(&predicted, &margins, &correct), 30);
    assert_eq!(calculate_margin_error(&vec![], &vec![], &vec![]), 0);
}

#[test]
fn margin_error_handles_extremes() {
    let predicted = vec![i32::MIN];
    let margins = vec![u32::MAX];
    let correct = vec![true];
    let expected = u32::MAX as u128 + 2_147_483_648u128;
    assert_eq!(calculate_margin_error(&predicted, &margins, &correct), expected);
}
