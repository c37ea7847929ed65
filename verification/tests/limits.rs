use trackmln::alerts::{annoy_window_area, build_goal_alert, goal_live_total, label_needs_resolution};
use trackmln::limits::{AlertDecision, AlertKind, LimitRuntime, ANNOY_REPEAT_INTERVAL_MINUTES};
use trackmln::models::Goal;

fn app_goal(id: i64, target: &str, warn: Option<i64>, annoy: Option<i64>) -> Goal {
    Goal {
        id,
        target_kind: "app".to_string(),
        target_value: target.to_string(),
        label: String::new(),
        warn_seconds: warn,
        annoy_seconds: annoy,
    }
}

fn total_goal(id: i64, warn: Option<i64>, annoy: Option<i64>) -> Goal {
    Goal {
        id,
        target_kind: "total".to_string(),
        target_value: "__total__".to_string(),
        label: String::new(),
        warn_seconds: warn,
        annoy_seconds: annoy,
    }
}

fn kinds(alerts: &[AlertDecision]) -> Vec<AlertKind> {
    alerts.iter().map(|a| a.kind).collect()
}

#[test]
fn warns_once_per_day() {
    let mut runtime = LimitRuntime::default();
    let goals = vec![app_goal(1, "c:\\apps\\game.exe", Some(600), None)];

    assert!(runtime.check_limits(&goals, &vec![599], "2026-03-01", 1_000).is_empty());

    let alerts = runtime.check_limits(&goals, &vec![600], "2026-03-01", 1_001);
    assert_eq!(kinds(&alerts), vec![AlertKind::Warn]);
    assert_eq!(alerts[0].goal_index, 0);
    assert_eq!(alerts[0].total_seconds, 600);
    assert_eq!(alerts[0].threshold_seconds, 600);

    assert!(runtime.check_limits(&goals, &vec![900], "2026-03-01", 1_002).is_empty());

    // The next day the warning is due again.
    let next_day = runtime.check_limits(&goals, &vec![700], "2026-03-02", 90_000);
    assert_eq!(kinds(&next_day), vec![AlertKind::Warn]);
}

#[test]
fn annoy_repeats_every_ten_minutes() {
    let mut runtime = LimitRuntime::default();
    let goals = vec![total_goal(7, None, Some(3_600))];

    let first = runtime.check_limits(&goals, &vec![3_600], "2026-03-01", 10_000);
    assert_eq!(kinds(&first), vec![AlertKind::Annoy]);
    assert!(runtime.check_limits(&goals, &vec![3_700], "2026-03-01", 10_000 + 599).is_empty());
    let again = runtime.check_limits(&goals, &vec![3_800], "2026-03-01", 10_000 + 600);
    assert_eq!(kinds(&again), vec![AlertKind::Annoy]);
    assert_eq!(ANNOY_REPEAT_INTERVAL_MINUTES * 60, 600);
}

#[test]
fn snooze_silences_until_it_ends() {
    let mut runtime = LimitRuntime::default();
    let goals = vec![total_goal(3, None, Some(100))];

    assert_eq!(kinds(&runtime.check_limits(&goals, &vec![200], "2026-03-01", 5_000)), vec![AlertKind::Annoy]);
    runtime.snooze_at(3, 5, 5_010);
    assert!(runtime.check_limits(&goals, &vec![250], "2026-03-01", 5_010 + 299).is_empty());

    // Once the snooze ends, the alert counts as not shown and comes at once.
    // A snooze clears the day the alert was shown on, so the check after it
    // starts the snooze count over.
    let after = runtime.check_limits(&goals, &vec![300], "2026-03-01", 5_010 + 300);
    assert_eq!(kinds(&after), vec![AlertKind::Annoy]);
    assert_eq!(after[0].snooze_count, 0);
}

#[test]
fn dropping_below_annoy_threshold_resets_snooze() {
    let mut runtime = LimitRuntime::default();
    let goals = vec![total_goal(4, None, Some(100))];

    runtime.check_limits(&goals, &vec![150], "2026-03-01", 1_000);
    runtime.snooze_at(4, 10, 1_001);
    assert_eq!(runtime.snooze_counts.get(&4), Some(&1));

    assert!(runtime.check_limits(&goals, &vec![50], "2026-03-01", 1_002).is_empty());
    assert_eq!(runtime.snooze_counts.get(&4), Some(&0));
    let state = runtime.goal_states.get(&4).expect("state kept");
    assert_eq!(state.snoozed_until, None);
    assert_eq!(state.annoy_shown_on, None);

    // Back above the threshold, the alert shows at once: the snooze is gone.
    assert_eq!(kinds(&runtime.check_limits(&goals, &vec![150], "2026-03-01", 1_003)), vec![AlertKind::Annoy]);
}

#[test]
fn idle_app_goal_never_fires() {
    let mut runtime = LimitRuntime::default();
    let goals = vec![app_goal(9, "idle", Some(1), Some(1))];
    assert!(runtime.check_limits(&goals, &vec![10_000], "2026-03-01", 1).is_empty());
}

#[test]
fn warn_and_annoy_fire_in_goal_order() {
    let mut runtime = LimitRuntime::default();
    let goals = vec![total_goal(1, Some(10), Some(20)), app_goal(2, "c:\\a.exe", Some(5), None)];
    let alerts = runtime.check_limits(&goals, &vec![25, 6], "2026-03-01", 100);
    assert_eq!(kinds(&alerts), vec![AlertKind::Warn, AlertKind::Annoy, AlertKind::Warn]);
    assert_eq!(alerts[0].goal_index, 0);
    assert_eq!(alerts[1].goal_index, 0);
    assert_eq!(alerts[1].threshold_seconds, 20);
    assert_eq!(alerts[2].goal_index, 1);
}

#[test]
fn goals_sharing_an_id_use_the_last_total() {
    let mut runtime = LimitRuntime::default();
    let goals = vec![app_goal(5, "c:\\a.exe", Some(100), None), app_goal(5, "c:\\b.exe", None, None)];
    let alerts = runtime.check_limits(&goals, &vec![500, 10], "2026-03-01", 100);
    assert!(alerts.is_empty());
}

#[test]
fn snooze_counts_and_forgets() {
    let mut runtime = LimitRuntime::default();
    assert!(runtime.snooze(8, 15, 1_000));
    assert!(runtime.snooze(8, 15, 2_000));
    assert_eq!(runtime.goal_states.get(&8).and_then(|s| s.snoozed_until), Some(2_000 + 900));
    assert_eq!(runtime.snooze_counts.get(&8), Some(&2));
    assert!(!runtime.snooze(8, i64::MAX, 0));
    assert!(!runtime.snooze(8, 1, i64::MAX - 59));
    assert_eq!(runtime.snooze_counts.get(&8), Some(&2));
    runtime.reset_snooze_count(8);
    assert_eq!(runtime.snooze_counts.get(&8), Some(&0));
    runtime.forget_goal(8);
    assert!(runtime.goal_states.get(&8).is_none());
    assert!(runtime.snooze_counts.get(&8).is_none());
}

#[test]
fn computes_goal_totals_with_live_session() {
    let total = total_goal(1, Some(1), None);
    assert_eq!(goal_live_total(&total, 100, 20, 5, Some("c:\\a.exe"), 30), 120);
    let app = app_goal(2, "c:\\a.exe", Some(1), None);
    assert_eq!(goal_live_total(&app, 100, 20, 5, Some("c:\\a.exe"), 30), 35);
    assert_eq!(goal_live_total(&app, 100, 20, 5, Some("c:\\b.exe"), 30), 5);
    assert_eq!(goal_live_total(&app, 100, 20, 5, None, 30), 5);
}

#[test]
fn builds_alert_payloads() {
    let app = app_goal(2, "c:\\apps\\game.exe", Some(60), Some(120));
    let warn = AlertDecision { goal_index: 0, kind: AlertKind::Warn, total_seconds: 61, threshold_seconds: 60, snooze_count: 0 };
    let annoy = AlertDecision { goal_index: 0, kind: AlertKind::Annoy, total_seconds: 130, threshold_seconds: 120, snooze_count: 2 };

    assert!(!label_needs_resolution(&app, Some("c:\\apps\\game.exe"), Some("Game")));
    let live = build_goal_alert(&app, &warn, Some("c:\\apps\\game.exe"), Some("Game"), None);
    assert_eq!(live.label, "Game");
    assert_eq!(live.threshold, "warn");
    assert!(!live.show_overlay);
    assert_eq!(live.total_seconds, 61);
    assert_eq!(live.threshold_seconds, 60);
    assert_eq!(live.repeat_minutes, 10);

    assert!(label_needs_resolution(&app, Some("c:\\other.exe"), Some("Other")));
    let resolved = build_goal_alert(&app, &annoy, Some("c:\\other.exe"), Some("Other"), Some("Game Deluxe".to_string()));
    assert_eq!(resolved.label, "Game Deluxe");
    assert_eq!(resolved.threshold, "annoy");
    assert!(resolved.show_overlay);
    assert_eq!(resolved.snooze_count, 2);

    let unresolved = build_goal_alert(&app, &annoy, None, None, None);
    assert_eq!(unresolved.label, "c:\\apps\\game.exe");

    let total = total_goal(1, Some(1), None);
    assert!(!label_needs_resolution(&total, None, None));
    let total_alert = build_goal_alert(&total, &warn, Some("x"), Some("X"), Some("ignored".to_string()));
    assert_eq!(total_alert.label, "Total screen time");
    assert_eq!(total_alert.goal_id, 1);
    assert_eq!(total_alert.target_value, "__total__");
}

#[test]
fn annoy_window_covers_monitor() {
    assert_eq!(annoy_window_area(-1920, 0, 0, 1080), (-1920, 0, 1920, 1080));
    assert_eq!(annoy_window_area(10, 10, 10, 5), (10, 10, 1, 1));
}
