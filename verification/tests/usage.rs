use trackmln::session::choose_active_app;
use chrono::Datelike;
use trackmln::calendar::{week_window, WeekWindow};
use trackmln::grouping::{
    day_totals, group_totals, identity_total, name_total, sessions_on_day, shown_spans, shown_total, SessionRow,
};
use trackmln::models::AppTotal;
use trackmln::session::{gap_exceeded, idle_app, seconds_of, unknown_app, SessionTracker};
use trackmln::resolver::ResolvedApp;
use trackmln::usage::{hourly_buckets, should_log_session};
use trackmln::week::build_week_summary;

// A local midnight, in seconds since the epoch, for the day under test.
const DAY_START: i64 = 1_767_225_600;
const DAY_END: i64 = DAY_START + 86_399;

fn at(hour: i64, minute: i64) -> i64 {
    DAY_START + hour * 3_600 + minute * 60
}

fn session(identity: Option<&str>, name: &str, start: i64, end: i64) -> SessionRow {
    SessionRow { app_identity: identity.map(str::to_string), app_name: name.to_string(), start, end }
}


fn app_total(identity: &str, name: &str, total: i64) -> AppTotal {
    AppTotal { app_identity: identity.to_string(), app_name: name.to_string(), total }
}

#[test]
fn ignores_subsecond_sessions() {
    let start = chrono::Local::now();
    let end = start + chrono::Duration::milliseconds(500);
    assert!(!should_log_session(start.timestamp_millis(), end.timestamp_millis()));
}

#[test]
fn keeps_sessions_of_a_second_or_more() {
    // A 500 ms session is dropped even when it crosses a second boundary.
    assert!(!should_log_session(1_767_254_399_700, 1_767_254_400_200));
    assert!(should_log_session(1_767_254_399_700, 1_767_254_400_700));
    assert!(!should_log_session(10_000, 9_000));
}

#[test]
fn computes_today_totals_and_hourly_buckets() {
    let sessions = vec![session(None, "Chrome", at(9, 0), at(9, 30)), session(None, "Chrome", at(10, 0), at(10, 15))];
    let totals = group_totals(&sessions).expect("totals fit");
    assert_eq!(totals.len(), 1);
    assert_eq!(totals[0].app_identity, "chrome");
    assert_eq!(totals[0].app_name, "Chrome");
    assert_eq!(totals[0].total, 2_700);

    let rows = vec![(at(9, 0), at(9, 30)), (at(10, 0), at(10, 15))];
    let hourly = hourly_buckets(&rows, DAY_START, DAY_END);
    assert_eq!(hourly.len(), 24);
    assert_eq!(hourly[9].total, 1_800);
    assert_eq!(hourly[10].total, 900);
    assert_eq!(hourly.iter().map(|h| h.total).sum::<i64>(), 2_700);
    assert!(hourly.iter().enumerate().all(|(i, h)| h.hour as usize == i));
}

#[test]
fn splits_sessions_across_hours_and_day_edges() {
    let rows = vec![
        (at(9, 50), at(11, 10)),
        (DAY_START - 600, DAY_START + 300),
        (at(23, 55), DAY_END + 1_000),
        (at(5, 0), at(4, 0)),
    ];
    let hourly = hourly_buckets(&rows, DAY_START, DAY_END);
    assert_eq!(hourly[9].total, 600);
    assert_eq!(hourly[10].total, 3_600);
    assert_eq!(hourly[11].total, 600);
    assert_eq!(hourly[0].total, 300);
    assert_eq!(hourly[23].total, 300);
    assert_eq!(hourly[5].total, 0);
    assert_eq!(hourly.iter().map(|h| h.total).sum::<i64>(), 600 + 3_600 + 600 + 300 + 300);
}

#[test]
fn hourly_totals_add_up_to_day() {
    let rows = vec![(at(0, 0), at(23, 59)), (at(12, 30), at(13, 45))];
    let hourly = hourly_buckets(&rows, DAY_START, DAY_END);
    assert_eq!(hourly.iter().map(|h| h.total).sum::<i64>(), (at(23, 59) - at(0, 0)) + 75 * 60);
}

fn window(today: i32) -> WeekWindow {
    week_window(today).expect("dates in range")
}

#[test]
fn computes_week_dashboard() {
    let w = window(739_000);
    let this_week_day = w.days[5].clone();
    let days = w.days.clone();
    let start = 1_700_000_000 + 14 * 3_600;
    let week_rows = vec![(this_week_day.clone(), session(None, "VS Code", start, start + 3_600))];
    let mut daily_apps = Vec::new();
    for day in &days {
        for app in group_totals(&sessions_on_day(&week_rows, day)).expect("totals fit") {
            daily_apps.push((day.clone(), app));
        }
    }
    let all: Vec<SessionRow> = week_rows.iter().map(|(_, row)| row.duplicate()).collect();
    let week_apps = group_totals(&all).expect("totals fit");
    let daily_totals = day_totals(&days, &week_rows).expect("day totals fit");
    let previous = vec![session(None, "VS Code", start - 7 * 86_400, start - 7 * 86_400 + 1_800)];
    let previous_total = shown_total(&previous).expect("previous total fits");
    let summary = build_week_summary(&days, &daily_totals, &daily_apps, week_apps, previous_total);
    assert_eq!(summary.week_total, 3_600);
    assert_eq!(summary.previous_week_total as f64 / 7.0, 1800.0 / 7.0);
    let top = summary.top_app.expect("top app");
    assert_eq!(top.app_identity, "vs code");
    assert_eq!(top.app_name, "VS Code");
    assert_eq!(top.total, 3_600);
    assert_eq!(summary.days[5].total, 3_600);
    assert_eq!(summary.days[5].apps.len(), 1);
    assert_eq!(summary.days[4].total, 0);
    assert!(summary.days[4].apps.is_empty());
}

#[test]
fn groups_sessions_by_identity_and_ranks_them() {
    let sessions = vec![
        session(Some("c:\\apps\\code.exe"), "VS Code", 0, 100),
        session(Some("  "), "Chrome", 0, 300),
        session(None, "CHROME", 500, 600),
        session(Some("c:\\apps\\code.exe"), "Code", 1_000, 1_200),
        session(Some("idle"), "Idle", 0, 10_000),
        session(None, "Unknown", 0, 10_000),
        session(Some("c:\\apps\\b.exe"), "B", 0, 300),
        session(Some("c:\\apps\\a.exe"), "A", 0, 300),
    ];
    let totals = group_totals(&sessions).expect("totals fit");
    let ids: Vec<&str> = totals.iter().map(|t| t.app_identity.as_str()).collect();
    assert_eq!(ids, vec!["chrome", "c:\\apps\\a.exe", "c:\\apps\\b.exe", "c:\\apps\\code.exe"]);
    assert_eq!(totals[0].total, 400);
    assert_eq!(totals[0].app_name, "CHROME");
    assert_eq!(totals[3].total, 300);
    assert_eq!(totals[3].app_name, "Code");
    assert!(group_totals(&vec![]).expect("nothing to total").is_empty());
}

#[test]
fn refuses_totals_that_overflow() {
    let sessions = vec![session(Some("x"), "X", 0, i64::MAX), session(Some("x"), "X", 0, i64::MAX)];
    assert!(group_totals(&sessions).is_none());
}

#[test]
fn week_window_lists_seven_days_and_previous_week() {
    // Day 730 000 of the common era is 3 September 1999.
    let w = window(730_000);
    assert_eq!(w.days.len(), 7);
    assert_eq!(w.days[6], "1999-09-03");
    assert_eq!(w.days[0], "1999-08-28");
    assert_eq!(w.last_week_end, "1999-08-27");
    assert_eq!(w.last_week_start, "1999-08-21");
    assert!(week_window(100_000_000).is_none());
}

#[test]
fn week_summary_uses_last_total_and_hands_apps_out_once() {
    let days = vec!["2026-01-01".to_string(), "2026-01-02".to_string(), "2026-01-01".to_string()];
    let summary = build_week_summary(
        &days,
        &vec![("2026-01-01".to_string(), 10), ("2026-01-01".to_string(), 40), ("2026-01-02".to_string(), 5)],
        &vec![
            ("2026-01-01".to_string(), app_total("a", "A", 30)),
            ("2026-01-02".to_string(), app_total("b", "B", 5)),
            ("2026-01-01".to_string(), app_total("c", "C", 10)),
        ],
        vec![],
        0,
    );
    assert_eq!(summary.days[0].total, 40);
    assert_eq!(summary.days[0].apps.iter().map(|a| a.app_identity.as_str()).collect::<Vec<_>>(), vec!["a", "c"]);
    assert_eq!(summary.days[1].apps.len(), 1);
    assert_eq!(summary.days[2].total, 40);
    assert!(summary.days[2].apps.is_empty());
    assert_eq!(summary.week_total, 85);
    assert!(summary.top_app.is_none());
}

#[test]
fn session_is_written_once_and_cleared() {
    let mut tracker = SessionTracker::new();
    assert!(tracker.pending_session(100_000).is_none());
    let app = ResolvedApp {
        identity: "c:\\apps\\code.exe".to_string(),
        exe_name: "code.exe".to_string(),
        app_name: "Code".to_string(),
    };
    assert!(!tracker.is_current("c:\\apps\\code.exe"));
    tracker.start_session(&app, 1_000_400);
    assert!(tracker.is_current("c:\\apps\\code.exe"));
    let record = tracker.pending_session(1_030_100).expect("a session");
    assert_eq!(record.app_identity.as_deref(), Some("c:\\apps\\code.exe"));
    assert_eq!(record.exe_name.as_deref(), Some("code.exe"));
    assert_eq!(record.app_name, "Code");
    assert_eq!((record.start_ms, record.end_ms), (1_000_400, 1_030_100));
    // Elapsed time counts whole seconds of the clock, as timestamps do.
    assert_eq!(tracker.live_elapsed_for_current(1_030_100), 30);
    assert_eq!(tracker.live_elapsed_for_current(900_000), 0);
    assert_eq!(tracker.live_elapsed_for_total(1_030_100), 30);
    tracker.clear();
    assert!(tracker.pending_session(1_031_000).is_none());
    assert_eq!(tracker.live_elapsed_for_current(1_031_000), 0);
}

#[test]
fn sleep_is_not_logged() {
    let mut tracker = SessionTracker::new();
    let app = ResolvedApp { identity: "c:\\a.exe".to_string(), exe_name: "a.exe".to_string(), app_name: "A".to_string() };
    tracker.observe_tick(10_000);
    tracker.start_session(&app, 10_000);
    tracker.observe_tick(70_000);
    // The machine then sleeps for an hour; the session ends at the last tick.
    let record = tracker.pending_session_before_gap().expect("a session");
    assert_eq!((record.start_ms, record.end_ms), (10_000, 70_000));
    tracker.clear();
    assert!(tracker.pending_session_before_gap().is_none());
}

#[test]
fn converts_milliseconds_to_whole_seconds() {
    assert_eq!(seconds_of(1_999), 1);
    assert_eq!(seconds_of(0), 0);
    assert_eq!(seconds_of(-1), -1);
    assert_eq!(seconds_of(-1_000), -1);
    assert_eq!(seconds_of(-1_001), -2);
    assert_eq!(seconds_of(i64::MIN), i64::MIN.div_euclid(1000));
}

#[test]
fn idle_time_does_not_count_toward_total() {
    let mut tracker = SessionTracker::new();
    tracker.start_session(&idle_app(), 10_000);
    assert_eq!(tracker.live_elapsed_for_current(70_000), 60);
    assert_eq!(tracker.live_elapsed_for_total(70_000), 0);
    let unknown = unknown_app();
    assert_eq!(unknown.identity, "unknown");
    assert_eq!(unknown.app_name, "Unknown");
    tracker.start_session(&unknown, 10_000);
    assert_eq!(tracker.live_elapsed_for_total(70_000), 0);
}

#[test]
fn long_tick_gap_flushes() {
    assert!(!gap_exceeded(4_000_000_000));
    assert!(gap_exceeded(4_000_000_001));
    assert!(!gap_exceeded(1_000_000_000));
}

#[test]
fn week_ends_on_the_given_day() {
    let now = chrono::Local::now().date_naive();
    let w = week_window(now.num_days_from_ce()).expect("today is in range");
    assert_eq!(w.days.len(), 7);
    assert_eq!(w.days[6], now.format("%Y-%m-%d").to_string());
    assert!(w.days.windows(2).all(|pair| pair[0] < pair[1]));
}

#[test]
fn chooses_the_active_app() {
    let app = ResolvedApp { identity: "c:\\a.exe".to_string(), exe_name: "a.exe".to_string(), app_name: "A".to_string() };
    assert_eq!(choose_active_app(false, 7, None).identity, "idle");
    assert_eq!(choose_active_app(true, 0, None).identity, "unknown");
    assert_eq!(choose_active_app(true, 7, None).app_name, "Unknown");
    assert_eq!(choose_active_app(true, 7, Some(app)).app_name, "A");
}

#[test]
fn day_and_week_totals_leave_out_idle_and_unknown() {
    let rows = vec![
        session(None, "Chrome", 0, 300),
        session(Some("idle"), "Idle", 300, 900),
        session(None, "Unknown", 900, 1_000),
        session(Some("c:\\apps\\code.exe"), "Code", 1_000, 1_200),
    ];
    assert_eq!(shown_total(&rows), Some(500));
    assert_eq!(shown_total(&vec![]), Some(0));
    assert_eq!(shown_total(&vec![session(None, "A", 0, i64::MAX), session(None, "B", 0, 1)]), None);

    let dated = vec![
        ("2026-01-05".to_string(), session(None, "Chrome", 0, 300)),
        ("2026-01-06".to_string(), session(None, "Chrome", 0, 60)),
        ("2026-01-05".to_string(), session(Some("idle"), "Idle", 0, 600)),
        ("2026-01-05".to_string(), session(None, "Code", 400, 500)),
    ];
    let days = vec!["2026-01-05".to_string(), "2026-01-06".to_string(), "2026-01-07".to_string()];
    let totals = day_totals(&days, &dated).expect("day totals fit");
    assert_eq!(
        totals,
        vec![("2026-01-05".to_string(), 400), ("2026-01-06".to_string(), 60), ("2026-01-07".to_string(), 0)]
    );
    let huge = vec![
        ("2026-01-05".to_string(), session(None, "A", 0, i64::MAX)),
        ("2026-01-05".to_string(), session(None, "B", 0, 1)),
    ];
    assert_eq!(day_totals(&days, &huge), None);
}

#[test]
fn ticks_follow_the_foreground_app() {
    let a = ResolvedApp { identity: "c:\\a.exe".to_string(), exe_name: "a.exe".to_string(), app_name: "A".to_string() };
    let b = ResolvedApp { identity: "c:\\b.exe".to_string(), exe_name: "b.exe".to_string(), app_name: "B".to_string() };
    let mut tracker = SessionTracker::new();
    assert!(tracker.begin_tick(false, true, 1_000).is_none());
    assert!(tracker.follow_app(&a, 1_000).is_none());
    assert!(tracker.begin_tick(false, true, 2_000).is_none());
    assert!(tracker.follow_app(&a, 2_000).is_none());
    assert!(tracker.begin_tick(false, true, 3_000).is_none());
    let ended = tracker.follow_app(&b, 3_000).expect("A's session ends");
    assert_eq!((ended.app_name.as_str(), ended.start_ms, ended.end_ms), ("A", 1_000, 3_000));
    assert!(tracker.is_current("c:\\b.exe"));

    // The screen goes off: B's session ends then, and none runs.
    let ended = tracker.begin_tick(false, false, 9_000).expect("B's session ends");
    assert_eq!((ended.app_name.as_str(), ended.start_ms, ended.end_ms), ("B", 3_000, 9_000));
    assert!(tracker.begin_tick(false, false, 10_000).is_none());
    assert!(tracker.current_identity.is_none());
}

#[test]
fn a_tick_after_sleep_ends_the_session_before_the_gap() {
    let a = ResolvedApp { identity: "c:\\a.exe".to_string(), exe_name: "a.exe".to_string(), app_name: "A".to_string() };
    let mut tracker = SessionTracker::new();
    tracker.begin_tick(false, true, 10_000);
    tracker.follow_app(&a, 10_000);
    tracker.begin_tick(false, true, 11_000);
    let ended = tracker.begin_tick(true, true, 3_611_000).expect("A's session ends");
    assert_eq!((ended.start_ms, ended.end_ms), (10_000, 11_000));
    // The same app starts a new session after the gap.
    assert!(tracker.follow_app(&a, 3_611_000).is_none());
    assert_eq!(tracker.session_start, Some(3_611_000));
    assert_eq!(tracker.last_tick, Some(3_611_000));
}

#[test]
fn totals_today_by_identity_and_by_name() {
    let rows = vec![
        session(Some("c:\\apps\\code.exe"), "Code", 0, 100),
        session(None, "Chrome", 100, 400),
        session(Some(" "), "CHROME", 400, 450),
        session(Some("idle"), "Idle", 450, 1_000),
    ];
    assert_eq!(identity_total(&rows, "chrome"), Some(350));
    assert_eq!(identity_total(&rows, "c:\\apps\\code.exe"), Some(100));
    assert_eq!(identity_total(&rows, "idle"), Some(550));
    assert_eq!(identity_total(&rows, "nothing"), Some(0));
    assert_eq!(name_total(&rows, "Chrome"), Some(300));
    assert_eq!(name_total(&rows, "chrome"), Some(0));
    assert_eq!(identity_total(&vec![session(None, "A", 0, i64::MAX), session(None, "A", 0, 1)], "a"), None);
    assert_eq!(name_total(&vec![session(None, "A", 0, i64::MAX), session(None, "A", 0, 1)], "A"), None);
    assert_eq!(shown_spans(&rows), vec![(0, 100), (100, 400), (400, 450)]);
}
