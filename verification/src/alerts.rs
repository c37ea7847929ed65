//! What a goal alert says and where it shows: the goal's total as checked,
//! the alert's payload and label, and the area of the insistent alert window.
use vstd::prelude::*;

use crate::limits::{AlertDecision, AlertKind, ANNOY_REPEAT_INTERVAL_MINUTES};
use crate::manifest::opt_view;
use crate::models::{Goal, GoalAlertPayload};
use crate::text::same_text;

verus! {

/// Whether the app in the foreground is the one goal `target` is on.
pub open spec fn is_target(current_identity: Option<&str>, target: Seq<char>) -> bool {
    current_identity matches Some(id) && id@ == target
}

/// The total a goal is checked against: for a goal on total screen time,
/// today's stored total plus the running session's share of it; for a goal on
/// an app, that app's stored total today, plus the running session when it is
/// that app's.
pub open spec fn goal_total_spec(
    goal: Goal,
    persisted_total: int,
    live_total: int,
    identity_total: int,
    current_identity: Option<&str>,
    live_current: int,
) -> int {
    if goal.target_kind@ == "total"@ {
        persisted_total + live_total
    } else if is_target(current_identity, goal.target_value@) {
        identity_total + live_current
    } else {
        identity_total
    }
}

/// The total goal `goal` is checked against (see `goal_total_spec`).
pub fn goal_live_total(
    goal: &Goal,
    persisted_total: i64,
    live_total: i64,
    identity_total: i64,
    current_identity: Option<&str>,
    live_current: i64,
) -> (r: i64)
    requires
        i64::MIN <= goal_total_spec(
            *goal,
            persisted_total as int,
            live_total as int,
            identity_total as int,
            current_identity,
            live_current as int,
        ) <= i64::MAX,
    ensures
        r == goal_total_spec(
            *goal,
            persisted_total as int,
            live_total as int,
            identity_total as int,
            current_identity,
            live_current as int,
        ),
{
    if same_text(goal.target_kind.as_str(), "total") {
        persisted_total + live_total
    } else {
        let matches = match current_identity {
            Some(id) => same_text(id, goal.target_value.as_str()),
            None => false,
        };
        if matches {
            identity_total + live_current
        } else {
            identity_total
        }
    }
}

/// Whether an alert's label needs the name resolved for the goal's target:
/// the goal is on an app that is not the one in the foreground (or whose name
/// is not known).
pub open spec fn label_needs_resolution_spec(
    goal: Goal,
    current_identity: Option<&str>,
    current_app_name: Option<&str>,
) -> bool {
    goal.target_kind@ != "total"@ && !(current_app_name is Some && is_target(current_identity, goal.target_value@))
}

/// Whether an alert's label needs the name resolved for the goal's target.
pub fn label_needs_resolution(goal: &Goal, current_identity: Option<&str>, current_app_name: Option<&str>) -> (r: bool)
    ensures
        r == label_needs_resolution_spec(*goal, current_identity, current_app_name),
{
    if same_text(goal.target_kind.as_str(), "total") {
        return false;
    }
    let is_current = match current_identity {
        Some(id) => same_text(id, goal.target_value.as_str()),
        None => false,
    };
    !(current_app_name.is_some() && is_current)
}

/// The label of an alert on `goal`: "Total screen time" for a goal on total
/// screen time; the foreground app's name when the goal is on it; otherwise
/// the name resolved for the goal's target, or the target itself when none
/// was resolved.
pub open spec fn alert_label_spec(
    goal: Goal,
    current_identity: Option<&str>,
    current_app_name: Option<&str>,
    resolved_label: Option<Seq<char>>,
) -> Seq<char> {
    if goal.target_kind@ == "total"@ {
        "Total screen time"@
    } else if current_app_name is Some && is_target(current_identity, goal.target_value@) {
        current_app_name->0@
    } else {
        match resolved_label {
            Some(l) => l,
            None => goal.target_value@,
        }
    }
}

/// The word naming an alert's threshold.
pub open spec fn threshold_word(kind: AlertKind) -> Seq<char> {
    match kind {
        AlertKind::Warn => "warn"@,
        AlertKind::Annoy => "annoy"@,
    }
}

/// The payload an alert window shows for the alert `alert` on `goal`.
/// `resolved_label` is the name resolved for the goal's target, where
/// `label_needs_resolution` asked for one.
pub fn build_goal_alert(
    goal: &Goal,
    alert: &AlertDecision,
    current_identity: Option<&str>,
    current_app_name: Option<&str>,
    resolved_label: Option<String>,
) -> (r: GoalAlertPayload)
    ensures
        r.goal_id == goal.id,
        r.target_kind@ == goal.target_kind@,
        r.target_value@ == goal.target_value@,
        r.label@ == alert_label_spec(*goal, current_identity, current_app_name, opt_view(resolved_label)),
        r.threshold@ == threshold_word(alert.kind),
        r.total_seconds == alert.total_seconds,
        r.threshold_seconds == alert.threshold_seconds,
        r.repeat_minutes == ANNOY_REPEAT_INTERVAL_MINUTES,
        r.show_overlay == (alert.kind == AlertKind::Annoy),
        r.snooze_count == alert.snooze_count,
{
    let label = if same_text(goal.target_kind.as_str(), "total") {
        String::from_str("Total screen time")
    } else {
        let is_current = match current_identity {
            Some(id) => same_text(id, goal.target_value.as_str()),
            None => false,
        };
        match current_app_name {
            Some(name) if is_current => String::from_str(name),
            _ => match resolved_label {
                Some(l) => l,
                None => goal.target_value.clone(),
            },
        }
    };
    let threshold = match alert.kind {
        AlertKind::Warn => String::from_str("warn"),
        AlertKind::Annoy => String::from_str("annoy"),
    };
    GoalAlertPayload {
        goal_id: goal.id,
        target_kind: goal.target_kind.clone(),
        target_value: goal.target_value.clone(),
        label,
        threshold,
        total_seconds: alert.total_seconds,
        threshold_seconds: alert.threshold_seconds,
        repeat_minutes: ANNOY_REPEAT_INTERVAL_MINUTES,
        show_overlay: match alert.kind {
            AlertKind::Annoy => true,
            AlertKind::Warn => false,
        },
        snooze_count: alert.snooze_count,
    }
}

/// The area the insistent alert window covers: the whole monitor whose edges
/// are `left`, `top`, `right` and `bottom`, as (x, y, width, height), each
/// side at least one pixel.
pub fn annoy_window_area(left: i32, top: i32, right: i32, bottom: i32) -> (r: (i32, i32, u32, u32))
    requires
        i32::MIN <= right - left <= i32::MAX,
        i32::MIN <= bottom - top <= i32::MAX,
    ensures
        r.0 == left,
        r.1 == top,
        r.2 == (if right - left >= 1 { right - left } else { 1 }),
        r.3 == (if bottom - top >= 1 { bottom - top } else { 1 }),
{
    let width = right - left;
    let height = bottom - top;
    let width = if width >= 1 {
        width
    } else {
        1
    };
    let height = if height >= 1 {
        height
    } else {
        1
    };
    (left, top, width as u32, height as u32)
}

} // verus!
