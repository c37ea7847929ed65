//! The records the dashboard and the goal alerts exchange.
use vstd::prelude::*;

verus! {

/// Tracked time of one app: its identity, display name and seconds.
pub struct AppTotal {
    pub app_identity: String,
    pub app_name: String,
    pub total: i64,
}

/// Tracked seconds within one hour of the day.
pub struct HourlyData {
    pub hour: u32,
    pub total: i64,
}

/// Tracked time of one day of the week: its date key, total seconds and apps.
pub struct WeekDay {
    pub date: String,
    pub total: i64,
    pub apps: Vec<AppTotal>,
}

/// A screen-time goal: a limit on one app or on the total, with an optional
/// warning threshold and an optional insistent ("annoy") threshold, in seconds.
pub struct Goal {
    pub id: i64,
    pub target_kind: String,
    pub target_value: String,
    pub label: String,
    pub warn_seconds: Option<i64>,
    pub annoy_seconds: Option<i64>,
}

/// A goal as the user submits it.
pub struct GoalDraft {
    pub id: Option<i64>,
    pub target_kind: String,
    pub target_value: String,
    pub warn_seconds: Option<i64>,
    pub annoy_seconds: Option<i64>,
}

/// An app the user may set a goal on, with its tracked seconds.
pub struct GoalCandidate {
    pub app_identity: String,
    pub app_name: String,
    pub total_seconds: i64,
}

/// What an alert window shows about a goal that crossed a threshold.
pub struct GoalAlertPayload {
    pub goal_id: i64,
    pub target_kind: String,
    pub target_value: String,
    pub label: String,
    pub threshold: String,
    pub total_seconds: i64,
    pub threshold_seconds: i64,
    pub repeat_minutes: i64,
    pub show_overlay: bool,
    pub snooze_count: u32,
}

/// The content of an `AppTotal`.
pub struct AppTotalView {
    pub app_identity: Seq<char>,
    pub app_name: Seq<char>,
    pub total: i64,
}

impl View for AppTotal {
    type V = AppTotalView;

    open spec fn view(&self) -> AppTotalView {
        AppTotalView { app_identity: self.app_identity@, app_name: self.app_name@, total: self.total }
    }
}

impl AppTotal {
    /// A copy of the record.
    pub fn duplicate(&self) -> (r: AppTotal)
        ensures
            r@ == self@,
    {
        AppTotal { app_identity: self.app_identity.clone(), app_name: self.app_name.clone(), total: self.total }
    }
}

} // verus!
