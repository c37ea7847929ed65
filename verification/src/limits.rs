//! Goal limits: when a goal's warning is sent, when its insistent ("annoy")
//! alert shows and repeats, and what a snooze does.
//!
//! The state of each goal is kept per goal id. Every check first rolls the
//! state over to the current day, then decides, from the goal's tracked total,
//! which alerts are due. Showing an alert is the caller's part: `check_limits`
//! returns the alerts it decided on.
use std::collections::HashMap;
use vstd::prelude::*;

use crate::manifest::opt_view;
use crate::models::{Goal, GoalAlertPayload};
use crate::text::same_text;

verus! {

broadcast use vstd::std_specs::hash::group_hash_axioms;

/// Minutes between two insistent alerts of one goal.
pub const ANNOY_REPEAT_INTERVAL_MINUTES: i64 = 10;

/// Seconds between two insistent alerts of one goal.
pub open spec fn annoy_repeat_seconds() -> int {
    ANNOY_REPEAT_INTERVAL_MINUTES * 60
}

/// What the limit checks remember of one goal: the day its warning was sent,
/// the day its insistent alert was first shown, when that alert was last
/// shown, and until when it is snoozed (seconds since the epoch).
#[derive(Debug)]
pub struct GoalRuntimeState {
    pub warn_sent_on: Option<String>,
    pub annoy_shown_on: Option<String>,
    pub last_annoy_notification_at: Option<i64>,
    pub snoozed_until: Option<i64>,
}

/// The content of a `GoalRuntimeState`.
pub struct GoalStateView {
    pub warn_sent_on: Option<Seq<char>>,
    pub annoy_shown_on: Option<Seq<char>>,
    pub last_annoy_notification_at: Option<i64>,
    pub snoozed_until: Option<i64>,
}

impl View for GoalRuntimeState {
    type V = GoalStateView;

    open spec fn view(&self) -> GoalStateView {
        GoalStateView {
            warn_sent_on: opt_view(self.warn_sent_on),
            annoy_shown_on: opt_view(self.annoy_shown_on),
            last_annoy_notification_at: self.last_annoy_notification_at,
            snoozed_until: self.snoozed_until,
        }
    }
}

/// The state of a goal nothing is remembered of.
pub open spec fn fresh_goal_state() -> GoalStateView {
    GoalStateView {
        warn_sent_on: None,
        annoy_shown_on: None,
        last_annoy_notification_at: None,
        snoozed_until: None,
    }
}

impl Default for GoalRuntimeState {
    fn default() -> (r: Self)
        ensures
            r@ == fresh_goal_state(),
    {
        GoalRuntimeState {
            warn_sent_on: None,
            annoy_shown_on: None,
            last_annoy_notification_at: None,
            snoozed_until: None,
        }
    }
}

fn copy_text(s: &Option<String>) -> (r: Option<String>)
    ensures
        opt_view(r) == opt_view(*s),
{
    match s {
        Some(t) => Some(t.clone()),
        None => None,
    }
}

impl GoalRuntimeState {
    /// A copy of the state.
    pub fn duplicate(&self) -> (r: GoalRuntimeState)
        ensures
            r@ == self@,
    {
        GoalRuntimeState {
            warn_sent_on: copy_text(&self.warn_sent_on),
            annoy_shown_on: copy_text(&self.annoy_shown_on),
            last_annoy_notification_at: self.last_annoy_notification_at,
            snoozed_until: self.snoozed_until,
        }
    }
}

/// Which threshold an alert is for.
#[derive(Debug, Clone, Copy, PartialEq, Eq, Structural)]
pub enum AlertKind {
    Warn,
    Annoy,
}

/// An alert decided on: the goal (by its index in the checked list), the
/// threshold, the goal's total and threshold in seconds, and how often the
/// goal's insistent alert was snoozed today.
#[derive(Debug, Clone, Copy, PartialEq, Eq, Structural)]
pub struct AlertDecision {
    pub goal_index: usize,
    pub kind: AlertKind,
    pub total_seconds: i64,
    pub threshold_seconds: i64,
    pub snooze_count: u32,
}

/// What the limit checks remember: the state and the snooze count of each
/// goal, by goal id.
#[derive(Debug)]
pub struct LimitRuntime {
    pub goal_states: HashMap<i64, GoalRuntimeState>,
    pub snooze_counts: HashMap<i64, u32>,
}

/// The content of a `LimitRuntime`.
pub struct LimitView {
    pub goal_states: Map<i64, GoalStateView>,
    pub snooze_counts: Map<i64, u32>,
}

impl View for LimitRuntime {
    type V = LimitView;

    open spec fn view(&self) -> LimitView {
        LimitView {
            goal_states: self.goal_states@.map_values(|s: GoalRuntimeState| s@),
            snooze_counts: self.snooze_counts@,
        }
    }
}

impl Default for LimitRuntime {
    fn default() -> (r: Self)
        ensures
            r@.goal_states == Map::<i64, GoalStateView>::empty(),
            r@.snooze_counts == Map::<i64, u32>::empty(),
    {
        let r = LimitRuntime { goal_states: HashMap::new(), snooze_counts: HashMap::new() };
        assert(r@.goal_states =~= Map::<i64, GoalStateView>::empty());
        r
    }
}

/// The remembered state of goal `id` (a fresh one when nothing is remembered).
pub open spec fn state_of(v: LimitView, id: i64) -> GoalStateView {
    if v.goal_states.contains_key(id) {
        v.goal_states[id]
    } else {
        fresh_goal_state()
    }
}

/// The snooze count of goal `id` (0 when none is remembered).
pub open spec fn count_of(v: LimitView, id: i64) -> u32 {
    if v.snooze_counts.contains_key(id) {
        v.snooze_counts[id]
    } else {
        0
    }
}

/// The state rolled over to `today`: a warning or an insistent alert of
/// another day is forgotten.
pub open spec fn rolled_over(s: GoalStateView, today: Seq<char>) -> GoalStateView {
    let annoy_today = s.annoy_shown_on == Some(today);
    GoalStateView {
        warn_sent_on: if s.warn_sent_on == Some(today) {
            s.warn_sent_on
        } else {
            None
        },
        annoy_shown_on: if annoy_today {
            s.annoy_shown_on
        } else {
            None
        },
        last_annoy_notification_at: if annoy_today {
            s.last_annoy_notification_at
        } else {
            None
        },
        snoozed_until: s.snoozed_until,
    }
}

/// The total a goal is held to: an app goal on `idle` counts nothing.
pub open spec fn counted_total(goal: Goal, total: i64) -> i64 {
    if goal.target_kind@ != "total"@ && goal.target_value@ == "idle"@ {
        0
    } else {
        total
    }
}

/// Whether the state is snoozed at `now`.
pub open spec fn snoozed_at(s: GoalStateView, now: i64) -> bool {
    s.snoozed_until matches Some(until) && until > now
}

/// Whether an insistent alert shown before is due again at `now`.
pub open spec fn repeat_due(s: GoalStateView, now: i64) -> bool {
    match s.last_annoy_notification_at {
        Some(at) => now - at >= annoy_repeat_seconds(),
        None => true,
    }
}

/// The warning decided on, if due: the goal has a warning threshold, its
/// total reached it, and no warning was sent today.
pub open spec fn warn_due(s: GoalStateView, goal: Goal, t: i64) -> bool {
    goal.warn_seconds matches Some(w) && t >= w && s.warn_sent_on is None
}

/// One goal's check, on its rolled-over state `s` and snooze count `count`:
/// the state after it, whether its snooze count is reset to 0, and the
/// alerts decided on.
pub open spec fn check_rolled(
    s: GoalStateView,
    count: u32,
    goal: Goal,
    index: usize,
    t: i64,
    today: Seq<char>,
    now: i64,
) -> (GoalStateView, bool, Seq<AlertDecision>) {
    let warned = warn_due(s, goal, t);
    let s2 = GoalStateView {
        warn_sent_on: if warned {
            Some(today)
        } else {
            s.warn_sent_on
        },
        annoy_shown_on: s.annoy_shown_on,
        last_annoy_notification_at: s.last_annoy_notification_at,
        snoozed_until: s.snoozed_until,
    };
    let warnings = if warned {
        seq![
            AlertDecision {
                goal_index: index,
                kind: AlertKind::Warn,
                total_seconds: t,
                threshold_seconds: goal.warn_seconds->0,
                snooze_count: count,
            },
        ]
    } else {
        Seq::<AlertDecision>::empty()
    };
    match goal.annoy_seconds {
        None => (s2, false, warnings),
        Some(a) => {
            let annoy = AlertDecision {
                goal_index: index,
                kind: AlertKind::Annoy,
                total_seconds: t,
                threshold_seconds: a,
                snooze_count: count,
            };
            if t < a {
                (
                    GoalStateView {
                        warn_sent_on: s2.warn_sent_on,
                        annoy_shown_on: None,
                        last_annoy_notification_at: None,
                        snoozed_until: None,
                    },
                    true,
                    warnings,
                )
            } else if snoozed_at(s2, now) {
                (s2, false, warnings)
            } else if s2.annoy_shown_on is None {
                (
                    GoalStateView {
                        warn_sent_on: s2.warn_sent_on,
                        annoy_shown_on: Some(today),
                        last_annoy_notification_at: Some(now),
                        snoozed_until: s2.snoozed_until,
                    },
                    false,
                    warnings.push(annoy),
                )
            } else if repeat_due(s2, now) {
                (
                    GoalStateView {
                        warn_sent_on: s2.warn_sent_on,
                        annoy_shown_on: s2.annoy_shown_on,
                        last_annoy_notification_at: Some(now),
                        snoozed_until: s2.snoozed_until,
                    },
                    false,
                    warnings.push(annoy),
                )
            } else {
                (s2, false, warnings)
            }
        },
    }
}

/// One goal's check on its remembered state `s` and snooze count `count`,
/// with `total` its tracked seconds today: the state after it, whether its
/// snooze count is reset to 0, and the alerts decided on.
pub open spec fn goal_check(
    s: GoalStateView,
    count: u32,
    goal: Goal,
    index: usize,
    total: i64,
    today: Seq<char>,
    now: i64,
) -> (GoalStateView, bool, Seq<AlertDecision>) {
    let new_day = s.annoy_shown_on != Some(today);
    let count1: u32 = if new_day {
        0
    } else {
        count
    };
    let r = check_rolled(rolled_over(s, today), count1, goal, index, counted_total(goal, total), today, now);
    (r.0, new_day || r.1, r.2)
}

/// The snooze count after a check that may reset it.
pub open spec fn count_after(count: u32, reset: bool) -> u32 {
    if reset {
        0
    } else {
        count
    }
}

/// The whole runtime after one goal's check, and the alerts decided on.
pub open spec fn goal_step(v: LimitView, goal: Goal, index: usize, total: i64, today: Seq<char>, now: i64) -> (LimitView, Seq<AlertDecision>) {
    let id = goal.id;
    let r = goal_check(state_of(v, id), count_of(v, id), goal, index, total, today, now);
    (
        LimitView {
            goal_states: v.goal_states.insert(id, r.0),
            snooze_counts: if r.1 {
                v.snooze_counts.insert(id, 0u32)
            } else {
                v.snooze_counts
            },
        },
        r.2,
    )
}

/// The total recorded for goal `id`: the one of the last goal in the list
/// with that id, 0 when none has it.
pub open spec fn total_for_id(goals: Seq<Goal>, totals: Seq<i64>, id: i64) -> i64
    decreases goals.len(),
{
    if goals.len() == 0 {
        0
    } else if goals.last().id == id {
        totals[goals.len() - 1]
    } else {
        total_for_id(goals.drop_last(), totals, id)
    }
}

/// The runtime after checking the first `n` goals in order, and the alerts
/// decided on.
pub open spec fn limits_after(
    v: LimitView,
    goals: Seq<Goal>,
    totals: Seq<i64>,
    today: Seq<char>,
    now: i64,
    n: nat,
) -> (LimitView, Seq<AlertDecision>)
    decreases n,
{
    if n == 0 {
        (v, Seq::<AlertDecision>::empty())
    } else {
        let before = limits_after(v, goals, totals, today, now, (n - 1) as nat);
        let goal = goals[n - 1];
        let step = goal_step(
            before.0,
            goal,
            (n - 1) as usize,
            total_for_id(goals, totals, goal.id),
            today,
            now,
        );
        (step.0, before.1 + step.1)
    }
}

/// The runtime after snoozing goal `id` for `minutes` at `now`: its insistent
/// alert is silenced until then and counts as not shown, and its snooze count
/// goes up by one.
pub open spec fn snoozed(v: LimitView, id: i64, minutes: i64, now: i64) -> LimitView {
    let s = state_of(v, id);
    LimitView {
        goal_states: v.goal_states.insert(
            id,
            GoalStateView {
                warn_sent_on: s.warn_sent_on,
                annoy_shown_on: None,
                last_annoy_notification_at: None,
                snoozed_until: Some((now + minutes * 60) as i64),
            },
        ),
        snooze_counts: v.snooze_counts.insert(id, (count_of(v, id) + 1) as u32),
    }
}

/// Whether an alert of kind `kind` is among `alerts`.
pub open spec fn has_alert(alerts: Seq<AlertDecision>, kind: AlertKind) -> bool {
    exists|i: int| 0 <= i < alerts.len() && (#[trigger] alerts[i]).kind == kind
}

/// A goal's warning is sent at most once a day: after a check on day `today`
/// that sent it, a second check of the same goal on the same day sends no
/// warning, whatever the totals.
pub proof fn lemma_warn_once_per_day(
    s: GoalStateView,
    count: u32,
    goal: Goal,
    index: usize,
    total1: i64,
    total2: i64,
    today: Seq<char>,
    now1: i64,
    now2: i64,
)
    requires
        has_alert(goal_check(s, count, goal, index, total1, today, now1).2, AlertKind::Warn),
    ensures
        ({
            let first = goal_check(s, count, goal, index, total1, today, now1);
            let second = goal_check(first.0, count_after(count, first.1), goal, index, total2, today, now2);
            !has_alert(second.2, AlertKind::Warn)
        }),
{
    let first = goal_check(s, count, goal, index, total1, today, now1);
    let second = goal_check(first.0, count_after(count, first.1), goal, index, total2, today, now2);
    let k = choose|i: int| 0 <= i < first.2.len() && (#[trigger] first.2[i]).kind == AlertKind::Warn;
    assert(first.2[k].kind == AlertKind::Warn);
    assert(first.0.warn_sent_on == Some(today));
    if has_alert(second.2, AlertKind::Warn) {
        let i = choose|i: int| 0 <= i < second.2.len() && (#[trigger] second.2[i]).kind == AlertKind::Warn;
        assert(second.2[i].kind == AlertKind::Warn);
    }
}

/// A goal's warning is sent once its total reaches the warning threshold,
/// unless it was already sent on that day.
pub proof fn lemma_warn_sent_when_due(
    s: GoalStateView,
    count: u32,
    goal: Goal,
    index: usize,
    total: i64,
    today: Seq<char>,
    now: i64,
)
    requires
        goal.warn_seconds matches Some(w) && counted_total(goal, total) >= w,
        s.warn_sent_on != Some(today),
    ensures
        has_alert(goal_check(s, count, goal, index, total, today, now).2, AlertKind::Warn),
        goal_check(s, count, goal, index, total, today, now).0.warn_sent_on == Some(today),
{
    let r = goal_check(s, count, goal, index, total, today, now);
    assert(r.2[0].kind == AlertKind::Warn);
}

/// No insistent alert is shown while a goal is snoozed.
pub proof fn lemma_no_annoy_while_snoozed(
    s: GoalStateView,
    count: u32,
    goal: Goal,
    index: usize,
    total: i64,
    today: Seq<char>,
    now: i64,
)
    requires
        s.snoozed_until matches Some(until) && until > now,
    ensures
        !has_alert(goal_check(s, count, goal, index, total, today, now).2, AlertKind::Annoy),
{
    let r = goal_check(s, count, goal, index, total, today, now);
    if has_alert(r.2, AlertKind::Annoy) {
        let i = choose|i: int| 0 <= i < r.2.len() && (#[trigger] r.2[i]).kind == AlertKind::Annoy;
        assert(r.2[i].kind == AlertKind::Annoy);
    }
}

/// After an insistent alert, the next one of the same goal on the same day
/// waits at least `ANNOY_REPEAT_INTERVAL_MINUTES`: a check sooner shows none.
pub proof fn lemma_annoy_repeat_interval(
    s: GoalStateView,
    count: u32,
    goal: Goal,
    index: usize,
    total1: i64,
    total2: i64,
    today: Seq<char>,
    now1: i64,
    now2: i64,
)
    requires
        has_alert(goal_check(s, count, goal, index, total1, today, now1).2, AlertKind::Annoy),
        now2 - now1 < annoy_repeat_seconds(),
    ensures
        ({
            let first = goal_check(s, count, goal, index, total1, today, now1);
            let second = goal_check(first.0, count_after(count, first.1), goal, index, total2, today, now2);
            !has_alert(second.2, AlertKind::Annoy)
        }),
{
    let first = goal_check(s, count, goal, index, total1, today, now1);
    let second = goal_check(first.0, count_after(count, first.1), goal, index, total2, today, now2);
    let i = choose|i: int| 0 <= i < first.2.len() && (#[trigger] first.2[i]).kind == AlertKind::Annoy;
    assert(first.2[i].kind == AlertKind::Annoy);
    assert(first.0.annoy_shown_on == Some(today) && first.0.last_annoy_notification_at == Some(now1));
    if has_alert(second.2, AlertKind::Annoy) {
        let j = choose|j: int| 0 <= j < second.2.len() && (#[trigger] second.2[j]).kind == AlertKind::Annoy;
        assert(second.2[j].kind == AlertKind::Annoy);
    }
}

/// Once the repeat interval has passed since the last insistent alert of the
/// day, the next check of a goal still at or above its insistent threshold
/// and not snoozed shows it again, and records that time.
pub proof fn lemma_annoy_repeats_when_due(
    s: GoalStateView,
    count: u32,
    goal: Goal,
    index: usize,
    total: i64,
    today: Seq<char>,
    now: i64,
    shown_at: i64,
)
    requires
        s.annoy_shown_on == Some(today),
        s.last_annoy_notification_at == Some(shown_at),
        now - shown_at >= annoy_repeat_seconds(),
        s.snoozed_until is None || s.snoozed_until->0 <= now,
        goal.annoy_seconds matches Some(a) && counted_total(goal, total) >= a,
    ensures
        has_alert(goal_check(s, count, goal, index, total, today, now).2, AlertKind::Annoy),
        goal_check(s, count, goal, index, total, today, now).0.last_annoy_notification_at == Some(now),
        goal_check(s, count, goal, index, total, today, now).0.annoy_shown_on == Some(today),
{
    let r = goal_check(s, count, goal, index, total, today, now);
    let k = (r.2.len() - 1) as int;
    assert(r.2[k].kind == AlertKind::Annoy);
}

/// A goal whose total is below its insistent threshold shows no insistent
/// alert, and its insistent alert, its snooze and its snooze count start over.
pub proof fn lemma_below_annoy_threshold_resets(
    s: GoalStateView,
    count: u32,
    goal: Goal,
    index: usize,
    total: i64,
    today: Seq<char>,
    now: i64,
)
    requires
        goal.annoy_seconds matches Some(a) && counted_total(goal, total) < a,
    ensures
        ({
            let r = goal_check(s, count, goal, index, total, today, now);
            &&& r.0.annoy_shown_on is None
            &&& r.0.last_annoy_notification_at is None
            &&& r.0.snoozed_until is None
            &&& count_after(count, r.1) == 0
            &&& !has_alert(r.2, AlertKind::Annoy)
        }),
{
    let r = goal_check(s, count, goal, index, total, today, now);
    if has_alert(r.2, AlertKind::Annoy) {
        let i = choose|i: int| 0 <= i < r.2.len() && (#[trigger] r.2[i]).kind == AlertKind::Annoy;
        assert(r.2[i].kind == AlertKind::Annoy);
    }
}

/// A snoozed goal shows no insistent alert until its snooze ends: after
/// snoozing goal `goal.id` for `minutes` at `snoozed_at_time`, a check before
/// that time runs out shows none.
pub proof fn lemma_snooze_silences(
    v: LimitView,
    goal: Goal,
    index: usize,
    minutes: i64,
    snoozed_at_time: i64,
    total: i64,
    today: Seq<char>,
    now: i64,
)
    requires
        i64::MIN <= snoozed_at_time + minutes * 60 <= i64::MAX,
        now < snoozed_at_time + minutes * 60,
    ensures
        !has_alert(goal_step(snoozed(v, goal.id, minutes, snoozed_at_time), goal, index, total, today, now).1, AlertKind::Annoy),
{
    let v1 = snoozed(v, goal.id, minutes, snoozed_at_time);
    assert(snoozed_at(state_of(v1, goal.id), now));
    lemma_no_annoy_while_snoozed(state_of(v1, goal.id), count_of(v1, goal.id), goal, index, total, today, now);
}

/// Whether an alert of kind `kind` for the goal at position `index` is among
/// `alerts`.
pub open spec fn has_goal_alert(alerts: Seq<AlertDecision>, index: usize, kind: AlertKind) -> bool {
    exists|k: int| 0 <= k < alerts.len() && (#[trigger] alerts[k]).goal_index == index && alerts[k].kind == kind
}

/// The alerts of one goal's check all name that goal's position.
proof fn lemma_goal_step_indices(v: LimitView, goal: Goal, index: usize, total: i64, today: Seq<char>, now: i64)
    ensures
        forall|k: int|
            0 <= k < goal_step(v, goal, index, total, today, now).1.len()
                ==> (#[trigger] goal_step(v, goal, index, total, today, now).1[k]).goal_index == index,
{
}

/// An alert for position `m` is among the alerts of the first `n` checks
/// exactly when `m < n` and the check of position `m` decided on it.
proof fn lemma_alerts_by_position(
    v: LimitView,
    goals: Seq<Goal>,
    totals: Seq<i64>,
    today: Seq<char>,
    now: i64,
    n: nat,
    m: usize,
    kind: AlertKind,
)
    requires
        n <= goals.len() <= usize::MAX + 1,
    ensures
        has_goal_alert(limits_after(v, goals, totals, today, now, n).1, m, kind) <==> (m < n
            && has_goal_alert(
            goal_step(
                limits_after(v, goals, totals, today, now, m as nat).0,
                goals[m as int],
                m,
                total_for_id(goals, totals, goals[m as int].id),
                today,
                now,
            ).1,
            m,
            kind,
        )),
    decreases n,
{
    if n > 0 {
        let before = limits_after(v, goals, totals, today, now, (n - 1) as nat);
        let goal = goals[n - 1];
        let idx = (n - 1) as usize;
        let step = goal_step(before.0, goal, idx, total_for_id(goals, totals, goal.id), today, now);
        let all = limits_after(v, goals, totals, today, now, n).1;
        assert(all == before.1 + step.1);
        lemma_alerts_by_position(v, goals, totals, today, now, (n - 1) as nat, m, kind);
        lemma_goal_step_indices(before.0, goal, idx, total_for_id(goals, totals, goal.id), today, now);
        if has_goal_alert(all, m, kind) {
            let k = choose|k: int| 0 <= k < all.len() && (#[trigger] all[k]).goal_index == m && all[k].kind == kind;
            if k < before.1.len() {
                assert(before.1[k] == all[k]);
            } else {
                assert(step.1[k - before.1.len()] == all[k]);
            }
        }
        if m < n && has_goal_alert(
            goal_step(
                limits_after(v, goals, totals, today, now, m as nat).0,
                goals[m as int],
                m,
                total_for_id(goals, totals, goals[m as int].id),
                today,
                now,
            ).1,
            m,
            kind,
        ) {
            if m == n - 1 {
                let k = choose|k: int| 0 <= k < step.1.len() && (#[trigger] step.1[k]).goal_index == m && step.1[k].kind == kind;
                assert(all[before.1.len() + k] == step.1[k]);
            } else {
                let k = choose|k: int| 0 <= k < before.1.len() && (#[trigger] before.1[k]).goal_index == m && before.1[k].kind == kind;
                assert(all[k] == before.1[k]);
            }
        }
    }
}

/// Checks of goals with other ids leave goal `id`'s state as it was.
proof fn lemma_other_checks_keep_state(
    v: LimitView,
    goals: Seq<Goal>,
    totals: Seq<i64>,
    today: Seq<char>,
    now: i64,
    n1: nat,
    n2: nat,
    id: i64,
)
    requires
        n1 <= n2 <= goals.len(),
        forall|j: int| n1 <= j < n2 ==> (#[trigger] goals[j]).id != id,
    ensures
        state_of(limits_after(v, goals, totals, today, now, n2).0, id) == state_of(
            limits_after(v, goals, totals, today, now, n1).0,
            id,
        ),
    decreases n2,
{
    if n2 > n1 {
        lemma_other_checks_keep_state(v, goals, totals, today, now, n1, (n2 - 1) as nat, id);
        assert(goals[n2 - 1].id != id);
    }
}

/// A goal whose warning was sent today keeps it so through its check, and
/// the check sends no warning.
proof fn lemma_warned_goal_check(
    s: GoalStateView,
    count: u32,
    goal: Goal,
    index: usize,
    total: i64,
    today: Seq<char>,
    now: i64,
)
    requires
        s.warn_sent_on == Some(today),
    ensures
        goal_check(s, count, goal, index, total, today, now).0.warn_sent_on == Some(today),
        !has_alert(goal_check(s, count, goal, index, total, today, now).2, AlertKind::Warn),
{
    let r = goal_check(s, count, goal, index, total, today, now);
    if has_alert(r.2, AlertKind::Warn) {
        let i = choose|i: int| 0 <= i < r.2.len() && (#[trigger] r.2[i]).kind == AlertKind::Warn;
        assert(r.2[i].kind == AlertKind::Warn);
    }
}

/// Through the first `n` checks, a goal id warned today stays warned today.
proof fn lemma_warned_stays_warned(
    v: LimitView,
    goals: Seq<Goal>,
    totals: Seq<i64>,
    today: Seq<char>,
    now: i64,
    n: nat,
    id: i64,
)
    requires
        n <= goals.len(),
        state_of(v, id).warn_sent_on == Some(today),
    ensures
        state_of(limits_after(v, goals, totals, today, now, n).0, id).warn_sent_on == Some(today),
    decreases n,
{
    if n > 0 {
        lemma_warned_stays_warned(v, goals, totals, today, now, (n - 1) as nat, id);
        let before = limits_after(v, goals, totals, today, now, (n - 1) as nat);
        let goal = goals[n - 1];
        if goal.id == id {
            lemma_warned_goal_check(
                state_of(before.0, id),
                count_of(before.0, id),
                goal,
                (n - 1) as usize,
                total_for_id(goals, totals, id),
                today,
                now,
            );
        }
    }
}

/// A goal is warned at most once a day, across the checks of a whole tick:
/// when goal id `id` was already warned on `today`, no goal with that id is
/// warned by `check_limits` that day, whatever the totals, and it stays
/// warned.
pub proof fn lemma_check_limits_warns_once_per_day(
    v: LimitView,
    goals: Seq<Goal>,
    totals: Seq<i64>,
    today: Seq<char>,
    now: i64,
    id: i64,
)
    requires
        goals.len() <= usize::MAX + 1,
        state_of(v, id).warn_sent_on == Some(today),
    ensures
        ({
            let r = limits_after(v, goals, totals, today, now, goals.len());
            &&& state_of(r.0, id).warn_sent_on == Some(today)
            &&& forall|i: int|
                0 <= i < goals.len() && (#[trigger] goals[i]).id == id ==> !has_goal_alert(
                    r.1,
                    i as usize,
                    AlertKind::Warn,
                )
        }),
{
    lemma_warned_stays_warned(v, goals, totals, today, now, goals.len(), id);
    let r = limits_after(v, goals, totals, today, now, goals.len());
    assert forall|i: int| 0 <= i < goals.len() && (#[trigger] goals[i]).id == id implies !has_goal_alert(
        r.1,
        i as usize,
        AlertKind::Warn,
    ) by {
        let m = i as usize;
        lemma_alerts_by_position(v, goals, totals, today, now, goals.len(), m, AlertKind::Warn);
        lemma_warned_stays_warned(v, goals, totals, today, now, i as nat, id);
        let before = limits_after(v, goals, totals, today, now, i as nat).0;
        lemma_warned_goal_check(
            state_of(before, id),
            count_of(before, id),
            goals[i],
            m,
            total_for_id(goals, totals, id),
            today,
            now,
        );
        let step = goal_step(before, goals[i], m, total_for_id(goals, totals, id), today, now);
        if has_goal_alert(step.1, m, AlertKind::Warn) {
            let k = choose|k: int| 0 <= k < step.1.len() && (#[trigger] step.1[k]).goal_index == m && step.1[k].kind == AlertKind::Warn;
            assert(step.1[k].kind == AlertKind::Warn);
        }
    }
}

/// The insistent alert of a goal shown today repeats only after the repeat
/// interval, across the checks of a whole tick: for the goal at position `i`,
/// whose id no other goal shares, still at or above its insistent threshold
/// and not snoozed, `check_limits` shows its insistent alert exactly when
/// `ANNOY_REPEAT_INTERVAL_MINUTES` have passed since it was last shown at
/// `shown_at`, and records `now` as the last time only then.
pub proof fn lemma_check_limits_annoy_interval(
    v: LimitView,
    goals: Seq<Goal>,
    totals: Seq<i64>,
    today: Seq<char>,
    now: i64,
    i: int,
    shown_at: i64,
)
    requires
        goals.len() <= usize::MAX + 1,
        0 <= i < goals.len(),
        forall|j: int| 0 <= j < goals.len() && j != i ==> (#[trigger] goals[j]).id != goals[i].id,
        state_of(v, goals[i].id).annoy_shown_on == Some(today),
        state_of(v, goals[i].id).last_annoy_notification_at == Some(shown_at),
        state_of(v, goals[i].id).snoozed_until is None || state_of(v, goals[i].id).snoozed_until->0 <= now,
        goals[i].annoy_seconds matches Some(a) && counted_total(
            goals[i],
            total_for_id(goals, totals, goals[i].id),
        ) >= a,
    ensures
        ({
            let r = limits_after(v, goals, totals, today, now, goals.len());
            let due = now - shown_at >= annoy_repeat_seconds();
            &&& has_goal_alert(r.1, i as usize, AlertKind::Annoy) <==> due
            &&& state_of(r.0, goals[i].id).last_annoy_notification_at == if due {
                Some(now)
            } else {
                Some(shown_at)
            }
            &&& state_of(r.0, goals[i].id).annoy_shown_on == Some(today)
        }),
{
    let id = goals[i].id;
    let m = i as usize;
    let total = total_for_id(goals, totals, id);
    lemma_other_checks_keep_state(v, goals, totals, today, now, 0, i as nat, id);
    lemma_other_checks_keep_state(v, goals, totals, today, now, (i + 1) as nat, goals.len(), id);
    lemma_alerts_by_position(v, goals, totals, today, now, goals.len(), m, AlertKind::Annoy);
    let before = limits_after(v, goals, totals, today, now, i as nat).0;
    assert(limits_after(v, goals, totals, today, now, 0).0 == v);
    assert(state_of(before, id) == state_of(v, id));
    let s = state_of(v, id);
    let step = goal_step(before, goals[i], m, total, today, now);
    let r0 = goal_check(s, count_of(before, id), goals[i], m, total, today, now);
    assert(limits_after(v, goals, totals, today, now, (i + 1) as nat).0 == step.0);
    assert(state_of(step.0, id) == r0.0);
    lemma_goal_step_indices(before, goals[i], m, total, today, now);
    if now - shown_at >= annoy_repeat_seconds() {
        let k = (step.1.len() - 1) as int;
        assert(step.1[k].kind == AlertKind::Annoy && step.1[k].goal_index == m);
    } else if has_goal_alert(step.1, m, AlertKind::Annoy) {
        let k = choose|k: int| 0 <= k < step.1.len() && (#[trigger] step.1[k]).goal_index == m && step.1[k].kind == AlertKind::Annoy;
        assert(step.1[k].kind == AlertKind::Annoy);
    }
}

/// A goal on the `idle` app counts nothing toward its thresholds; any other
/// goal counts its tracked total.
pub proof fn lemma_idle_goal_counts_nothing(goal: Goal, total: i64)
    ensures
        goal.target_kind@ != "total"@ && goal.target_value@ == "idle"@ ==> counted_total(goal, total) == 0,
        !(goal.target_kind@ != "total"@ && goal.target_value@ == "idle"@) ==> counted_total(goal, total) == total,
{
}

/// The insistent alert repeats every ten minutes: 600 seconds.
pub proof fn lemma_annoy_repeat_is_ten_minutes()
    ensures
        annoy_repeat_seconds() == 600,
{
}

/// The first time on a day that a goal's counted total reaches its insistent
/// threshold, and the goal is not snoozed, its insistent alert is shown, and
/// the day and time it was shown are recorded.
pub proof fn lemma_annoy_shown_when_reached(
    s: GoalStateView,
    count: u32,
    goal: Goal,
    index: usize,
    total: i64,
    today: Seq<char>,
    now: i64,
)
    requires
        s.annoy_shown_on != Some(today),
        s.snoozed_until is None || s.snoozed_until->0 <= now,
        goal.annoy_seconds matches Some(a) && counted_total(goal, total) >= a,
    ensures
        has_alert(goal_check(s, count, goal, index, total, today, now).2, AlertKind::Annoy),
        goal_check(s, count, goal, index, total, today, now).0.annoy_shown_on == Some(today),
        goal_check(s, count, goal, index, total, today, now).0.last_annoy_notification_at == Some(now),
{
    let r = goal_check(s, count, goal, index, total, today, now);
    let k = (r.2.len() - 1) as int;
    assert(r.2[k].kind == AlertKind::Annoy);
}

/// Whether `a` reports, for a goal `goal` checked against `total`, what the
/// goal was checked against: the goal's position `index`, its counted total,
/// and the threshold of the alert's kind, which that total reached.
pub open spec fn reports_goal(a: AlertDecision, goal: Goal, index: usize, total: i64) -> bool {
    &&& a.goal_index == index
    &&& a.total_seconds == counted_total(goal, total)
    &&& a.total_seconds >= a.threshold_seconds
    &&& (a.kind == AlertKind::Warn ==> goal.warn_seconds == Some(a.threshold_seconds))
    &&& (a.kind == AlertKind::Annoy ==> goal.annoy_seconds == Some(a.threshold_seconds))
}

/// Every alert of one goal's check reports that goal's position, the total
/// it was checked against, and the threshold of its kind.
pub proof fn lemma_goal_check_alerts_report_goal(
    s: GoalStateView,
    count: u32,
    goal: Goal,
    index: usize,
    total: i64,
    today: Seq<char>,
    now: i64,
)
    ensures
        forall|k: int|
            0 <= k < goal_check(s, count, goal, index, total, today, now).2.len() ==> reports_goal(
                #[trigger] goal_check(s, count, goal, index, total, today, now).2[k],
                goal,
                index,
                total,
            ),
{
    let r = goal_check(s, count, goal, index, total, today, now);
    assert forall|k: int| 0 <= k < r.2.len() implies reports_goal(#[trigger] r.2[k], goal, index, total) by {
        let t = counted_total(goal, total);
        let new_day = s.annoy_shown_on != Some(today);
        let s1 = rolled_over(s, today);
        let warned = warn_due(s1, goal, t);
        if warned && k == 0 {
            assert(r.2[k].kind == AlertKind::Warn);
        } else {
            assert(r.2[k].kind == AlertKind::Annoy);
        }
    }
}

/// Every alert `check_limits` decides on names a checked goal and reports
/// what that goal was checked against: its counted total (the total of its
/// id), and the threshold of the alert's kind, which that total reached.
pub proof fn lemma_check_limits_alerts_report_goals(
    v: LimitView,
    goals: Seq<Goal>,
    totals: Seq<i64>,
    today: Seq<char>,
    now: i64,
    n: nat,
)
    requires
        n <= goals.len() <= usize::MAX + 1,
    ensures
        forall|k: int|
            0 <= k < limits_after(v, goals, totals, today, now, n).1.len() ==> {
                let a = #[trigger] limits_after(v, goals, totals, today, now, n).1[k];
                &&& a.goal_index < n
                &&& reports_goal(a, goals[a.goal_index as int], a.goal_index, total_for_id(goals, totals, goals[a.goal_index as int].id))
            },
    decreases n,
{
    if n > 0 {
        lemma_check_limits_alerts_report_goals(v, goals, totals, today, now, (n - 1) as nat);
        let before = limits_after(v, goals, totals, today, now, (n - 1) as nat);
        let goal = goals[n - 1];
        let idx = (n - 1) as usize;
        let total = total_for_id(goals, totals, goal.id);
        let st = state_of(before.0, goal.id);
        let step = goal_step(before.0, goal, idx, total, today, now);
        lemma_goal_check_alerts_report_goal(st, count_of(before.0, goal.id), goal, idx, total, today, now);
        let all = limits_after(v, goals, totals, today, now, n).1;
        assert(all == before.1 + step.1);
        assert forall|k: int| 0 <= k < all.len() implies {
            let a = #[trigger] all[k];
            &&& a.goal_index < n
            &&& reports_goal(a, goals[a.goal_index as int], a.goal_index, total_for_id(goals, totals, goals[a.goal_index as int].id))
        } by {
            if k < before.1.len() {
                assert(all[k] == before.1[k]);
            } else {
                assert(all[k] == step.1[k - before.1.len()]);
                assert(reports_goal(step.1[k - before.1.len()], goal, idx, total));
            }
        }
    }
}

fn text_is(s: &Option<String>, day: &str) -> (r: bool)
    ensures
        r == (opt_view(*s) == Some(day@)),
{
    match s {
        Some(d) => same_text(d.as_str(), day),
        None => false,
    }
}

fn totals_lookup(goals: &Vec<Goal>, totals: &Vec<i64>, id: i64) -> (r: i64)
    requires
        totals@.len() == goals@.len(),
    ensures
        r == total_for_id(goals@, totals@, id),
{
    let mut k = goals.len();
    assert(goals@.take(k as int) =~= goals@);
    while k > 0
        invariant
            k <= goals@.len(),
            totals@.len() == goals@.len(),
            total_for_id(goals@, totals@, id) == total_for_id(goals@.take(k as int), totals@, id),
        decreases k,
    {
        assert(goals@.take(k as int).drop_last() =~= goals@.take(k - 1));
        if goals[k - 1].id == id {
            return totals[k - 1];
        }
        k -= 1;
    }
    0
}

impl LimitRuntime {
    proof fn lemma_view_insert(&self, id: i64, st: GoalRuntimeState, m: HashMap<i64, GoalRuntimeState>)
        requires
            m@ == self.goal_states@.insert(id, st),
        ensures
            m@.map_values(|s: GoalRuntimeState| s@) == self@.goal_states.insert(id, st@),
    {
        assert(m@.map_values(|s: GoalRuntimeState| s@) =~= self@.goal_states.insert(id, st@));
    }

    fn current_state(&self, id: i64) -> (r: GoalRuntimeState)
        ensures
            r@ == state_of(self@, id),
    {
        match self.goal_states.get(&id) {
            Some(s) => s.duplicate(),
            None => GoalRuntimeState::default(),
        }
    }

    fn current_count(&self, id: i64) -> (r: u32)
        ensures
            r == count_of(self@, id),
    {
        match self.snooze_counts.get(&id) {
            Some(c) => *c,
            None => 0,
        }
    }

    fn store_state(&mut self, id: i64, st: GoalRuntimeState)
        ensures
            final(self)@.goal_states == old(self)@.goal_states.insert(id, st@),
            final(self)@.snooze_counts == old(self)@.snooze_counts,
    {
        let ghost before = *self;
        self.goal_states.insert(id, st);
        proof {
            before.lemma_view_insert(id, st, self.goal_states);
        }
    }

    /// Checks one goal, with `total` its tracked seconds today.
    fn check_goal(&mut self, goal: &Goal, index: usize, total: i64, today_key: &str, now: i64) -> (alerts: Vec<AlertDecision>)
        ensures
            final(self)@ == goal_step(old(self)@, *goal, index, total, today_key@, now).0,
            alerts@ == goal_step(old(self)@, *goal, index, total, today_key@, now).1,
    {
        let ghost v0 = self@;
        let id = goal.id;
        let ghost s0 = state_of(v0, id);
        let mut state = self.current_state(id);
        let count0 = self.current_count(id);
        if !text_is(&state.warn_sent_on, today_key) {
            state.warn_sent_on = None;
        }
        let new_day = !text_is(&state.annoy_shown_on, today_key);
        if new_day {
            state.annoy_shown_on = None;
            state.last_annoy_notification_at = None;
        }
        let count: u32 = if new_day {
            0
        } else {
            count0
        };
        assert(state@ == rolled_over(s0, today_key@));
        let t = if !same_text(goal.target_kind.as_str(), "total") && same_text(
            goal.target_value.as_str(),
            "idle",
        ) {
            0
        } else {
            total
        };
        assert(t == counted_total(*goal, total));
        let ghost s1 = state@;
        let mut alerts: Vec<AlertDecision> = Vec::new();
        let warned = match goal.warn_seconds {
            Some(w) => t >= w && state.warn_sent_on.is_none(),
            None => false,
        };
        if warned {
            state.warn_sent_on = Some(String::from_str(today_key));
            alerts.push(
                AlertDecision {
                    goal_index: index,
                    kind: AlertKind::Warn,
                    total_seconds: t,
                    threshold_seconds: match goal.warn_seconds {
                        Some(w) => w,
                        None => 0,
                    },
                    snooze_count: count,
                },
            );
        }
        let ghost expected = check_rolled(s1, count, *goal, index, t, today_key@, now);
        let mut reset = false;
        match goal.annoy_seconds {
            None => {},
            Some(a) => {
                let annoy = AlertDecision {
                    goal_index: index,
                    kind: AlertKind::Annoy,
                    total_seconds: t,
                    threshold_seconds: a,
                    snooze_count: count,
                };
                let snoozed = match state.snoozed_until {
                    Some(until) => until > now,
                    None => false,
                };
                if t < a {
                    state.annoy_shown_on = None;
                    state.last_annoy_notification_at = None;
                    state.snoozed_until = None;
                    reset = true;
                } else if snoozed {
                } else if state.annoy_shown_on.is_none() {
                    state.annoy_shown_on = Some(String::from_str(today_key));
                    state.last_annoy_notification_at = Some(now);
                    alerts.push(annoy);
                } else {
                    let due = match state.last_annoy_notification_at {
                        Some(at) => (now as i128) - (at as i128) >= (ANNOY_REPEAT_INTERVAL_MINUTES as i128)
                            * 60,
                        None => true,
                    };
                    if due {
                        state.last_annoy_notification_at = Some(now);
                        alerts.push(annoy);
                    }
                }
            },
        }
        assert(state@ == expected.0);
        assert(reset == expected.1);
        assert(alerts@ =~= expected.2);
        self.store_state(id, state);
        if new_day || reset {
            self.snooze_counts.insert(id, 0);
        }
        let ghost v1 = self@;
        assert(v1.goal_states =~= goal_step(v0, *goal, index, total, today_key@, now).0.goal_states);
        assert(v1.snooze_counts =~= goal_step(v0, *goal, index, total, today_key@, now).0.snooze_counts);
        alerts
    }

    /// Runs the limit checks of one tick. `goal_totals[i]` is the tracked
    /// total of `goals[i]` today; where goals share an id, the last one's
    /// total counts for all of them. Goals are checked in order; the alerts
    /// decided on come back in that order.
    pub fn check_limits(&mut self, goals: &Vec<Goal>, goal_totals: &Vec<i64>, today_key: &str, now: i64) -> (alerts: Vec<AlertDecision>)
        requires
            goal_totals@.len() == goals@.len(),
        ensures
            final(self)@ == limits_after(old(self)@, goals@, goal_totals@, today_key@, now, goals@.len()).0,
            alerts@ == limits_after(old(self)@, goals@, goal_totals@, today_key@, now, goals@.len()).1,
    {
        let ghost v0 = self@;
        let mut alerts: Vec<AlertDecision> = Vec::new();
        let mut i: usize = 0;
        while i < goals.len()
            invariant
                i <= goals@.len(),
                goal_totals@.len() == goals@.len(),
                self@ == limits_after(v0, goals@, goal_totals@, today_key@, now, i as nat).0,
                alerts@ == limits_after(v0, goals@, goal_totals@, today_key@, now, i as nat).1,
            decreases goals@.len() - i,
        {
            let goal = &goals[i];
            let total = totals_lookup(goals, goal_totals, goal.id);
            let mut step = self.check_goal(goal, i, total, today_key, now);
            alerts.append(&mut step);
            i += 1;
        }
        alerts
    }

    /// Snoozes goal `goal_id` for `minutes` from `now`: its insistent alert is
    /// silenced until then and counts as not shown, and its snooze count goes
    /// up by one.
    pub fn snooze_at(&mut self, goal_id: i64, minutes: i64, now: i64)
        requires
            i64::MIN <= minutes * 60 <= i64::MAX,
            i64::MIN <= now + minutes * 60 <= i64::MAX,
            count_of(old(self)@, goal_id) < u32::MAX,
        ensures
            final(self)@ == snoozed(old(self)@, goal_id, minutes, now),
    {
        let ghost v0 = self@;
        let mut state = self.current_state(goal_id);
        let count = self.current_count(goal_id);
        state.snoozed_until = Some(now + minutes * 60);
        state.annoy_shown_on = None;
        state.last_annoy_notification_at = None;
        self.store_state(goal_id, state);
        self.snooze_counts.insert(goal_id, count + 1);
        assert(self@.goal_states =~= snoozed(v0, goal_id, minutes, now).goal_states);
        assert(self@.snooze_counts =~= snoozed(v0, goal_id, minutes, now).snooze_counts);
    }

    /// Snoozes goal `goal_id` for `minutes` from `now`, as `snooze_at` does,
    /// where that can be done: `minutes` in seconds, and the end of the
    /// snooze, fit in 64 bits, and the goal's snooze count can grow. Returns
    /// whether it did; otherwise nothing changes.
    pub fn snooze(&mut self, goal_id: i64, minutes: i64, now: i64) -> (applied: bool)
        ensures
            applied == (i64::MIN <= minutes * 60 <= i64::MAX && i64::MIN <= now + minutes * 60 <= i64::MAX
                && count_of(old(self)@, goal_id) < u32::MAX),
            applied ==> final(self)@ == snoozed(old(self)@, goal_id, minutes, now),
            !applied ==> final(self)@ == old(self)@,
    {
        let span = (minutes as i128) * 60;
        if span < i64::MIN as i128 || span > i64::MAX as i128 {
            return false;
        }
        let until = now as i128 + span;
        if until < i64::MIN as i128 || until > i64::MAX as i128 {
            return false;
        }
        if self.current_count(goal_id) == u32::MAX {
            return false;
        }
        self.snooze_at(goal_id, minutes, now);
        true
    }

    /// Forgets the snooze count of a goal that was saved: it starts again at 0.
    pub fn reset_snooze_count(&mut self, goal_id: i64)
        ensures
            final(self)@.goal_states == old(self)@.goal_states,
            final(self)@.snooze_counts == old(self)@.snooze_counts.insert(goal_id, 0u32),
    {
        self.snooze_counts.insert(goal_id, 0);
    }

    /// Forgets everything remembered of a goal that was deleted.
    pub fn forget_goal(&mut self, goal_id: i64)
        ensures
            final(self)@.goal_states == old(self)@.goal_states.remove(goal_id),
            final(self)@.snooze_counts == old(self)@.snooze_counts.remove(goal_id),
    {
        let ghost v0 = self@;
        self.goal_states.remove(&goal_id);
        self.snooze_counts.remove(&goal_id);
        assert(self@.goal_states =~= v0.goal_states.remove(goal_id));
    }
}

} // verus!
