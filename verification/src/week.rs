//! The week summary of the dashboard, put together from per-day figures:
//! each day's total and apps, the week's total, its apps and its top app.
use vstd::prelude::*;

use crate::models::{AppTotal, AppTotalView, WeekDay};
use crate::text::same_text;

verus! {

/// The texts of a sequence of strings.
pub open spec fn text_views(v: Seq<String>) -> Seq<Seq<char>> {
    v.map_values(|s: String| s@)
}

/// The contents of a sequence of app totals.
pub open spec fn app_views(v: Seq<AppTotal>) -> Seq<AppTotalView> {
    v.map_values(|a: AppTotal| a@)
}

/// The total recorded for day `key`: that of the last row for it, 0 when no
/// row is for it.
pub open spec fn day_total_of(rows: Seq<(String, i64)>, key: Seq<char>) -> i64
    decreases rows.len(),
{
    if rows.len() == 0 {
        0
    } else if rows.last().0@ == key {
        rows.last().1
    } else {
        day_total_of(rows.drop_last(), key)
    }
}

/// The apps recorded for day `key`, in the order of the rows.
pub open spec fn apps_on(rows: Seq<(String, AppTotal)>, key: Seq<char>) -> Seq<AppTotalView>
    decreases rows.len(),
{
    if rows.len() == 0 {
        Seq::<AppTotalView>::empty()
    } else if rows.last().0@ == key {
        apps_on(rows.drop_last(), key).push(rows.last().1@)
    } else {
        apps_on(rows.drop_last(), key)
    }
}

/// Whether day `i` is the first of the listed days with its key: the apps of
/// a day are handed out once.
pub open spec fn first_with_key(keys: Seq<Seq<char>>, i: int) -> bool {
    forall|j: int| 0 <= j < i ==> keys[j] != keys[i]
}

/// The apps listed for day `i`.
pub open spec fn day_apps(keys: Seq<Seq<char>>, rows: Seq<(String, AppTotal)>, i: int) -> Seq<AppTotalView> {
    if first_with_key(keys, i) {
        apps_on(rows, keys[i])
    } else {
        Seq::<AppTotalView>::empty()
    }
}

/// The sum of the totals of the first `n` listed days.
pub open spec fn week_sum(rows: Seq<(String, i64)>, keys: Seq<Seq<char>>, n: nat) -> int
    decreases n,
{
    if n == 0 {
        0
    } else {
        week_sum(rows, keys, (n - 1) as nat) + day_total_of(rows, keys[n - 1])
    }
}

/// The week on the dashboard: each day with its total and apps, the week's
/// apps, its total, the previous week's total, and the top app.
pub struct WeekSummary {
    pub days: Vec<WeekDay>,
    pub apps: Vec<AppTotal>,
    pub week_total: i64,
    pub previous_week_total: i64,
    pub top_app: Option<AppTotal>,
}

proof fn lemma_week_sum_bound(rows: Seq<(String, i64)>, keys: Seq<Seq<char>>, n: nat)
    ensures
        -(n * 0x8000_0000_0000_0000) <= week_sum(rows, keys, n) <= n * 0x8000_0000_0000_0000,
    decreases n,
{
    if n > 0 {
        lemma_week_sum_bound(rows, keys, (n - 1) as nat);
    }
}

fn day_total_for(rows: &Vec<(String, i64)>, key: &String) -> (r: i64)
    ensures
        r == day_total_of(rows@, key@),
{
    let mut k = rows.len();
    assert(rows@.take(k as int) =~= rows@);
    while k > 0
        invariant
            k <= rows@.len(),
            day_total_of(rows@, key@) == day_total_of(rows@.take(k as int), key@),
        decreases k,
    {
        assert(rows@.take(k as int).drop_last() =~= rows@.take(k - 1));
        if same_text(rows[k - 1].0.as_str(), key.as_str()) {
            return rows[k - 1].1;
        }
        k -= 1;
    }
    0
}

fn apps_for(rows: &Vec<(String, AppTotal)>, key: &String) -> (r: Vec<AppTotal>)
    ensures
        app_views(r@) == apps_on(rows@, key@),
{
    let mut out: Vec<AppTotal> = Vec::new();
    let mut k: usize = 0;
    while k < rows.len()
        invariant
            k <= rows@.len(),
            app_views(out@) == apps_on(rows@.take(k as int), key@),
        decreases rows@.len() - k,
    {
        assert(rows@.take(k + 1).drop_last() =~= rows@.take(k as int));
        if same_text(rows[k].0.as_str(), key.as_str()) {
            let ghost before = out@;
            out.push(rows[k].1.duplicate());
            assert(app_views(out@) =~= app_views(before).push(rows@[k as int].1@));
        }
        k += 1;
    }
    assert(rows@.take(rows@.len() as int) =~= rows@);
    out
}

fn key_seen_before(days: &Vec<String>, i: usize) -> (r: bool)
    requires
        i < days@.len(),
    ensures
        r == !first_with_key(text_views(days@), i as int),
{
    let mut j: usize = 0;
    while j < i
        invariant
            j <= i < days@.len(),
            forall|m: int| 0 <= m < j ==> days@[m]@ != days@[i as int]@,
        decreases i - j,
    {
        if same_text(days[j].as_str(), days[i].as_str()) {
            assert(text_views(days@)[j as int] == text_views(days@)[i as int]);
            return true;
        }
        j += 1;
    }
    false
}

fn copy_apps(apps: &Vec<AppTotal>) -> (r: Vec<AppTotal>)
    ensures
        app_views(r@) == app_views(apps@),
{
    let mut out: Vec<AppTotal> = Vec::new();
    let mut k: usize = 0;
    while k < apps.len()
        invariant
            k <= apps@.len(),
            app_views(out@) == app_views(apps@.take(k as int)),
        decreases apps@.len() - k,
    {
        let ghost before = out@;
        out.push(apps[k].duplicate());
        assert(app_views(out@) =~= app_views(before).push(apps@[k as int]@));
        assert(apps@.take(k + 1) =~= apps@.take(k as int).push(apps@[k as int]));
        assert(app_views(apps@.take(k + 1)) =~= app_views(apps@.take(k as int)).push(apps@[k as int]@));
        k += 1;
    }
    assert(apps@.take(apps@.len() as int) =~= apps@);
    out
}

/// Puts the week summary together. `days` are the keys of the week's days,
/// oldest first; `daily_totals` holds (day, seconds) rows and `daily_apps`
/// (day, app total) rows; `week_apps` are the week's app totals, largest
/// first. Each listed day takes the total of the last row for it (0 when
/// none) and the apps of its rows in order (handed out to the first day with
/// that key only); the week's total is the sum of the day totals, and the top
/// app is the first of the week's apps.
pub fn build_week_summary(
    days: &Vec<String>,
    daily_totals: &Vec<(String, i64)>,
    daily_apps: &Vec<(String, AppTotal)>,
    week_apps: Vec<AppTotal>,
    previous_week_total: i64,
) -> (r: WeekSummary)
    requires
        i64::MIN <= week_sum(daily_totals@, text_views(days@), days@.len()) <= i64::MAX,
    ensures
        r.days@.len() == days@.len(),
        forall|i: int|
            0 <= i < days@.len() ==> {
                &&& (#[trigger] r.days@[i]).date@ == days@[i]@
                &&& r.days@[i].total == day_total_of(daily_totals@, days@[i]@)
                &&& app_views(r.days@[i].apps@) == day_apps(text_views(days@), daily_apps@, i)
            },
        r.week_total == week_sum(daily_totals@, text_views(days@), days@.len()),
        app_views(r.apps@) == app_views(week_apps@),
        r.previous_week_total == previous_week_total,
        r.top_app is Some <==> week_apps@.len() > 0,
        r.top_app matches Some(a) ==> a@ == week_apps@[0]@,
{
    let ghost keys = text_views(days@);
    let mut out: Vec<WeekDay> = Vec::new();
    let mut sum: i128 = 0;
    let mut i: usize = 0;
    while i < days.len()
        invariant
            i <= days@.len(),
            keys == text_views(days@),
            out@.len() == i,
            sum == week_sum(daily_totals@, keys, i as nat),
            forall|j: int|
                0 <= j < i ==> {
                    &&& (#[trigger] out@[j]).date@ == days@[j]@
                    &&& out@[j].total == day_total_of(daily_totals@, days@[j]@)
                    &&& app_views(out@[j].apps@) == day_apps(keys, daily_apps@, j)
                },
        decreases days@.len() - i,
    {
        let key = &days[i];
        let total = day_total_for(daily_totals, key);
        let apps = if key_seen_before(days, i) {
            Vec::new()
        } else {
            apps_for(daily_apps, key)
        };
        assert(app_views(apps@) == day_apps(keys, daily_apps@, i as int)) by {
            if !first_with_key(keys, i as int) {
                assert(app_views(apps@) =~= Seq::<AppTotalView>::empty());
            }
        }
        proof {
            lemma_week_sum_bound(daily_totals@, keys, (i + 1) as nat);
        }
        sum = sum + total as i128;
        out.push(WeekDay { date: key.clone(), total, apps });
        i += 1;
    }
    let top_app = if week_apps.len() > 0 {
        Some(week_apps[0].duplicate())
    } else {
        None
    };
    let apps = copy_apps(&week_apps);
    WeekSummary { days: out, apps, week_total: sum as i64, previous_week_total, top_app }
}

} // verus!
