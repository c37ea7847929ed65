//! Dates through chrono: the `YYYY-MM-DD` key of a day and the days of a
//! dashboard week. Reading the clock is the caller's part.
use vstd::prelude::*;

use crate::manifest::opt_view;

verus! {

/// The key chrono gives day number `days` (1 January of year 1 is day 1):
/// `NaiveDate::from_num_days_from_ce_opt(days)` shown by its `Display`, the
/// `%Y-%m-%d` form; `None` where the day is out of chrono's range.
pub uninterp spec fn ce_date_key(days: i32) -> Option<Seq<char>>;

/// Calls `chrono::NaiveDate::from_num_days_from_ce_opt` and formats the date
/// with its `Display`. The contract claims only that the result is a function
/// of `days`, named `ce_date_key`.
#[verifier::external_body]
pub(crate) fn date_key(days: i32) -> (r: Option<String>)
    ensures
        opt_view(r) == ce_date_key(days),
{
    match chrono::NaiveDate::from_num_days_from_ce_opt(days) {
        Some(date) => Some(date.to_string()),
        None => None,
    }
}

/// The days of a dashboard week: the keys of the seven days that end with
/// today, oldest first, and of the first and last day of the week before.
pub struct WeekWindow {
    pub days: Vec<String>,
    pub last_week_start: String,
    pub last_week_end: String,
}

/// Whether chrono has keys for all days of the week ending on day `today`
/// and of the week before.
pub open spec fn window_in_range(today: i32) -> bool {
    &&& today - 13 >= i32::MIN
    &&& forall|k: int| 0 <= k <= 13 ==> (#[trigger] ce_date_key((today - k) as i32)) is Some
}

/// Whether `w` holds the keys of the week ending on day `today` and of the
/// first and last day of the week before.
pub open spec fn is_week_window(today: i32, w: WeekWindow) -> bool {
    &&& w.days@.len() == 7
    &&& forall|i: int|
        0 <= i < 7 ==> ce_date_key((today - 6 + i) as i32) == Some((#[trigger] w.days@[i])@)
    &&& ce_date_key((today - 13) as i32) == Some(w.last_week_start@)
    &&& ce_date_key((today - 7) as i32) == Some(w.last_week_end@)
}

/// The week ending on day `today` (a day number as chrono counts it): its
/// seven day keys, oldest first, and the keys of the first and last day of
/// the week before. `None` where one of those days is out of chrono's range.
pub fn week_window(today: i32) -> (r: Option<WeekWindow>)
    ensures
        r is None <==> !window_in_range(today),
        r matches Some(w) ==> is_week_window(today, w),
{
    if today < i32::MIN + 13 {
        return None;
    }
    let mut keys: Vec<String> = Vec::new();
    let mut k: i32 = 0;
    while k <= 13
        invariant
            0 <= k <= 14,
            today - 13 >= i32::MIN,
            keys@.len() == k,
            forall|j: int| 0 <= j < k ==> ce_date_key((today - j) as i32) == Some((#[trigger] keys@[j])@),
        decreases 14 - k,
    {
        match date_key(today - k) {
            Some(key) => keys.push(key),
            None => {
                assert(ce_date_key((today - k) as i32) is None);
                return None;
            },
        }
        k += 1;
    }
    assert(window_in_range(today)) by {
        assert forall|k: int| 0 <= k <= 13 implies (#[trigger] ce_date_key((today - k) as i32)) is Some by {
            assert(ce_date_key((today - k) as i32) == Some(keys@[k]@));
        }
    }
    let mut days: Vec<String> = Vec::new();
    let mut i: usize = 0;
    while i < 7
        invariant
            i <= 7,
            keys@.len() == 14,
            today - 13 >= i32::MIN,
            forall|j: int| 0 <= j < 14 ==> ce_date_key((today - j) as i32) == Some((#[trigger] keys@[j])@),
            days@.len() == i,
            forall|j: int| 0 <= j < i ==> ce_date_key((today - 6 + j) as i32) == Some((#[trigger] days@[j])@),
        decreases 7 - i,
    {
        days.push(keys[6 - i].clone());
        assert(ce_date_key((today - (6 - i)) as i32) == Some(keys@[6 - i]@));
        i += 1;
    }
    Some(WeekWindow { days, last_week_start: keys[13].clone(), last_week_end: keys[7].clone() })
}

} // verus!
