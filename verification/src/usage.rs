//! Tracked sessions turned into usage figures: which sessions are kept, how a
//! day's sessions split into hourly totals, and how the week summary is put
//! together from per-day figures.
use vstd::prelude::*;

use crate::models::{AppTotal, AppTotalView, HourlyData};

verus! {

/// Seconds in one hour bucket.
pub const SECONDS_PER_HOUR: i64 = 3600;

/// Hour buckets of a day.
pub const HOURS_PER_DAY: usize = 24;

/// Whether a session from `start_ms` to `end_ms` (milliseconds) is long
/// enough to keep: it lasts at least one second.
pub fn should_log_session(start_ms: i64, end_ms: i64) -> (r: bool)
    ensures
        r == (end_ms - start_ms >= 1000),
{
    (end_ms as i128) - (start_ms as i128) >= 1000
}

pub open spec fn max_int(a: int, b: int) -> int {
    if a >= b {
        a
    } else {
        b
    }
}

pub open spec fn min_int(a: int, b: int) -> int {
    if a <= b {
        a
    } else {
        b
    }
}

/// The start of a session, clamped to the day that begins at `day_start`.
pub open spec fn clamped_start(start: int, day_start: int) -> int {
    max_int(start, day_start)
}

/// The end of a session, clamped to the day whose last second is `day_end`.
pub open spec fn clamped_end(end: int, day_end: int) -> int {
    min_int(end, day_end + 1)
}

/// The seconds of the session `[start, end)`, clamped to the day, that fall in
/// hour bucket `hour` of the day.
pub open spec fn hour_overlap(start: int, end: int, day_start: int, day_end: int, hour: int) -> int {
    let s = clamped_start(start, day_start);
    let e = clamped_end(end, day_end);
    let bucket_start = day_start + hour * SECONDS_PER_HOUR;
    let o = min_int(e, bucket_start + SECONDS_PER_HOUR) - max_int(s, bucket_start);
    if o > 0 {
        o
    } else {
        0
    }
}

/// The seconds of all sessions (start, end) that fall in hour bucket `hour`.
pub open spec fn hour_total(rows: Seq<(i64, i64)>, day_start: int, day_end: int, hour: int) -> int
    decreases rows.len(),
{
    if rows.len() == 0 {
        0
    } else {
        hour_total(rows.drop_last(), day_start, day_end, hour) + hour_overlap(
            rows.last().0 as int,
            rows.last().1 as int,
            day_start,
            day_end,
            hour,
        )
    }
}

/// The seconds of a session that fall within the day, clamped to it.
pub open spec fn clamped_length(start: int, end: int, day_start: int, day_end: int) -> int {
    let o = clamped_end(end, day_end) - clamped_start(start, day_start);
    if o > 0 {
        o
    } else {
        0
    }
}

/// The seconds of all sessions that fall within the day.
pub open spec fn day_total(rows: Seq<(i64, i64)>, day_start: int, day_end: int) -> int
    decreases rows.len(),
{
    if rows.len() == 0 {
        0
    } else {
        day_total(rows.drop_last(), day_start, day_end) + clamped_length(
            rows.last().0 as int,
            rows.last().1 as int,
            day_start,
            day_end,
        )
    }
}

/// The sum of the first `n` hour buckets.
pub open spec fn buckets_sum(rows: Seq<(i64, i64)>, day_start: int, day_end: int, n: nat) -> int
    decreases n,
{
    if n == 0 {
        0
    } else {
        buckets_sum(rows, day_start, day_end, (n - 1) as nat) + hour_total(rows, day_start, day_end, n - 1)
    }
}

/// The sum of one session's overlaps with the first `n` hour buckets.
pub open spec fn overlaps_sum(start: int, end: int, day_start: int, day_end: int, n: nat) -> int
    decreases n,
{
    if n == 0 {
        0
    } else {
        overlaps_sum(start, end, day_start, day_end, (n - 1) as nat) + hour_overlap(
            start,
            end,
            day_start,
            day_end,
            n - 1,
        )
    }
}

proof fn lemma_overlap_bounds(start: int, end: int, day_start: int, day_end: int, hour: int)
    ensures
        0 <= hour_overlap(start, end, day_start, day_end, hour) <= SECONDS_PER_HOUR,
{
}

proof fn lemma_hour_total_bounds(rows: Seq<(i64, i64)>, day_start: int, day_end: int, hour: int)
    ensures
        0 <= hour_total(rows, day_start, day_end, hour) <= SECONDS_PER_HOUR * rows.len(),
    decreases rows.len(),
{
    if rows.len() > 0 {
        lemma_hour_total_bounds(rows.drop_last(), day_start, day_end, hour);
        lemma_overlap_bounds(rows.last().0 as int, rows.last().1 as int, day_start, day_end, hour);
    }
}

/// A session's overlaps with the first `n` buckets add up to the part of it
/// that lies before the end of bucket `n - 1`.
proof fn lemma_overlaps_prefix(start: int, end: int, day_start: int, day_end: int, n: nat)
    ensures
        overlaps_sum(start, end, day_start, day_end, n) == max_int(
            0,
            min_int(clamped_end(end, day_end), day_start + n * SECONDS_PER_HOUR) - clamped_start(
                start,
                day_start,
            ),
        ),
    decreases n,
{
    if n > 0 {
        lemma_overlaps_prefix(start, end, day_start, day_end, (n - 1) as nat);
    }
}

/// Adding a session adds its overlaps to the sum of the buckets.
proof fn lemma_buckets_sum_push(rows: Seq<(i64, i64)>, row: (i64, i64), day_start: int, day_end: int, n: nat)
    ensures
        buckets_sum(rows.push(row), day_start, day_end, n) == buckets_sum(rows, day_start, day_end, n)
            + overlaps_sum(row.0 as int, row.1 as int, day_start, day_end, n),
    decreases n,
{
    if n > 0 {
        lemma_buckets_sum_push(rows, row, day_start, day_end, (n - 1) as nat);
        assert(rows.push(row).drop_last() =~= rows);
    }
}

/// Every second a session spends within a day of 24 hours lands in exactly one
/// hour bucket: the 24 hourly totals add up to the tracked time of the day.
pub proof fn lemma_hourly_totals_cover_day(rows: Seq<(i64, i64)>, day_start: int, day_end: int)
    requires
        day_end == day_start + HOURS_PER_DAY * SECONDS_PER_HOUR - 1,
    ensures
        buckets_sum(rows, day_start, day_end, HOURS_PER_DAY as nat) == day_total(rows, day_start, day_end),
    decreases rows.len(),
{
    if rows.len() > 0 {
        let init = rows.drop_last();
        let row = rows.last();
        lemma_hourly_totals_cover_day(init, day_start, day_end);
        assert(init.push(row) =~= rows);
        lemma_buckets_sum_push(init, row, day_start, day_end, HOURS_PER_DAY as nat);
        lemma_overlaps_prefix(row.0 as int, row.1 as int, day_start, day_end, HOURS_PER_DAY as nat);
    } else {
        assert(buckets_sum(rows, day_start, day_end, HOURS_PER_DAY as nat) == 0) by {
            lemma_buckets_sum_empty(rows, day_start, day_end, HOURS_PER_DAY as nat);
        }
    }
}

proof fn lemma_buckets_sum_empty(rows: Seq<(i64, i64)>, day_start: int, day_end: int, n: nat)
    requires
        rows.len() == 0,
    ensures
        buckets_sum(rows, day_start, day_end, n) == 0,
    decreases n,
{
    if n > 0 {
        lemma_buckets_sum_empty(rows, day_start, day_end, (n - 1) as nat);
    }
}

/// The buckets that hold no second of a session: those before the one it
/// starts in and those after the one it ends in.
proof fn lemma_outside_hours_empty(start: int, end: int, day_start: int, day_end: int, hour: int)
    requires
        hour < (clamped_start(start, day_start) - day_start) / (SECONDS_PER_HOUR as int) || hour > max_int(
            clamped_end(end, day_end) - day_start - 1,
            0,
        ) / (SECONDS_PER_HOUR as int),
    ensures
        hour_overlap(start, end, day_start, day_end, hour) == 0,
{
}

/// The tracked seconds of a day per hour bucket. Each session (start, end)
/// is clamped to the day `[day_start, day_end]` and split over the buckets it
/// touches, bucket `h` covering `[day_start + 3600 h, day_start + 3600 (h + 1))`.
pub fn hourly_buckets(rows: &Vec<(i64, i64)>, day_start: i64, day_end: i64) -> (r: Vec<HourlyData>)
    requires
        rows@.len() * SECONDS_PER_HOUR <= i64::MAX,
    ensures
        r@.len() == HOURS_PER_DAY,
        forall|h: int|
            0 <= h < HOURS_PER_DAY ==> (#[trigger] r@[h]).hour == h && r@[h].total == hour_total(
                rows@,
                day_start as int,
                day_end as int,
                h,
            ),
{
    let mut totals: Vec<i64> = Vec::new();
    while totals.len() < HOURS_PER_DAY
        invariant
            totals@.len() <= HOURS_PER_DAY,
            forall|h: int| 0 <= h < totals@.len() ==> totals@[h] == 0,
        decreases HOURS_PER_DAY - totals@.len(),
    {
        totals.push(0);
    }
    let ds = day_start as i128;
    let de = day_end as i128;
    let hour_len = SECONDS_PER_HOUR as i128;
    let mut k: usize = 0;
    while k < rows.len()
        invariant
            k <= rows@.len(),
            rows@.len() * SECONDS_PER_HOUR <= i64::MAX,
            totals@.len() == HOURS_PER_DAY,
            ds == day_start,
            de == day_end,
            hour_len == SECONDS_PER_HOUR,
            forall|h: int|
                0 <= h < HOURS_PER_DAY ==> #[trigger] totals@[h] == hour_total(
                    rows@.take(k as int),
                    day_start as int,
                    day_end as int,
                    h,
                ),
        decreases rows@.len() - k,
    {
        let ghost prev = totals@;
        let ghost done = rows@.take(k as int);
        let (raw_start, raw_end) = rows[k];
        assert(rows@.take(k + 1).drop_last() =~= done);
        assert(rows@.take(k + 1).last() == rows@[k as int]);
        let start: i128 = if (raw_start as i128) > ds {
            raw_start as i128
        } else {
            ds
        };
        let end: i128 = if (raw_end as i128) < de + 1 {
            raw_end as i128
        } else {
            de + 1
        };
        let start_hour: i128 = (start - ds) / hour_len;
        let last_offset: i128 = if end - ds - 1 > 0 {
            end - ds - 1
        } else {
            0
        };
        let end_hour: i128 = last_offset / hour_len;
        let mut hour: i128 = start_hour;
        while hour <= end_hour && hour < HOURS_PER_DAY as i128
            invariant
                start_hour <= hour,
                0 <= start_hour,
                start_hour == (start - ds) / (hour_len as int),
                end_hour == max_int(end - ds - 1, 0) / (hour_len as int),
                start == clamped_start(raw_start as int, day_start as int),
                end == clamped_end(raw_end as int, day_end as int),
                totals@.len() == HOURS_PER_DAY,
                ds == day_start,
                de == day_end,
                hour_len == SECONDS_PER_HOUR,
                k < rows@.len(),
                done == rows@.take(k as int),
                prev.len() == HOURS_PER_DAY,
                rows@.len() * SECONDS_PER_HOUR <= i64::MAX,
                forall|h: int|
                    0 <= h < HOURS_PER_DAY ==> prev[h] == hour_total(done, day_start as int, day_end as int, h),
                forall|h: int|
                    0 <= h < HOURS_PER_DAY ==> #[trigger] totals@[h] == prev[h] + (if start_hour <= h < hour {
                        hour_overlap(raw_start as int, raw_end as int, day_start as int, day_end as int, h)
                    } else {
                        0
                    }),
            decreases HOURS_PER_DAY as i128 - hour,
        {
            let bucket_start = ds + hour * hour_len;
            let bucket_end = bucket_start + hour_len;
            let upper = if end < bucket_end {
                end
            } else {
                bucket_end
            };
            let lower = if start > bucket_start {
                start
            } else {
                bucket_start
            };
            let overlap = upper - lower;
            let h = hour as usize;
            proof {
                lemma_hour_total_bounds(done, day_start as int, day_end as int, hour as int);
                assert(done.len() == k);
                assert(SECONDS_PER_HOUR * k + SECONDS_PER_HOUR <= rows@.len() * SECONDS_PER_HOUR)
                    by (nonlinear_arith)
                    requires
                        k < rows@.len(),
                ;
            }
            if overlap > 0 {
                let updated = totals[h] + (overlap as i64);
                totals.set(h, updated);
            }
            hour += 1;
        }
        proof {
            assert forall|h: int| 0 <= h < HOURS_PER_DAY implies #[trigger] totals@[h] == hour_total(
                rows@.take(k + 1),
                day_start as int,
                day_end as int,
                h,
            ) by {
                if !(start_hour <= h < hour) {
                    lemma_outside_hours_empty(raw_start as int, raw_end as int, day_start as int, day_end as int, h);
                }
            }
        }
        k += 1;
    }
    assert(rows@.take(rows@.len() as int) =~= rows@);
    let mut out: Vec<HourlyData> = Vec::new();
    let mut h: usize = 0;
    while h < HOURS_PER_DAY
        invariant
            h <= HOURS_PER_DAY,
            out@.len() == h,
            totals@.len() == HOURS_PER_DAY,
            forall|i: int|
                0 <= i < HOURS_PER_DAY ==> #[trigger] totals@[i] == hour_total(
                    rows@,
                    day_start as int,
                    day_end as int,
                    i,
                ),
            forall|i: int|
                0 <= i < h ==> (#[trigger] out@[i]).hour == i && out@[i].total == totals@[i],
        decreases HOURS_PER_DAY - h,
    {
        out.push(HourlyData { hour: h as u32, total: totals[h] });
        h += 1;
    }
    out
}

} // verus!
