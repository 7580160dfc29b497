//! Calendar dates, their `YYYYMMDD` keys, and the days that one aggregation
//! fetches.

use crate::feed::AggregateError;
use crate::text::{decimal, push_padded, zero_padded};
use chrono::{Datelike, NaiveDate};
use vstd::prelude::*;

verus! {

/// Earliest year of the supported proleptic Gregorian range.
pub const MIN_YEAR: i32 = -262143;

/// Latest year of the supported proleptic Gregorian range.
pub const MAX_YEAR: i32 = 262142;

/// Number of trailing days whose identities are excluded.
pub const EXCLUDED_DAYS: usize = 3;

/// A proleptic Gregorian calendar date.
#[derive(Clone, Copy, Debug, PartialEq, Eq, Structural)]
pub struct CalDate {
    pub year: i32,
    pub month: u32,
    pub day: u32,
}

pub open spec fn is_leap_year(y: int) -> bool {
    y % 4 == 0 && (y % 100 != 0 || y % 400 == 0)
}

pub open spec fn days_in_month(y: int, m: int) -> int {
    if m == 2 {
        if is_leap_year(y) {
            29
        } else {
            28
        }
    } else if m == 4 || m == 6 || m == 9 || m == 11 {
        30
    } else {
        31
    }
}

pub open spec fn valid_date(d: CalDate) -> bool {
    &&& MIN_YEAR <= d.year <= MAX_YEAR
    &&& 1 <= d.month <= 12
    &&& 1 <= d.day <= days_in_month(d.year as int, d.month as int)
}

/// The calendar day before `d`.
pub open spec fn prev_date(d: CalDate) -> CalDate {
    if d.day > 1 {
        CalDate { year: d.year, month: d.month, day: (d.day - 1) as u32 }
    } else if d.month > 1 {
        CalDate {
            year: d.year,
            month: (d.month - 1) as u32,
            day: days_in_month(d.year as int, d.month - 1) as u32,
        }
    } else {
        CalDate { year: (d.year - 1) as i32, month: 12, day: 31 }
    }
}

/// The date `n` days before `d`.
pub open spec fn days_back(d: CalDate, n: nat) -> CalDate
    decreases n,
{
    if n == 0 {
        d
    } else {
        prev_date(days_back(d, (n - 1) as nat))
    }
}

/// Relies on chrono::NaiveDate::from_ymd_opt, which accepts exactly the valid
/// dates of its range, and NaiveDate::pred_opt, the day before (none before
/// the first day of the range).
#[verifier::external_body]
fn day_before(d: CalDate) -> (r: Option<CalDate>)
    ensures
        r == (if valid_date(d) && valid_date(prev_date(d)) {
            Some(prev_date(d))
        } else {
            None::<CalDate>
        }),
{
    let p = NaiveDate::from_ymd_opt(d.year, d.month, d.day)?.pred_opt()?;
    Some(CalDate { year: p.year(), month: p.month(), day: p.day() })
}

/// The `YYYYMMDD` key of a date: the year zero-padded to four characters
/// (sign included), month and day to two digits each.
pub open spec fn date_key(d: CalDate) -> Seq<char> {
    let y = if d.year >= 0 {
        zero_padded(decimal(d.year as nat), 4)
    } else {
        "-"@ + zero_padded(decimal((-d.year) as nat), 3)
    };
    y + zero_padded(decimal(d.month as nat), 2) + zero_padded(decimal(d.day as nat), 2)
}

/// The `YYYYMMDD` key of a date, as the ranking feed takes it.
pub fn format_date_key(d: CalDate) -> (r: String)
    ensures
        r@ == date_key(d),
{
    let mut r = String::new();
    if d.year >= 0 {
        push_padded(&mut r, d.year as u64, 4);
    } else {
        r.append("-");
        push_padded(&mut r, (-(d.year as i64)) as u64, 3);
    }
    push_padded(&mut r, d.month as u64, 2);
    push_padded(&mut r, d.day as u64, 2);
    proof {
        reveal_strlit("-");
    }
    assert(r@ =~= date_key(d));
    r
}

/// The days whose ranking one aggregation fetches, as `YYYYMMDD` keys: the
/// inclusion window walking back from the anchor, then the exclusion window
/// that continues the walk.
#[derive(Debug)]
pub struct RankingPlan {
    pub included: Vec<String>,
    pub excluded: Vec<String>,
}

/// The last offset from `today` that a plan needs.
pub open spec fn last_offset(day_start: u8, day_length: u8) -> nat {
    (day_start + day_length + EXCLUDED_DAYS - 1) as nat
}

/// Plans the days of an aggregation: the anchor is `day_start` days before
/// `today`; the inclusion window holds the `day_length` days from the anchor
/// backward, the exclusion window the `EXCLUDED_DAYS` days before those.
pub fn plan_days(today: CalDate, day_start: u8, day_length: u8) -> (r: Result<
    RankingPlan,
    AggregateError,
>)
    ensures
        r is Ok <==> (forall|j: nat|
            j <= last_offset(day_start, day_length) ==> #[trigger] valid_date(days_back(today, j))),
        r matches Err(e) ==> e == AggregateError::DateOutOfRange,
        r matches Ok(p) ==> {
            &&& p.included@.len() == day_length
            &&& forall|i: int|
                0 <= i < day_length ==> (#[trigger] p.included@[i])@ == date_key(
                    days_back(today, (day_start + i) as nat),
                )
            &&& p.excluded@.len() == EXCLUDED_DAYS
            &&& forall|i: int|
                0 <= i < EXCLUDED_DAYS ==> (#[trigger] p.excluded@[i])@ == date_key(
                    days_back(today, (day_start + day_length + i) as nat),
                )
        },
{
    let start: u64 = day_start as u64;
    let end: u64 = start + day_length as u64;
    let last: u64 = end + EXCLUDED_DAYS as u64 - 1;
    let mut included: Vec<String> = Vec::new();
    let mut excluded: Vec<String> = Vec::new();
    let mut cur = today;
    let mut k: u64 = 0;
    loop
        invariant
            k <= last,
            last == last_offset(day_start, day_length),
            start == day_start,
            end == day_start + day_length,
            cur == days_back(today, k as nat),
            k > 0 ==> valid_date(cur),
            forall|j: nat| j < k ==> #[trigger] valid_date(days_back(today, j)),
            included@.len() == (if k <= start {
                0
            } else if k <= end {
                k - start
            } else {
                day_length as int
            }),
            excluded@.len() == (if k <= end {
                0
            } else {
                k - end
            }),
            forall|i: int|
                0 <= i < included@.len() ==> (#[trigger] included@[i])@ == date_key(
                    days_back(today, (day_start + i) as nat),
                ),
            forall|i: int|
                0 <= i < excluded@.len() ==> (#[trigger] excluded@[i])@ == date_key(
                    days_back(today, (day_start + day_length + i) as nat),
                ),
        decreases last - k,
    {
        if k >= start {
            if k < end {
                included.push(format_date_key(cur));
            } else {
                excluded.push(format_date_key(cur));
            }
        }
        if k == last {
            assert forall|j: nat| j <= last_offset(day_start, day_length) implies #[trigger] valid_date(
                days_back(today, j),
            ) by {
                if j == k {
                } else {
                    assert(j < k);
                }
            }
            return Ok(RankingPlan { included, excluded });
        }
        match day_before(cur) {
            Some(p) => {
                cur = p;
                assert(days_back(today, (k + 1) as nat) == prev_date(days_back(today, k as nat)));
            },
            None => {
                assert(!valid_date(days_back(today, k as nat)) || !valid_date(
                    days_back(today, (k + 1) as nat),
                ));
                return Err(AggregateError::DateOutOfRange);
            },
        }
        k = k + 1;
    }
}

} // verus!
