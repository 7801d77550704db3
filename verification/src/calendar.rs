//! The proleptic Gregorian calendar: day counts since 1970-01-01, and back.

use vstd::prelude::*;

verus! {

pub open spec fn is_leap(y: int) -> bool {
    y % 4 == 0 && (y % 100 != 0 || y % 400 == 0)
}

pub open spec fn days_in_month(y: int, m: int) -> int {
    if m == 2 {
        if is_leap(y) {
            29
        } else {
            28
        }
    } else if m == 4 || m == 6 || m == 9 || m == 11 {
        30
    } else {
        31
    }
}

/// A year, month and day that the calendar has.
pub open spec fn is_date(y: int, m: int, d: int) -> bool {
    1 <= m <= 12 && 1 <= d <= days_in_month(y, m)
}

/// The days of year `y` that precede month `m`.
pub open spec fn days_before_month(y: int, m: int) -> int
    decreases m,
{
    if m <= 1 {
        0
    } else {
        days_before_month(y, m - 1) + days_in_month(y, m - 1)
    }
}

/// The leap years in the years `1..y`, counted down into the past for `y` below 1.
pub open spec fn leap_years_before(y: int) -> int {
    (y - 1) / 4 - (y - 1) / 100 + (y - 1) / 400
}

/// The days from 1970-01-01 to the first day of year `y`.
pub open spec fn days_before_year(y: int) -> int {
    365 * (y - 1970) + leap_years_before(y) - leap_years_before(1970)
}

/// The days from 1970-01-01 to the given date.
pub open spec fn day_number(y: int, m: int, d: int) -> int {
    days_before_year(y) + days_before_month(y, m) + d - 1
}

proof fn quotient_steps(x: int)
    ensures
        x / 4 == (x - 1) / 4 + if x % 4 == 0 {
            1int
        } else {
            0int
        },
        x / 100 == (x - 1) / 100 + if x % 100 == 0 {
            1int
        } else {
            0int
        },
        x / 400 == (x - 1) / 400 + if x % 400 == 0 {
            1int
        } else {
            0int
        },
        x % 100 == 0 ==> x % 4 == 0,
        x % 400 == 0 ==> x % 100 == 0,
{
    assert(x / 4 == (x - 1) / 4 + if x % 4 == 0 {
        1int
    } else {
        0int
    });
    assert(x / 100 == (x - 1) / 100 + if x % 100 == 0 {
        1int
    } else {
        0int
    });
    assert(x / 400 == (x - 1) / 400 + if x % 400 == 0 {
        1int
    } else {
        0int
    });
}

/// `days_before_year` starts at 1970 and grows by the length of each year.
pub proof fn years_follow_each_other(y: int)
    ensures
        days_before_year(1970) == 0,
        days_before_year(y + 1) == days_before_year(y) + if is_leap(y) {
            366int
        } else {
            365int
        },
{
    quotient_steps(y);
}

/// The days from 1970-01-01 for any numerals in the places of year, month and day: the year is
/// taken to start in March, so that the leap day is its last.
pub open spec fn day_number_of_numerals(y: int, m: int, d: int) -> int {
    let year = if m <= 2 {
        y - 1
    } else {
        y
    };
    let month = if m > 2 {
        m - 3
    } else {
        m + 9
    };
    365 * year + year / 4 - year / 100 + year / 400 + (153 * month + 2) / 5 + d - 1 - 719468
}

/// On the months that the calendar has, the numerals mean what the calendar says.
pub proof fn numerals_of_a_month(y: int, m: int, d: int)
    requires
        1 <= m <= 12,
    ensures
        day_number_of_numerals(y, m, d) == day_number(y, m, d),
{
    quotient_steps(y);
    assert(leap_years_before(1970) == 477);
    reveal_with_fuel(days_before_month, 13);
}

/// The numerals whose day count is computed without leaving 64 bits. A zero in the day's place
/// of March is left out too: it asks for the day before the first of the year.
pub open spec fn numerals_fit(y: int, m: int, d: int) -> bool {
    let year = if m <= 2 {
        y - 1
    } else {
        y
    };
    &&& !(m == 3 && d == 0)
    &&& i64::MIN + 400 <= y
    &&& i64::MIN <= 146097 * (year / 400)
    &&& day_number_of_numerals(y, m, d) + 719468 <= i64::MAX
    &&& i64::MIN <= day_number_of_numerals(y, m, d)
}

proof fn split_year(era: int, yoe: int)
    ensures
        (400 * era + yoe) / 4 == 100 * era + yoe / 4,
        (400 * era + yoe) / 100 == 4 * era + yoe / 100,
        0 <= yoe < 400 ==> (400 * era + yoe) / 400 == era,
{
    assert((400 * era + yoe) / 4 == 100 * era + yoe / 4);
    assert((400 * era + yoe) / 100 == 4 * era + yoe / 100);
}

/// The day count of a date, and of any numerals in its place.
pub fn days_from_civil(y: i64, m: u32, d: u32) -> (r: i64)
    requires
        numerals_fit(y as int, m as int, d as int),
    ensures
        r == day_number_of_numerals(y as int, m as int, d as int),
        1 <= m <= 12 ==> r == day_number(y as int, m as int, d as int),
{
    let year: i64 = if m <= 2 {
        y - 1
    } else {
        y
    };
    let era: i64 = if year >= 0 {
        year / 400
    } else {
        -1 - (-1 - year) / 400
    };
    assert(era == year as int / 400);
    let yoe: u64 = (year - era * 400) as u64;
    proof {
        split_year(era as int, yoe as int);
        if 1 <= m <= 12 {
            numerals_of_a_month(y as int, m as int, d as int);
        }
    }
    let month_index: u64 = if m > 2 {
        (m - 3) as u64
    } else {
        (m + 9) as u64
    };
    let doy: u64 = (153 * month_index + 2) / 5 + d as u64 - 1;
    let doe: u64 = yoe * 365 + yoe / 4 - yoe / 100 + doy;
    era * 146097 + doe as i64 - 719468
}

/// Whether the day count of the numerals can be computed.
pub fn can_count_days(y: i64, m: u32, d: u32) -> (r: bool)
    ensures
        r == numerals_fit(y as int, m as int, d as int),
{
    if (m == 3 && d == 0) || y < i64::MIN + 400 {
        return false;
    }
    let year: i64 = if m <= 2 {
        y - 1
    } else {
        y
    };
    let era: i64 = if year >= 0 {
        year / 400
    } else {
        -1 - (-1 - year) / 400
    };
    assert(era == year as int / 400);
    let yoe: i64 = year - era * 400;
    let month: i64 = if m > 2 {
        m as i64 - 3
    } else {
        m as i64 + 9
    };
    proof {
        split_year(era as int, yoe as int);
    }
    let base: i128 = 146097 * era as i128;
    let count: i128 = base + (yoe * 365 + yoe / 4 - yoe / 100 + (153 * month + 2) / 5 + d as i64 - 1) as i128;
    base >= i64::MIN as i128 && count <= i64::MAX as i128 && count - 719468 >= i64::MIN as i128
}

/// Within a cycle of 400 years that starts on the first of March, the year that day `doe` is in.
proof fn year_of_cycle(doe: u32)
    requires
        doe < 146097,
    ensures
        ({
            let yoe = (doe - doe / 1460 + doe / 36524 - doe / 146096) as int / 365;
            &&& 0 <= yoe < 400
            &&& 365 * yoe + yoe / 4 - yoe / 100 <= doe
            &&& doe < 365 * (yoe + 1) + (yoe + 1) / 4 - (yoe + 1) / 100 + (yoe + 1) / 400
        }),
{
    let a = doe as int / 36524;
    let b = doe as int % 36524;
    assert(doe == 36524 * a + b && 0 <= b < 36524 && 0 <= a <= 4);
    assert(a == 4 ==> b == 0);
    let n = doe as int - doe as int / 1460 + a - doe as int / 146096;
    let yoe = n / 365;
    let c = b / 1461;
    let e = b % 1461;
    assert(b == 1461 * c + e && 0 <= e < 1461 && 0 <= c <= 24);
    if a < 4 {
        assert(doe as int / 146096 == 0);
        assert(doe as int / 1460 == (36524 * a + 1461 * c + e) / 1460);
        let k = 24 * a + c + e;
        assert(36524 * a + 1461 * c + e == 1460 * (25 * a + c) + (24 * a + c + e));
        assert(doe as int / 1460 == 25 * a + c + (24 * a + c + e) / 1460);
        assert(n == 36500 * a + 1460 * c + e - k / 1460);
        assert(0 <= k / 1460 <= 1);
        let f = e - k / 1460;
        assert(n == 365 * (100 * a + 4 * c) + f);
        assert(0 <= f < 1460);
        assert(yoe == 100 * a + 4 * c + f / 365);
        let g = f / 365;
        assert(0 <= g <= 3);
        assert(yoe / 4 == 25 * a + c);
        assert(yoe / 100 == a);
        assert(yoe < 400);
    } else {
        assert(doe == 146096);
    }
}

proof fn leap_years_recur(era: int, yoe: int)
    ensures
        is_leap(400 * era + yoe) == is_leap(yoe),
{
    assert((400 * era + yoe) % 4 == yoe % 4);
    assert((400 * era + yoe) % 100 == yoe % 100);
    assert((400 * era + yoe) % 400 == yoe % 400);
}

/// Within a year that starts on the first of March, the month and day of day `doy`.
proof fn month_of_year(year: int, doy: int)
    requires
        0 <= doy < if is_leap(year + 1) {
            366int
        } else {
            365int
        },
    ensures
        ({
            let mp = (5 * doy + 2) / 153;
            let d = doy - (153 * mp + 2) / 5 + 1;
            let m = if mp < 10 {
                mp + 3
            } else {
                mp - 9
            };
            let y = if m <= 2 {
                year + 1
            } else {
                year
            };
            &&& 0 <= mp < 12
            &&& is_date(y, m, d)
            &&& day_number_of_numerals(y, m, d) == 365 * year + year / 4 - year / 100 + year / 400 + doy - 719468
        }),
{
    let mp = (5 * doy + 2) / 153;
    let d = doy - (153 * mp + 2) / 5 + 1;
    assert(0 <= mp < 12);
    assert(1 <= d <= 31);
    assert(mp == 1 || mp == 3 || mp == 6 || mp == 8 ==> d <= 30);
    assert(mp == 11 ==> doy == 337 + d - 1);
}

/// The date with the given day count.
pub fn civil_from_days(z: i64) -> (r: (i64, u32, u32))
    requires
        z <= i64::MAX - 719468,
    ensures
        is_date(r.0 as int, r.1 as int, r.2 as int),
        day_number(r.0 as int, r.1 as int, r.2 as int) == z,
{
    let s: i64 = z + 719468;
    let era: i64 = if s >= 0 {
        s / 146097
    } else {
        -1 - (-1 - s) / 146097
    };
    assert(era == s as int / 146097);
    let doe: u64 = (s - era * 146097) as u64;
    proof {
        year_of_cycle(doe as u32);
    }
    let yoe: u64 = (doe - doe / 1460 + doe / 36524 - doe / 146096) / 365;
    let year: i64 = yoe as i64 + era * 400;
    let doy: u64 = doe - (365 * yoe + yoe / 4 - yoe / 100);
    proof {
        split_year(era as int, yoe as int);
        split_year(era as int, yoe as int + 1);
        quotient_steps(yoe as int + 1);
        leap_years_recur(era as int, yoe as int + 1);
        month_of_year(year as int, doy as int);
    }
    let mp: u64 = (5 * doy + 2) / 153;
    let d: u32 = (doy - (153 * mp + 2) / 5 + 1) as u32;
    let m: u32 = if mp < 10 {
        (mp + 3) as u32
    } else {
        (mp - 9) as u32
    };
    let y: i64 = if m <= 2 {
        year + 1
    } else {
        year
    };
    proof {
        numerals_of_a_month(y as int, m as int, d as int);
    }
    (y, m, d)
}

/// A date has one day count, and a later date a larger one: no two dates share a count.
#[verifier::rlimit(60)]
#[verifier::spinoff_prover]
pub proof fn day_number_orders_dates(y1: int, m1: int, d1: int, y2: int, m2: int, d2: int)
    requires
        is_date(y1, m1, d1),
        is_date(y2, m2, d2),
        y1 < y2 || (y1 == y2 && (m1 < m2 || (m1 == m2 && d1 < d2))),
    ensures
        day_number(y1, m1, d1) < day_number(y2, m2, d2),
{
    reveal_with_fuel(days_before_month, 13);
    if y1 < y2 {
        years_grow(y1, y2);
    }
}

proof fn years_grow(y1: int, y2: int)
    requires
        y1 < y2,
    ensures
        days_before_year(y1) + if is_leap(y1) {
            366int
        } else {
            365int
        } <= days_before_year(y2),
    decreases y2 - y1,
{
    years_follow_each_other(y2 - 1);
    if y1 < y2 - 1 {
        years_grow(y1, y2 - 1);
    }
}

/// Counting the days of a date and asking for the date of that count gives the date back.
pub proof fn dates_round_trip(y1: int, m1: int, d1: int, y2: int, m2: int, d2: int)
    requires
        is_date(y1, m1, d1),
        is_date(y2, m2, d2),
        day_number(y1, m1, d1) == day_number(y2, m2, d2),
    ensures
        y1 == y2,
        m1 == m2,
        d1 == d2,
{
    if y1 < y2 || (y1 == y2 && (m1 < m2 || (m1 == m2 && d1 < d2))) {
        day_number_orders_dates(y1, m1, d1, y2, m2, d2);
    } else if y2 < y1 || (y1 == y2 && (m2 < m1 || (m1 == m2 && d2 < d1))) {
        day_number_orders_dates(y2, m2, d2, y1, m1, d1);
    }
}

/// A year has 366 days where four divides it, unless a hundred does and four hundred does not; its
/// months have the days they have.
pub proof fn months_have_their_days(y: int)
    ensures
        is_leap(y) <==> y % 4 == 0 && !(y % 100 == 0 && y % 400 != 0),
        days_in_month(y, 1) == 31,
        days_in_month(y, 2) == if y % 4 == 0 && !(y % 100 == 0 && y % 400 != 0) { 29int } else { 28 },
        days_in_month(y, 3) == 31,
        days_in_month(y, 4) == 30,
        days_in_month(y, 5) == 31,
        days_in_month(y, 6) == 30,
        days_in_month(y, 7) == 31,
        days_in_month(y, 8) == 31,
        days_in_month(y, 9) == 30,
        days_in_month(y, 10) == 31,
        days_in_month(y, 11) == 30,
        days_in_month(y, 12) == 31,
{
}

/// The first of January 1970 is day 0, and each day counts one more than the day before: within a
/// month, from the last of a month to the first of the next, and from the last of a year to the first
/// of the next. A date is a month of the twelve and a day that the month has.
pub proof fn days_are_counted_one_by_one(y: int, m: int, d: int)
    ensures
        is_date(y, m, d) <==> 1 <= m <= 12 && 1 <= d <= days_in_month(y, m),
        day_number(1970, 1, 1) == 0,
        day_number(y, m, d + 1) == day_number(y, m, d) + 1,
        1 <= m < 12 ==> day_number(y, m + 1, 1) == day_number(y, m, days_in_month(y, m)) + 1,
        day_number(y + 1, 1, 1) == day_number(y, 12, 31) + 1,
{
    reveal_with_fuel(days_before_month, 13);
    years_follow_each_other(y);
}

/// The count of a date leads back to the date, and the date of a count has that count.
pub proof fn dates_and_counts_lead_to_each_other(y: i64, m: u32, d: u32, n: i64, z: i64, r: (i64, u32, u32), can: bool)
    requires
        call_ensures(days_from_civil, (y, m, d), n),
        call_ensures(civil_from_days, (z,), r),
        call_ensures(can_count_days, (y, m, d), can),
    ensures
        can <==> numerals_fit(y as int, m as int, d as int),
        1 <= m <= 12 ==> n == day_number(y as int, m as int, d as int),
        is_date(r.0 as int, r.1 as int, r.2 as int),
        day_number(r.0 as int, r.1 as int, r.2 as int) == z,
        z == n && is_date(y as int, m as int, d as int) ==> r == (y, m, d),
{
    if z == n && is_date(y as int, m as int, d as int) {
        dates_round_trip(y as int, m as int, d as int, r.0 as int, r.1 as int, r.2 as int);
    }
}

} // verus!
