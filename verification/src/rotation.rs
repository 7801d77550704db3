//! Logs of one file a day: how the files are named, which are read and which are removed.

use vstd::prelude::*;

use crate::calendar;
use crate::paths;
use crate::table::Table;
use crate::text;

verus! {

pub const SECONDS_PER_DAY: u64 = 86400;

/// `date` is at most `retention_days` before `today`. Today is within every window.
pub open spec fn in_window(today: int, date: int, retention_days: u64) -> bool {
    today - date <= retention_days
}

/// Whether a file of day `date` is still within the window.
pub fn within_window(today: i64, date: i64, retention_days: u64) -> (r: bool)
    ensures
        r == in_window(today as int, date as int, retention_days),
{
    today as i128 - date as i128 <= retention_days as i128
}

/// The name of the file of a day: `activities-2020-01-01.jsonl` for the stem `activities`.
pub open spec fn file_name(stem: Seq<char>, date: Seq<char>) -> Seq<char> {
    stem + "-"@ + date + ".jsonl"@
}

/// The path of the file of a day.
pub fn file_path_for(stem: &str, dir: &str, date: &str) -> (r: String)
    ensures
        r@ == paths::joined(dir@, file_name(stem@, date@)),
{
    let mut name = text::concat3(stem, "-", date);
    name.append(".jsonl");
    paths::join(dir, &name)
}

/// The day that a moment is in, counted from 1970-01-01. The moment is given in seconds.
pub fn day_bucket_index(secs: u64) -> (r: i64)
    ensures
        r == secs / SECONDS_PER_DAY,
{
    (secs / SECONDS_PER_DAY) as i64
}

/// A date as it is written.
pub open spec fn date_text(y: nat, m: nat, d: nat) -> Seq<char> {
    text::padded(y, 4) + "-"@ + text::padded(m, 2) + "-"@ + text::padded(d, 2)
}

/// The text is the date of the day.
pub open spec fn is_date_text(t: Seq<char>, day: int) -> bool {
    exists|y: nat, m: nat, d: nat| #[trigger]
        calendar::is_date(y as int, m as int, d as int) && calendar::day_number(y as int, m as int, d as int) == day && t
            == date_text(y, m, d)
}

/// The date that a moment is in. The moment is given in seconds.
pub fn day_bucket(secs: u64) -> (r: String)
    ensures
        is_date_text(r@, secs as int / SECONDS_PER_DAY as int),
{
    let (y, m, d) = calendar::civil_from_days(day_bucket_index(secs));
    proof {
        if y < 1970 {
            calendar::day_number_orders_dates(y as int, m as int, d as int, 1970, 1, 1);
            calendar::years_follow_each_other(1970);
        }
    }
    let mut out = text::padded_u64(y as u64, 4);
    out.append("-");
    out.append(&text::padded_u64(m as u64, 2));
    out.append("-");
    out.append(&text::padded_u64(d as u64, 2));
    assert(calendar::is_date(y as nat as int, m as nat as int, d as nat as int));
    out
}

/// What stands for the date in the name of a file of the log.
pub open spec fn date_part(stem: Seq<char>, name: Seq<char>) -> Option<Seq<char>> {
    let start = stem + "-"@;
    if text::has_prefix(name, start) {
        let rest = name.skip(start.len() as int);
        if text::has_suffix(rest, ".jsonl"@) {
            Some(rest.take(rest.len() - ".jsonl"@.len()))
        } else {
            None
        }
    } else {
        None
    }
}

/// The year, month and day in a text of the form of a date.
pub open spec fn date_numerals(t: Seq<char>) -> Option<(int, int, int)> {
    match text::split_at_first(t, '-') {
        Some((ty, rest)) => match text::split_at_first(rest, '-') {
            Some((tm, td)) => match (
                text::signed_value(ty),
                text::unsigned_value(tm, u32::MAX as nat),
                text::unsigned_value(td, u32::MAX as nat),
            ) {
                (Some(y), Some(m), Some(d)) => Some((y, m as int, d as int)),
                _ => None,
            },
            None => None,
        },
        None => None,
    }
}

/// The numerals in the name of a file of the log; none where the file is not one.
pub open spec fn name_numerals(stem: Seq<char>, name: Seq<char>) -> Option<(int, int, int)> {
    match date_part(stem, name) {
        Some(t) => date_numerals(t),
        None => None,
    }
}

/// The day of a file of the log.
pub open spec fn day_of_name(stem: Seq<char>, name: Seq<char>) -> Option<int> {
    match name_numerals(stem, name) {
        Some((y, m, d)) => Some(calendar::day_number_of_numerals(y, m, d)),
        None => None,
    }
}

/// The numerals in the name, where there are any, are ones whose day can be counted.
pub open spec fn name_is_countable(stem: Seq<char>, name: Seq<char>) -> bool {
    match name_numerals(stem, name) {
        Some((y, m, d)) => calendar::numerals_fit(y, m, d),
        None => true,
    }
}

fn read_numerals(stem: &str, name: &str) -> (r: Option<(i64, u32, u32)>)
    ensures
        match r {
            Some((y, m, d)) => name_numerals(stem@, name@) == Some((y as int, m as int, d as int)),
            None => name_numerals(stem@, name@) is None,
        },
{
    let start = text::concat2(stem, "-");
    let rest = match text::strip_prefix(name, &start) {
        Some(rest) => rest,
        None => {
            return None;
        },
    };
    let date = match text::strip_suffix(&rest, ".jsonl") {
        Some(date) => date,
        None => {
            return None;
        },
    };
    let (ty, more) = match text::split_once(&date, '-') {
        Some(p) => p,
        None => {
            return None;
        },
    };
    let (tm, td) = match text::split_once(&more, '-') {
        Some(p) => p,
        None => {
            return None;
        },
    };
    match (text::parse_i64(&ty), text::parse_u32(&tm), text::parse_u32(&td)) {
        (Some(y), Some(m), Some(d)) => Some((y, m, d)),
        _ => None,
    }
}

/// Whether the day in the name, where there is one, can be counted.
pub fn is_countable(stem: &str, name: &str) -> (r: bool)
    ensures
        r == name_is_countable(stem@, name@),
{
    match read_numerals(stem, name) {
        Some((y, m, d)) => calendar::can_count_days(y, m, d),
        None => true,
    }
}

/// The day of a file of the log; none where the file is not one.
pub fn parse_date_from_filename(stem: &str, name: &str) -> (r: Option<i64>)
    requires
        name_is_countable(stem@, name@),
    ensures
        match r {
            Some(day) => day_of_name(stem@, name@) == Some(day as int),
            None => day_of_name(stem@, name@) is None,
        },
{
    match read_numerals(stem, name) {
        Some((y, m, d)) => Some(calendar::days_from_civil(y, m, d)),
        None => None,
    }
}

/// The file is one of the log, and of a day within the window.
pub open spec fn is_kept(stem: Seq<char>, name: Seq<char>, today: int, retention_days: u64) -> bool {
    match day_of_name(stem, name) {
        Some(day) => in_window(today, day, retention_days),
        None => false,
    }
}

/// The file is one of the log, and of a day before the window.
pub open spec fn is_expired(stem: Seq<char>, name: Seq<char>, today: int, retention_days: u64) -> bool {
    match day_of_name(stem, name) {
        Some(day) => !in_window(today, day, retention_days),
        None => false,
    }
}

/// The files of a directory that are read, oldest first.
pub fn files_within_window(stem: &str, names: &Vec<String>, today: i64, retention_days: u64) -> (r: Vec<String>)
    requires
        forall|i: int| 0 <= i < names@.len() ==> name_is_countable(stem@, (#[trigger] names@[i])@),
    ensures
        forall|i: int, j: int| 0 <= i < j < r@.len() ==> text::text_lt((#[trigger] r@[i])@, (#[trigger] r@[j])@),
        forall|t: Seq<char>| #[trigger]
            text::texts(r@).contains(t) <==> text::texts(names@).contains(t) && is_kept(
                stem@,
                t,
                today as int,
                retention_days,
            ),
{
    let mut kept: Table<bool> = Table::new();
    let mut i: usize = 0;
    while i < names.len()
        invariant
            i <= names@.len(),
            forall|i: int| 0 <= i < names@.len() ==> name_is_countable(stem@, (#[trigger] names@[i])@),
            forall|t: Seq<char>| #[trigger]
                kept@.dom().contains(t) <==> text::texts(names@).take(i as int).contains(t) && is_kept(
                    stem@,
                    t,
                    today as int,
                    retention_days,
                ),
        decreases names@.len() - i,
    {
        let ghost before = text::texts(names@).take(i as int);
        let ghost after = text::texts(names@).take(i + 1);
        let ghost here = names@[i as int]@;
        proof {
            assert(after =~= before.push(here));
            assert forall|t: Seq<char>| #[trigger] after.contains(t) <==> before.contains(t) || t == here by {
                assert(before.push(here)[before.len() as int] == here);
                if before.contains(t) {
                    let j = choose|j: int| 0 <= j < before.len() && before[j] == t;
                    assert(after[j] == t);
                }
                if after.contains(t) {
                    let j = choose|j: int| 0 <= j < after.len() && after[j] == t;
                    if j < before.len() {
                        assert(before[j] == t);
                    }
                }
            }
        }
        if let Some(day) = parse_date_from_filename(stem, &names[i]) {
            if within_window(today, day, retention_days) {
                kept.insert(names[i].clone(), true);
            }
        }
        i = i + 1;
    }
    assert(text::texts(names@).take(names@.len() as int) =~= text::texts(names@));
    let mut out: Vec<String> = Vec::new();
    let n = kept.len();
    let mut k: usize = 0;
    while k < n
        invariant
            k <= n,
            n == kept.rows().len(),
            crate::table::in_key_order(kept.rows()),
            out@.len() == k,
            forall|j: int| 0 <= j < k ==> (#[trigger] out@[j])@ == kept.rows()[j].0,
        decreases n - k,
    {
        out.push(kept.key_at(k).clone());
        k = k + 1;
    }
    proof {
        assert forall|t: Seq<char>| #[trigger] text::texts(out@).contains(t) <==> kept@.dom().contains(t) by {
            if text::texts(out@).contains(t) {
                let j = choose|j: int| 0 <= j < text::texts(out@).len() && text::texts(out@)[j] == t;
                assert(kept.rows()[j].0 == t);
                assert(crate::table::has_key(kept.rows(), t));
            }
            if kept@.dom().contains(t) {
                let j = crate::table::row_of(kept.rows(), t);
                assert(kept.rows()[j].0 == t);
                assert(text::texts(out@)[j] == t);
            }
        }
    }
    out
}

/// Whether the file is to be removed: it is one of the log, and its day is before the window.
/// Any other file is left alone.
pub fn to_prune(stem: &str, name: &str, today: i64, retention_days: u64) -> (r: bool)
    requires
        name_is_countable(stem@, name@),
    ensures
        r == is_expired(stem@, name@, today as int, retention_days),
{
    match parse_date_from_filename(stem, name) {
        Some(day) => !within_window(today, day, retention_days),
        None => false,
    }
}

/// A line of a log that holds something.
pub fn holds_a_record(line: &str) -> (r: bool)
    ensures
        r == !text::is_blank(line@),
{
    !text::blank(line)
}

/// No file is both read and removed, and a file of the log is one of the two.
pub proof fn read_or_removed(stem: Seq<char>, name: Seq<char>, today: int, retention_days: u64)
    ensures
        !(is_kept(stem, name, today, retention_days) && is_expired(stem, name, today, retention_days)),
        day_of_name(stem, name) is Some <==> (is_kept(stem, name, today, retention_days) || is_expired(
            stem,
            name,
            today,
            retention_days,
        )),
{
}

proof fn digits_hold_no_dash(s: Seq<char>)
    requires
        text::is_digits(s),
    ensures
        !s.contains('-'),
{
    if s.contains('-') {
        let i = choose|i: int| 0 <= i < s.len() && s[i] == '-';
        assert(text::is_digit(s[i]));
    }
}

/// The file that is written to on a day is read back as a file of that day, and is within every
/// window on that day.
pub proof fn todays_file_is_read_back(stem: Seq<char>, date: Seq<char>, day: int, retention_days: u64)
    requires
        is_date_text(date, day),
        0 <= day <= 213503982334601,
    ensures
        name_is_countable(stem, file_name(stem, date)),
        day_of_name(stem, file_name(stem, date)) == Some(day),
        is_kept(stem, file_name(stem, date), day, retention_days),
{
    let (y, m, d) = choose|y: nat, m: nat, d: nat| #[trigger]
        calendar::is_date(y as int, m as int, d as int) && calendar::day_number(y as int, m as int, d as int) == day
            && date == date_text(y, m, d);
    let name = file_name(stem, date);
    let start = stem + "-"@;
    let end = ".jsonl"@;
    assert(name.take(start.len() as int) =~= start);
    let rest = name.skip(start.len() as int);
    assert(rest =~= date + end);
    assert(rest.skip(rest.len() - end.len()) =~= end);
    assert(rest.take(rest.len() - end.len()) =~= date);
    reveal_strlit("-");
    let ty = text::padded(y, 4);
    let tm = text::padded(m, 2);
    let td = text::padded(d, 2);
    text::padded_read_back(y, 4);
    text::padded_read_back(m, 2);
    text::padded_read_back(d, 2);
    digits_hold_no_dash(ty);
    digits_hold_no_dash(tm);
    assert(date =~= ty.push('-') + (tm.push('-') + td));
    text::split_is_at_first(ty, '-', tm.push('-') + td);
    text::split_is_at_first(tm, '-', td);
    assert(text::is_digit(ty[0]));
    calendar::numerals_of_a_month(y as int, m as int, d as int);
    year_is_small(y as int, m as int, d as int, day);
}

proof fn year_is_small(y: int, m: int, d: int, day: int)
    requires
        calendar::is_date(y, m, d),
        calendar::day_number(y, m, d) == day,
        0 <= day <= 213503982334601,
        y >= 0,
    ensures
        y <= 600000000000,
        calendar::numerals_fit(y, m, d),
{
    if y > 600000000000 {
        calendar::day_number_orders_dates(600000000000, 1, 1, y, m, d);
        assert(calendar::leap_years_before(600000000000) == 145499999999);
        assert(calendar::leap_years_before(1970) == 477);
    }
    calendar::numerals_of_a_month(y, m, d);
}

/// A file of the log is named by its stem and its day. What is named otherwise is no file of the log,
/// and has no day.
pub proof fn files_are_named_by_their_day(stem: Seq<char>, name: Seq<char>, date: Seq<char>)
    ensures
        file_name(stem, date) == stem + "-"@ + date + ".jsonl"@,
        date_part(stem, stem + "-"@ + date + ".jsonl"@) == Some(date),
        day_of_name(stem, stem + "-"@ + date + ".jsonl"@) is Some <==> date_numerals(date) is Some,
        !(exists|d: Seq<char>| name == #[trigger] file_name(stem, d)) ==> day_of_name(stem, name) is None
            && name_is_countable(stem, name),
{
    let n = stem + "-"@ + date + ".jsonl"@;
    let start = stem + "-"@;
    let end = ".jsonl"@;
    assert(n.take(start.len() as int) =~= start);
    let rest = n.skip(start.len() as int);
    assert(rest =~= date + end);
    assert(rest.skip(rest.len() - end.len()) =~= end);
    assert(rest.take(rest.len() - end.len()) =~= date);
    if day_of_name(stem, name) is Some || !name_is_countable(stem, name) {
        let rest = name.skip(start.len() as int);
        let d = date_part(stem, name)->0;
        assert(rest =~= d + end) by {
            assert(rest =~= rest.take(rest.len() - end.len()) + rest.skip(rest.len() - end.len()));
        }
        assert(name =~= start + rest) by {
            assert(name =~= name.take(start.len() as int) + name.skip(start.len() as int));
        }
        assert(name =~= file_name(stem, d));
    }
}

/// The numerals of a date are its year, month and day, as three numbers between dashes; anything else
/// has none.
pub proof fn dates_are_three_numbers(ty: Seq<char>, tm: Seq<char>, td: Seq<char>, t: Seq<char>)
    requires
        !ty.contains('-'),
        !tm.contains('-'),
    ensures
        date_numerals(ty.push('-') + tm.push('-') + td) == match (
            text::unsigned_value(ty, 0x7fff_ffff_ffff_ffff),
            text::unsigned_value(tm, 0xffff_ffff),
            text::unsigned_value(td, 0xffff_ffff),
        ) {
            (Some(y), Some(m), Some(d)) => Some((y as int, m as int, d as int)),
            _ => None,
        },
        !t.contains('-') ==> date_numerals(t) is None,
        !t.contains('-') ==> date_numerals(ty.push('-') + t) is None,
{
    let all = ty.push('-') + tm.push('-') + td;
    assert(all =~= ty.push('-') + (tm.push('-') + td));
    text::split_is_at_first(ty, '-', tm.push('-') + td);
    text::split_is_at_first(tm, '-', td);
    if ty.len() > 0 {
        assert(ty.contains(ty[0]));
    }
    if !t.contains('-') {
        text::no_split_without(t, '-');
        text::split_is_at_first(ty, '-', t);
    }
}

/// Of the files in a directory those are read that are of the log and at most so many days old, oldest
/// first, each once; those are removed that are of the log and older, and no others.
pub proof fn young_files_are_read_and_old_ones_removed(
    stem: &str,
    names: Vec<String>,
    today: i64,
    days: u64,
    r: Vec<String>,
    name: &str,
    gone: bool,
    date: i64,
    within: bool,
    i: int,
    j: int,
)
    requires
        call_ensures(files_within_window, (stem, &names, today, days), r),
        call_ensures(to_prune, (stem, name, today, days), gone),
        call_ensures(within_window, (today, date, days), within),
    ensures
        within <==> today - date <= days,
        text::texts(r@).contains(name@) <==> text::texts(names@).contains(name@) && (day_of_name(stem@, name@) matches Some(
            day,
        ) && today - day <= days),
        0 <= i < j < r@.len() ==> text::text_lt(r@[i]@, r@[j]@),
        gone <==> (day_of_name(stem@, name@) matches Some(day) && today - day > days),
{
}

/// A day has 86400 seconds, counted from 1970-01-01; its name is the year, the month and the day, with
/// four, two and two digits at least.
pub proof fn days_are_named_by_their_date(secs: u64, n: i64, r: String)
    requires
        call_ensures(day_bucket_index, (secs,), n),
        call_ensures(day_bucket, (secs,), r),
    ensures
        86400 * n <= secs < 86400 * (n + 1),
        exists|y: nat, m: nat, d: nat| #[trigger]
            calendar::is_date(y as int, m as int, d as int) && calendar::day_number(y as int, m as int, d as int) == n
                && r@ == text::padded(y, 4) + "-"@ + text::padded(m, 2) + "-"@ + text::padded(d, 2),
{
    let day = secs as int / 86400;
    assert(n == day);
    let (y, m, d) = choose|y: nat, m: nat, d: nat| #[trigger]
        calendar::is_date(y as int, m as int, d as int) && calendar::day_number(y as int, m as int, d as int) == day && r@
            == date_text(y, m, d);
    assert(calendar::is_date(y as int, m as int, d as int));
}

/// A line holds a record unless it is white space alone; the path of a file is its directory and its
/// name.
pub proof fn blank_lines_hold_nothing(line: &str, b: bool, stem: &str, dir: &str, date: &str, p: String, i: int)
    requires
        call_ensures(holds_a_record, (line,), b),
        call_ensures(file_path_for, (stem, dir, date), p),
    ensures
        !b && 0 <= i < line@.len() ==> text::is_white_space(line@[i]),
        b ==> exists|k: int| 0 <= k < line@.len() && !text::is_white_space(#[trigger] line@[k]),
        p@ == paths::joined(dir@, stem@ + "-"@ + date@ + ".jsonl"@),
{
}

/// The day in the name of a file is that of its date, where it can be counted.
pub proof fn days_are_read_from_names(stem: &str, name: &str, can: bool, r: Option<i64>)
    requires
        call_ensures(is_countable, (stem, name), can),
        call_ensures(parse_date_from_filename, (stem, name), r),
    ensures
        can <==> name_is_countable(stem@, name@),
        r is Some <==> day_of_name(stem@, name@) is Some,
        r is Some ==> r->0 == day_of_name(stem@, name@)->0,
{
}

} // verus!
