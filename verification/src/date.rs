//! A plain calendar date, with the `month/day/year` text form the record
//! store uses.
//!
//! The sentinel date 01/01/1969 marks an unset date: it is written as the
//! empty string and read back from it.

use vstd::prelude::*;
use crate::strutil;

verus! {

/// A Gregorian calendar date held as plain numbers.
#[derive(Clone, Copy, PartialEq, Eq, Structural, Debug)]
pub struct Date {
    pub year: u32,
    pub month: u32,
    pub day: u32,
}

/// A leap year in the Gregorian calendar.
pub open spec fn is_leap(y: int) -> bool {
    y % 4 == 0 && (y % 100 != 0 || y % 400 == 0)
}

/// The number of days of a month.
pub open spec fn days_in_month(y: int, m: int) -> int {
    if m == 1 || m == 3 || m == 5 || m == 7 || m == 8 || m == 10 || m == 12 {
        31
    } else if m == 4 || m == 6 || m == 9 || m == 11 {
        30
    } else if is_leap(y) {
        29
    } else {
        28
    }
}

impl Date {
    /// A real calendar date with a year of at most four digits.
    pub open spec fn wf(self) -> bool {
        &&& 1 <= self.year <= 9999
        &&& 1 <= self.month <= 12
        &&& 1 <= self.day <= days_in_month(self.year as int, self.month as int)
    }

    /// The sentinel standing for an unset date.
    pub open spec fn spec_unset() -> Date {
        Date { year: 1969, month: 1, day: 1 }
    }

    /// The sentinel standing for an unset date.
    pub fn unset() -> (d: Date)
        ensures
            d == Date::spec_unset(),
            d.wf(),
    {
        Date { year: 1969, month: 1, day: 1 }
    }

    /// The `mm/dd/yyyy` form of this date.
    pub open spec fn spec_mdy(self) -> Seq<char> {
        strutil::zero_pad_spec(strutil::dec_spec(self.month as nat), 2) + seq!['/']
            + strutil::zero_pad_spec(strutil::dec_spec(self.day as nat), 2) + seq!['/']
            + strutil::zero_pad_spec(strutil::dec_spec(self.year as nat), 4)
    }

    /// Format this date as `mm/dd/yyyy`, zero-padded.
    pub fn mdy_chars(&self) -> (v: Vec<char>)
        ensures
            v@ == self.spec_mdy(),
    {
        let m = strutil::u64_chars(self.month as u64);
        let mut v = strutil::zero_pad(&m, 2);
        v.push('/');
        let d = strutil::u64_chars(self.day as u64);
        let dp = strutil::zero_pad(&d, 2);
        strutil::push_chars(&mut v, &dp);
        v.push('/');
        let y = strutil::u64_chars(self.year as u64);
        let yp = strutil::zero_pad(&y, 4);
        strutil::push_chars(&mut v, &yp);
        assert(v@ =~= self.spec_mdy());
        v
    }

    /// Format this date as `mm/dd/yyyy`, as a string.
    pub fn mdy(&self) -> (s: String)
        ensures
            s@ == self.spec_mdy(),
    {
        let v = self.mdy_chars();
        strutil::string_of(&v)
    }

    /// The text written for this date into a record field: `mm/dd/yyyy`, or
    /// the empty string for the unset sentinel.
    pub open spec fn spec_field_text(self) -> Seq<char> {
        if self == Date::spec_unset() {
            Seq::<char>::empty()
        } else {
            self.spec_mdy()
        }
    }

    /// Format this date for a record field: empty when unset.
    pub fn field_text(&self) -> (s: String)
        ensures
            s@ == self.spec_field_text(),
    {
        if self.year == 1969 && self.month == 1 && self.day == 1 {
            String::new()
        } else {
            self.mdy()
        }
    }
}

/// The length of a year in days.
pub open spec fn days_in_year(y: int) -> int {
    if is_leap(y) {
        366
    } else {
        365
    }
}

/// The epoch day on which year `y` begins: day zero is the first day of
/// 1970, and years before it count downward through the proleptic
/// calendar.
pub open spec fn year_start_day(y: int) -> int
    decreases vstd::math::abs(y - 1970),
{
    if y == 1970 {
        0
    } else if y > 1970 {
        year_start_day(y - 1) + days_in_year(y - 1)
    } else {
        year_start_day(y + 1) - days_in_year(y)
    }
}

/// Days of year `y` that precede month `m`.
pub open spec fn days_before_month(y: int, m: int) -> int
    decreases m,
{
    if m <= 1 {
        0
    } else {
        days_before_month(y, m - 1) + days_in_month(y, m - 1)
    }
}

/// The epoch day of a civil date.
pub open spec fn epoch_day_of(y: int, m: int, d: int) -> int {
    year_start_day(y) + days_before_month(y, m) + d - 1
}

/// A civil date-time: the proleptic date and the clock time of day.
#[derive(Clone, Copy, PartialEq, Eq, Structural, Debug)]
pub struct CivilDateTime {
    pub year: i64,
    pub month: u32,
    pub day: u32,
    pub hour: u32,
    pub minute: u32,
    pub second: u32,
}

/// The date-time reads the given epoch-second count: its fields are in
/// range and its epoch equation holds.
pub open spec fn civil_valid(c: CivilDateTime, secs: int) -> bool {
    &&& 1 <= c.month <= 12
    &&& 1 <= c.day <= days_in_month(c.year as int, c.month as int)
    &&& c.hour < 24
    &&& c.minute < 60
    &&& c.second < 60
    &&& epoch_day_of(c.year as int, c.month as int, c.day as int) * 86400 + c.hour * 3600
        + c.minute * 60 + c.second == secs
}

/// The civil reading of an epoch-second count: the one date-time whose
/// epoch equation holds (`lemma_civil_unique` says there is at most one).
pub open spec fn civil_of(secs: int) -> CivilDateTime {
    choose|c: CivilDateTime| civil_valid(c, secs)
}

/// Stepping a year forward adds that year's length to its start day.
pub proof fn lemma_year_start_step(y: int)
    ensures
        year_start_day(y + 1) == year_start_day(y) + days_in_year(y),
{
}

/// Year start days grow by at least 365 per year.
pub proof fn lemma_year_start_increasing(y1: int, y2: int)
    requires
        y1 <= y2,
    ensures
        year_start_day(y1) + 365 * (y2 - y1) <= year_start_day(y2),
    decreases y2 - y1,
{
    if y1 < y2 {
        lemma_year_start_increasing(y1, y2 - 1);
        lemma_year_start_step(y2 - 1);
    }
}

/// The months of a year sum to the year's length.
pub proof fn lemma_months_sum(y: int)
    ensures
        days_before_month(y, 13) == days_in_year(y),
{
    assert(days_before_month(y, 1) == 0);
    assert(days_before_month(y, 2) == days_before_month(y, 1) + days_in_month(y, 1));
    assert(days_before_month(y, 3) == days_before_month(y, 2) + days_in_month(y, 2));
    assert(days_before_month(y, 4) == days_before_month(y, 3) + 31);
    assert(days_before_month(y, 5) == days_before_month(y, 4) + 30);
    assert(days_before_month(y, 6) == days_before_month(y, 5) + 31);
    assert(days_before_month(y, 7) == days_before_month(y, 6) + 30);
    assert(days_before_month(y, 8) == days_before_month(y, 7) + 31);
    assert(days_before_month(y, 9) == days_before_month(y, 8) + 31);
    assert(days_before_month(y, 10) == days_before_month(y, 9) + 30);
    assert(days_before_month(y, 11) == days_before_month(y, 10) + 31);
    assert(days_before_month(y, 12) == days_before_month(y, 11) + 30);
    assert(days_before_month(y, 13) == days_before_month(y, 12) + 31);
}

/// Later months of a year start no earlier.
pub proof fn lemma_dbm_monotonic(y: int, m1: int, m2: int)
    requires
        1 <= m1 <= m2 <= 13,
    ensures
        days_before_month(y, m1) <= days_before_month(y, m2),
    decreases m2 - m1,
{
    if m1 < m2 {
        lemma_dbm_monotonic(y, m1, m2 - 1);
        assert(days_in_month(y, m2 - 1) >= 28);
    }
}

/// A day of a month lies within its year.
pub proof fn lemma_day_of_year_bounds(y: int, m: int, d: int)
    requires
        1 <= m <= 12,
        1 <= d <= days_in_month(y, m),
    ensures
        0 <= days_before_month(y, m) + d - 1 < days_in_year(y),
{
    lemma_dbm_monotonic(y, 1, m);
    lemma_dbm_monotonic(y, m + 1, 13);
    lemma_months_sum(y);
    assert(days_before_month(y, m + 1) == days_before_month(y, m) + days_in_month(y, m));
}

/// At most one civil date has a given epoch day.
pub proof fn lemma_civil_day_unique(y1: int, m1: int, d1: int, y2: int, m2: int, d2: int)
    requires
        1 <= m1 <= 12,
        1 <= d1 <= days_in_month(y1, m1),
        1 <= m2 <= 12,
        1 <= d2 <= days_in_month(y2, m2),
        epoch_day_of(y1, m1, d1) == epoch_day_of(y2, m2, d2),
    ensures
        y1 == y2 && m1 == m2 && d1 == d2,
{
    lemma_day_of_year_bounds(y1, m1, d1);
    lemma_day_of_year_bounds(y2, m2, d2);
    lemma_year_start_step(y1);
    lemma_year_start_step(y2);
    if y1 < y2 {
        lemma_year_start_increasing(y1 + 1, y2);
        assert(false);
    }
    if y2 < y1 {
        lemma_year_start_increasing(y2 + 1, y1);
        assert(false);
    }
    if m1 < m2 {
        lemma_dbm_monotonic(y1, m1 + 1, m2);
        assert(days_before_month(y1, m1 + 1) == days_before_month(y1, m1) + days_in_month(
            y1,
            m1,
        ));
        assert(false);
    }
    if m2 < m1 {
        lemma_dbm_monotonic(y1, m2 + 1, m1);
        assert(days_before_month(y1, m2 + 1) == days_before_month(y1, m2) + days_in_month(
            y1,
            m2,
        ));
        assert(false);
    }
}

/// At most one civil date-time reads a given epoch-second count.
pub proof fn lemma_civil_unique(c1: CivilDateTime, c2: CivilDateTime, secs: int)
    requires
        civil_valid(c1, secs),
        civil_valid(c2, secs),
    ensures
        c1 == c2,
{
    let e1 = epoch_day_of(c1.year as int, c1.month as int, c1.day as int);
    let e2 = epoch_day_of(c2.year as int, c2.month as int, c2.day as int);
    let t1 = c1.hour * 3600 + c1.minute * 60 + c1.second;
    let t2 = c2.hour * 3600 + c2.minute * 60 + c2.second;
    assert(0 <= t1 < 86400 && 0 <= t2 < 86400);
    assert(e1 * 86400 + t1 == e2 * 86400 + t2);
    assert(e1 == e2) by {
        if e1 < e2 {
            assert(e1 * 86400 + 86400 <= e2 * 86400) by (nonlinear_arith)
                requires
                    e1 < e2,
            ;
            assert(false);
        }
        if e2 < e1 {
            assert(e2 * 86400 + 86400 <= e1 * 86400) by (nonlinear_arith)
                requires
                    e2 < e1,
            ;
            assert(false);
        }
    }
    lemma_civil_day_unique(
        c1.year as int,
        c1.month as int,
        c1.day as int,
        c2.year as int,
        c2.month as int,
        c2.day as int,
    );
}


/// Whether year `y` is a leap year, for any proleptic year.
fn leap_year(y: i64) -> (r: bool)
    requires
        y > i64::MIN,
    ensures
        r == is_leap(y as int),
{
    let a: u64 = if y >= 0 {
        y as u64
    } else {
        (-y) as u64
    };
    proof {
        if y < 0 {
            assert(a as int == -(y as int));
            assert(((y as int) % 4 == 0) == ((a as int) % 4 == 0)) by (nonlinear_arith)
                requires
                    a as int == -(y as int),
            ;
            assert(((y as int) % 100 == 0) == ((a as int) % 100 == 0)) by (nonlinear_arith)
                requires
                    a as int == -(y as int),
            ;
            assert(((y as int) % 400 == 0) == ((a as int) % 400 == 0)) by (nonlinear_arith)
                requires
                    a as int == -(y as int),
            ;
        }
    }
    a % 4 == 0 && (a % 100 != 0 || a % 400 == 0)
}

/// The length of year `y` in days.
fn year_len(y: i64) -> (r: u32)
    requires
        y > i64::MIN,
    ensures
        r as int == days_in_year(y as int),
{
    if leap_year(y) {
        366
    } else {
        365
    }
}

/// The length of month `m` of year `y` in days.
fn month_len(y: i64, m: u32) -> (r: u32)
    requires
        y > i64::MIN,
    ensures
        r as int == days_in_month(y as int, m as int),
{
    if m == 1 || m == 3 || m == 5 || m == 7 || m == 8 || m == 10 || m == 12 {
        31
    } else if m == 4 || m == 6 || m == 9 || m == 11 {
        30
    } else if leap_year(y) {
        29
    } else {
        28
    }
}

/// Read an epoch-second count as a civil date-time, by walking the years
/// and months out from the epoch. The bound keeps the day arithmetic and
/// the humanized-duration callers on one domain.
pub fn civil_from_secs(secs: i64) -> (c: CivilDateTime)
    requires
        -(i64::MAX as int) / 1000 <= secs <= (i64::MAX as int) / 1000,
    ensures
        civil_valid(c, secs as int),
        c == civil_of(secs as int),
        -400_000_000 <= c.year <= 400_000_000,
{
    // split off the time of day so the day count is exact
    let (day, sod): (i64, i64) = if secs >= 0 {
        (secs / 86400, secs % 86400)
    } else {
        let neg = -secs;
        let q = neg / 86400;
        let r = neg % 86400;
        if r == 0 {
            (-q, 0)
        } else {
            (-q - 1, 86400 - r)
        }
    };
    assert(day * 86400 + sod == secs && 0 <= sod < 86400);
    let hour = (sod / 3600) as u32;
    let minute = ((sod % 3600) / 60) as u32;
    let second = (sod % 60) as u32;
    assert(hour * 3600 + minute * 60 + second == sod && hour < 24 && minute < 60 && second < 60);

    // walk the years out from 1970 until the day falls inside one
    let mut y: i64 = 1970;
    let mut rem: i64 = day;
    if rem >= 0 {
        while rem >= year_len(y) as i64
            invariant
                1970 <= y <= 400_000_000,
                rem == day - year_start_day(y as int),
                rem >= 0,
                0 <= day <= (i64::MAX as int) / 1000 / 86400 + 1,
            decreases rem,
        {
            proof {
                lemma_year_start_increasing(1970, y as int);
                assert(365 * (y - 1970) <= day);
                assert(y + 1 <= 400_000_000);
                lemma_year_start_step(y as int);
            }
            rem = rem - year_len(y) as i64;
            y = y + 1;
        }
    } else {
        while rem < 0
            invariant
                -400_000_000 <= y <= 1970,
                rem == day - year_start_day(y as int),
                rem < days_in_year(y as int),
                -((i64::MAX as int) / 1000 / 86400) - 1 <= day <= 0,
            decreases 366 - rem,
        {
            proof {
                lemma_year_start_increasing(y as int, 1970);
                assert(year_start_day(y as int) <= -365 * (1970 - y));
                assert(year_start_day(y as int) == day - rem);
                assert(365 * (1970 - y) <= rem - day);
                assert(y - 1 >= -400_000_000);
                lemma_year_start_step(y - 1);
            }
            y = y - 1;
            rem = rem + year_len(y) as i64;
        }
    }
    assert(0 <= rem < days_in_year(y as int));

    // walk the months of that year
    let mut m: u32 = 1;
    proof {
        assert(days_before_month(y as int, 1) == 0);
    }
    while m < 12 && rem >= month_len(y, m) as i64
        invariant
            1 <= m <= 12,
            -400_000_000 <= y <= 400_000_000,
            rem == day - year_start_day(y as int) - days_before_month(y as int, m as int),
            rem >= 0,
            day - year_start_day(y as int) < days_in_year(y as int),
        decreases 12 - m,
    {
        proof {
            assert(days_before_month(y as int, m + 1) == days_before_month(y as int, m as int)
                + days_in_month(y as int, m as int));
        }
        rem = rem - month_len(y, m) as i64;
        m = m + 1;
    }
    proof {
        if m == 12 {
            lemma_months_sum(y as int);
            assert(days_before_month(y as int, 13) == days_before_month(y as int, 12)
                + days_in_month(y as int, 12));
        }
    }
    assert(rem < days_in_month(y as int, m as int));

    let c = CivilDateTime { year: y, month: m, day: (rem + 1) as u32, hour, minute, second };
    proof {
        assert(civil_valid(c, secs as int)) by {
            assert(epoch_day_of(c.year as int, c.month as int, c.day as int) == day);
            assert(day * 86400 + (hour * 3600 + minute * 60 + second) == secs);
        }
        assert(civil_valid(civil_of(secs as int), secs as int)) by {
            assert(exists|w: CivilDateTime| civil_valid(w, secs as int)) by {
                assert(civil_valid(c, secs as int));
            }
        }
        lemma_civil_unique(c, civil_of(secs as int), secs as int);
    }
    c
}

/// The text form of a civil date-time, as the issue tracker shows times:
/// `year-month-day hour:minute:second UTC`, each number zero-padded, the
/// year to four digits.
pub open spec fn utc_text(c: CivilDateTime) -> Seq<char> {
    (if c.year >= 0 {
        strutil::zero_pad_spec(strutil::dec_spec(c.year as nat), 4)
    } else {
        seq!['-'] + strutil::zero_pad_spec(strutil::dec_spec((-(c.year as int)) as nat), 4)
    }) + seq!['-'] + strutil::zero_pad_spec(strutil::dec_spec(c.month as nat), 2) + seq!['-']
        + strutil::zero_pad_spec(strutil::dec_spec(c.day as nat), 2) + seq![' ']
        + strutil::zero_pad_spec(strutil::dec_spec(c.hour as nat), 2) + seq![':']
        + strutil::zero_pad_spec(strutil::dec_spec(c.minute as nat), 2) + seq![':']
        + strutil::zero_pad_spec(strutil::dec_spec(c.second as nat), 2) + " UTC"@
}

/// Render an epoch-second count as the civil UTC timestamp text.
pub fn utc_timestamp_text(secs: i64) -> (r: String)
    requires
        -(i64::MAX as int) / 1000 <= secs <= (i64::MAX as int) / 1000,
    ensures
        r@ == utc_text(civil_of(secs as int)),
{
    let c = civil_from_secs(secs);
    let mut v: Vec<char> = Vec::new();
    if c.year >= 0 {
        let yd = strutil::u64_chars(c.year as u64);
        let yp = strutil::zero_pad(&yd, 4);
        strutil::push_chars(&mut v, &yp);
    } else {
        v.push('-');
        let yd = strutil::u64_chars((-c.year) as u64);
        let yp = strutil::zero_pad(&yd, 4);
        strutil::push_chars(&mut v, &yp);
    }
    v.push('-');
    let mo = strutil::u64_chars(c.month as u64);
    let mop = strutil::zero_pad(&mo, 2);
    strutil::push_chars(&mut v, &mop);
    v.push('-');
    let dd = strutil::u64_chars(c.day as u64);
    let ddp = strutil::zero_pad(&dd, 2);
    strutil::push_chars(&mut v, &ddp);
    v.push(' ');
    let hh = strutil::u64_chars(c.hour as u64);
    let hhp = strutil::zero_pad(&hh, 2);
    strutil::push_chars(&mut v, &hhp);
    v.push(':');
    let mi = strutil::u64_chars(c.minute as u64);
    let mip = strutil::zero_pad(&mi, 2);
    strutil::push_chars(&mut v, &mip);
    v.push(':');
    let ss = strutil::u64_chars(c.second as u64);
    let ssp = strutil::zero_pad(&ss, 2);
    strutil::push_chars(&mut v, &ssp);
    strutil::push_str(&mut v, " UTC");
    assert(v@ =~= utc_text(c));
    strutil::string_of(&v)
}

/// A decimal digit.
pub open spec fn is_digit(c: char) -> bool {
    '0' <= c && c <= '9'
}

/// The value of a decimal digit.
pub open spec fn digit_val(c: char) -> int {
    c as int - '0' as int
}

/// All characters of `s` are decimal digits.
pub open spec fn all_digits(s: Seq<char>) -> bool {
    forall|i: int| 0 <= i < s.len() ==> is_digit(#[trigger] s[i])
}

/// The number written by the digits of `s`, most significant first.
pub open spec fn num_val(s: Seq<char>) -> int
    decreases s.len(),
{
    if s.len() == 0 {
        0
    } else {
        num_val(s.drop_last()) * 10 + digit_val(s.last())
    }
}

/// The index of the first `/` in `s` at or after 0, or the length of `s`.
pub open spec fn find_slash(s: Seq<char>, from: int) -> int
    decreases s.len() - from,
{
    if from < 0 || from >= s.len() {
        s.len() as int
    } else if s[from] == '/' {
        from
    } else {
        find_slash(s, from + 1)
    }
}

/// What a date field text parses to: the text must be
/// `month/day/year` with one- or two-digit month and day and one to four
/// year digits, and name a real calendar date. The grammar is deliberately
/// plain: digits and the two slashes only, no signs, no blanks inside,
/// and no year zero.
pub open spec fn parse_mdy_spec(s: Seq<char>) -> Option<Date> {
    let i = find_slash(s, 0);
    let j = find_slash(s, i + 1);
    let k = find_slash(s, j + 1);
    if i >= s.len() || j >= s.len() || k < s.len() {
        None
    } else {
        let ms = s.subrange(0, i);
        let ds = s.subrange(i + 1, j);
        let ys = s.subrange(j + 1, s.len() as int);
        if 1 <= ms.len() <= 2 && 1 <= ds.len() <= 2 && 1 <= ys.len() <= 4 && all_digits(ms)
            && all_digits(ds) && all_digits(ys) {
            let d = Date {
                year: num_val(ys) as u32,
                month: num_val(ms) as u32,
                day: num_val(ds) as u32,
            };
            if d.wf() {
                Some(d)
            } else {
                None
            }
        } else {
            None
        }
    }
}

fn find_slash_exec(s: &Vec<char>, from: usize) -> (r: usize)
    requires
        from <= s@.len(),
    ensures
        r == find_slash(s@, from as int),
        from <= r <= s@.len(),
        r < s@.len() ==> s@[r as int] == '/',
{
    let mut i = from;
    while i < s.len()
        invariant
            from <= i <= s@.len(),
            find_slash(s@, from as int) == find_slash(s@, i as int),
        decreases s@.len() - i,
    {
        if s[i] == '/' {
            return i;
        }
        i = i + 1;
    }
    i
}

fn digits_value(s: &Vec<char>, lo: usize, hi: usize) -> (r: Option<u32>)
    requires
        lo <= hi <= s@.len(),
        hi - lo <= 4,
    ensures
        all_digits(s@.subrange(lo as int, hi as int)) ==> r == Some(
            num_val(s@.subrange(lo as int, hi as int)) as u32,
        ),
        !all_digits(s@.subrange(lo as int, hi as int)) ==> r is None,
        r is Some ==> 0 <= r.unwrap() <= 9999,
{
    let mut v: u32 = 0;
    let mut i = lo;
    while i < hi
        invariant
            lo <= i <= hi <= s@.len(),
            hi - lo <= 4,
            all_digits(s@.subrange(lo as int, i as int)),
            v == num_val(s@.subrange(lo as int, i as int)),
            v < 10000,
        decreases hi - i,
    {
        let c = s[i];
        if !(c >= '0' && c <= '9') {
            assert(s@.subrange(lo as int, hi as int)[i - lo] == c);
            return None;
        }
        proof {
            let pre = s@.subrange(lo as int, i as int);
            let cur = s@.subrange(lo as int, i + 1);
            assert(cur.drop_last() =~= pre);
            assert(cur.last() == c);
            // the running value stays under five digits
            lemma_num_val_bound_inner(pre);
            assert(pre.len() <= 3);
            assert(num_val(pre) < 1000);
        }
        v = v * 10 + (c as u32 - 48);
        i = i + 1;
    }
    proof {
        if all_digits(s@.subrange(lo as int, hi as int)) {
        }
    }
    Some(v)
}

proof fn lemma_num_val_bound_inner(s: Seq<char>)
    requires
        all_digits(s),
    ensures
        num_val(s) >= 0,
        s.len() <= 1 ==> num_val(s) < 10,
        s.len() <= 2 ==> num_val(s) < 100,
        s.len() <= 3 ==> num_val(s) < 1000,
        s.len() <= 4 ==> num_val(s) < 10000,
    decreases s.len(),
{
    if s.len() > 0 {
        assert(forall|i: int| 0 <= i < s.drop_last().len() ==> is_digit(#[trigger] s.drop_last()[i]));
        lemma_num_val_bound_inner(s.drop_last());
        assert(is_digit(s.last()));
    }
}

/// Parse a `month/day/year` date text; `None` on anything that is not a
/// real calendar date in that form.
pub fn parse_mdy(s: &Vec<char>) -> (r: Option<Date>)
    ensures
        r == parse_mdy_spec(s@),
        r is Some ==> r.unwrap().wf(),
{
    let n = s.len();
    let i = find_slash_exec(s, 0);
    if i >= n {
        return None;
    }
    let j = find_slash_exec(s, i + 1);
    if j >= n {
        return None;
    }
    let k = find_slash_exec(s, j + 1);
    if k < n {
        return None;
    }
    let mlen = i;
    let dlen = j - (i + 1);
    let ylen = n - (j + 1);
    if !(1 <= mlen && mlen <= 2 && 1 <= dlen && dlen <= 2 && 1 <= ylen && ylen <= 4) {
        return None;
    }
    let month = match digits_value(s, 0, i) {
        Some(v) => v,
        None => {
            return None;
        },
    };
    let day = match digits_value(s, i + 1, j) {
        Some(v) => v,
        None => {
            return None;
        },
    };
    let year = match digits_value(s, j + 1, n) {
        Some(v) => v,
        None => {
            return None;
        },
    };
    let d = Date { year, month, day };
    let ok = 1 <= d.year && d.year <= 9999 && 1 <= d.month && d.month <= 12 && 1 <= d.day
        && d.day <= days_in_month_exec(d.year, d.month);
    if ok {
        Some(d)
    } else {
        None
    }
}

/// The number of days of a month, executable.
pub fn days_in_month_exec(y: u32, m: u32) -> (r: u32)
    ensures
        r == days_in_month(y as int, m as int),
{
    if m == 1 || m == 3 || m == 5 || m == 7 || m == 8 || m == 10 || m == 12 {
        31
    } else if m == 4 || m == 6 || m == 9 || m == 11 {
        30
    } else if y % 4 == 0 && (y % 100 != 0 || y % 400 == 0) {
        29
    } else {
        28
    }
}

} // verus!
