//! Writing a feed entry's instant as an RFC 2822 date in UTC, such as
//! `Tue, 1 Jul 2003 10:52:37 +0000`. The form covers the years 0 to 9999 only.
use vstd::prelude::*;

verus! {

/// The first second of the year 0 and of the year 10000, counted from the Unix epoch.
pub open spec fn first_second() -> int {
    -62167219200
}

/// One past the last second that the form can write.
pub open spec fn end_second() -> int {
    253402300800
}

/// The instant can be written: its year lies between 0 and 9999.
pub open spec fn writable(secs: int) -> bool {
    first_second() <= secs < end_second()
}

/// Leap years of the proleptic Gregorian calendar.
pub open spec fn is_leap(y: int) -> bool {
    y % 4 == 0 && (y % 100 != 0 || y % 400 == 0)
}

/// The number of days of the year `y`.
pub open spec fn year_days(y: int) -> int {
    if is_leap(y) {
        366
    } else {
        365
    }
}

/// The year and the day within it of the day `d` counted from the first day of the year
/// `y`.
pub open spec fn split_year(d: nat, y: nat) -> (nat, nat)
    decreases d,
{
    if d < year_days(y as int) {
        (y, d)
    } else {
        split_year((d - year_days(y as int)) as nat, y + 1)
    }
}

/// The number of days of the month `m` (0 for January) in a leap year or not.
pub open spec fn month_days(m: int, leap: bool) -> int {
    if m == 1 {
        if leap {
            29
        } else {
            28
        }
    } else if m == 3 || m == 5 || m == 8 || m == 10 {
        30
    } else {
        31
    }
}

/// The month (0 for January) and the day within it of the day `d` counted from the first
/// day of the month `m`.
pub open spec fn split_month(d: nat, m: nat, leap: bool) -> (nat, nat)
    decreases 12 - m,
{
    if m >= 11 || d < month_days(m as int, leap) {
        (m, d)
    } else {
        split_month((d - month_days(m as int, leap)) as nat, m + 1, leap)
    }
}

/// The decimal digit `n` (0 to 9).
pub open spec fn digit(n: int) -> char {
    if n == 0 {
        '0'
    } else if n == 1 {
        '1'
    } else if n == 2 {
        '2'
    } else if n == 3 {
        '3'
    } else if n == 4 {
        '4'
    } else if n == 5 {
        '5'
    } else if n == 6 {
        '6'
    } else if n == 7 {
        '7'
    } else if n == 8 {
        '8'
    } else {
        '9'
    }
}

/// `n` (0 to 99) in two digits.
pub open spec fn two_digits(n: int) -> Seq<char> {
    seq![digit(n / 10), digit(n % 10)]
}

/// The English short name of the weekday `w` (0 for Sunday).
pub open spec fn weekday_name(w: int) -> Seq<char> {
    if w == 0 {
        "Sun"@
    } else if w == 1 {
        "Mon"@
    } else if w == 2 {
        "Tue"@
    } else if w == 3 {
        "Wed"@
    } else if w == 4 {
        "Thu"@
    } else if w == 5 {
        "Fri"@
    } else {
        "Sat"@
    }
}

/// The English short name of the month `m` (0 for January).
pub open spec fn month_name(m: int) -> Seq<char> {
    if m == 0 {
        "Jan"@
    } else if m == 1 {
        "Feb"@
    } else if m == 2 {
        "Mar"@
    } else if m == 3 {
        "Apr"@
    } else if m == 4 {
        "May"@
    } else if m == 5 {
        "Jun"@
    } else if m == 6 {
        "Jul"@
    } else if m == 7 {
        "Aug"@
    } else if m == 8 {
        "Sep"@
    } else if m == 9 {
        "Oct"@
    } else if m == 10 {
        "Nov"@
    } else {
        "Dec"@
    }
}

/// The RFC 2822 text of the writable instant `secs` seconds after the epoch, `nanos`
/// nanoseconds into that second (a value of a billion or more marks a leap second, written
/// as second 60): weekday, day without padding, month, four-digit year, two-digit hour,
/// minute and second, and the offset `+0000`.
pub open spec fn rfc2822_text(secs: int, nanos: int) -> Seq<char> {
    let t = secs - first_second();
    let dz = t / 86400;
    let sod = t % 86400;
    let (y, doy) = split_year(dz as nat, 0);
    let (m, dm) = split_month(doy, 0, is_leap(y as int));
    let d = dm + 1int;
    let y = y as int;
    let sec = sod % 60 + if nanos >= 1_000_000_000 {
        1int
    } else {
        0int
    };
    weekday_name((dz + 6) % 7) + ", "@ + (if d < 10 {
        seq![digit(d)]
    } else {
        two_digits(d)
    }) + " "@ + month_name(m as int) + " "@ + two_digits(y / 100) + two_digits(y % 100) + " "@
        + two_digits(sod / 3600) + ":"@ + two_digits((sod % 3600) / 60) + ":"@ + two_digits(sec)
        + " +0000"@
}

proof fn lemma_split_year_bound(d: nat, y: nat)
    ensures
        split_year(d, y).0 >= y,
        split_year(d, y).0 <= y + d / 365,
        split_year(d, y).1 < year_days(split_year(d, y).0 as int),
    decreases d,
{
    if d >= year_days(y as int) {
        lemma_split_year_bound((d - year_days(y as int)) as nat, y + 1);
        assert((d - year_days(y as int)) as nat / 365 + 1 <= d / 365);
    }
}

proof fn lemma_split_month_bound(d: nat, m: nat, leap: bool)
    requires
        m <= 11,
    ensures
        split_month(d, m, leap).0 <= 11,
        split_month(d, m, leap).1 <= d,
    decreases 12 - m,
{
    if !(m >= 11 || d < month_days(m as int, leap)) {
        lemma_split_month_bound((d - month_days(m as int, leap)) as nat, m + 1, leap);
    }
}

/// The days from the first day of month `m` to the end of the year.
pub open spec fn days_to_year_end(m: int, leap: bool) -> int
    decreases 12 - m,
{
    if m >= 12 {
        0
    } else {
        month_days(m, leap) + days_to_year_end(m + 1, leap)
    }
}

/// The days of the years before the year `y`.
pub open spec fn days_before_year(y: nat) -> int
    decreases y,
{
    if y == 0 {
        0
    } else {
        days_before_year((y - 1) as nat) + year_days(y - 1)
    }
}

proof fn lemma_days_before_closed(y: nat)
    ensures
        days_before_year(y) == 365 * y + (y + 3) / 4 - (y + 99) / 100 + (y + 399) / 400,
    decreases y,
{
    if y > 0 {
        let x = (y - 1) as int;
        lemma_days_before_closed(x as nat);
        assert((x + 4) / 4 - (x + 3) / 4 == if x % 4 == 0 { 1int } else { 0int });
        assert((x + 100) / 100 - (x + 99) / 100 == if x % 100 == 0 { 1int } else { 0int });
        assert((x + 400) / 400 - (x + 399) / 400 == if x % 400 == 0 { 1int } else { 0int });
    }
}

proof fn lemma_days_before_10000()
    ensures
        days_before_year(10000) == 3652425,
{
    lemma_days_before_closed(10000);
}

proof fn lemma_days_before_monotone(a: nat, b: nat)
    requires
        a <= b,
    ensures
        days_before_year(a) <= days_before_year(b),
    decreases b,
{
    if a < b {
        lemma_days_before_monotone(a, (b - 1) as nat);
    }
}

fn digit_char(n: u64) -> (r: char)
    requires
        n < 10,
    ensures
        r == digit(n as int),
{
    if n == 0 {
        '0'
    } else if n == 1 {
        '1'
    } else if n == 2 {
        '2'
    } else if n == 3 {
        '3'
    } else if n == 4 {
        '4'
    } else if n == 5 {
        '5'
    } else if n == 6 {
        '6'
    } else if n == 7 {
        '7'
    } else if n == 8 {
        '8'
    } else {
        '9'
    }
}

fn push_str(out: &mut Vec<char>, s: &str)
    ensures
        final(out)@ == old(out)@ + s@,
{
    let cs = crate::text::chars_of(s);
    let mut i: usize = 0;
    let ghost start = out@;
    while i < cs.len()
        invariant
            0 <= i <= cs@.len(),
            cs@ == s@,
            out@ == start + cs@.take(i as int),
        decreases cs@.len() - i,
    {
        out.push(cs[i]);
        assert(cs@.take(i + 1) == cs@.take(i as int).push(cs@[i as int]));
        i += 1;
    }
    assert(cs@.take(cs@.len() as int) == cs@);
}

fn push_two(out: &mut Vec<char>, n: u64)
    requires
        n < 100,
    ensures
        final(out)@ == old(out)@ + two_digits(n as int),
{
    out.push(digit_char(n / 10));
    out.push(digit_char(n % 10));
}

fn weekday_str(w: u64) -> (r: &'static str)
    ensures
        r@ == weekday_name(w as int),
{
    if w == 0 {
        "Sun"
    } else if w == 1 {
        "Mon"
    } else if w == 2 {
        "Tue"
    } else if w == 3 {
        "Wed"
    } else if w == 4 {
        "Thu"
    } else if w == 5 {
        "Fri"
    } else {
        "Sat"
    }
}

fn month_str(m: u64) -> (r: &'static str)
    ensures
        r@ == month_name(m as int),
{
    if m == 0 {
        "Jan"
    } else if m == 1 {
        "Feb"
    } else if m == 2 {
        "Mar"
    } else if m == 3 {
        "Apr"
    } else if m == 4 {
        "May"
    } else if m == 5 {
        "Jun"
    } else if m == 6 {
        "Jul"
    } else if m == 7 {
        "Aug"
    } else if m == 8 {
        "Sep"
    } else if m == 9 {
        "Oct"
    } else if m == 10 {
        "Nov"
    } else {
        "Dec"
    }
}

fn leap_exec(y: u64) -> (r: bool)
    ensures
        r == is_leap(y as int),
{
    y % 4 == 0 && (y % 100 != 0 || y % 400 == 0)
}

fn year_days_exec(y: u64) -> (r: u64)
    ensures
        r == year_days(y as int),
{
    if leap_exec(y) {
        366
    } else {
        365
    }
}

fn month_days_exec(m: u64, leap: bool) -> (r: u64)
    ensures
        r == month_days(m as int, leap),
{
    if m == 1 {
        if leap {
            29
        } else {
            28
        }
    } else if m == 3 || m == 5 || m == 8 || m == 10 {
        30
    } else {
        31
    }
}

fn year_of_day(dz: u64) -> (r: (u64, u64))
    requires
        dz < 3652425,
    ensures
        (r.0 as nat, r.1 as nat) == split_year(dz as nat, 0),
        r.0 <= 9999,
        r.1 < year_days(r.0 as int),
{
    let mut y: u64 = 0;
    let mut rem: u64 = dz;
    while rem >= year_days_exec(y)
        invariant
            split_year(rem as nat, y as nat) == split_year(dz as nat, 0),
            dz == days_before_year(y as nat) + rem,
            dz < 3652425,
            y <= dz,
        decreases rem,
    {
        proof {
            lemma_days_before_closed((y + 1) as nat);
            assert((y + 1 + 3) / 4 >= (y + 1 + 99) / 100);
        }
        rem = rem - year_days_exec(y);
        y = y + 1;
    }
    proof {
        lemma_split_year_bound(dz as nat, 0);
        lemma_days_before_10000();
        if y >= 10000 {
            lemma_days_before_monotone(10000, y as nat);
        }
    }
    (y, rem)
}

fn month_of_day(rem: u64, leap: bool) -> (r: (u64, u64))
    requires
        rem < days_to_year_end(0, leap),
    ensures
        (r.0 as nat, r.1 as nat) == split_month(rem as nat, 0, leap),
        r.0 <= 11,
        r.1 < 31,
{
    let mut m: u64 = 0;
    let mut dm: u64 = rem;
    while m < 11 && dm >= month_days_exec(m, leap)
        invariant
            m <= 11,
            dm <= rem,
            split_month(dm as nat, m as nat, leap) == split_month(rem as nat, 0, leap),
            dm < days_to_year_end(m as int, leap),
        decreases 12 - m,
    {
        dm = dm - month_days_exec(m, leap);
        m = m + 1;
    }
    if m == 11 {
        assert(days_to_year_end(11, leap) == 31) by {
            reveal_with_fuel(days_to_year_end, 2);
        }
    }
    (m, dm)
}

/// The RFC 2822 text of the instant `secs` seconds after the epoch and `nanos` nanoseconds
/// into that second, in UTC; `None` when its year is outside 0 to 9999.
pub fn rfc2822_utc(secs: i64, nanos: u32) -> (r: Option<String>)
    ensures
        r is Some <==> writable(secs as int),
        r matches Some(t) ==> t@ == rfc2822_text(secs as int, nanos as int),
{
    if secs < -62167219200 || secs >= 253402300800 {
        return None;
    }
    let t: u64 = (secs + 62167219200) as u64;
    let dz: u64 = t / 86400;
    let sod: u64 = t % 86400;
    let (y, rem) = year_of_day(dz);
    let leap = leap_exec(y);
    assert(days_to_year_end(0, leap) == year_days(y as int)) by {
        reveal_with_fuel(days_to_year_end, 13);
    }
    let (m, dm) = month_of_day(rem, leap);
    let d: u64 = dm + 1;
    let sec: u64 = sod % 60 + if nanos >= 1_000_000_000 { 1 } else { 0 };
    let mut out: Vec<char> = Vec::new();
    push_str(&mut out, weekday_str((dz + 6) % 7));
    push_str(&mut out, ", ");
    if d < 10 {
        out.push(digit_char(d));
    } else {
        push_two(&mut out, d);
    }
    push_str(&mut out, " ");
    push_str(&mut out, month_str(m));
    push_str(&mut out, " ");
    push_two(&mut out, y / 100);
    push_two(&mut out, y % 100);
    push_str(&mut out, " ");
    push_two(&mut out, sod / 3600);
    push_str(&mut out, ":");
    push_two(&mut out, (sod % 3600) / 60);
    push_str(&mut out, ":");
    push_two(&mut out, sec);
    push_str(&mut out, " +0000");
    Some(crate::text::string_of(out.as_slice()))
}

} // verus!
