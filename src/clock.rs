//! Calendar dates and times, and the two ways they are written out: backup
//! names and shown modification times.
use vstd::prelude::*;

verus! {

/// A local calendar date and time of day, as chrono reports it.
#[derive(Clone, Copy, Debug, PartialEq, Eq)]
pub struct DateParts {
    pub year: i32,
    pub month: u32,
    pub day: u32,
    pub hour: u32,
    pub minute: u32,
    pub second: u32,
    /// Nanoseconds past `second`; from one billion on, a leap second.
    pub nanosecond: u32,
}

impl DateParts {
    pub open spec fn wf(&self) -> bool {
        &&& 1 <= self.month <= 12
        &&& 1 <= self.day <= 31
        &&& self.hour <= 23
        &&& self.minute <= 59
        &&& self.second <= 59
        &&& self.nanosecond < 2_000_000_000
    }

    /// The second as it is printed: 60 during a leap second.
    pub open spec fn shown_second(&self) -> int {
        self.second + self.nanosecond / 1_000_000_000
    }
}

/// Days from 1970-01-01 to the proleptic Gregorian date `y`-`m`-`d`.
pub open spec fn days_from_civil(y: int, m: int, d: int) -> int {
    let yy = if m <= 2 {
        y - 1
    } else {
        y
    };
    let era = yy / 400;
    let yoe = yy - era * 400;
    let mp = (m + 9) % 12;
    let doy = (153 * mp + 2) / 5 + d - 1;
    let doe = yoe * 365 + yoe / 4 - yoe / 100 + doy;
    era * 146097 + doe - 719468
}

/// Whole seconds from 1970-01-01 00:00:00 to the wall-clock time `p`, as if
/// `p` were read in UTC.
pub open spec fn local_seconds(p: DateParts) -> int {
    days_from_civil(p.year as int, p.month as int, p.day as int) * 86400 + p.hour * 3600
        + p.minute * 60 + p.second
}

/// `p` is the local date and time of the instant `secs` seconds and `nanos`
/// nanoseconds after the Unix epoch: its nanoseconds are `nanos`, and its
/// wall-clock seconds differ from `secs` by a time-zone offset, which is
/// less than a day either way.
pub open spec fn dates_instant(p: DateParts, secs: i64, nanos: u32) -> bool {
    &&& p.wf()
    &&& p.nanosecond == nanos
    &&& -86400 < local_seconds(p) - secs < 86400
}

pub open spec fn digit(d: int) -> char {
    if d <= 0 {
        '0'
    } else if d == 1 {
        '1'
    } else if d == 2 {
        '2'
    } else if d == 3 {
        '3'
    } else if d == 4 {
        '4'
    } else if d == 5 {
        '5'
    } else if d == 6 {
        '6'
    } else if d == 7 {
        '7'
    } else if d == 8 {
        '8'
    } else {
        '9'
    }
}

/// The decimal digits of `n`, without leading zeros.
pub open spec fn digits(n: nat) -> Seq<char>
    decreases n,
{
    if n < 10 {
        seq![digit(n as int)]
    } else {
        digits(n / 10).push(digit((n % 10) as int))
    }
}

/// `n` (below 100) as two digits.
pub open spec fn two_digits(n: int) -> Seq<char> {
    seq![digit(n / 10), digit(n % 10)]
}

/// `n` (below 10000) as four digits.
pub open spec fn four_digits(n: int) -> Seq<char> {
    seq![digit(n / 1000), digit(n / 100 % 10), digit(n / 10 % 10), digit(n % 10)]
}

/// A year as `%Y` prints it: four digits for years 0 to 9999, otherwise a
/// sign followed by at least four digits.
pub open spec fn year_text(y: int) -> Seq<char> {
    if 0 <= y <= 9999 {
        four_digits(y)
    } else {
        let a: nat = if y < 0 { (-y) as nat } else { y as nat };
        let sign = if y < 0 { '-' } else { '+' };
        seq![sign] + (if a < 10000 { four_digits(a as int) } else { digits(a) })
    }
}

/// The name of a backup made at `p`: `YYYY_MM_DD_HH_MM_SS`.
pub open spec fn timestamp_text(p: DateParts) -> Seq<char> {
    year_text(p.year as int) + seq!['_'] + two_digits(p.month as int) + seq!['_'] + two_digits(
        p.day as int,
    ) + seq!['_'] + two_digits(p.hour as int) + seq!['_'] + two_digits(p.minute as int) + seq![
        '_',
    ] + two_digits(p.shown_second())
}

/// How a modification time is shown: `YYYY-MM-DD HH:MM:SS`.
pub open spec fn display_text(p: DateParts) -> Seq<char> {
    year_text(p.year as int) + seq!['-'] + two_digits(p.month as int) + seq!['-'] + two_digits(
        p.day as int,
    ) + seq![' '] + two_digits(p.hour as int) + seq![':'] + two_digits(p.minute as int) + seq![
        ':',
    ] + two_digits(p.shown_second())
}

fn digit_str(d: u64) -> (r: &'static str)
    requires
        d < 10,
    ensures
        r@ == seq![digit(d as int)],
{
    proof {
        reveal_strlit("0");
        reveal_strlit("1");
        reveal_strlit("2");
        reveal_strlit("3");
        reveal_strlit("4");
        reveal_strlit("5");
        reveal_strlit("6");
        reveal_strlit("7");
        reveal_strlit("8");
        reveal_strlit("9");
    }
    if d == 0 {
        "0"
    } else if d == 1 {
        "1"
    } else if d == 2 {
        "2"
    } else if d == 3 {
        "3"
    } else if d == 4 {
        "4"
    } else if d == 5 {
        "5"
    } else if d == 6 {
        "6"
    } else if d == 7 {
        "7"
    } else if d == 8 {
        "8"
    } else {
        "9"
    }
}

fn push_digits(out: &mut String, n: u64)
    ensures
        final(out)@ == old(out)@ + digits(n as nat),
    decreases n,
{
    if n >= 10 {
        push_digits(out, n / 10);
    }
    out.append(digit_str(n % 10));
}

fn push_two(out: &mut String, n: u32)
    requires
        n < 100,
    ensures
        final(out)@ == old(out)@ + two_digits(n as int),
{
    out.append(digit_str((n / 10) as u64));
    out.append(digit_str((n % 10) as u64));
    assert(final(out)@ =~= old(out)@ + two_digits(n as int));
}

fn push_four(out: &mut String, n: u64)
    requires
        n < 10000,
    ensures
        final(out)@ == old(out)@ + four_digits(n as int),
{
    out.append(digit_str(n / 1000));
    out.append(digit_str(n / 100 % 10));
    out.append(digit_str(n / 10 % 10));
    out.append(digit_str(n % 10));
    assert(final(out)@ =~= old(out)@ + four_digits(n as int));
}

fn push_year(out: &mut String, y: i32)
    ensures
        final(out)@ == old(out)@ + year_text(y as int),
{
    if 0 <= y && y <= 9999 {
        push_four(out, y as u64);
    } else {
        let a: u64 = if y < 0 { (-(y as i64)) as u64 } else { y as u64 };
        proof {
            reveal_strlit("-");
            reveal_strlit("+");
        }
        if y < 0 {
            out.append("-");
        } else {
            out.append("+");
        }
        if a < 10000 {
            push_four(out, a);
        } else {
            push_digits(out, a);
        }
        assert(final(out)@ =~= old(out)@ + year_text(y as int));
    }
}

/// Writes the six fields of `p`, each after the separator given for it.
fn date_text(p: &DateParts, seps: [&str; 5]) -> (r: String)
    requires
        p.wf(),
        forall|i: int| 0 <= i < 5 ==> (#[trigger] seps[i])@.len() == 1,
    ensures
        r@ == year_text(p.year as int) + seps[0]@ + two_digits(p.month as int) + seps[1]@
            + two_digits(p.day as int) + seps[2]@ + two_digits(p.hour as int) + seps[3]@
            + two_digits(p.minute as int) + seps[4]@ + two_digits(p.shown_second()),
{
    let mut r = String::new();
    push_year(&mut r, p.year);
    r.append(seps[0]);
    push_two(&mut r, p.month);
    r.append(seps[1]);
    push_two(&mut r, p.day);
    r.append(seps[2]);
    push_two(&mut r, p.hour);
    r.append(seps[3]);
    push_two(&mut r, p.minute);
    r.append(seps[4]);
    push_two(&mut r, p.second + p.nanosecond / 1_000_000_000);
    r
}

/// The backup name for the moment `p`.
pub fn timestamp_token(p: &DateParts) -> (r: String)
    requires
        p.wf(),
    ensures
        r@ == timestamp_text(*p),
        0 <= p.year <= 9999 ==> r@.len() == 19,
{
    proof {
        reveal_strlit("_");
    }
    let r = date_text(p, ["_", "_", "_", "_", "_"]);
    assert(r@ =~= timestamp_text(*p));
    r
}

/// The shown form of the moment `p`.
pub fn display_time(p: &DateParts) -> (r: String)
    requires
        p.wf(),
    ensures
        r@ == display_text(*p),
{
    proof {
        reveal_strlit("-");
        reveal_strlit(" ");
        reveal_strlit(":");
    }
    let r = date_text(p, ["-", "-", " ", ":", ":"]);
    assert(r@ =~= display_text(*p));
    r
}

/// Relies on chrono::DateTime::from_timestamp and DateTime::with_timezone with
/// chrono::Local: the local date and time of the instant `secs` seconds and
/// `nanos` nanoseconds after the Unix epoch, or `None` where chrono cannot
/// represent that instant. The local time is the UTC instant shifted by the
/// zone's offset, a whole number of seconds that chrono keeps strictly
/// within one day either way, and the nanoseconds are carried over.
/// `from_timestamp` fails only on a day outside
/// chrono's years (about 262 000 either side of year 0) or on nanoseconds
/// of a second that is not a leap second, so instants within
/// `representable` always have a date.
#[verifier::external_body]
fn local_time_at(secs: i64, nanos: u32) -> (r: Option<DateParts>)
    ensures
        r matches Some(p) ==> dates_instant(p, secs, nanos),
        representable(secs, nanos) ==> r is Some,
{
    match chrono::DateTime::from_timestamp(secs, nanos) {
        None => None,
        Some(utc) => {
            let t = utc.with_timezone(&chrono::Local);
            Some(DateParts {
                year: chrono::Datelike::year(&t),
                month: chrono::Datelike::month(&t),
                day: chrono::Datelike::day(&t),
                hour: chrono::Timelike::hour(&t),
                minute: chrono::Timelike::minute(&t),
                second: chrono::Timelike::second(&t),
                nanosecond: chrono::Timelike::nanosecond(&t),
            })
        },
    }
}

/// Instants that chrono can date: up to eight trillion seconds (about
/// 250 000 years) either side of the Unix epoch, with no leap second.
pub open spec fn representable(secs: i64, nanos: u32) -> bool {
    -8_000_000_000_000 <= secs <= 8_000_000_000_000 && nanos < 1_000_000_000
}

/// The backup name for the instant `secs` seconds and `nanos` nanoseconds
/// after the Unix epoch (the current time, as the caller read the clock), in
/// local time; `None` where the instant has no local date.
pub fn time_now(secs: i64, nanos: u32) -> (r: Option<String>)
    ensures
        representable(secs, nanos) ==> r is Some,
        r matches Some(s) ==> exists|p: DateParts|
            #[trigger] dates_instant(p, secs, nanos) && s@ == timestamp_text(p),
{
    match local_time_at(secs, nanos) {
        None => None,
        Some(p) => Some(timestamp_token(&p)),
    }
}

/// The shown form of a modification time given as seconds and nanoseconds
/// since the Unix epoch; `None` where the instant has no local date.
pub fn format_systime(secs: i64, nanos: u32) -> (r: Option<String>)
    ensures
        representable(secs, nanos) ==> r is Some,
        r matches Some(s) ==> exists|p: DateParts|
            #[trigger] dates_instant(p, secs, nanos) && s@ == display_text(p),
{
    match local_time_at(secs, nanos) {
        None => None,
        Some(p) => Some(display_time(&p)),
    }
}

} // verus!
