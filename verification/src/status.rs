use vstd::prelude::*;

verus! {

/// Appending a character to a `String`.
///
/// Relies on `String::push`, documented to append the given char to the end
/// of the string.
pub assume_specification [String::push] (s: &mut String, ch: char)
    ensures
        final(s)@ == old(s)@.push(ch),
;

/// A local wall-clock timestamp broken into the fields the status line
/// shows, each a plain number.
#[derive(Clone, Copy, PartialEq, Eq, Structural, Debug)]
pub struct LocalTime {
    pub year: u32,
    pub month: u32,
    pub day: u32,
    pub hour: u32,
    pub minute: u32,
}

impl LocalTime {
    /// Field ranges of a calendar timestamp the fixed display pattern can
    /// show: a four-digit year and the ordinary month/day/hour/minute
    /// bounds.
    pub open spec fn valid(self) -> bool {
        self.year <= 9999 && 1 <= self.month <= 12 && 1 <= self.day <= 31 && self.hour <= 23
            && self.minute <= 59
    }
}

/// The character for one decimal digit.
pub open spec fn digit_char(d: int) -> char
    recommends
        0 <= d <= 9,
{
    if d == 0 {
        '0'
    } else if d == 1 {
        '1'
    } else if d == 2 {
        '2'
    } else if d == 3 {
        '3'
    } else if d == 4 {
        '4'
    } else if d == 5 {
        '5'
    } else if d == 6 {
        '6'
    } else if d == 7 {
        '7'
    } else if d == 8 {
        '8'
    } else {
        '9'
    }
}

/// A number below 100 as two decimal digits, zero-padded.
pub open spec fn two_digits(n: int) -> Seq<char>
    recommends
        0 <= n < 100,
{
    seq![digit_char(n / 10), digit_char(n % 10)]
}

/// A number below 10000 as four decimal digits, zero-padded.
pub open spec fn four_digits(n: int) -> Seq<char>
    recommends
        0 <= n < 10000,
{
    seq![
        digit_char(n / 1000),
        digit_char((n / 100) % 10),
        digit_char((n / 10) % 10),
        digit_char(n % 10),
    ]
}

/// The fixed display pattern of the status label: date and hour:minute,
/// `YYYY-MM-DD HH:MM`.
pub open spec fn spec_status_text(t: LocalTime) -> Seq<char> {
    four_digits(t.year as int) + seq!['-'] + two_digits(t.month as int) + seq!['-'] + two_digits(
        t.day as int,
    ) + seq![' '] + two_digits(t.hour as int) + seq![':'] + two_digits(t.minute as int)
}

/// The status line is always exactly sixteen characters.
pub proof fn lemma_status_text_len(t: LocalTime)
    ensures
        spec_status_text(t).len() == 16,
{
}

fn digit(d: u32) -> (c: char)
    requires
        d <= 9,
    ensures
        c == digit_char(d as int),
{
    match d {
        0 => '0',
        1 => '1',
        2 => '2',
        3 => '3',
        4 => '4',
        5 => '5',
        6 => '6',
        7 => '7',
        8 => '8',
        _ => '9',
    }
}

fn push_two_digits(s: &mut String, n: u32)
    requires
        n <= 99,
    ensures
        final(s)@ == old(s)@ + two_digits(n as int),
{
    s.push(digit(n / 10));
    s.push(digit(n % 10));
    proof {
        assert(s@ =~= old(s)@ + two_digits(n as int));
    }
}

fn push_four_digits(s: &mut String, n: u32)
    requires
        n <= 9999,
    ensures
        final(s)@ == old(s)@ + four_digits(n as int),
{
    s.push(digit(n / 1000));
    s.push(digit((n / 100) % 10));
    s.push(digit((n / 10) % 10));
    s.push(digit(n % 10));
    proof {
        assert(s@ =~= old(s)@ + four_digits(n as int));
    }
}

/// Render a timestamp in the fixed display pattern.
pub fn render_status(t: LocalTime) -> (r: String)
    requires
        t.valid(),
    ensures
        r@ == spec_status_text(t),
{
    let mut s = String::new();
    push_four_digits(&mut s, t.year);
    s.push('-');
    push_two_digits(&mut s, t.month);
    s.push('-');
    push_two_digits(&mut s, t.day);
    s.push(' ');
    push_two_digits(&mut s, t.hour);
    s.push(':');
    push_two_digits(&mut s, t.minute);
    proof {
        assert(s@ =~= spec_status_text(t));
    }
    s
}

/// Whether raw clock fields form a timestamp the display pattern can show.
pub open spec fn spec_fields_displayable(
    year: i64,
    month: u32,
    day: u32,
    hour: u32,
    minute: u32,
) -> bool {
    0 <= year <= 9999 && 1 <= month <= 12 && 1 <= day <= 31 && hour <= 23 && minute <= 59
}

/// Build the status line from raw clock fields, exactly when they form a
/// displayable timestamp; out-of-range fields yield nothing and the render
/// for that tick is skipped.
pub fn status_line(year: i64, month: u32, day: u32, hour: u32, minute: u32) -> (r: Option<String>)
    ensures
        (r is Some) == spec_fields_displayable(year, month, day, hour, minute),
        r matches Some(s) ==> s@ == spec_status_text(
            LocalTime { year: year as u32, month, day, hour, minute },
        ),
{
    if 0 <= year && year <= 9999 && 1 <= month && month <= 12 && 1 <= day && day <= 31 && hour
        <= 23 && minute <= 59 {
        let t = LocalTime { year: year as u32, month, day, hour, minute };
        Some(render_status(t))
    } else {
        None
    }
}

/// The local wall-clock time, split into calendar fields, or nothing when
/// the clock cannot be read as a timestamp the calendar holds.
///
/// Relies on `SystemTime::now` (`duration_since` reports a clock before
/// the epoch as an error rather than failing) and on chrono's
/// `TimeZone::timestamp_opt` for `Local`, whose non-`Single` arms cover a
/// timestamp outside chrono's calendar range, together with the
/// `Datelike`/`Timelike` accessors: a timestamp chrono accepts has month
/// 1 to 12, day 1 to 31, hour 0 to 23 and minute 0 to 59, as chrono
/// documents.
#[verifier::external_body]
fn local_now_fields() -> (r: Option<(i64, u32, u32, u32, u32)>)
    ensures
        r matches Some(f) ==> 1 <= f.1 <= 12 && 1 <= f.2 <= 31 && f.3 <= 23 && f.4 <= 59,
{
    let dur = std::time::SystemTime::now().duration_since(std::time::UNIX_EPOCH).ok()?;
    let secs = i64::try_from(dur.as_secs()).ok()?;
    match chrono::TimeZone::timestamp_opt(&chrono::Local, secs, 0) {
        chrono::MappedLocalTime::Single(t) => Some((
            i64::from(chrono::Datelike::year(&t)),
            chrono::Datelike::month(&t),
            chrono::Datelike::day(&t),
            chrono::Timelike::hour(&t),
            chrono::Timelike::minute(&t),
        )),
        _ => None,
    }
}

/// The status line for the current local time: the rendered timestamp, or
/// nothing when the clock cannot be read — set before the epoch, or beyond
/// the calendar — or reports a year the four-digit pattern cannot show. A
/// failed clock source skips that tick's update; it is never fatal.
pub fn current_status() -> (r: Option<String>)
    ensures
        r matches Some(s) ==> exists|t: LocalTime| t.valid() && s@ == spec_status_text(t),
        r matches Some(s) ==> s@.len() == 16,
{
    match local_now_fields() {
        Option::Some(f) => {
            let (year, month, day, hour, minute) = f;
            let r = status_line(year, month, day, hour, minute);
            proof {
                if r is Some {
                    let t = LocalTime { year: year as u32, month, day, hour, minute };
                    assert(t.valid() && r->0@ == spec_status_text(t));
                    lemma_status_text_len(t);
                }
            }
            r
        },
        Option::None => None,
    }
}

} // verus!
