//! Instants: reading timestamps, comparing, shifting and printing them.
use vstd::prelude::*;

verus! {

/// A point in time in UTC: seconds since the Unix epoch and nanoseconds within the second. During
/// a leap second the nanoseconds run on past a full second.
#[derive(Debug, Clone, Copy, PartialEq, Eq, Structural)]
pub struct Instant {
    pub secs: i64,
    pub nanos: u32,
}

/// The instant that an RFC 3339 timestamp names, or else the text of the reason why it is none.
pub uninterp spec fn rfc3339_result(s: Seq<char>) -> Result<Instant, Seq<char>>;

/// The instant that an RFC 3339 timestamp names.
pub open spec fn rfc3339_instant(s: Seq<char>) -> Option<Instant> {
    match rfc3339_result(s) {
        Ok(t) => Some(t),
        Err(_) => None,
    }
}

/// The instant that a text names when it is read with a `strftime` format, taken as UTC.
pub uninterp spec fn naive_instant(s: Seq<char>, format: Seq<char>) -> Option<Instant>;

/// An instant printed as an RFC 3339 timestamp ending in `Z`, with whole seconds or with nine
/// fractional digits.
pub uninterp spec fn utc_text(secs: i64, nanos: u32, precise: bool) -> Option<Seq<char>>;

/// The instant itself and the start of its hour can be printed.
pub open spec fn printable(t: Instant) -> bool {
    &&& utc_text(t.secs, t.nanos, false) is Some
    &&& utc_text(t.secs, t.nanos, true) is Some
    &&& utc_text(hour_start(t.secs), 0, false) is Some
}

/// `DateTime::parse_from_rfc3339`, taken to UTC: whether a text is a timestamp, which instant it
/// names, and what the error says, depends on the text alone. Every instant it yields lies in the
/// range that can be printed, and so does the start of its hour.
#[verifier::external_body]
pub(crate) fn read_rfc3339(s: &str) -> (r: Result<Instant, String>)
    ensures
        (match r {
            Ok(t) => rfc3339_result(s@) == Ok::<Instant, Seq<char>>(t) && printable(t),
            Err(e) => rfc3339_result(s@) == Err::<Instant, Seq<char>>(e@),
        }),
{
    match chrono::DateTime::parse_from_rfc3339(s) {
        Ok(parsed) => Ok(
            Instant { secs: parsed.timestamp(), nanos: parsed.timestamp_subsec_nanos() },
        ),
        Err(e) => Err(e.to_string()),
    }
}

pub fn parse_rfc3339(s: &str) -> (r: Option<Instant>)
    ensures
        r == rfc3339_instant(s@),
        r matches Some(t) ==> printable(t),
{
    match read_rfc3339(s) {
        Ok(t) => Some(t),
        Err(_) => None,
    }
}

/// `NaiveDateTime::parse_from_str`, taken as UTC: the result depends on the text and the format
/// alone, and lies in the range that can be printed, as does the start of its hour.
#[verifier::external_body]
pub(crate) fn parse_naive(s: &str, format: &str) -> (r: Option<Instant>)
    ensures
        r == naive_instant(s@, format@),
        r matches Some(t) ==> printable(t),
{
    let parsed = chrono::NaiveDateTime::parse_from_str(s, format).ok()?.and_utc();
    Some(Instant { secs: parsed.timestamp(), nanos: parsed.timestamp_subsec_nanos() })
}

/// `DateTime::from_timestamp` and `DateTime::to_rfc3339_opts`: the printed form depends on the
/// instant and the precision alone; there is none for an instant outside the representable range.
#[verifier::external_body]
pub(crate) fn print_utc(secs: i64, nanos: u32, precise: bool) -> (r: Option<String>)
    ensures
        r.deep_view() == utc_text(secs, nanos, precise),
{
    let moment = chrono::DateTime::from_timestamp(secs, nanos)?;
    let form = if precise {
        chrono::SecondsFormat::Nanos
    } else {
        chrono::SecondsFormat::Secs
    };
    Some(moment.to_rfc3339_opts(form, true))
}

/// The last full hour at or before `secs`.
pub open spec fn hour_start(secs: i64) -> i64 {
    if secs - secs % 3600 < i64::MIN {
        secs
    } else {
        (secs - secs % 3600) as i64
    }
}

pub fn floor_to_hour_start(secs: i64) -> (r: i64)
    ensures
        r == hour_start(secs),
{
    let rest: i64 = if secs >= 0 {
        secs % 3600
    } else {
        3599 - (-(secs + 1)) % 3600
    };
    if (secs as i128) - (rest as i128) < i64::MIN as i128 {
        secs
    } else {
        secs - rest
    }
}

/// Earlier or the same.
pub open spec fn not_after(a_secs: int, a_nanos: int, b_secs: int, b_nanos: int) -> bool {
    a_secs < b_secs || (a_secs == b_secs && a_nanos <= b_nanos)
}

pub open spec fn instant_le(a: Instant, b: Instant) -> bool {
    not_after(a.secs as int, a.nanos as int, b.secs as int, b.nanos as int)
}

pub open spec fn instant_lt(a: Instant, b: Instant) -> bool {
    a != b && instant_le(a, b)
}

pub fn at_or_before(a: Instant, b: Instant) -> (r: bool)
    ensures
        r == instant_le(a, b),
{
    a.secs < b.secs || (a.secs == b.secs && a.nanos <= b.nanos)
}

pub fn before(a: Instant, b: Instant) -> (r: bool)
    ensures
        r == instant_lt(a, b),
{
    a != b && at_or_before(a, b)
}

/// The seconds of `t` moved by `by` seconds; an instant inside a leap second leaves it.
pub open spec fn moved_secs(t: Instant, by: int) -> int {
    if t.nanos >= 1_000_000_000 && by < 0 {
        t.secs + by + 1
    } else {
        t.secs + by
    }
}

/// The nanoseconds of `t` moved by `by` seconds.
pub open spec fn moved_nanos(t: Instant, by: int) -> int {
    if t.nanos >= 1_000_000_000 && by != 0 {
        t.nanos - 1_000_000_000
    } else {
        t.nanos as int
    }
}

/// `t` lies in the closed window from `start` to `end`, widened by `tolerance` on both sides.
pub open spec fn covers(start: Instant, end: Instant, tolerance: int, t: Instant) -> bool {
    &&& not_after(
        moved_secs(start, -tolerance),
        moved_nanos(start, -tolerance),
        t.secs as int,
        t.nanos as int,
    )
    &&& not_after(
        t.secs as int,
        t.nanos as int,
        moved_secs(end, tolerance),
        moved_nanos(end, tolerance),
    )
}

fn move_by(t: Instant, by: i128) -> (r: (i128, i128))
    requires
        -0x8000_0000_0000_0000 <= by <= 0x7fff_ffff_ffff_ffff,
    ensures
        r.0 == moved_secs(t, by as int),
        r.1 == moved_nanos(t, by as int),
{
    let leap: bool = t.nanos >= 1_000_000_000;
    let secs: i128 = if leap && by < 0 {
        t.secs as i128 + by + 1
    } else {
        t.secs as i128 + by
    };
    let nanos: i128 = if leap && by != 0 {
        t.nanos as i128 - 1_000_000_000
    } else {
        t.nanos as i128
    };
    (secs, nanos)
}

pub fn window_covers(start: Instant, end: Instant, tolerance: i64, t: Instant) -> (r: bool)
    requires
        tolerance >= 0,
    ensures
        r == covers(start, end, tolerance as int, t),
{
    let (from_secs, from_nanos) = move_by(start, -(tolerance as i128));
    let (to_secs, to_nanos) = move_by(end, tolerance as i128);
    let s: i128 = t.secs as i128;
    let n: i128 = t.nanos as i128;
    (from_secs < s || (from_secs == s && from_nanos <= n)) && (s < to_secs || (s == to_secs && n
        <= to_nanos))
}

} // verus!
