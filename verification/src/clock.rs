//! Points in time as the rest of the library sees them: read from RFC 3339
//! text or from the system clock through `chrono`, and compared by whole
//! seconds and whole days the way `chrono`'s `TimeDelta` counts them.
use vstd::prelude::*;

verus! {

/// Nanoseconds in one second.
pub const NANOS_PER_SEC: u64 = 1_000_000_000;

/// A bound on the seconds of any instant that `chrono` can represent
/// (its years run from -262143 to 262142).
pub const TIMESTAMP_BOUND: i64 = 9_000_000_000_000;

/// A point in time: whole seconds since 1970-01-01T00:00:00Z and the
/// nanoseconds past that second (past 999,999,999 only inside a leap second).
#[derive(Clone, Copy, Debug, PartialEq, Eq)]
pub struct Moment {
    pub secs: i64,
    pub nanos: u32,
}

/// The moments that `chrono` can produce.
pub open spec fn moment_valid(m: Moment) -> bool {
    -TIMESTAMP_BOUND <= m.secs <= TIMESTAMP_BOUND && m.nanos < 2 * NANOS_PER_SEC
}

/// The moment as a count of nanoseconds since the epoch.
pub open spec fn at_nanos(m: Moment) -> int {
    m.secs * NANOS_PER_SEC + m.nanos
}

/// Division that rounds toward zero, as Rust's integer `/` and `chrono`'s
/// `num_seconds`/`num_days` do.
pub open spec fn trunc_div(a: int, d: int) -> int {
    if a >= 0 {
        a / d
    } else {
        -((-a) / d)
    }
}

/// Whole seconds from `earlier` to `later` (negative when `later` is
/// before `earlier`), rounded toward zero.
pub open spec fn whole_seconds_between(later: Moment, earlier: Moment) -> int {
    trunc_div(at_nanos(later) - at_nanos(earlier), NANOS_PER_SEC as int)
}

/// Whole days from `earlier` to `later`, rounded toward zero.
pub open spec fn whole_days_between(later: Moment, earlier: Moment) -> int {
    trunc_div(whole_seconds_between(later, earlier), 86400)
}

/// What `chrono::DateTime::parse_from_rfc3339` makes of `text`: the
/// instant read (seconds since the epoch and nanoseconds past them), or the
/// text of the `ParseError` it refuses the text with.
pub uninterp spec fn rfc3339_reading(text: Seq<char>) -> Result<(i64, u32), Seq<char>>;

/// The instant read from `text`, or `None` when it is refused.
pub open spec fn rfc3339_instant(text: Seq<char>) -> Option<(i64, u32)> {
    match rfc3339_reading(text) {
        Ok(p) => Some(p),
        Err(_) => None,
    }
}

/// The explanation `chrono` gives when it refuses `text` (empty when it
/// does not).
pub open spec fn rfc3339_refusal(text: Seq<char>) -> Seq<char> {
    match rfc3339_reading(text) {
        Ok(_) => Seq::empty(),
        Err(m) => m,
    }
}

/// Calls `chrono::DateTime::parse_from_rfc3339` and reads the parsed
/// instant's `timestamp()` and `timestamp_subsec_nanos()`; a refusal comes
/// back as the `ParseError`'s text. Both are named `rfc3339_reading`. The
/// bounds are those of `chrono`'s date range and of its leap-second
/// nanoseconds.
#[verifier::external_body]
fn rfc3339_parts(text: &str) -> (r: Result<(i64, u32), String>)
    ensures
        match rfc3339_reading(text@) {
            Ok(p) => r == Ok::<(i64, u32), String>(p),
            Err(m) => r matches Err(e) && e@ == m,
        },
        r matches Ok(p) ==> -TIMESTAMP_BOUND <= p.0 <= TIMESTAMP_BOUND && p.1 < 2 * NANOS_PER_SEC,
{
    match chrono::DateTime::parse_from_rfc3339(text) {
        Ok(d) => Ok((d.timestamp(), d.timestamp_subsec_nanos())),
        Err(e) => Err(e.to_string()),
    }
}

/// The moment that `rfc3339_instant` names.
pub open spec fn rfc3339_moment(text: Seq<char>) -> Option<Moment> {
    match rfc3339_instant(text) {
        Some(p) => Some(Moment { secs: p.0, nanos: p.1 }),
        None => None,
    }
}

/// Reads an RFC 3339 date and time (such as `2026-01-01T00:00:00Z`); a
/// refusal comes with `chrono`'s explanation.
pub fn read_rfc3339(text: &str) -> (r: Result<Moment, String>)
    ensures
        match rfc3339_moment(text@) {
            Some(m) => r == Ok::<Moment, String>(m),
            None => r matches Err(e) && e@ == rfc3339_refusal(text@),
        },
        r matches Ok(m) ==> moment_valid(m),
{
    match rfc3339_parts(text) {
        Ok(p) => Ok(Moment { secs: p.0, nanos: p.1 }),
        Err(e) => Err(e),
    }
}

/// Reads an RFC 3339 date and time (such as `2026-01-01T00:00:00Z`).
pub fn parse_rfc3339(text: &str) -> (r: Option<Moment>)
    ensures
        r == rfc3339_moment(text@),
        r matches Some(m) ==> moment_valid(m),
{
    match read_rfc3339(text) {
        Ok(m) => Some(m),
        Err(_) => None,
    }
}

/// Calls `chrono::Local::now` and reads its `timestamp()` and
/// `timestamp_subsec_nanos()`. Nothing is said of which moment comes back,
/// only that `chrono` can represent it.
#[verifier::external_body]
pub(crate) fn now() -> (r: Moment)
    ensures
        moment_valid(r),
{
    let n = chrono::Local::now();
    Moment { secs: n.timestamp(), nanos: n.timestamp_subsec_nanos() }
}

fn nanos_of(m: Moment) -> (r: i128)
    requires
        moment_valid(m),
    ensures
        r == at_nanos(m),
{
    (m.secs as i128) * 1_000_000_000i128 + (m.nanos as i128)
}

/// Whether `a` is strictly later than `b`.
pub fn is_later(a: Moment, b: Moment) -> (r: bool)
    requires
        moment_valid(a),
        moment_valid(b),
    ensures
        r == (at_nanos(a) > at_nanos(b)),
{
    nanos_of(a) > nanos_of(b)
}

/// Whole seconds from `earlier` to `later`, rounded toward zero: what
/// `later.signed_duration_since(earlier).num_seconds()` counts.
pub fn seconds_between(later: Moment, earlier: Moment) -> (r: i64)
    requires
        moment_valid(later),
        moment_valid(earlier),
    ensures
        r == whole_seconds_between(later, earlier),
        -2 * TIMESTAMP_BOUND - 2 <= r <= 2 * TIMESTAMP_BOUND + 2,
{
    let d: i128 = nanos_of(later) - nanos_of(earlier);
    if d >= 0 {
        let q = (d as u128) / 1_000_000_000u128;
        q as i64
    } else {
        let q = ((0 - d) as u128) / 1_000_000_000u128;
        0 - (q as i64)
    }
}

/// Whole days from `earlier` to `later`, rounded toward zero: what
/// `(later - earlier).num_days()` counts.
pub fn days_between(later: Moment, earlier: Moment) -> (r: i64)
    requires
        moment_valid(later),
        moment_valid(earlier),
    ensures
        r == whole_days_between(later, earlier),
{
    let s = seconds_between(later, earlier);
    if s >= 0 {
        s / 86400
    } else {
        0 - ((0 - s) / 86400)
    }
}

} // verus!
