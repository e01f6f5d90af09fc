//! UTC instants as plain integers, with the day arithmetic the checks rely on.
use vstd::prelude::*;
use crate::errors::Error;

verus! {

pub const NANOS_PER_SEC: i128 = 1_000_000_000;

pub const NANOS_PER_DAY: i128 = 86_400_000_000_000;

pub const SECS_PER_DAY: i64 = 86_400;

/// 0000-01-01T00:00:00Z, the first instant with a four-digit year.
pub const MIN_SECS: i64 = -62_167_219_200;

/// 9999-12-31T23:59:59Z, the last second with a four-digit year.
pub const MAX_SECS: i64 = 253_402_300_799;

/// A multiple of whole weeks that lifts every `i64` second count above zero.
const WEEK_SHIFT_SECS: i128 = 9_223_372_036_855_065_600;

/// An instant in UTC: whole seconds since 1970-01-01T00:00:00Z, and the
/// nanoseconds into that second (at or above one second only inside a leap second).
#[derive(Clone, Copy, Debug, PartialEq, Eq, Structural)]
pub struct Timestamp {
    pub secs: i64,
    pub nanos: u32,
}

/// The seconds and nanoseconds of an instant with a four-digit year; a nanosecond
/// part of a second or more stands only in the last second of a minute.
pub open spec fn valid_parts(secs: int, nanos: int) -> bool {
    &&& MIN_SECS <= secs <= MAX_SECS
    &&& 0 <= nanos
    &&& (nanos < 1_000_000_000 || (nanos < 2_000_000_000 && secs % 60 == 59))
}

/// Integer division rounded toward zero.
pub open spec fn div_toward_zero(x: int, d: int) -> int {
    if x >= 0 {
        x / d
    } else {
        -((-x) / d)
    }
}

impl Timestamp {
    pub open spec fn wf(&self) -> bool {
        valid_parts(self.secs as int, self.nanos as int)
    }

    /// Nanoseconds since the epoch.
    pub open spec fn instant(&self) -> int {
        self.secs * 1_000_000_000 + self.nanos
    }

    /// Strictly earlier, comparing seconds first and then the nanosecond part.
    pub open spec fn earlier(&self, other: Timestamp) -> bool {
        self.secs < other.secs || (self.secs == other.secs && self.nanos < other.nanos)
    }

    /// Whole days from `since` to `self`, rounded toward zero (negative when
    /// `self` is earlier).
    pub open spec fn days_since(&self, since: Timestamp) -> int {
        div_toward_zero(self.instant() - since.instant(), NANOS_PER_DAY as int)
    }

    /// The weekday, Monday being 0 and Sunday 6.
    pub open spec fn weekday_spec(&self) -> int {
        ((self.secs as int) / (SECS_PER_DAY as int) + 3) % 7
    }

    pub fn new(secs: i64, nanos: u32) -> (r: Option<Timestamp>)
        ensures
            r is Some <==> valid_parts(secs as int, nanos as int),
            r matches Some(t) ==> t.secs == secs && t.nanos == nanos,
    {
        if secs < MIN_SECS || secs > MAX_SECS {
            return None;
        }
        let from_min: i64 = secs - MIN_SECS;
        proof {
            vstd::arithmetic::div_mod::lemma_mod_multiples_vanish(1036120320, secs as int, 60);
            assert(from_min == 60 * 1036120320 + secs);
        }
        if nanos < 1_000_000_000 || (nanos < 2_000_000_000 && from_min % 60 == 59) {
            Some(Timestamp { secs, nanos })
        } else {
            None
        }
    }

    /// Signed whole days from `since` to `self`, rounded toward zero.
    pub fn days_since_exec(&self, since: &Timestamp) -> (r: i64)
        ensures
            r == self.days_since(*since),
    {
        let diff: i128 = (self.secs as i128 - since.secs as i128) * NANOS_PER_SEC + (
        self.nanos as i128 - since.nanos as i128);
        if diff >= 0 {
            let q: i128 = diff / NANOS_PER_DAY;
            assert(q <= diff) by (nonlinear_arith)
                requires
                    q == diff / NANOS_PER_DAY,
                    diff >= 0,
            ;
            q as i64
        } else {
            let m: i128 = -diff;
            let q: i128 = m / NANOS_PER_DAY;
            assert(q <= m) by (nonlinear_arith)
                requires
                    q == m / NANOS_PER_DAY,
                    m >= 0,
            ;
            -(q as i64)
        }
    }

    /// The weekday, Monday being 0 and Sunday 6.
    pub fn weekday(&self) -> (r: u8)
        ensures
            r as int == self.weekday_spec(),
            r < 7,
    {
        let lifted: i128 = self.secs as i128 + WEEK_SHIFT_SECS;
        let days: i128 = lifted / (SECS_PER_DAY as i128);
        proof {
            let s = self.secs as int;
            let q = s / 86400;
            let rem = s % 86400;
            vstd::arithmetic::div_mod::lemma_fundamental_div_mod(s, 86400);
            let weeks = 15250284452472int;
            assert(lifted == 86400 * (q + 7 * weeks) + rem);
            vstd::arithmetic::div_mod::lemma_div_multiples_vanish_fancy(q + 7 * weeks, rem, 86400);
            assert(days == q + 7 * weeks);
            vstd::arithmetic::div_mod::lemma_mod_multiples_vanish(weeks, q + 3, 7);
            assert(days + 3 == 7 * weeks + (q + 3));
        }
        ((days + 3) % 7) as u8
    }
}

} // verus!

verus! {

/// What chrono's RFC 3339 parser makes of a text: the instant's seconds since the
/// epoch and its nanosecond part, or nothing when the text is malformed.
pub uninterp spec fn rfc3339_parse(s: Seq<char>) -> Option<(i64, u32)>;

/// The RFC 3339 text chrono writes for an instant, with a `+00:00` offset and as
/// many fraction digits as the nanoseconds need.
pub uninterp spec fn rfc3339_text(secs: i64, nanos: u32) -> Seq<char>;

/// Relies on chrono's `DateTime::parse_from_rfc3339`, read back through
/// `timestamp` and `timestamp_subsec_nanos`: it parses or fails, by the text alone.
#[verifier::external_body]
fn parse_rfc3339(s: &str) -> (r: Result<(i64, u32), String>)
    ensures
        match r {
            Ok(p) => rfc3339_parse(s@) == Some(p),
            Err(_) => rfc3339_parse(s@) is None,
        },
{
    match chrono::DateTime::parse_from_rfc3339(s) {
        Ok(t) => Ok((t.timestamp(), t.timestamp_subsec_nanos())),
        Err(e) => Err(e.to_string()),
    }
}

/// Relies on chrono's `DateTime::<Utc>::to_rfc3339`, on the instant that
/// `DateTime::from_timestamp` makes of the parts: for a four-digit year it writes
/// every nanosecond, so that `parse_from_rfc3339` gives the same parts back.
#[verifier::external_body]
fn format_rfc3339(secs: i64, nanos: u32) -> (r: String)
    requires
        valid_parts(secs as int, nanos as int),
    ensures
        r@ == rfc3339_text(secs, nanos),
        rfc3339_parse(r@) == Some((secs, nanos)),
{
    chrono::DateTime::from_timestamp(secs, nanos).map(|t| t.to_rfc3339()).unwrap_or_default()
}

/// The instant an RFC 3339 text denotes, where it has a four-digit year in UTC.
pub open spec fn parsed_timestamp(s: Seq<char>) -> Option<Timestamp> {
    match rfc3339_parse(s) {
        Some(p) => if valid_parts(p.0 as int, p.1 as int) {
            Some(Timestamp { secs: p.0, nanos: p.1 })
        } else {
            None
        },
        None => None,
    }
}

impl Timestamp {
    /// Parses an RFC 3339 date-time; any offset is converted to UTC. A text that
    /// chrono parses but whose UTC instant falls outside the years 0000 to 9999
    /// (such as `9999-12-31T23:30:00-01:00`) gives `ChronoFormatParseError` too,
    /// since its RFC 3339 form could not be read back. Loading a stored cache
    /// reports either failure as a format failure of the cache instead.
    pub fn parse(s: &str) -> (r: Result<Timestamp, Error>)
        ensures
            match r {
                Ok(t) => parsed_timestamp(s@) == Some(t) && t.wf(),
                Err(e) => parsed_timestamp(s@) is None && e is ChronoFormatParseError,
            },
    {
        match parse_rfc3339(s) {
            Ok(p) => match Timestamp::new(p.0, p.1) {
                Some(t) => Ok(t),
                None => Err(Error::ChronoFormatParseError("date-time out of range".to_owned())),
            },
            Err(m) => Err(Error::ChronoFormatParseError(m)),
        }
    }

    /// The RFC 3339 text of this instant, which `parse` reads back unchanged.
    pub fn to_rfc3339(&self) -> (r: String)
        requires
            self.wf(),
        ensures
            r@ == rfc3339_text(self.secs, self.nanos),
            parsed_timestamp(r@) == Some(*self),
    {
        format_rfc3339(self.secs, self.nanos)
    }
}

} // verus!
