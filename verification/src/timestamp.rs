//! UTC instants, the clock that supplies them, and their RFC 3339 text.

use vstd::prelude::*;

verus! {

/// Seconds from the Unix epoch to the first instant that can be held:
/// midnight on 1 January of the year -262143, which is the timestamp of
/// chrono's `DateTime::<Utc>::MIN_UTC`.
pub const MIN_SECONDS: i64 = -8_334_601_228_800;

/// Seconds from the Unix epoch to the last second that can be held:
/// 23:59:59 on 31 December of the year 262142, which is the timestamp of
/// chrono's `DateTime::<Utc>::MAX_UTC`.
pub const MAX_SECONDS: i64 = 8_210_266_876_799;

/// Nanoseconds in one second.
pub const NANOS_PER_SECOND: u32 = 1_000_000_000;

/// The pair names an instant that a [`Timestamp`] can hold: whole seconds
/// within the calendar's range and a fraction below one second.
pub open spec fn representable(secs: int, nanos: int) -> bool {
    MIN_SECONDS <= secs <= MAX_SECONDS && 0 <= nanos < NANOS_PER_SECOND
}

/// The RFC 3339 text of the UTC instant `secs` seconds and `nanos`
/// nanoseconds after the Unix epoch, such as
/// `2026-02-18T18:16:34.775+00:00`.
pub uninterp spec fn rfc3339_text(secs: int, nanos: int) -> Seq<char>;

/// Reads the wall clock through `chrono::Utc::now` and returns the instant as
/// seconds and nanoseconds since the Unix epoch.
///
/// Trusted: the instant that `Utc::now` returns lies between `MIN_UTC` and
/// `MAX_UTC`, as every `DateTime<Utc>` does, and its fraction, which chrono
/// takes from a `Duration`, is below one second. `Utc::now` itself panics on
/// a system clock set before 1970; nothing here can rule that out.
#[verifier::external_body]
fn read_clock() -> (r: (i64, u32))
    ensures
        representable(r.0 as int, r.1 as int),
{
    let now = chrono::Utc::now();
    (now.timestamp(), now.timestamp_subsec_nanos())
}

/// Renders an instant through `chrono::DateTime::<Utc>::to_rfc3339`.
///
/// Trusted: on a representable pair `DateTime::from_timestamp` returns
/// `Some`, and the text that `to_rfc3339` gives for that value depends on
/// the pair alone.
#[verifier::external_body]
fn render_rfc3339(secs: i64, nanos: u32) -> (text: String)
    requires
        representable(secs as int, nanos as int),
    ensures
        text@ == rfc3339_text(secs as int, nanos as int),
{
    chrono::DateTime::from_timestamp(secs, nanos).unwrap().to_rfc3339()
}

/// A UTC instant with nanosecond resolution.
#[derive(Clone, Copy, Debug, PartialEq, Eq, Structural)]
pub struct Timestamp {
    secs: i64,
    nanos: u32,
}

impl Timestamp {
    /// Whole seconds since the Unix epoch; negative before it.
    pub closed spec fn secs(self) -> int {
        self.secs as int
    }

    /// Nanoseconds since the last whole second.
    pub closed spec fn nanos(self) -> int {
        self.nanos as int
    }

    /// Every value of the type is a representable instant.
    #[verifier::type_invariant]
    pub open spec fn in_range(self) -> bool {
        representable(self.secs(), self.nanos())
    }

    /// The instant `secs` seconds and `nanos` nanoseconds after the Unix
    /// epoch, or `None` when the pair is not representable.
    pub fn new(secs: i64, nanos: u32) -> (r: Option<Timestamp>)
        ensures
            r.is_some() == representable(secs as int, nanos as int),
            r matches Some(t) ==> t.secs() == secs && t.nanos() == nanos,
    {
        if MIN_SECONDS <= secs && secs <= MAX_SECONDS && nanos < NANOS_PER_SECOND {
            Some(Timestamp { secs, nanos })
        } else {
            None
        }
    }

    /// The instant `millis` milliseconds after the Unix epoch (before it
    /// when negative), or `None` when it is out of range.
    pub fn from_millis(millis: i64) -> (r: Option<Timestamp>)
        ensures
            r.is_some() == representable(millis as int / 1000, (millis as int % 1000) * 1_000_000),
            r matches Some(t) ==> t.secs() == millis as int / 1000 && t.nanos() == (millis as int
                % 1000) * 1_000_000,
    {
        let whole: i64 = millis / 1000;
        let part: i64 = millis % 1000;
        let (secs, rest): (i64, i64) = if part < 0 {
            (whole - 1, part + 1000)
        } else {
            (whole, part)
        };
        assert(secs == millis as int / 1000 && rest == millis as int % 1000) by {
            assert(millis == secs * 1000 + rest);
            assert(0 <= rest < 1000);
        }
        let nanos: u32 = (rest as u32) * 1_000_000;
        Timestamp::new(secs, nanos)
    }

    /// The current instant of the wall clock.
    pub fn now() -> (r: Timestamp)
        ensures
            r.in_range(),
    {
        let (secs, nanos) = read_clock();
        Timestamp { secs, nanos }
    }

    /// Whole seconds since the Unix epoch.
    pub fn seconds(&self) -> (s: i64)
        ensures
            s == self.secs(),
    {
        self.secs
    }

    /// Nanoseconds since the last whole second.
    pub fn subsec_nanos(&self) -> (n: u32)
        ensures
            n == self.nanos(),
            n < NANOS_PER_SECOND,
    {
        proof {
            use_type_invariant(self);
        }
        self.nanos
    }

    /// The instant as RFC 3339 text.
    pub fn to_rfc3339(&self) -> (text: String)
        ensures
            text@ == rfc3339_text(self.secs(), self.nanos()),
    {
        proof {
            use_type_invariant(self);
        }
        render_rfc3339(self.secs, self.nanos)
    }
}

} // verus!
