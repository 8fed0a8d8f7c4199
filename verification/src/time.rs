//! Instants on the UTC time line, and the calls into `chrono` that produce them.

use vstd::prelude::*;

verus! {

/// Smallest number of seconds since the Unix epoch that `chrono` can represent
/// (midnight of January 1 of the year -262143).
pub const MIN_SECS: i64 = -8_334_601_228_800;

/// Largest number of seconds since the Unix epoch that `chrono` can represent
/// (the last second of December 31 of the year 262142).
pub const MAX_SECS: i64 = 8_210_266_876_799;

/// An instant in UTC: whole seconds since 1970-01-01T00:00:00Z and the
/// nanoseconds past that second. During a leap second `nanos` runs from
/// 1_000_000_000 to 1_999_999_999.
#[derive(Clone, Copy, Debug, PartialEq, Eq, Structural, PartialOrd, Ord, Hash)]
pub struct Timestamp {
    pub secs: i64,
    pub nanos: u32,
}

impl Timestamp {
    /// `self` is strictly earlier than `other`.
    pub open spec fn before(self, other: Timestamp) -> bool {
        self.secs < other.secs || (self.secs == other.secs && self.nanos < other.nanos)
    }

    /// `self` is no later than `other`.
    pub open spec fn at_or_before(self, other: Timestamp) -> bool {
        !other.before(self)
    }

    /// The earlier of two instants.
    pub open spec fn earlier_of(self, other: Timestamp) -> Timestamp {
        if other.before(self) {
            other
        } else {
            self
        }
    }

    /// The later of two instants.
    pub open spec fn later_of(self, other: Timestamp) -> Timestamp {
        if self.before(other) {
            other
        } else {
            self
        }
    }

    /// The instant is one that `chrono` can hold: the seconds are in range and
    /// the nanoseconds pass one billion only in the last second of a minute.
    pub open spec fn representable(self) -> bool {
        &&& MIN_SECS <= self.secs <= MAX_SECS
        &&& self.nanos < 2_000_000_000
        &&& (self.nanos >= 1_000_000_000 ==> self.secs as int % 60 == 59)
    }

    /// Strict "earlier than".
    pub fn is_before(&self, other: &Timestamp) -> (r: bool)
        ensures
            r == self.before(*other),
    {
        self.secs < other.secs || (self.secs == other.secs && self.nanos < other.nanos)
    }

    /// Strict "later than".
    pub fn is_after(&self, other: &Timestamp) -> (r: bool)
        ensures
            r == other.before(*self),
    {
        other.is_before(self)
    }
}

/// `before` is a strict total order.
pub proof fn lemma_before_is_strict_total_order(a: Timestamp, b: Timestamp, c: Timestamp)
    ensures
        !a.before(a),
        a.before(b) ==> !b.before(a),
        a.before(b) && b.before(c) ==> a.before(c),
        a.before(b) || b.before(a) || a == b,
{
}

/// Calls `chrono::DateTime::<Utc>::from_timestamp`. The contract repeats what
/// its source checks: the day of `secs` lies between `NaiveDate::MIN` and
/// `NaiveDate::MAX`, `nsecs` is under two billion, and reaches one billion only
/// in second 59 of a minute. On success the instant reads back, through
/// `timestamp` and `timestamp_subsec_nanos`, as the two arguments.
#[verifier::external_body]
pub(crate) fn utc_from_timestamp(secs: i64, nsecs: u32) -> (r: Option<Timestamp>)
    ensures
        r == (if (Timestamp { secs, nanos: nsecs }).representable() {
            Some(Timestamp { secs, nanos: nsecs })
        } else {
            None::<Timestamp>
        }),
{
    match chrono::DateTime::from_timestamp(secs, nsecs) {
        Some(d) => Some(Timestamp { secs: d.timestamp(), nanos: d.timestamp_subsec_nanos() }),
        None => None,
    }
}

/// Calls `chrono::Utc::now` and reads the wall clock. Nothing is promised of
/// the instant beyond its being one that `chrono` holds. `chrono` panics when
/// the system clock stands before 1970.
#[verifier::external_body]
pub(crate) fn utc_now() -> (r: Timestamp)
    ensures
        r.representable(),
{
    let d = chrono::Utc::now();
    Timestamp { secs: d.timestamp(), nanos: d.timestamp_subsec_nanos() }
}

/// What `chrono::NaiveDate::parse_from_str` makes of `text` under `format`:
/// the number of the parsed day, counted from January 1 of the year 1 as day 1,
/// or `None` where it reports an error.
pub uninterp spec fn parsed_day(text: Seq<char>, format: Seq<char>) -> Option<i32>;

/// Declares `chrono::format::ParseError`, the error of the two parsing calls
/// below. Nothing is claimed of what it holds; it is only told apart from
/// success.
#[verifier::external_type_specification]
#[verifier::external_body]
pub struct ExParseError(chrono::format::ParseError);

/// Calls `chrono::NaiveDate::parse_from_str` and hands the date back as its
/// day number (`Datelike::num_days_from_ce`). The contract gives the outcome
/// the name `parsed_day`: the same text and format always parse alike.
#[verifier::external_body]
pub(crate) fn naive_date_parse(text: &str, format: &str) -> (r: Result<
    i32,
    chrono::format::ParseError,
>)
    ensures
        match r {
            Ok(day) => parsed_day(text@, format@) == Some(day),
            Err(_) => parsed_day(text@, format@).is_none(),
        },
{
    match chrono::NaiveDate::parse_from_str(text, format) {
        Ok(date) => Ok(chrono::Datelike::num_days_from_ce(&date)),
        Err(e) => Err(e),
    }
}

/// The text that `chrono::DateTime::<Utc>::to_rfc3339` writes for the instant
/// with these seconds and nanoseconds.
pub uninterp spec fn rfc3339_text(secs: i64, nanos: u32) -> Seq<char>;

/// Calls `chrono::DateTime::<Utc>::to_rfc3339` on the instant `t`, which is
/// first handed to `chrono` through `DateTime::from_timestamp`. The result is
/// `None` exactly where `chrono` cannot hold the instant; otherwise it is the
/// text named `rfc3339_text`, which depends on the instant alone.
#[verifier::external_body]
pub(crate) fn to_rfc3339(t: Timestamp) -> (r: Option<String>)
    ensures
        r is Some <==> t.representable(),
        r matches Some(text) ==> text@ == rfc3339_text(t.secs, t.nanos),
{
    match chrono::DateTime::from_timestamp(t.secs, t.nanos) {
        Some(d) => Some(d.to_rfc3339()),
        None => None,
    }
}

/// What `chrono::DateTime::parse_from_rfc3339` makes of `text`: the seconds
/// since the Unix epoch and the nanoseconds of the instant it reads, or `None`
/// where it reports an error.
pub uninterp spec fn rfc3339_instant(text: Seq<char>) -> Option<(i64, u32)>;

/// Calls `chrono::DateTime::parse_from_rfc3339` and hands the instant back
/// as what `timestamp` and `timestamp_subsec_nanos` read from it, which does
/// not depend on the offset that the text was written with. The contract gives
/// the outcome the name `rfc3339_instant`.
#[verifier::external_body]
pub(crate) fn parse_from_rfc3339(text: &str) -> (r: Result<Timestamp, chrono::format::ParseError>)
    ensures
        match r {
            Ok(t) => rfc3339_instant(text@) == Some((t.secs, t.nanos)),
            Err(_) => rfc3339_instant(text@).is_none(),
        },
{
    match chrono::DateTime::parse_from_rfc3339(text) {
        Ok(d) => Ok(Timestamp { secs: d.timestamp(), nanos: d.timestamp_subsec_nanos() }),
        Err(e) => Err(e),
    }
}

} // verus!
