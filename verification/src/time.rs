//! Points in time.
use vstd::prelude::*;

verus! {

/// A point in time: seconds and nanoseconds since the Unix epoch, in UTC.
#[derive(Clone, Copy, Debug, PartialEq, Eq, Structural)]
pub struct Timestamp {
    pub secs: i64,
    pub nanos: u32,
}

/// What `chrono` prints for a point in time in the format of RFC 3339, if it can
/// represent it.
pub uninterp spec fn rfc3339(secs: i64, nanos: u32) -> Option<Seq<char>>;

/// Trusted: `chrono::DateTime::to_rfc3339` on what `DateTime::from_timestamp`
/// makes of the numbers, if it can represent them. The text depends on the
/// numbers alone.
#[verifier::external_body]
fn print_rfc3339(secs: i64, nanos: u32) -> (r: Option<String>)
    ensures
        crate::text::opt_text(r) == rfc3339(secs, nanos),
{
    chrono::DateTime::<chrono::Utc>::from_timestamp(secs, nanos).map(|t| t.to_rfc3339())
}

/// The text of a point in time; nothing where it is beyond the calendar.
pub open spec fn stamp_text(t: Timestamp) -> Seq<char> {
    match rfc3339(t.secs, t.nanos) {
        Some(text) => text,
        None => Seq::empty(),
    }
}

/// Whether `a` is before `b`.
pub open spec fn stamp_less(a: Timestamp, b: Timestamp) -> bool {
    a.secs < b.secs || (a.secs == b.secs && a.nanos < b.nanos)
}

impl Timestamp {
    pub fn to_rfc3339(&self) -> (r: String)
        ensures
            r@ == stamp_text(*self),
    {
        match print_rfc3339(self.secs, self.nanos) {
            Some(text) => text,
            None => String::new(),
        }
    }

    pub fn is_before(&self, other: &Timestamp) -> (r: bool)
        ensures
            r == stamp_less(*self, *other),
    {
        self.secs < other.secs || (self.secs == other.secs && self.nanos < other.nanos)
    }
}

/// A day of the calendar.
#[derive(Clone, Copy, Debug, PartialEq, Eq, Structural)]
pub struct Day {
    pub year: i32,
    pub month: u32,
    pub day: u32,
}

/// What `chrono` prints for a day, if there is such a day.
pub uninterp spec fn ymd(year: i32, month: u32, day: u32) -> Option<Seq<char>>;

/// Trusted: the text of `chrono::NaiveDate`, as `Display` gives it, for what
/// `NaiveDate::from_ymd_opt` makes of the numbers. The text depends on the
/// numbers alone.
#[verifier::external_body]
fn print_ymd(year: i32, month: u32, day: u32) -> (r: Option<String>)
    ensures
        crate::text::opt_text(r) == ymd(year, month, day),
{
    chrono::NaiveDate::from_ymd_opt(year, month, day).map(|d| d.to_string())
}

impl Day {
    /// The text of the day, where there is such a day.
    pub fn to_text(&self) -> (r: Option<String>)
        ensures
            crate::text::opt_text(r) == ymd(self.year, self.month, self.day),
    {
        print_ymd(self.year, self.month, self.day)
    }
}

/// Of two points in time one is before the other, unless they are the same; no point is
/// before itself, and what is before an earlier one is before a later one.
pub proof fn law_time_goes_on(a: Timestamp, b: Timestamp, c: Timestamp)
    ensures
        !stamp_less(a, a),
        a != b ==> stamp_less(a, b) || stamp_less(b, a),
        stamp_less(a, b) && stamp_less(b, c) ==> stamp_less(a, c),
        a.secs < b.secs ==> stamp_less(a, b),
{
}

} // verus!
