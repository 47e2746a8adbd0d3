//! The boundary with the calendar library: the parts a calendar instant or span
//! is built from, and the calendar's text for an instant or a span.
use crate::delta::{TimeDelta, NANOS_PER_SEC};
use crate::timestamp::Timestamp;
use vstd::prelude::*;

verus! {

/// The calendar library's text for the span of `nanos` nanoseconds.
pub uninterp spec fn duration_text(nanos: int) -> Seq<char>;

/// The calendar library's text for the instant `secs` seconds and `nanos`
/// nanoseconds after the epoch.
pub uninterp spec fn instant_text(secs: int, nanos: int) -> Seq<char>;

/// Relies on `chrono::Duration::nanoseconds` and chrono's `Display` for its span
/// type: an ISO 8601 duration in seconds such as `PT43200S` or `PT1.5S`, which
/// depends on the number of nanoseconds alone.
#[verifier::external_body]
fn format_duration_nanos(n: i64) -> (r: String)
    ensures
        r@ == duration_text(n as int),
{
    chrono::Duration::nanoseconds(n).to_string()
}

/// Relies on `chrono::DateTime::<Utc>::from_timestamp` and chrono's `Display` for
/// `DateTime<Utc>`, as in `2019-04-14 00:00:00 UTC`, which depends on the two
/// parts alone. `from_timestamp` gives `None` only for a date past chrono's range
/// (some 262,000 years) or a nanosecond part of a second or more, which the
/// `requires` leaves out.
#[verifier::external_body]
fn format_instant(secs: i64, nanos: u32) -> (r: String)
    requires
        0 <= secs <= 100_000_000_000,
        nanos < NANOS_PER_SEC,
    ensures
        r@ == instant_text(secs as int, nanos as int),
{
    match chrono::DateTime::<chrono::Utc>::from_timestamp(secs, nanos) {
        Some(d) => d.to_string(),
        None => String::new(),
    }
}

impl Timestamp {
    /// The instant for a calendar instant given as signed nanoseconds since the
    /// epoch: one before the epoch, or one whose count does not fit (`None`), becomes
    /// the epoch.
    pub fn from_calendar_nanos(nanos: Option<i64>) -> (r: Timestamp)
        ensures
            r@ == (match nanos {
                Some(n) => if n >= 0 {
                    n as int
                } else {
                    0
                },
                None => 0,
            }),
    {
        match nanos {
            Some(n) => if n >= 0 {
                Timestamp::from_nanoseconds(n as u64)
            } else {
                Timestamp::zero()
            },
            None => Timestamp::zero(),
        }
    }

    /// The instant as whole seconds since the epoch and the nanoseconds past them,
    /// the two parts a calendar instant is built from.
    pub fn to_calendar_parts(self) -> (r: (i64, u32))
        ensures
            r.0 == self@ / NANOS_PER_SEC as int,
            r.1 == self@ % NANOS_PER_SEC as int,
    {
        let n: u64 = self.as_nanoseconds();
        let secs: u64 = n / (NANOS_PER_SEC as u64);
        let nanos: u64 = n % (NANOS_PER_SEC as u64);
        assert(secs <= 18_446_744_073);
        (secs as i64, nanos as u32)
    }

    /// The instant written out by the calendar library, as in `2019-04-14 00:00:00 UTC`.
    pub fn to_string(&self) -> (r: String)
        ensures
            r@ == instant_text(self@ / NANOS_PER_SEC as int, self@ % NANOS_PER_SEC as int),
    {
        let (secs, nanos) = self.to_calendar_parts();
        proof {
            Timestamp::lemma_view_bounds(*self);
        }
        format_instant(secs, nanos)
    }
}

impl TimeDelta {
    /// The span for a calendar span given as signed nanoseconds; one whose count
    /// does not fit (`None`) becomes the empty span.
    pub fn from_calendar_nanos(nanos: Option<i64>) -> (r: TimeDelta)
        ensures
            r@ == (match nanos {
                Some(n) => n as int,
                None => 0,
            }),
    {
        match nanos {
            Some(n) => TimeDelta::from_nanoseconds(n),
            None => TimeDelta::zero(),
        }
    }

    /// The span written out by the calendar library, as an ISO 8601 duration.
    pub fn to_string(&self) -> (r: String)
        ensures
            r@ == duration_text(self@),
    {
        format_duration_nanos(self.as_nanoseconds())
    }
}

} // verus!
