//! Moments in time, in UTC, and their RFC 3339 text.

use vstd::prelude::*;

verus! {

/// The first second of the year 0000, counted from the Unix epoch.
pub const MIN_SECS: i64 = -62_167_219_200;

/// The last second of the year 9999, counted from the Unix epoch.
pub const MAX_SECS: i64 = 253_402_300_799;

/// The nanoseconds in one second.
pub const NANOS_PER_SEC: u32 = 1_000_000_000;

/// The RFC 3339 text that `chrono` writes for the moment `nanos` nanoseconds
/// after `secs` seconds from the Unix epoch, in UTC.
pub uninterp spec fn rfc3339_text(secs: int, nanos: int) -> Seq<char>;

/// The moment that `chrono` reads from an RFC 3339 text, brought to UTC:
/// seconds from the Unix epoch and nanoseconds within the second. `None`
/// where the text is not RFC 3339.
pub uninterp spec fn rfc3339_instant(text: Seq<char>) -> Option<(int, int)>;

/// True of the moments that a `Timestamp` can hold: those of the years 0000
/// to 9999.
pub open spec fn representable(secs: int, nanos: int) -> bool {
    MIN_SECS <= secs <= MAX_SECS && 0 <= nanos < NANOS_PER_SEC
}

/// Writes a moment with `chrono::DateTime::<Utc>::from_timestamp` and
/// `to_rfc3339`. A representable moment is within what `from_timestamp`
/// takes; its text has a four-digit year and the offset `+00:00`, and
/// `parse_from_rfc3339` reads the same moment back from it.
#[verifier::external_body]
fn rfc3339_write(secs: i64, nanos: u32) -> (r: Option<String>)
    ensures
        representable(secs as int, nanos as int) ==> r is Some,
        r matches Some(text) ==> text@ == rfc3339_text(secs as int, nanos as int),
        r matches Some(text) ==> representable(secs as int, nanos as int) ==> rfc3339_instant(
            text@,
        ) == Some((secs as int, nanos as int)),
{
    match chrono::DateTime::<chrono::Utc>::from_timestamp(secs, nanos) {
        Some(moment) => Some(moment.to_rfc3339()),
        None => None,
    }
}

/// Reads a moment with `chrono::DateTime::parse_from_rfc3339` and brings it
/// to UTC with `with_timezone`; the parts come from `timestamp` and
/// `timestamp_subsec_nanos`.
#[verifier::external_body]
fn rfc3339_read(text: &str) -> (r: Option<(i64, u32)>)
    ensures
        match r {
            Some((secs, nanos)) => rfc3339_instant(text@) == Some((secs as int, nanos as int)),
            None => rfc3339_instant(text@) is None,
        },
{
    match chrono::DateTime::parse_from_rfc3339(text) {
        Ok(moment) => {
            let utc = moment.with_timezone(&chrono::Utc);
            Some((utc.timestamp(), utc.timestamp_subsec_nanos()))
        },
        Err(_) => None,
    }
}

/// A moment in UTC, between the first second of the year 0000 and the last
/// of the year 9999, to the nanosecond.
#[derive(Clone, Copy, Debug, PartialEq, Eq, Structural)]
pub struct Timestamp {
    secs: i64,
    nanos: u32,
}

impl Timestamp {
    /// Seconds from the Unix epoch.
    pub closed spec fn secs(self) -> int {
        self.secs as int
    }

    /// Nanoseconds within the second.
    pub closed spec fn nanos(self) -> int {
        self.nanos as int
    }

    /// The timestamp of a representable moment.
    pub closed spec fn at(secs: int, nanos: int) -> Timestamp
        recommends
            representable(secs, nanos),
    {
        Timestamp { secs: secs as i64, nanos: nanos as u32 }
    }

    /// Every timestamp is a representable moment.
    #[verifier::type_invariant]
    pub closed spec fn in_range(self) -> bool {
        representable(self.secs as int, self.nanos as int)
    }

    /// The timestamp of a moment, where it is representable.
    pub fn new(secs: i64, nanos: u32) -> (r: Option<Timestamp>)
        ensures
            r == (if representable(secs as int, nanos as int) {
                Some(Timestamp::at(secs as int, nanos as int))
            } else {
                None
            }),
            r matches Some(t) ==> t.secs() == secs && t.nanos() == nanos && t.in_range(),
    {
        if MIN_SECS <= secs && secs <= MAX_SECS && nanos < NANOS_PER_SEC {
            Some(Timestamp { secs, nanos })
        } else {
            None
        }
    }

    /// Seconds from the Unix epoch.
    pub fn seconds(&self) -> (r: i64)
        ensures
            r == self.secs(),
            MIN_SECS <= r <= MAX_SECS,
    {
        proof {
            use_type_invariant(self);
        }
        self.secs
    }

    /// Nanoseconds within the second.
    pub fn subsec_nanos(&self) -> (r: u32)
        ensures
            r == self.nanos(),
            r < NANOS_PER_SEC,
    {
        proof {
            use_type_invariant(self);
        }
        self.nanos
    }

    /// The RFC 3339 text of the moment. Reading it gives the moment back.
    pub fn to_rfc3339(&self) -> (r: String)
        ensures
            r@ == rfc3339_text(self.secs(), self.nanos()),
            spec_parse(r@) == Some(*self),
    {
        proof {
            use_type_invariant(self);
        }
        match rfc3339_write(self.secs, self.nanos) {
            Some(text) => text,
            None => String::new(),
        }
    }

    /// Reads an RFC 3339 text. Gives the moment, in UTC, where the text is
    /// RFC 3339 and the moment is representable.
    pub fn parse_rfc3339(text: &str) -> (r: Option<Timestamp>)
        ensures
            r == spec_parse(text@),
            r matches Some(t) ==> t.in_range(),
    {
        match rfc3339_read(text) {
            Some((secs, nanos)) => Timestamp::new(secs, nanos),
            None => None,
        }
    }
}

/// The parts of every timestamp fit in the machine's integers.
pub proof fn lemma_parts_fit(t: Timestamp)
    ensures
        i64::MIN <= t.secs() <= i64::MAX,
        0 <= t.nanos() <= u32::MAX,
{
}

/// The timestamp that a text stands for: the moment that it states, where it
/// states one that is representable.
pub open spec fn spec_parse(text: Seq<char>) -> Option<Timestamp> {
    match rfc3339_instant(text) {
        Some((secs, nanos)) => if representable(secs, nanos) {
            Some(Timestamp::at(secs, nanos))
        } else {
            None
        },
        None => None,
    }
}

} // verus!
