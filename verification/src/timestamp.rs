//! Domain instants and their wire form.
//!
//! The wire format carries whole-second Unix epoch integers only.  Converting
//! a domain instant to the wire discards its sub-second component (truncation,
//! never rounding); converting back yields an instant with a zero sub-second
//! component, or `InvalidTimestamp` when the integer lies outside the range
//! the domain instant type can represent.

use vstd::prelude::*;
use crate::errors::MarshalError;

verus! {

/// Smallest wire timestamp a domain instant can represent: the first second
/// of the earliest supported calendar date, as a Unix epoch integer.
pub const MIN_WIRE_SECONDS: i64 = -377_705_116_800;

/// Largest wire timestamp a domain instant can represent: the last second of
/// the latest supported calendar date, as a Unix epoch integer.
pub const MAX_WIRE_SECONDS: i64 = 253_402_300_799;

/// Count of nanoseconds in one second; sub-second components lie below it.
pub const NANOS_PER_SECOND: u32 = 1_000_000_000;

/// An instant: whole seconds since the Unix epoch plus a non-negative
/// sub-second component in nanoseconds.
#[derive(Clone, Copy, Debug, PartialEq, Eq, Structural)]
pub struct Timestamp {
    /// Whole seconds since the Unix epoch.
    pub seconds: i64,
    /// Sub-second component, always below one second.
    pub nanos: u32,
}

impl Timestamp {
    /// A well-formed instant lies in the representable range and its
    /// sub-second component is below one second.
    pub open spec fn wf(self) -> bool {
        &&& MIN_WIRE_SECONDS <= self.seconds <= MAX_WIRE_SECONDS
        &&& self.nanos < NANOS_PER_SECOND
    }

    /// The same instant with its sub-second component discarded.
    pub open spec fn truncated(self) -> Timestamp {
        Timestamp { seconds: self.seconds, nanos: 0 }
    }

    /// Builds an instant from whole seconds and a sub-second component.
    pub fn new(seconds: i64, nanos: u32) -> (r: Result<Timestamp, MarshalError>)
        ensures
            (MIN_WIRE_SECONDS <= seconds <= MAX_WIRE_SECONDS && nanos < NANOS_PER_SECOND)
                ==> r == Ok::<Timestamp, MarshalError>(Timestamp { seconds, nanos }),
            !(MIN_WIRE_SECONDS <= seconds <= MAX_WIRE_SECONDS && nanos < NANOS_PER_SECOND)
                ==> r == Err::<Timestamp, MarshalError>(MarshalError::InvalidTimestamp),
            r is Ok ==> r->Ok_0.wf(),
    {
        if instant_representable(seconds) && nanos < NANOS_PER_SECOND {
            Ok(Timestamp { seconds, nanos })
        } else {
            Err(MarshalError::InvalidTimestamp)
        }
    }
}

/// Relies on `time::OffsetDateTime::from_unix_timestamp`: it returns `Ok`
/// exactly when the timestamp lies between the Unix timestamps of the
/// earliest and latest supported dates, inclusive.
#[verifier::external_body]
fn instant_representable(seconds: i64) -> (r: bool)
    ensures
        r == (MIN_WIRE_SECONDS <= seconds <= MAX_WIRE_SECONDS),
{
    time::OffsetDateTime::from_unix_timestamp(seconds).is_ok()
}

/// The wire form of an instant: its whole seconds, the sub-second
/// component discarded.
pub open spec fn spec_to_wire(t: Timestamp) -> i64 {
    t.seconds
}

/// The instant a wire timestamp denotes: zero sub-second component, or
/// no instant at all when the integer is out of range.
pub open spec fn spec_from_wire(seconds: i64) -> Result<Timestamp, MarshalError> {
    if MIN_WIRE_SECONDS <= seconds <= MAX_WIRE_SECONDS {
        Ok(Timestamp { seconds, nanos: 0 })
    } else {
        Err(MarshalError::InvalidTimestamp)
    }
}

/// Converts an instant to its wire form.  Total: every instant has a wire
/// form, and the sub-second component is discarded, never rounded.
pub fn to_wire_time(t: &Timestamp) -> (r: i64)
    ensures
        r == spec_to_wire(*t),
        r == t.seconds,
{
    t.seconds
}

/// Converts a wire timestamp back to an instant.  Fails with
/// `InvalidTimestamp` exactly when the integer is outside the representable
/// range; otherwise the instant has a zero sub-second component.
pub fn from_wire_time(seconds: i64) -> (r: Result<Timestamp, MarshalError>)
    ensures
        r == spec_from_wire(seconds),
        r is Ok ==> r->Ok_0.wf() && r->Ok_0.nanos == 0 && r->Ok_0.seconds == seconds,
        r is Err ==> !(MIN_WIRE_SECONDS <= seconds <= MAX_WIRE_SECONDS),
{
    if instant_representable(seconds) {
        Ok(Timestamp { seconds, nanos: 0 })
    } else {
        Err(MarshalError::InvalidTimestamp)
    }
}

/// Sending any well-formed instant across the wire and reading it back
/// yields the same instant truncated to whole seconds: the sub-second
/// component is discarded, never rounded, and the seconds are unchanged.
pub proof fn lemma_wire_round_trip_truncates(t: Timestamp)
    requires
        t.wf(),
    ensures
        spec_from_wire(spec_to_wire(t)) == Ok::<Timestamp, MarshalError>(t.truncated()),
        t.truncated().seconds == t.seconds,
        t.truncated().nanos == 0,
{
}

} // verus!
