//! Whole seconds, as header fields carry them.

use std::time::Duration;
use vstd::prelude::*;
use vstd::std_specs::convert::FromSpecImpl;
use crate::decimal::{decimal_digits, parse_decimal, read_decimal, write_decimal};
use crate::value::RawValue;

verus! {

/// The number of whole seconds that a `Duration` contains: what
/// `Duration::as_secs` returns for it.
pub uninterp spec fn duration_secs(d: Duration) -> u64;

/// The part of a `Duration` beyond its whole seconds, in nanoseconds: what
/// `Duration::subsec_nanos` returns for it.
pub uninterp spec fn duration_subsec_nanos(d: Duration) -> u32;

/// `Duration::as_secs` of std returns the number of whole seconds contained
/// in the duration; the contract gives that number its name.
pub assume_specification[ Duration::as_secs ](d: &Duration) -> (secs: u64)
    ensures
        secs == duration_secs(*d),
;

/// `Duration::subsec_nanos` of std returns the fractional part of the
/// duration, in nanoseconds; the contract gives that part its name.
pub assume_specification[ Duration::subsec_nanos ](d: &Duration) -> (nanos: u32)
    ensures
        nanos == duration_subsec_nanos(*d),
;

/// `Duration::from_secs` of std makes a duration of the given number of whole
/// seconds; the contract says that it contains that many and no fraction of
/// one.
pub assume_specification[ Duration::from_secs ](secs: u64) -> (d: Duration)
    ensures
        duration_secs(d) == secs,
        duration_subsec_nanos(d) == 0,
;

/// A count of whole seconds.
///
/// The count is held in 64 bits, the width in which a `Duration` counts its
/// seconds, so every duration has one and every count is a duration.
#[derive(Clone, Copy, Debug, PartialEq, Eq, Structural, PartialOrd, Ord, Hash)]
pub struct Seconds(u64);

impl View for Seconds {
    type V = u64;

    closed spec fn view(&self) -> u64 {
        self.0
    }
}

impl Seconds {
    /// The count of `secs` seconds, for use in contracts.
    pub closed spec fn of(secs: u64) -> Seconds {
        Seconds(secs)
    }

    /// A count is known by its number of seconds.
    pub proof fn lemma_of_view(self)
        ensures
            Seconds::of(self@) == self,
            forall|secs: u64| (#[trigger] Seconds::of(secs))@ == secs,
    {
    }

    /// Whether `dur` is a whole number of seconds, so that its count of
    /// seconds stands for all of it: converting such a duration drops
    /// nothing.
    pub fn is_whole(dur: &Duration) -> (whole: bool)
        ensures
            whole == (duration_subsec_nanos(*dur) == 0),
    {
        dur.subsec_nanos() == 0
    }

    /// The count of `secs` seconds.
    pub fn from_secs(secs: u64) -> (s: Seconds)
        ensures
            s == Seconds::of(secs),
            s@ == secs,
    {
        Seconds(secs)
    }

    /// The number of seconds counted.
    pub fn as_u64(&self) -> (secs: u64)
        ensures
            secs == self@,
    {
        self.0
    }

    /// Reads a raw value as a count of seconds: one or more decimal digits
    /// that write a number of at most 64 bits. Anything else, a greater
    /// number too, is no count.
    pub fn from_val(val: &RawValue) -> (r: Option<Seconds>)
        ensures
            r is Some <==> parse_decimal(val@) is Some,
            r matches Some(s) ==> parse_decimal(val@) == Some(s@),
    {
        match read_decimal(val.as_bytes()) {
            Some(secs) => Some(Seconds(secs)),
            None => None,
        }
    }

    /// The raw value that carries the count: its decimal numeral.
    pub fn to_val(&self) -> (val: RawValue)
        ensures
            val@ == decimal_digits(self@ as nat),
    {
        write_decimal(self.0)
    }
}

impl From<Duration> for Seconds {
    /// The whole seconds of `dur`; a fraction of a second is dropped.
    fn from(dur: Duration) -> (s: Seconds)
        ensures
            s@ == duration_secs(dur),
    {
        Seconds(dur.as_secs())
    }
}

impl FromSpecImpl<Duration> for Seconds {
    open spec fn obeys_from_spec() -> bool {
        true
    }

    open spec fn from_spec(dur: Duration) -> Seconds {
        Seconds::of(duration_secs(dur))
    }
}

impl From<Seconds> for Duration {
    /// The duration of exactly that many seconds.
    fn from(secs: Seconds) -> (dur: Duration)
        ensures
            duration_secs(dur) == secs@,
            duration_subsec_nanos(dur) == 0,
    {
        Duration::from_secs(secs.0)
    }
}

impl FromSpecImpl<Seconds> for Duration {
    open spec fn obeys_from_spec() -> bool {
        false
    }

    open spec fn from_spec(secs: Seconds) -> Duration {
        arbitrary()
    }
}

} // verus!
