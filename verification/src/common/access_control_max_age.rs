use std::time::Duration;
use vstd::prelude::*;
use vstd::std_specs::convert::FromSpecImpl;
use crate::decimal::{decimal_digits, lemma_parse_numeral, parse_decimal};
use crate::header::{read_one, Header};
use crate::name;
use crate::util::{duration_secs, duration_subsec_nanos, Seconds};
use crate::values::{ToValues, Values};

verus! {

/// `Access-Control-Max-Age` header, part of CORS.
///
/// The header says for how long the results of a preflight request can be
/// kept in a preflight result cache.
///
/// # ABNF
///
/// ```text
/// Access-Control-Max-Age = "Access-Control-Max-Age" ":" delta-seconds
/// ```
///
/// # Example values
///
/// * `531`
///
/// The view of the header is its number of seconds.
#[derive(Clone, Debug, PartialEq, Eq, PartialOrd, Ord, Hash)]
pub struct AccessControlMaxAge(Seconds);

impl View for AccessControlMaxAge {
    type V = u64;

    closed spec fn view(&self) -> u64 {
        self.0@
    }
}

impl Header for AccessControlMaxAge {
    open spec fn spec_name() -> Seq<char> {
        "access-control-max-age"@
    }

    open spec fn valid(v: u64) -> bool {
        true
    }

    /// A single raw value that is a decimal count of at most 64 bits stands
    /// for that many seconds; no value, several values, any other text and a
    /// greater count stand for nothing.
    open spec fn parse(raw: Seq<Seq<u8>>) -> Option<u64> {
        if raw.len() == 1 {
            parse_decimal(raw[0])
        } else {
            None
        }
    }

    open spec fn read(raw: Seq<Seq<u8>>) -> nat {
        read_one(raw)
    }

    /// The one raw value that carries a count: its decimal numeral.
    open spec fn wire(v: u64) -> Seq<Seq<u8>> {
        seq![decimal_digits(v as nat)]
    }

    proof fn lemma_read_bound(raw: Seq<Seq<u8>>) {
    }

    proof fn lemma_parse_empty() {
    }

    proof fn lemma_parse_valid(raw: Seq<Seq<u8>>) {
    }

    proof fn lemma_parse_wire(v: u64) {
        lemma_parse_numeral(v);
    }

    fn name() -> (n: String) {
        name::access_control_max_age()
    }

    fn decode(values: &mut Values) -> (r: Option<Self>) {
        match values.next() {
            None => None,
            Some(value) => {
                if values.is_exhausted() {
                    match Seconds::from_val(value) {
                        Some(secs) => Some(AccessControlMaxAge(secs)),
                        None => None,
                    }
                } else {
                    None
                }
            },
        }
    }

    fn encode(&self, values: &mut ToValues) {
        let value = self.0.to_val();
        values.append(value);
        proof {
            assert(old(values)@.push(value@) =~= old(values)@ + Self::wire(self@));
        }
    }
}

impl From<Duration> for AccessControlMaxAge {
    /// The header of the whole seconds of `dur`; a fraction of a second is
    /// dropped.
    fn from(dur: Duration) -> (acma: AccessControlMaxAge)
        ensures
            acma@ == duration_secs(dur),
    {
        AccessControlMaxAge(Seconds::from(dur))
    }
}

impl FromSpecImpl<Duration> for AccessControlMaxAge {
    open spec fn obeys_from_spec() -> bool {
        true
    }

    closed spec fn from_spec(dur: Duration) -> AccessControlMaxAge {
        AccessControlMaxAge(Seconds::of(duration_secs(dur)))
    }
}

impl From<AccessControlMaxAge> for Duration {
    /// The duration of exactly the header's seconds.
    fn from(acma: AccessControlMaxAge) -> (dur: Duration)
        ensures
            duration_secs(dur) == acma@,
            duration_subsec_nanos(dur) == 0,
    {
        Duration::from(acma.0)
    }
}

impl FromSpecImpl<AccessControlMaxAge> for Duration {
    open spec fn obeys_from_spec() -> bool {
        false
    }

    open spec fn from_spec(acma: AccessControlMaxAge) -> Duration {
        arbitrary()
    }
}

/// The header made of a duration survives being written and read again:
/// the raw value written for the seconds of the duration stands for those
/// seconds, whatever their number.
pub proof fn lemma_duration_round_trip(dur: Duration)
    ensures
        AccessControlMaxAge::parse(AccessControlMaxAge::wire(duration_secs(dur))) == Some(
            duration_secs(dur),
        ),
{
    AccessControlMaxAge::lemma_parse_wire(duration_secs(dur));
}

/// The header is single-valued: raw values that are not exactly one stand for
/// no header.
pub proof fn lemma_max_age_single_valued(raw: Seq<Seq<u8>>)
    requires
        raw.len() != 1,
    ensures
        AccessControlMaxAge::parse(raw) is None,
{
}

} // verus!
