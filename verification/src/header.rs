//! What every typed header offers: a canonical name, and a codec between its
//! typed value and the raw values under that name.

use vstd::prelude::*;
use crate::values::{ToValues, Values};

verus! {

/// How many raw values a decoder of a single value reads: the first, where
/// there is one.
pub open spec fn read_one(raw: Seq<Seq<u8>>) -> nat {
    if raw.len() == 0 {
        0
    } else {
        1
    }
}

/// A typed header.
///
/// The view of a header is the value it carries. `parse` and `wire` say, over
/// views, what the raw values under the header's name stand for and how a
/// value is written; `decode` and `encode` are held to them.
pub trait Header: Sized + View {
    /// The canonical name of the header, in lower case.
    spec fn spec_name() -> Seq<char>;

    /// Whether `v` is a value that the header can carry.
    spec fn valid(v: Self::V) -> bool;

    /// The value that `raw`, the raw values under the header's name, stands
    /// for; `None` where it stands for none.
    spec fn parse(raw: Seq<Seq<u8>>) -> Option<Self::V>;

    /// How many of the raw values `raw` a decoder reads.
    spec fn read(raw: Seq<Seq<u8>>) -> nat;

    /// The raw values that carry `v`.
    spec fn wire(v: Self::V) -> Seq<Seq<u8>>;

    /// A decoder reads no more than there is.
    proof fn lemma_read_bound(raw: Seq<Seq<u8>>)
        ensures
            Self::read(raw) <= raw.len(),
    ;

    /// No raw values stand for no value.
    proof fn lemma_parse_empty()
        ensures
            Self::parse(Seq::<Seq<u8>>::empty()) is None,
    ;

    /// Only values that the header can carry are ever parsed.
    proof fn lemma_parse_valid(raw: Seq<Seq<u8>>)
        ensures
            Self::parse(raw) matches Some(v) ==> Self::valid(v),
    ;

    /// Writing a value and parsing what was written gives the value back.
    proof fn lemma_parse_wire(v: Self::V)
        requires
            Self::valid(v),
        ensures
            Self::parse(Self::wire(v)) == Some(v),
    ;

    /// The canonical name of the header.
    fn name() -> (n: String)
        ensures
            n@ == Self::spec_name(),
    ;

    /// Builds the header from the raw values left under the cursor: the
    /// value that they stand for, or nothing where they stand for none.
    fn decode(values: &mut Values) -> (r: Option<Self>)
        ensures
            final(values)@ == old(values)@.skip(Self::read(old(values)@) as int),
            r is Some <==> Self::parse(old(values)@) is Some,
            r matches Some(h) ==> Self::parse(old(values)@) == Some(h@),
    ;

    /// Appends the raw values that carry the header's value.
    fn encode(&self, values: &mut ToValues)
        ensures
            Self::valid(self@),
            final(values)@ == old(values)@ + Self::wire(self@),
    ;
}

} // verus!
