//! The two ends of the codec: a cursor over the raw values found under one
//! header name, and a collector for the raw values to store under one.

use vstd::prelude::*;
use crate::value::RawValue;

verus! {

/// The bytes of each raw value of `items`, in order.
pub open spec fn texts(items: Seq<RawValue>) -> Seq<Seq<u8>> {
    items.map_values(|v: RawValue| v@)
}

/// A read-only cursor over the raw values under one header name.
///
/// Its view is the run of values not yet read.
pub struct Values<'a> {
    items: &'a [RawValue],
    pos: usize,
}

impl<'a> View for Values<'a> {
    type V = Seq<Seq<u8>>;

    closed spec fn view(&self) -> Seq<Seq<u8>> {
        texts(self.items@).skip(self.pos as int)
    }
}

impl<'a> Values<'a> {
    #[verifier::type_invariant]
    spec fn inv(self) -> bool {
        self.pos <= self.items@.len()
    }

    /// A cursor that stands before the first of `items`.
    pub fn new(items: &'a [RawValue]) -> (values: Values<'a>)
        ensures
            values@ == texts(items@),
    {
        proof {
            assert(texts(items@).skip(0) =~= texts(items@));
        }
        Values { items, pos: 0 }
    }

    /// Reads the next raw value, if one is left, and steps over it.
    pub fn next(&mut self) -> (r: Option<&'a RawValue>)
        ensures
            old(self)@.len() == 0 ==> r is None && final(self)@ == old(self)@,
            old(self)@.len() > 0 ==> final(self)@ == old(self)@.drop_first() && (r matches Some(v)
                && v@ == old(self)@.first()),
    {
        proof {
            use_type_invariant(&*self);
        }
        if self.pos < self.items.len() {
            let v = &self.items[self.pos];
            proof {
                assert(texts(self.items@).skip(self.pos as int).drop_first() =~= texts(
                    self.items@,
                ).skip(self.pos + 1));
            }
            self.pos = self.pos + 1;
            Some(v)
        } else {
            None
        }
    }

    /// Whether every raw value has been read.
    pub fn is_exhausted(&self) -> (b: bool)
        ensures
            b == (self@.len() == 0),
    {
        proof {
            use_type_invariant(self);
        }
        self.pos >= self.items.len()
    }
}

/// An append-only collector of the raw values that an encoder emits.
///
/// Its view is the run of values collected so far.
pub struct ToValues {
    out: Vec<RawValue>,
}

impl View for ToValues {
    type V = Seq<Seq<u8>>;

    closed spec fn view(&self) -> Seq<Seq<u8>> {
        texts(self.out@)
    }
}

impl ToValues {
    /// A collector that holds nothing yet.
    pub fn new() -> (to: ToValues)
        ensures
            to@ == Seq::<Seq<u8>>::empty(),
    {
        let to = ToValues { out: Vec::new() };
        assert(to@ =~= Seq::<Seq<u8>>::empty());
        to
    }

    /// Appends one raw value.
    pub fn append(&mut self, value: RawValue)
        ensures
            final(self)@ == old(self)@.push(value@),
    {
        self.out.push(value);
        assert(texts(self.out@) =~= texts(old(self).out@).push(value@));
    }

    /// The raw values collected, in the order of their arrival.
    pub fn into_vec(self) -> (items: Vec<RawValue>)
        ensures
            texts(items@) == self@,
    {
        self.out
    }
}

} // verus!
