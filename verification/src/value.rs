//! Raw header values: the opaque byte strings that a message carries under a
//! header name.

use vstd::prelude::*;
use vstd::slice::slice_to_vec;

verus! {

/// Whether `b` may stand in a header field value: a horizontal tab, or any
/// byte from 32 upwards except DEL.
pub open spec fn is_field_byte(b: u8) -> bool {
    b == 9 || (b >= 32 && b != 127)
}

/// Whether every byte of `s` may stand in a header field value.
pub open spec fn is_field_content(s: Seq<u8>) -> bool {
    forall|i: int| 0 <= i < s.len() ==> is_field_byte(#[trigger] s[i])
}

/// Asks `http::header::HeaderValue::from_bytes` whether it takes `bytes`.
///
/// Trusted: that function scans its argument and refuses it exactly when some
/// byte is neither a tab nor in 32..=255 without 127; the contract says that
/// it accepts exactly the field content.
#[verifier::external_body]
fn http_accepts(bytes: &[u8]) -> (ok: bool)
    ensures
        ok == is_field_content(bytes@),
{
    http::header::HeaderValue::from_bytes(bytes).is_ok()
}

/// One raw value of a header field, as it stands on the wire.
///
/// Every value of this type holds field content only, so it can always be
/// handed to a header store.
#[derive(Debug, PartialEq, Eq, Hash)]
pub struct RawValue {
    bytes: Vec<u8>,
}

impl View for RawValue {
    type V = Seq<u8>;

    closed spec fn view(&self) -> Seq<u8> {
        self.bytes@
    }
}

impl Clone for RawValue {
    fn clone(&self) -> (r: Self)
        ensures
            r@ == self@,
    {
        proof {
            use_type_invariant(self);
        }
        RawValue { bytes: self.bytes.clone() }
    }
}

impl RawValue {
    #[verifier::type_invariant]
    spec fn inv(self) -> bool {
        is_field_content(self.bytes@)
    }

    /// Takes `bytes` as a raw value if they are field content.
    pub fn from_bytes(bytes: &[u8]) -> (r: Option<RawValue>)
        ensures
            r is Some <==> is_field_content(bytes@),
            r matches Some(v) ==> v@ == bytes@,
    {
        if http_accepts(bytes) {
            Some(RawValue { bytes: slice_to_vec(bytes) })
        } else {
            None
        }
    }

    /// Takes `bytes`, which are known to be field content, as a raw value.
    pub fn from_field_content(bytes: Vec<u8>) -> (v: RawValue)
        requires
            is_field_content(bytes@),
        ensures
            v@ == bytes@,
    {
        RawValue { bytes }
    }

    /// The bytes of the value.
    pub fn as_bytes(&self) -> (b: &[u8])
        ensures
            b@ == self@,
            is_field_content(b@),
    {
        proof {
            use_type_invariant(self);
        }
        self.bytes.as_slice()
    }

    /// The number of bytes in the value.
    pub fn len(&self) -> (n: usize)
        ensures
            n == self@.len(),
    {
        self.bytes.len()
    }
}

} // verus!
