use vstd::prelude::*;
use vstd::slice::slice_to_vec;
use vstd::string::StringSliceAdditionalSpecFns;
use vstd::utf8::is_ascii_chars_encode_utf8;
use crate::credentials::{
    credentials_payload,
    credentials_text,
    eq_ignore_case,
    is_token,
    leading_token,
    lemma_payload_of_text,
    split_credentials,
    write_credentials,
};
use crate::header::{read_one, Header};
use crate::name;
use crate::token68::{check_token68, is_token68, lemma_token68_is_content};
use crate::value::{is_field_content, RawValue};
use crate::values::{ToValues, Values};

verus! {

/// The bytes of a text of ASCII characters.
pub open spec fn ascii(text: Seq<char>) -> Seq<u8> {
    text.map_values(|c: char| c as u8)
}

/// Credentials to be used in the `Authorization` header.
///
/// A type of credentials has one scheme, fixed for the type, and each value
/// of it has a payload, the text that follows the scheme on the wire. The
/// scheme says which payloads are well formed.
pub trait Credentials: Sized {
    /// The scheme of this type of credentials, as bytes.
    spec fn spec_scheme() -> Seq<u8>;

    /// Whether `payload` is well formed under the scheme.
    spec fn payload_ok(payload: Seq<u8>) -> bool;

    /// The payload of the credentials.
    spec fn spec_payload(&self) -> Seq<u8>;

    /// The scheme is a token.
    proof fn lemma_scheme_is_token()
        ensures
            is_token(Self::spec_scheme()),
    ;

    /// A well-formed payload is not empty and can stand in a raw value.
    proof fn lemma_payload_is_content(payload: Seq<u8>)
        requires
            Self::payload_ok(payload),
        ensures
            payload.len() > 0,
            is_field_content(payload),
    ;

    /// The scheme, such as `Basic` or `Bearer`.
    fn scheme() -> (s: &'static str)
        ensures
            s.spec_bytes() == Self::spec_scheme(),
    ;

    /// Reads one raw value from the cursor, if there is one, and builds the
    /// credentials that it carries under the scheme, if its payload is well
    /// formed.
    fn decode(values: &mut Values) -> (r: Option<Self>)
        ensures
            final(values)@ == old(values)@.skip(read_one(old(values)@) as int),
            r is Some <==> old(values)@.len() > 0 && (credentials_payload(
                Self::spec_scheme(),
                old(values)@.first(),
            ) matches Some(payload) && Self::payload_ok(payload)),
            r matches Some(c) ==> credentials_payload(Self::spec_scheme(), old(values)@.first())
                == Some(c.spec_payload()),
    ;

    /// The raw value that carries the credentials: the scheme, a single
    /// space, and the payload.
    fn encode(&self) -> (value: RawValue)
        ensures
            Self::payload_ok(self.spec_payload()),
            value@ == credentials_text(Self::spec_scheme(), self.spec_payload()),
    ;
}

/// The payload of the credentials of type `C` that `text` carries: what
/// follows the scheme of `C` and a space, if it is well formed under that
/// scheme.
pub open spec fn parse_credentials<C: Credentials>(text: Seq<u8>) -> Option<Seq<u8>> {
    match credentials_payload(C::spec_scheme(), text) {
        Some(payload) => if C::payload_ok(payload) {
            Some(payload)
        } else {
            None
        },
        None => None,
    }
}

/// The payload of the credentials of type `C` that the first of `raw`
/// carries: what `Credentials::decode` builds from a cursor over `raw`.
pub open spec fn parse_first<C: Credentials>(raw: Seq<Seq<u8>>) -> Option<Seq<u8>> {
    if raw.len() == 0 {
        None
    } else {
        parse_credentials::<C>(raw[0])
    }
}

/// Credentials survive being written and read again: the text of a
/// well-formed payload under the scheme of `C` carries that payload.
pub proof fn lemma_credentials_round_trip<C: Credentials>(payload: Seq<u8>)
    requires
        C::payload_ok(payload),
    ensures
        parse_credentials::<C>(credentials_text(C::spec_scheme(), payload)) == Some(payload),
        parse_first::<C>(seq![credentials_text(C::spec_scheme(), payload)]) == Some(payload),
{
    C::lemma_scheme_is_token();
    C::lemma_payload_is_content(payload);
    lemma_payload_of_text(C::spec_scheme(), payload);
}

/// Text whose leading token is not the scheme of `C`, whatever the case of
/// its letters, carries no credentials of type `C`.
pub proof fn lemma_scheme_mismatch<C: Credentials>(text: Seq<u8>)
    requires
        !eq_ignore_case(leading_token(text), C::spec_scheme()),
    ensures
        parse_credentials::<C>(text) is None,
        Authorization::<C>::parse(seq![text]) is None,
{
}

/// The header is single-valued: raw values that are not exactly one stand for
/// no header.
pub proof fn lemma_authorization_single_valued<C: Credentials>(raw: Seq<Seq<u8>>)
    requires
        raw.len() != 1,
    ensures
        Authorization::<C>::parse(raw) is None,
{
}

/// `Authorization` header, defined in RFC 7235.
///
/// The `Authorization` header field allows a user agent to authenticate
/// itself with an origin server. Its value consists of credentials.
///
/// # ABNF
///
/// ```text
/// Authorization = credentials
/// ```
///
/// # Example values
/// * `Basic QWxhZGRpbjpvcGVuIHNlc2FtZQ==`
/// * `Bearer fpKL54jvWmEGVoRdCNjG`
///
/// The view of the header is the payload of its credentials.
#[derive(Clone, PartialEq, Debug)]
pub struct Authorization<C: Credentials>(pub C);

impl<C: Credentials> View for Authorization<C> {
    type V = Seq<u8>;

    open spec fn view(&self) -> Seq<u8> {
        self.0.spec_payload()
    }
}

impl<C: Credentials> Header for Authorization<C> {
    open spec fn spec_name() -> Seq<char> {
        "authorization"@
    }

    open spec fn valid(v: Seq<u8>) -> bool {
        C::payload_ok(v)
    }

    /// A single raw value that carries credentials of type `C` stands for
    /// them; no value, several values and any other text stand for nothing.
    open spec fn parse(raw: Seq<Seq<u8>>) -> Option<Seq<u8>> {
        if raw.len() == 1 {
            parse_credentials::<C>(raw[0])
        } else {
            None
        }
    }

    open spec fn read(raw: Seq<Seq<u8>>) -> nat {
        read_one(raw)
    }

    /// The one raw value that carries the credentials.
    open spec fn wire(v: Seq<u8>) -> Seq<Seq<u8>> {
        seq![credentials_text(C::spec_scheme(), v)]
    }

    proof fn lemma_read_bound(raw: Seq<Seq<u8>>) {
    }

    proof fn lemma_parse_empty() {
    }

    proof fn lemma_parse_valid(raw: Seq<Seq<u8>>) {
    }

    proof fn lemma_parse_wire(v: Seq<u8>) {
        lemma_credentials_round_trip::<C>(v);
    }

    fn name() -> (n: String) {
        name::authorization()
    }

    fn decode(values: &mut Values) -> (r: Option<Self>) {
        match C::decode(values) {
            Some(credentials) => {
                if values.is_exhausted() {
                    Some(Authorization(credentials))
                } else {
                    None
                }
            },
            None => None,
        }
    }

    fn encode(&self, values: &mut ToValues) {
        let value = self.0.encode();
        values.append(value);
        proof {
            assert(old(values)@.push(value@) =~= old(values)@ + Self::wire(self@));
        }
    }
}

/// Credentials of the `Basic` scheme of RFC 7617.
///
/// The payload is the `token68` text that stands for a user-id and a
/// password; it is kept as it stands on the wire.
#[derive(Debug, PartialEq, Eq)]
pub struct Basic {
    payload: Vec<u8>,
}

impl Clone for Basic {
    fn clone(&self) -> (c: Self)
        ensures
            c.spec_payload() == self.spec_payload(),
    {
        proof {
            use_type_invariant(self);
        }
        Basic { payload: self.payload.clone() }
    }
}

impl Basic {
    #[verifier::type_invariant]
    spec fn inv(self) -> bool {
        is_token68(self.payload@)
    }

    /// The credentials with the given payload, if it is a `token68`.
    pub fn from_payload(payload: &[u8]) -> (r: Option<Basic>)
        ensures
            r is Some <==> is_token68(payload@),
            r matches Some(c) ==> c.spec_payload() == payload@,
    {
        if check_token68(payload) {
            Some(Basic { payload: slice_to_vec(payload) })
        } else {
            None
        }
    }

    /// The payload, as it stands on the wire.
    pub fn payload(&self) -> (p: &[u8])
        ensures
            p@ == self.spec_payload(),
            is_token68(p@),
    {
        proof {
            use_type_invariant(self);
        }
        self.payload.as_slice()
    }
}

impl Credentials for Basic {
    open spec fn spec_scheme() -> Seq<u8> {
        ascii("Basic"@)
    }

    open spec fn payload_ok(payload: Seq<u8>) -> bool {
        is_token68(payload)
    }

    closed spec fn spec_payload(&self) -> Seq<u8> {
        self.payload@
    }

    proof fn lemma_scheme_is_token() {
        reveal_strlit("Basic");
    }

    proof fn lemma_payload_is_content(payload: Seq<u8>) {
        lemma_token68_is_content(payload);
    }

    fn scheme() -> (s: &'static str) {
        let s = "Basic";
        proof {
            reveal_strlit("Basic");
            is_ascii_chars_encode_utf8(s@);
            assert(s.spec_bytes() =~= ascii(s@));
        }
        s
    }

    fn decode(values: &mut Values) -> (r: Option<Self>) {
        match values.next() {
            None => None,
            Some(value) => match split_credentials(Self::scheme().as_bytes(), value.as_bytes()) {
                Some(payload) => Basic::from_payload(payload),
                None => None,
            },
        }
    }

    fn encode(&self) -> (value: RawValue) {
        proof {
            Self::lemma_scheme_is_token();
            use_type_invariant(self);
            lemma_token68_is_content(self.payload@);
        }
        write_credentials(Self::scheme().as_bytes(), self.payload())
    }
}

/// Credentials of the `Bearer` scheme of RFC 6750.
///
/// The payload is the bearer token, a `token68` text; it is kept as it stands
/// on the wire.
#[derive(Debug, PartialEq, Eq)]
pub struct Bearer {
    payload: Vec<u8>,
}

impl Clone for Bearer {
    fn clone(&self) -> (c: Self)
        ensures
            c.spec_payload() == self.spec_payload(),
    {
        proof {
            use_type_invariant(self);
        }
        Bearer { payload: self.payload.clone() }
    }
}

impl Bearer {
    #[verifier::type_invariant]
    spec fn inv(self) -> bool {
        is_token68(self.payload@)
    }

    /// The credentials with the given payload, if it is a `token68`.
    pub fn from_payload(payload: &[u8]) -> (r: Option<Bearer>)
        ensures
            r is Some <==> is_token68(payload@),
            r matches Some(c) ==> c.spec_payload() == payload@,
    {
        if check_token68(payload) {
            Some(Bearer { payload: slice_to_vec(payload) })
        } else {
            None
        }
    }

    /// The payload, as it stands on the wire.
    pub fn payload(&self) -> (p: &[u8])
        ensures
            p@ == self.spec_payload(),
            is_token68(p@),
    {
        proof {
            use_type_invariant(self);
        }
        self.payload.as_slice()
    }
}

impl Credentials for Bearer {
    open spec fn spec_scheme() -> Seq<u8> {
        ascii("Bearer"@)
    }

    open spec fn payload_ok(payload: Seq<u8>) -> bool {
        is_token68(payload)
    }

    closed spec fn spec_payload(&self) -> Seq<u8> {
        self.payload@
    }

    proof fn lemma_scheme_is_token() {
        reveal_strlit("Bearer");
    }

    proof fn lemma_payload_is_content(payload: Seq<u8>) {
        lemma_token68_is_content(payload);
    }

    fn scheme() -> (s: &'static str) {
        let s = "Bearer";
        proof {
            reveal_strlit("Bearer");
            is_ascii_chars_encode_utf8(s@);
            assert(s.spec_bytes() =~= ascii(s@));
        }
        s
    }

    fn decode(values: &mut Values) -> (r: Option<Self>) {
        match values.next() {
            None => None,
            Some(value) => match split_credentials(Self::scheme().as_bytes(), value.as_bytes()) {
                Some(payload) => Bearer::from_payload(payload),
                None => None,
            },
        }
    }

    fn encode(&self) -> (value: RawValue) {
        proof {
            Self::lemma_scheme_is_token();
            use_type_invariant(self);
            lemma_token68_is_content(self.payload@);
        }
        write_credentials(Self::scheme().as_bytes(), self.payload())
    }
}

} // verus!
