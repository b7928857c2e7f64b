use vstd::prelude::*;
use crate::common::authorization::{Authorization, Credentials};
use crate::credentials::credentials_text;
use crate::header::Header;
use crate::name;
use crate::values::{ToValues, Values};

verus! {

/// `Proxy-Authorization` header, defined in RFC 7235.
///
/// The `Proxy-Authorization` header field allows a user agent to authenticate
/// itself with an HTTP proxy -- usually, but not necessarily, after
/// receiving a 407 (Proxy Authentication Required) response and the
/// `Proxy-Authenticate` header. Its value consists of credentials containing
/// the authentication information of the user agent for the realm of the
/// resource being requested.
///
/// # ABNF
///
/// ```text
/// Proxy-Authorization = credentials
/// ```
///
/// # Example values
/// * `Basic QWxhZGRpbjpvcGVuIHNlc2FtZQ==`
/// * `Bearer fpKL54jvWmEGVoRdCNjG`
///
/// The view of the header is the payload of its credentials.
#[derive(Clone, PartialEq, Debug)]
pub struct ProxyAuthorization<C: Credentials>(pub C);

impl<C: Credentials> View for ProxyAuthorization<C> {
    type V = Seq<u8>;

    open spec fn view(&self) -> Seq<u8> {
        self.0.spec_payload()
    }
}

impl<C: Credentials> Header for ProxyAuthorization<C> {
    open spec fn spec_name() -> Seq<char> {
        "proxy-authorization"@
    }

    open spec fn valid(v: Seq<u8>) -> bool {
        Authorization::<C>::valid(v)
    }

    /// What the raw values stand for under `Authorization`.
    open spec fn parse(raw: Seq<Seq<u8>>) -> Option<Seq<u8>> {
        Authorization::<C>::parse(raw)
    }

    open spec fn read(raw: Seq<Seq<u8>>) -> nat {
        Authorization::<C>::read(raw)
    }

    /// What `Authorization` writes for the same credentials.
    open spec fn wire(v: Seq<u8>) -> Seq<Seq<u8>> {
        Authorization::<C>::wire(v)
    }

    proof fn lemma_read_bound(raw: Seq<Seq<u8>>) {
        Authorization::<C>::lemma_read_bound(raw);
    }

    proof fn lemma_parse_empty() {
        Authorization::<C>::lemma_parse_empty();
    }

    proof fn lemma_parse_valid(raw: Seq<Seq<u8>>) {
        Authorization::<C>::lemma_parse_valid(raw);
    }

    proof fn lemma_parse_wire(v: Seq<u8>) {
        Authorization::<C>::lemma_parse_wire(v);
    }

    fn name() -> (n: String) {
        name::proxy_authorization()
    }

    fn decode(values: &mut Values) -> (r: Option<Self>) {
        match Authorization::<C>::decode(values) {
            Some(auth) => Some(ProxyAuthorization(auth.0)),
            None => None,
        }
    }

    fn encode(&self, values: &mut ToValues)
        ensures
            final(values)@ == old(values)@.push(
                credentials_text(C::spec_scheme(), self.0.spec_payload()),
            ),
    {
        let value = self.0.encode();
        values.append(value);
        proof {
            assert(old(values)@.push(value@) =~= old(values)@ + Self::wire(self@));
        }
    }
}

/// The header is `Authorization` under another name: raw values that stand
/// for an `Authorization` header stand for the same credentials here, those
/// credentials are written to the same raw values by both, and the two names
/// differ.
pub proof fn lemma_delegation_transparent<C: Credentials>(raw: Seq<Seq<u8>>)
    requires
        Authorization::<C>::parse(raw) is Some,
    ensures
        ProxyAuthorization::<C>::parse(raw) == Authorization::<C>::parse(raw),
        ProxyAuthorization::<C>::wire(ProxyAuthorization::<C>::parse(raw).unwrap())
            == Authorization::<C>::wire(Authorization::<C>::parse(raw).unwrap()),
        ProxyAuthorization::<C>::spec_name() != Authorization::<C>::spec_name(),
{
    reveal_strlit("proxy-authorization");
    reveal_strlit("authorization");
    assert("proxy-authorization"@.len() != "authorization"@.len());
}

/// The header is single-valued: raw values that are not exactly one stand for
/// no header.
pub proof fn lemma_proxy_authorization_single_valued<C: Credentials>(raw: Seq<Seq<u8>>)
    requires
        raw.len() != 1,
    ensures
        ProxyAuthorization::<C>::parse(raw) is None,
{
}

} // verus!
