use headers_ext::credentials::{eq_ignore_ascii_case, split_credentials, to_ascii_lower, write_credentials};
use headers_ext::token68::{check_token68, check_token68_char};
use headers_ext::{
    Authorization, Basic, Bearer, Credentials, Header, ProxyAuthorization, RawValue, ToValues,
    Values,
};

fn raw(bytes: &[u8]) -> RawValue {
    RawValue::from_bytes(bytes).expect("field content")
}

fn decode<H: Header>(items: &[RawValue]) -> Option<H> {
    let mut values = Values::new(items);
    H::decode(&mut values)
}

fn encode<H: Header>(header: &H) -> Vec<Vec<u8>> {
    let mut to = ToValues::new();
    header.encode(&mut to);
    to.into_vec().iter().map(|v| v.as_bytes().to_vec()).collect()
}

#[test]
fn proxy_authorization_decodes_basic() {
    let items = [raw(b"Basic QWxhZGRpbjpvcGVuIHNlc2FtZQ==")];
    let header: ProxyAuthorization<Basic> = decode(&items).expect("basic credentials");
    assert_eq!(header.0.payload(), b"QWxhZGRpbjpvcGVuIHNlc2FtZQ==");
    assert_eq!(Basic::scheme(), "Basic");
}

#[test]
fn proxy_authorization_reencodes_basic() {
    let items = [raw(b"Basic QWxhZGRpbjpvcGVuIHNlc2FtZQ==")];
    let header: ProxyAuthorization<Basic> = decode(&items).expect("basic credentials");
    assert_eq!(encode(&header), vec![b"Basic QWxhZGRpbjpvcGVuIHNlc2FtZQ==".to_vec()]);
}

#[test]
fn proxy_authorization_decodes_bearer() {
    let items = [raw(b"Bearer fpKL54jvWmEGVoRdCNjG")];
    let header: ProxyAuthorization<Bearer> = decode(&items).expect("bearer credentials");
    assert_eq!(header.0.payload(), b"fpKL54jvWmEGVoRdCNjG");
    assert_eq!(encode(&header), vec![b"Bearer fpKL54jvWmEGVoRdCNjG".to_vec()]);
}

#[test]
fn header_names_are_canonical_and_distinct() {
    assert_eq!(Authorization::<Basic>::name(), "authorization");
    assert_eq!(ProxyAuthorization::<Basic>::name(), "proxy-authorization");
    assert_eq!(ProxyAuthorization::<Bearer>::name(), "proxy-authorization");
    assert_ne!(ProxyAuthorization::<Basic>::name(), Authorization::<Basic>::name());
}

#[test]
fn credentials_round_trip() {
    for payload in [&b"QWxhZGRpbjpvcGVuIHNlc2FtZQ=="[..], b"a", b"a=", b"-._~+/09AZaz===="] {
        let basic = Basic::from_payload(payload).expect("token68");
        let items = [basic.encode()];
        let mut values = Values::new(&items);
        assert_eq!(Basic::decode(&mut values), Some(basic));
        assert!(values.is_exhausted());

        let bearer = Bearer::from_payload(payload).expect("token68");
        let items = [bearer.encode()];
        let mut values = Values::new(&items);
        assert_eq!(Bearer::decode(&mut values), Some(bearer));
    }
}

#[test]
fn credentials_encode_scheme_space_payload() {
    let basic = Basic::from_payload(b"dXNlcjpwYXNz").expect("token68");
    assert_eq!(basic.encode().as_bytes(), b"Basic dXNlcjpwYXNz");
    let bearer = Bearer::from_payload(b"fpKL54jvWmEGVoRdCNjG").expect("token68");
    assert_eq!(bearer.encode().as_bytes(), b"Bearer fpKL54jvWmEGVoRdCNjG");
    assert_eq!(Bearer::scheme(), "Bearer");
}

#[test]
fn scheme_mismatch_rejects() {
    assert_eq!(decode::<ProxyAuthorization<Basic>>(&[raw(b"Bearer xyz")]), None);
    assert_eq!(decode::<Authorization<Basic>>(&[raw(b"Bearer xyz")]), None);
    assert_eq!(decode::<Authorization<Bearer>>(&[raw(b"Basic xyz")]), None);
    assert_eq!(decode::<Authorization<Basic>>(&[raw(b"Basi xyz")]), None);
    assert_eq!(decode::<Authorization<Basic>>(&[raw(b"Basics xyz")]), None);
    assert_eq!(decode::<Authorization<Basic>>(&[raw(b"Digest xyz")]), None);
    let items = [raw(b"Bearer xyz")];
    let mut values = Values::new(&items);
    assert_eq!(Basic::decode(&mut values), None);
    assert!(values.is_exhausted());
}

#[test]
fn scheme_matches_in_any_case() {
    for text in [&b"basic dXNlcjpwYXNz"[..], b"BASIC dXNlcjpwYXNz", b"bAsIc dXNlcjpwYXNz"] {
        let header: Authorization<Basic> = decode(&[raw(text)]).expect("basic credentials");
        assert_eq!(header.0.payload(), b"dXNlcjpwYXNz");
        assert_eq!(encode(&header), vec![b"Basic dXNlcjpwYXNz".to_vec()]);
    }
}

#[test]
fn malformed_credentials_reject() {
    for text in [
        &b""[..],
        b"Basic",
        b"Basic ",
        b"Basic  dXNlcjpwYXNz",
        b" Basic dXNlcjpwYXNz",
        b"BasicdXNlcjpwYXNz",
        b"Basic\tdXNlcjpwYXNz",
        b"Basic dXNl cjpw",
        b"Basic dXNlcjpwYXNz ",
        b"Basic =",
        b"Basic ab=c",
        b"Basic ab\xfa",
        b"Basic a,b",
    ] {
        assert_eq!(decode::<Authorization<Basic>>(&[raw(text)]), None);
        assert_eq!(decode::<ProxyAuthorization<Basic>>(&[raw(text)]), None);
    }
}

#[test]
fn empty_input_rejects() {
    assert_eq!(decode::<Authorization<Basic>>(&[]), None);
    assert_eq!(decode::<ProxyAuthorization<Basic>>(&[]), None);
    assert_eq!(decode::<ProxyAuthorization<Bearer>>(&[]), None);
    let mut values = Values::new(&[]);
    assert_eq!(Basic::decode(&mut values), None);
}

#[test]
fn several_values_reject() {
    let items = [raw(b"Basic dXNlcjpwYXNz"), raw(b"Basic dXNlcjpwYXNz")];
    assert_eq!(decode::<Authorization<Basic>>(&items), None);
    assert_eq!(decode::<ProxyAuthorization<Basic>>(&items), None);
    let items = [raw(b"Bearer a"), raw(b"Bearer b"), raw(b"Bearer c")];
    assert_eq!(decode::<ProxyAuthorization<Bearer>>(&items), None);
}

#[test]
fn credentials_decode_reads_exactly_one_value() {
    let items = [raw(b"Basic YQ=="), raw(b"Basic Yg==")];
    let mut values = Values::new(&items);
    let first = Basic::decode(&mut values).expect("basic credentials");
    assert_eq!(first.payload(), b"YQ==");
    assert!(!values.is_exhausted());
    let second = Basic::decode(&mut values).expect("basic credentials");
    assert_eq!(second.payload(), b"Yg==");
    assert!(values.is_exhausted());
    assert_eq!(Basic::decode(&mut values), None);
}

#[test]
fn header_decode_reads_at_most_one_value() {
    let items = [raw(b"Basic YQ=="), raw(b"Basic Yg=="), raw(b"Basic Yw==")];
    let mut values = Values::new(&items);
    assert_eq!(ProxyAuthorization::<Basic>::decode(&mut values), None);
    assert_eq!(values.next().map(|v| v.as_bytes()), Some(&b"Basic Yg=="[..]));
}

#[test]
fn delegation_is_transparent() {
    for text in [&b"Basic QWxhZGRpbjpvcGVuIHNlc2FtZQ=="[..], b"basic YQ==", b"BASIC a"] {
        let items = [raw(text)];
        let base: Authorization<Basic> = decode(&items).expect("basic credentials");
        let proxy: ProxyAuthorization<Basic> = decode(&items).expect("basic credentials");
        assert_eq!(proxy.0, base.0);
        assert_eq!(encode(&proxy), encode(&base));
    }
    for text in [&b"Bearer xyz"[..], b"Basic", b"Basic a b"] {
        let items = [raw(text)];
        assert_eq!(decode::<Authorization<Basic>>(&items), None);
        assert_eq!(decode::<ProxyAuthorization<Basic>>(&items), None);
    }
}

#[test]
fn proxy_authorization_wraps_credentials() {
    let header = ProxyAuthorization(Bearer::from_payload(b"fpKL54jvWmEGVoRdCNjG").expect("token68"));
    assert_eq!(encode(&header), vec![b"Bearer fpKL54jvWmEGVoRdCNjG".to_vec()]);
    assert_eq!(header.clone(), header);
}

#[test]
fn from_payload_wants_token68() {
    assert!(Basic::from_payload(b"QWxhZGRpbjpvcGVuIHNlc2FtZQ==").is_some());
    assert!(Bearer::from_payload(b"mF_9.B5f-4.1JqM").is_some());
    assert!(Basic::from_payload(b"").is_none());
    assert!(Basic::from_payload(b"=").is_none());
    assert!(Basic::from_payload(b"a b").is_none());
    assert!(Bearer::from_payload(b"a=b").is_none());
    assert!(Bearer::from_payload(b" a").is_none());
    assert!(Bearer::from_payload(b"a\n").is_none());
}

#[test]
fn token68_grammar() {
    assert!(check_token68(b"a"));
    assert!(check_token68(b"abc123-._~+/"));
    assert!(check_token68(b"abc="));
    assert!(check_token68(b"abc=="));
    assert!(check_token68(b"0==========="));
    assert!(!check_token68(b""));
    assert!(!check_token68(b"="));
    assert!(!check_token68(b"=a"));
    assert!(!check_token68(b"a=a"));
    assert!(!check_token68(b"a =="));
    assert!(!check_token68(b"a,b"));
    assert!(!check_token68(b"a\x80"));
    assert!(check_token68_char(b'A'));
    assert!(check_token68_char(b'z'));
    assert!(check_token68_char(b'/'));
    assert!(!check_token68_char(b'='));
    assert!(!check_token68_char(b' '));
    assert!(!check_token68_char(b'@'));
    assert!(!check_token68_char(b'['));
    assert!(!check_token68_char(b'`'));
    assert!(!check_token68_char(b'{'));
}

#[test]
fn split_credentials_at_first_space() {
    assert_eq!(split_credentials(b"Basic", b"Basic abc"), Some(&b"abc"[..]));
    assert_eq!(split_credentials(b"Basic", b"bAsIc abc def"), Some(&b"abc def"[..]));
    assert_eq!(split_credentials(b"Basic", b"Basic  abc"), Some(&b" abc"[..]));
    assert_eq!(split_credentials(b"Basic", b"Basic abc"[..6].as_ref()), None);
    assert_eq!(split_credentials(b"Basic", b"Basic"), None);
    assert_eq!(split_credentials(b"Basic", b"Bearer abc"), None);
    assert_eq!(split_credentials(b"Basic", b"Basicabc d"), None);
    assert_eq!(split_credentials(b"Basic", b""), None);
    assert_eq!(split_credentials(b"", b" abc"), Some(&b"abc"[..]));
}

#[test]
fn ascii_case_is_ignored_for_letters_only() {
    assert_eq!(to_ascii_lower(b'A'), b'a');
    assert_eq!(to_ascii_lower(b'Z'), b'z');
    assert_eq!(to_ascii_lower(b'a'), b'a');
    assert_eq!(to_ascii_lower(b'@'), b'@');
    assert_eq!(to_ascii_lower(b'['), b'[');
    assert_eq!(to_ascii_lower(0xC0), 0xC0);
    assert!(eq_ignore_ascii_case(b"Basic", b"bASIC"));
    assert!(eq_ignore_ascii_case(b"", b""));
    assert!(!eq_ignore_ascii_case(b"Basic", b"Basi"));
    assert!(!eq_ignore_ascii_case(b"Basic", b"Basid"));
    assert!(!eq_ignore_ascii_case(b"@", b"`"));
}

#[test]
fn write_credentials_joins_with_one_space() {
    assert_eq!(write_credentials(b"Basic", b"abc").as_bytes(), b"Basic abc");
    assert_eq!(write_credentials(b"X", b"").as_bytes(), b"X ");
}
