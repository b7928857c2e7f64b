//! The text of credentials: a scheme token, one space, and a payload.

use vstd::prelude::*;
use vstd::slice::{slice_subrange, slice_to_vec};
use crate::value::{is_field_byte, is_field_content, RawValue};

verus! {

/// The lower-case form of an ASCII letter; any other byte is itself.
pub open spec fn ascii_lower(b: u8) -> u8 {
    if 65 <= b <= 90 {
        (b + 32) as u8
    } else {
        b
    }
}

/// Whether `a` and `b` are the same text but for the case of ASCII letters.
pub open spec fn eq_ignore_case(a: Seq<u8>, b: Seq<u8>) -> bool {
    a.len() == b.len() && forall|i: int|
        0 <= i < a.len() ==> ascii_lower(#[trigger] a[i]) == ascii_lower(b[i])
}

/// Whether `b` may stand in a token: a letter, a digit, or one of
/// ``!#$%&'*+-.^_`|~``.
pub open spec fn is_tchar(b: u8) -> bool {
    (48 <= b <= 57) || (65 <= b <= 90) || (94 <= b <= 122) || b == 33 || (35 <= b <= 39) || b
        == 42 || b == 43 || b == 45 || b == 46 || b == 124 || b == 126
}

/// Whether `s` is a token: one or more token characters.
pub open spec fn is_token(s: Seq<u8>) -> bool {
    s.len() > 0 && forall|i: int| 0 <= i < s.len() ==> is_tchar(#[trigger] s[i])
}

/// The place of the first space of `s` at or after `from`, the length of `s`
/// where there is none.
pub open spec fn token_end(s: Seq<u8>, from: int) -> int
    decreases s.len() - from,
{
    if from < 0 || from >= s.len() || s[from] == 32 {
        from
    } else {
        token_end(s, from + 1)
    }
}

/// The leading token of `s`: what stands before its first space.
pub open spec fn leading_token(s: Seq<u8>) -> Seq<u8> {
    s.take(token_end(s, 0))
}

/// The text of credentials: the scheme, a single space, the payload.
pub open spec fn credentials_text(scheme: Seq<u8>, payload: Seq<u8>) -> Seq<u8> {
    scheme + seq![32u8] + payload
}

/// The payload that `text` carries under `scheme`: what follows the first
/// space, where the leading token is the scheme in any case of letters and
/// something does follow. Any other text carries none.
pub open spec fn credentials_payload(scheme: Seq<u8>, text: Seq<u8>) -> Option<Seq<u8>> {
    let k = token_end(text, 0);
    if k + 1 < text.len() && eq_ignore_case(leading_token(text), scheme) {
        Some(text.skip(k + 1))
    } else {
        None
    }
}

/// The first space at or after `from` lies within the text, nothing before
/// it is a space, and it is a space unless the text has ended.
pub proof fn lemma_token_end(s: Seq<u8>, from: int)
    requires
        0 <= from <= s.len(),
    ensures
        from <= token_end(s, from) <= s.len(),
        forall|i: int| from <= i < token_end(s, from) ==> #[trigger] s[i] != 32,
        token_end(s, from) < s.len() ==> s[token_end(s, from)] == 32,
    decreases s.len() - from,
{
    if from < s.len() && s[from] != 32 {
        lemma_token_end(s, from + 1);
    }
}

/// A place that no space precedes, and where a space stands or the text ends,
/// is that of the first space.
pub proof fn lemma_token_end_is(s: Seq<u8>, from: int, k: int)
    requires
        0 <= from <= k <= s.len(),
        forall|i: int| from <= i < k ==> #[trigger] s[i] != 32,
        k < s.len() ==> s[k] == 32,
    ensures
        token_end(s, from) == k,
    decreases k - from,
{
    if from < k {
        lemma_token_end_is(s, from + 1, k);
    }
}

/// Text written under a scheme that is a token carries, under that scheme,
/// the payload it was written with, if the payload is not empty.
pub proof fn lemma_payload_of_text(scheme: Seq<u8>, payload: Seq<u8>)
    requires
        is_token(scheme),
        payload.len() > 0,
    ensures
        credentials_payload(scheme, credentials_text(scheme, payload)) == Some(payload),
{
    let text = credentials_text(scheme, payload);
    let n = scheme.len() as int;
    assert forall|i: int| 0 <= i < n implies #[trigger] text[i] != 32 by {
        assert(is_tchar(scheme[i]));
    }
    lemma_token_end_is(text, 0, n);
    assert(text.take(n) =~= scheme);
    assert(text.skip(n + 1) =~= payload);
}

/// Text whose leading token is not the scheme, whatever the case of its
/// letters, carries no payload under that scheme.
pub proof fn lemma_other_scheme(scheme: Seq<u8>, text: Seq<u8>)
    requires
        !eq_ignore_case(leading_token(text), scheme),
    ensures
        credentials_payload(scheme, text) is None,
{
}

/// The lower-case form of an ASCII letter; any other byte is itself.
pub fn to_ascii_lower(b: u8) -> (l: u8)
    ensures
        l == ascii_lower(b),
{
    if 65 <= b && b <= 90 {
        b + 32
    } else {
        b
    }
}

/// Whether `a` and `b` are the same text but for the case of ASCII letters.
pub fn eq_ignore_ascii_case(a: &[u8], b: &[u8]) -> (same: bool)
    ensures
        same == eq_ignore_case(a@, b@),
{
    if a.len() != b.len() {
        return false;
    }
    let n: usize = a.len();
    let mut i: usize = 0;
    while i < n
        invariant
            n == a@.len(),
            n == b@.len(),
            0 <= i <= n,
            forall|j: int| 0 <= j < i ==> ascii_lower(#[trigger] a@[j]) == ascii_lower(b@[j]),
        decreases n - i,
    {
        if to_ascii_lower(a[i]) != to_ascii_lower(b[i]) {
            return false;
        }
        i = i + 1;
    }
    true
}

/// Splits `text` at its first space and hands out what follows, if the
/// leading token is `scheme` in any case of letters and something follows.
pub fn split_credentials<'a>(scheme: &[u8], text: &'a [u8]) -> (r: Option<&'a [u8]>)
    ensures
        r is Some <==> credentials_payload(scheme@, text@) is Some,
        r matches Some(p) ==> credentials_payload(scheme@, text@) == Some(p@),
{
    let n: usize = text.len();
    let mut k: usize = 0;
    while k < n && text[k] != 32
        invariant
            n == text@.len(),
            0 <= k <= n,
            token_end(text@, 0) == token_end(text@, k as int),
        decreases n - k,
    {
        k = k + 1;
    }
    assert(token_end(text@, 0) == k);
    if n - k <= 1 {
        return None;
    }
    let token = slice_subrange(text, 0, k);
    assert(token@ =~= leading_token(text@));
    if !eq_ignore_ascii_case(token, scheme) {
        return None;
    }
    let payload = slice_subrange(text, k + 1, n);
    assert(payload@ =~= text@.skip(k + 1));
    Some(payload)
}

/// The text of credentials under a scheme that is a token can stand in a raw
/// value if the payload can.
pub proof fn lemma_text_is_content(scheme: Seq<u8>, payload: Seq<u8>)
    requires
        is_token(scheme),
        is_field_content(payload),
    ensures
        is_field_content(credentials_text(scheme, payload)),
{
    let text = credentials_text(scheme, payload);
    assert forall|i: int| 0 <= i < text.len() implies is_field_byte(#[trigger] text[i]) by {
        if i < scheme.len() {
            assert(is_tchar(scheme[i]));
        } else if i > scheme.len() {
            assert(is_field_byte(payload[i - scheme.len() - 1]));
        }
    }
}

/// Writes the text of credentials: the scheme, a single space, the payload.
pub fn write_credentials(scheme: &[u8], payload: &[u8]) -> (value: RawValue)
    requires
        is_token(scheme@),
        is_field_content(payload@),
    ensures
        value@ == credentials_text(scheme@, payload@),
{
    let mut bytes = slice_to_vec(scheme);
    bytes.push(32u8);
    let n: usize = payload.len();
    let mut i: usize = 0;
    while i < n
        invariant
            n == payload@.len(),
            0 <= i <= n,
            bytes@ == scheme@ + seq![32u8] + payload@.take(i as int),
        decreases n - i,
    {
        bytes.push(payload[i]);
        proof {
            assert(payload@.take(i + 1) =~= payload@.take(i as int).push(payload@[i as int]));
            assert(bytes@ =~= scheme@ + seq![32u8] + payload@.take(i + 1));
        }
        i = i + 1;
    }
    proof {
        assert(payload@.take(n as int) =~= payload@);
        lemma_text_is_content(scheme@, payload@);
    }
    RawValue::from_field_content(bytes)
}

} // verus!
