//! The `token68` text of RFC 7235, in which the `Basic` and `Bearer` schemes
//! write their payload.

use vstd::prelude::*;

verus! {

/// Whether `b` may stand in the body of a `token68`: a letter, a digit, or
/// one of `-._~+/`.
pub open spec fn is_token68_char(b: u8) -> bool {
    (48 <= b <= 57) || (65 <= b <= 90) || (97 <= b <= 122) || b == 45 || b == 46 || b == 95 || b
        == 126 || b == 43 || b == 47
}

/// Whether `s` is a body of `k` characters followed by padding only.
pub open spec fn is_token68_split(s: Seq<u8>, k: int) -> bool {
    &&& 1 <= k <= s.len()
    &&& forall|i: int| 0 <= i < k ==> is_token68_char(#[trigger] s[i])
    &&& forall|i: int| k <= i < s.len() ==> #[trigger] s[i] == 61
}

/// Whether `s` is a `token68`: one or more body characters, then any number
/// of `=`.
pub open spec fn is_token68(s: Seq<u8>) -> bool {
    exists|k: int| is_token68_split(s, k)
}

/// Whether `b` may stand in the body of a `token68`.
pub fn check_token68_char(b: u8) -> (ok: bool)
    ensures
        ok == is_token68_char(b),
{
    (48 <= b && b <= 57) || (65 <= b && b <= 90) || (97 <= b && b <= 122) || b == 45 || b == 46
        || b == 95 || b == 126 || b == 43 || b == 47
}

/// Whether `text` is a `token68`.
pub fn check_token68(text: &[u8]) -> (ok: bool)
    ensures
        ok == is_token68(text@),
{
    let n: usize = text.len();
    let mut k: usize = 0;
    while k < n && check_token68_char(text[k])
        invariant
            n == text@.len(),
            0 <= k <= n,
            forall|i: int| 0 <= i < k ==> is_token68_char(#[trigger] text@[i]),
        decreases n - k,
    {
        k = k + 1;
    }
    if k == 0 {
        assert forall|w: int| !is_token68_split(text@, w) by {
            if is_token68_split(text@, w) {
                assert(is_token68_char(text@[0]));
            }
        }
        return false;
    }
    let mut j: usize = k;
    while j < n
        invariant
            n == text@.len(),
            1 <= k <= j <= n,
            k < n ==> !is_token68_char(text@[k as int]),
            forall|i: int| 0 <= i < k ==> is_token68_char(#[trigger] text@[i]),
            forall|i: int| k <= i < j ==> #[trigger] text@[i] == 61,
        decreases n - j,
    {
        if text[j] != 61 {
            assert forall|w: int| !is_token68_split(text@, w) by {
                if is_token68_split(text@, w) {
                    if w <= j {
                        assert(text@[j as int] == 61);
                    } else {
                        assert(is_token68_char(text@[k as int]));
                    }
                }
            }
            return false;
        }
        j = j + 1;
    }
    assert(is_token68_split(text@, k as int));
    true
}

/// A `token68` is not empty and can stand in a raw value.
pub proof fn lemma_token68_is_content(s: Seq<u8>)
    requires
        is_token68(s),
    ensures
        s.len() > 0,
        forall|i: int| 0 <= i < s.len() ==> 33 <= #[trigger] s[i] <= 126,
{
    let k = choose|k: int| is_token68_split(s, k);
    assert forall|i: int| 0 <= i < s.len() implies 33 <= #[trigger] s[i] <= 126 by {
        if i < k {
            assert(is_token68_char(s[i]));
        } else {
            assert(s[i] == 61);
        }
    }
}

} // verus!
