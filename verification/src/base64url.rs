//! Base64 in the URL-safe alphabet, without padding.

use base64::engine::general_purpose::URL_SAFE_NO_PAD;
use base64::Engine;
use vstd::prelude::*;

verus! {

/// The symbol of a six bit value: `A` to `Z`, `a` to `z`, `0` to `9`, `-`, `_`.
pub open spec fn symbol(v: int) -> char {
    if v < 26 {
        ('A' as u32 + v) as char
    } else if v < 52 {
        ('a' as u32 + (v - 26)) as char
    } else if v < 62 {
        ('0' as u32 + (v - 52)) as char
    } else if v == 62 {
        '-'
    } else {
        '_'
    }
}

/// The byte at `i`, or zero behind the end.
pub open spec fn byte_or_zero(bytes: Seq<u8>, i: int) -> int {
    if 0 <= i < bytes.len() {
        bytes[i] as int
    } else {
        0
    }
}

/// The `k`th group of six bits of `bytes`, zeros following its last bit.
pub open spec fn six_bits(bytes: Seq<u8>, k: int) -> int {
    let first = k / 4 * 3;
    let (a, b, c) = (
        byte_or_zero(bytes, first),
        byte_or_zero(bytes, first + 1),
        byte_or_zero(bytes, first + 2),
    );
    if k % 4 == 0 {
        a / 4
    } else if k % 4 == 1 {
        a % 4 * 16 + b / 16
    } else if k % 4 == 2 {
        b % 16 * 4 + c / 64
    } else {
        c % 64
    }
}

/// The text that stands for `bytes`: one symbol for every group of six bits that holds a bit
/// of them.
pub open spec fn base64url(bytes: Seq<u8>) -> Seq<char> {
    Seq::new((bytes.len() * 8 + 5) / 6, |k: int| symbol(six_bits(bytes, k)))
}

/// Whether a character can stand in a URL as it is: a letter, a digit, `-` or `_`.
pub open spec fn is_url_safe(c: char) -> bool {
    ||| 'A' <= c <= 'Z'
    ||| 'a' <= c <= 'z'
    ||| '0' <= c <= '9'
    ||| c == '-'
    ||| c == '_'
}

/// `Engine::encode` of base64 with `URL_SAFE_NO_PAD`: every six bits become one symbol of the
/// URL-safe alphabet, the last group filled up with zero bits, and nothing is appended.
#[verifier::external_body]
pub(crate) fn encode_url_safe(bytes: &[u8]) -> (text: String)
    ensures
        text@ == base64url(bytes@),
{
    URL_SAFE_NO_PAD.encode(bytes)
}

/// `Engine::decode` of base64 with `URL_SAFE_NO_PAD`: succeeds exactly on what the same engine
/// encodes bytes to, with those bytes. Other symbols, padding, impossible lengths and bits
/// behind the last byte are errors.
#[verifier::external_body]
pub(crate) fn decode_url_safe(text: &str) -> (bytes: Option<Vec<u8>>)
    ensures
        bytes matches Some(b) ==> base64url(b@) == text@,
        bytes is None ==> forall|b: Seq<u8>| #[trigger] base64url(b) != text@,
{
    URL_SAFE_NO_PAD.decode(text).ok()
}

proof fn lemma_six_bits_range(bytes: Seq<u8>, k: int)
    ensures
        0 <= six_bits(bytes, k) < 64,
{
}

proof fn lemma_symbol_injective(v: int, w: int)
    requires
        0 <= v < 64,
        0 <= w < 64,
        symbol(v) == symbol(w),
    ensures
        v == w,
{
}

/// Encoded text holds only characters that can stand in a URL as they are.
pub proof fn base64url_is_url_safe(bytes: Seq<u8>)
    ensures
        forall|k: int| 0 <= k < base64url(bytes).len() ==> is_url_safe(#[trigger] base64url(bytes)[k]),
{
    assert forall|k: int| 0 <= k < base64url(bytes).len() implies is_url_safe(
        #[trigger] base64url(bytes)[k],
    ) by {
        lemma_six_bits_range(bytes, k);
    }
}

/// Different bytes are encoded to different texts.
pub proof fn base64url_is_injective(a: Seq<u8>, b: Seq<u8>)
    requires
        base64url(a) == base64url(b),
    ensures
        a == b,
{
    let groups = base64url(a).len();
    assert(groups == (a.len() * 8 + 5) / 6 && groups == (b.len() * 8 + 5) / 6);
    assert(a.len() == b.len()) by (nonlinear_arith)
        requires
            groups == (a.len() * 8 + 5) / 6,
            groups == (b.len() * 8 + 5) / 6,
    ;
    assert forall|i: int| 0 <= i < a.len() implies a[i] == b[i] by {
        let q = i / 3;
        let r = i % 3;
        // Byte `r` of a triple lies in its groups `r` and `r + 1`.
        let k = q * 4 + r;
        assert(0 <= k && k + 1 < groups);
        assert(base64url(a)[k] == symbol(six_bits(a, k)));
        assert(base64url(b)[k] == symbol(six_bits(b, k)));
        assert(base64url(a)[k + 1] == symbol(six_bits(a, k + 1)));
        assert(base64url(b)[k + 1] == symbol(six_bits(b, k + 1)));
        lemma_six_bits_range(a, k);
        lemma_six_bits_range(b, k);
        lemma_six_bits_range(a, k + 1);
        lemma_six_bits_range(b, k + 1);
        lemma_symbol_injective(six_bits(a, k), six_bits(b, k));
        lemma_symbol_injective(six_bits(a, k + 1), six_bits(b, k + 1));
        assert(k / 4 == q && k % 4 == r);
        assert((k + 1) / 4 == q && (k + 1) % 4 == r + 1);
        assert(byte_or_zero(a, i) == a[i]);
        assert(byte_or_zero(b, i) == b[i]);
    }
    assert(a =~= b);
}

}
