//! base64url without padding, the form in which a key rides a link.

use vstd::prelude::*;

use base64::Engine;

use crate::text::{is_white_space, lemma_trimmed_tight, trimmed};

verus! {

/// The base64url character for six bits.
pub open spec fn base64url_char(d: nat) -> char
    recommends
        d < 64,
{
    if d < 26 {
        (65 + d) as char
    } else if d < 52 {
        (71 + d) as char
    } else if d < 62 {
        (d - 4) as char
    } else if d == 62 {
        '-'
    } else {
        '_'
    }
}

/// The byte at `i`, zero past the end.
pub open spec fn byte_or_zero(bytes: Seq<u8>, i: int) -> nat {
    if 0 <= i < bytes.len() {
        bytes[i] as nat
    } else {
        0
    }
}

/// The `i`-th group of six bits.
pub open spec fn sextet(bytes: Seq<u8>, i: int) -> nat {
    let (a, b, c) = (
        byte_or_zero(bytes, i / 4 * 3),
        byte_or_zero(bytes, i / 4 * 3 + 1),
        byte_or_zero(bytes, i / 4 * 3 + 2),
    );
    if i % 4 == 0 {
        a / 4
    } else if i % 4 == 1 {
        a % 4 * 16 + b / 16
    } else if i % 4 == 2 {
        b % 16 * 4 + c / 64
    } else {
        c % 64
    }
}

/// The base64url text of `bytes`, without padding.
pub open spec fn base64url(bytes: Seq<u8>) -> Seq<char> {
    Seq::new((4 * bytes.len() + 2) / 3, |i: int| base64url_char(sextet(bytes, i)))
}

/// The base64 crate's decoding error.
#[verifier::external_type_specification]
#[verifier::external_body]
pub struct ExBase64Error(base64::DecodeError);

/// `Engine::encode` of the base64 crate with its `URL_SAFE_NO_PAD` engine: six
/// bits to a character, URL-safe alphabet, no padding.
#[verifier::external_body]
pub(crate) fn base64url_encode(bytes: &[u8; 32]) -> (r: String)
    ensures
        r@ == base64url(bytes@),
{
    base64::engine::general_purpose::URL_SAFE_NO_PAD.encode(bytes)
}

/// `Engine::decode` of the base64 crate with its `URL_SAFE_NO_PAD` engine: it
/// accepts exactly what encoding produces (no padding, no stray trailing bits)
/// and returns the bytes that encode to it.
#[verifier::external_body]
pub(crate) fn base64url_decode(text: &str) -> (r: Result<Vec<u8>, base64::DecodeError>)
    ensures
        match r {
            Ok(bytes) => base64url(bytes@) == text@,
            Err(_) => forall|bytes: Seq<u8>| #[trigger] base64url(bytes) != text@,
        },
{
    base64::engine::general_purpose::URL_SAFE_NO_PAD.decode(text)
}

proof fn lemma_base64url_char_injective(x: nat, y: nat)
    requires
        x < 64,
        y < 64,
        base64url_char(x) == base64url_char(y),
    ensures
        x == y,
{
}

proof fn lemma_sextet_small(bytes: Seq<u8>, i: int)
    ensures
        sextet(bytes, i) < 64,
{
}

/// Equal texts have equal six-bit groups.
proof fn lemma_sextets_equal(x: Seq<u8>, y: Seq<u8>, i: int)
    requires
        base64url(x) == base64url(y),
        0 <= i < base64url(x).len(),
    ensures
        sextet(x, i) == sextet(y, i),
{
    lemma_sextet_small(x, i);
    lemma_sextet_small(y, i);
    assert(base64url(x)[i] == base64url_char(sextet(x, i)));
    assert(base64url(y)[i] == base64url_char(sextet(y, i)));
    lemma_base64url_char_injective(sextet(x, i), sextet(y, i));
}

/// Different byte strings have different base64url texts.
pub proof fn lemma_base64url_injective(x: Seq<u8>, y: Seq<u8>)
    requires
        base64url(x) == base64url(y),
    ensures
        x == y,
{
    assert(base64url(x).len() == (4 * x.len() + 2) / 3);
    assert(base64url(y).len() == (4 * y.len() + 2) / 3);
    assert(x.len() == y.len());
    assert forall|j: int| 0 <= j < x.len() implies x[j] == y[j] by {
        let q = j / 3;
        assert(base64url(x).len() == (4 * x.len() + 2) / 3);
        if j % 3 == 0 {
            lemma_sextets_equal(x, y, 4 * q);
            lemma_sextets_equal(x, y, 4 * q + 1);
        } else if j % 3 == 1 {
            lemma_sextets_equal(x, y, 4 * q + 1);
            lemma_sextets_equal(x, y, 4 * q + 2);
        } else {
            lemma_sextets_equal(x, y, 4 * q + 2);
            lemma_sextets_equal(x, y, 4 * q + 3);
        }
    }
    assert(x =~= y);
}

/// base64url text holds no white space.
pub proof fn lemma_base64url_solid(bytes: Seq<u8>)
    ensures
        trimmed(base64url(bytes)) == base64url(bytes),
{
    let s = base64url(bytes);
    if s.len() > 0 {
        lemma_sextet_small(bytes, 0);
        lemma_sextet_small(bytes, s.len() - 1);
        assert(!is_white_space(s[0]));
        assert(!is_white_space(s.last()));
    }
    lemma_trimmed_tight(s);
}

} // verus!
