//! Fingerprints: the registry key of a watched file, derived from its path.

use vstd::prelude::*;
use vstd::utf8::encode_utf8;
use crate::text::string_of;

verus! {

/// The MD5 digest of `data`, as the `md5` crate computes it.
pub uninterp spec fn md5_digest(data: Seq<u8>) -> Seq<u8>;

/// `md5::compute`: the 16 bytes of the MD5 digest of `data`. The digest
/// depends on `data` alone; nothing else is claimed of it.
#[verifier::external_body]
fn md5_compute(data: &[u8]) -> (digest: Vec<u8>)
    ensures
        digest@ == md5_digest(data@),
        digest@.len() == 16,
{
    md5::compute(data).0.to_vec()
}

/// The lower-case hexadecimal digit for `n`, for `n` below sixteen.
pub open spec fn hex_digit(n: int) -> char {
    if n < 10 {
        (('0' as u8) + n) as u8 as char
    } else {
        (('a' as u8) + n - 10) as u8 as char
    }
}

/// `bytes` in lower-case hexadecimal, two digits to the byte, the high
/// half first.
pub open spec fn hex(bytes: Seq<u8>) -> Seq<char> {
    Seq::new(
        2 * bytes.len(),
        |i: int|
            if i % 2 == 0 {
                hex_digit(bytes[i / 2] as int / 16)
            } else {
                hex_digit(bytes[i / 2] as int % 16)
            },
    )
}

/// The fingerprint of the path `path`: the MD5 digest of its UTF-8 bytes,
/// in hexadecimal.
pub open spec fn fingerprint_of(path: Seq<char>) -> Seq<char> {
    hex(md5_digest(encode_utf8(path)))
}

/// The lower-case hexadecimal digit for `n`.
fn hex_char(n: u8) -> (c: char)
    requires
        n < 16,
    ensures
        c == hex_digit(n as int),
{
    if n < 10 {
        (48u8 + n) as char
    } else {
        (87u8 + n) as char
    }
}

/// Writes `bytes` in lower-case hexadecimal.
pub fn to_hex(bytes: &[u8]) -> (digits: Vec<char>)
    ensures
        digits@ == hex(bytes@),
{
    let mut digits: Vec<char> = Vec::new();
    let mut i: usize = 0;
    while i < bytes.len()
        invariant
            i <= bytes@.len(),
            digits@ == hex(bytes@.take(i as int)),
        decreases bytes@.len() - i,
    {
        let byte: u8 = bytes[i];
        digits.push(hex_char(byte / 16));
        digits.push(hex_char(byte % 16));
        i += 1;
        assert(digits@ =~= hex(bytes@.take(i as int)));
    }
    assert(bytes@.take(i as int) == bytes@);
    digits
}

/// The fingerprint of `path`, as characters.
pub fn fingerprint_chars(path: &str) -> (name: Vec<char>)
    ensures
        name@ == fingerprint_of(path@),
        name@.len() == 32,
{
    let digest = md5_compute(path.as_bytes());
    to_hex(digest.as_slice())
}

/// The fingerprint of `path`: 32 hexadecimal digits.
pub fn fingerprint(path: &str) -> (name: String)
    ensures
        name@ == fingerprint_of(path@),
        name@.len() == 32,
{
    let chars = fingerprint_chars(path);
    string_of(chars.as_slice())
}

/// Two hexadecimal digits are the same only for the same half-byte.
pub proof fn lemma_hex_digit_injective(m: int, n: int)
    requires
        0 <= m < 16,
        0 <= n < 16,
        hex_digit(m) == hex_digit(n),
    ensures
        m == n,
{
}

/// Hexadecimal writing loses nothing: two byte strings with the same
/// digits are the same.
pub proof fn law_hex_injective(a: Seq<u8>, b: Seq<u8>)
    requires
        hex(a) == hex(b),
    ensures
        a == b,
{
    assert(hex(a).len() == 2 * a.len());
    assert(hex(b).len() == 2 * b.len());
    assert forall|k: int| 0 <= k < a.len() implies a[k] == b[k] by {
        assert((2 * k) / 2 == k && (2 * k) % 2 == 0);
        assert((2 * k + 1) / 2 == k && (2 * k + 1) % 2 == 1);
        assert(hex(a)[2 * k] == hex_digit(a[k] as int / 16));
        assert(hex(b)[2 * k] == hex_digit(b[k] as int / 16));
        assert(hex(a)[2 * k + 1] == hex_digit(a[k] as int % 16));
        assert(hex(b)[2 * k + 1] == hex_digit(b[k] as int % 16));
        lemma_hex_digit_injective(a[k] as int / 16, b[k] as int / 16);
        lemma_hex_digit_injective(a[k] as int % 16, b[k] as int % 16);
    }
    assert(a =~= b);
}

/// The fingerprint is a function of the path: equal paths have the same
/// fingerprint. Two different paths have the same fingerprint only if
/// their MD5 digests collide.
pub proof fn law_fingerprint_collisions(p: Seq<char>, q: Seq<char>)
    ensures
        p == q ==> fingerprint_of(p) == fingerprint_of(q),
        fingerprint_of(p) == fingerprint_of(q) <==> md5_digest(encode_utf8(p)) == md5_digest(
            encode_utf8(q),
        ),
        p != q ==> encode_utf8(p) != encode_utf8(q),
{
    if fingerprint_of(p) == fingerprint_of(q) {
        law_hex_injective(md5_digest(encode_utf8(p)), md5_digest(encode_utf8(q)));
    }
    if encode_utf8(p) == encode_utf8(q) {
        vstd::utf8::encode_utf8_decode_utf8(p);
        vstd::utf8::encode_utf8_decode_utf8(q);
    }
}

} // verus!
