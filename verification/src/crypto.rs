//! Secrets: their text form, their digest, and their comparison.

use vstd::prelude::*;
use vstd::slice::*;
use vstd::string::*;
use vstd::utf8::encode_utf8;

use crate::text::to_chars;

verus! {

/// The longest input that is hashed, in bytes.
pub const MAX_HASH_INPUT: u64 = 0x0fff_ffff_ffff_ffff;

/// The character for six bits in the URL-safe Base64 alphabet, RFC 4648 section 5.
pub open spec fn base64url_char(bits: int) -> char {
    if bits < 26 {
        (65 + bits) as char
    } else if bits < 52 {
        (97 + bits - 26) as char
    } else if bits < 62 {
        (48 + bits - 52) as char
    } else if bits == 62 {
        '-'
    } else {
        '_'
    }
}

/// A byte of a sequence, and zero behind its end.
pub open spec fn byte_or_zero(bytes: Seq<u8>, i: int) -> int {
    if 0 <= i < bytes.len() {
        bytes[i] as int
    } else {
        0
    }
}

/// The six bits at position `i` of a sequence of bytes, the most significant first, with
/// zeros behind its end.
pub open spec fn sextet(bytes: Seq<u8>, i: int) -> int {
    let at = (6 * i) / 8;
    let pair = 256 * byte_or_zero(bytes, at) + byte_or_zero(bytes, at + 1);
    if i % 4 == 0 {
        (pair / 1024) % 64
    } else if i % 4 == 1 {
        (pair / 16) % 64
    } else if i % 4 == 2 {
        (pair / 64) % 64
    } else {
        (pair / 256) % 64
    }
}

/// The URL-safe Base64 form of a sequence of bytes, without padding.
pub open spec fn base64url_text(bytes: Seq<u8>) -> Seq<char> {
    Seq::new((4 * bytes.len() + 2) as nat / 3, |i: int| base64url_char(sextet(bytes, i)))
}

/// `data_encoding::BASE64URL_NOPAD.encode`: the URL-safe Base64 form without padding. It
/// panics on more than `usize::MAX / 512` bytes.
#[verifier::external_body]
pub(crate) fn base64url_nopad(bytes: &Vec<u8>) -> (r: String)
    requires
        bytes@.len() <= usize::MAX / 512,
    ensures
        r@ == base64url_text(bytes@),
{
    data_encoding::BASE64URL_NOPAD.encode(bytes)
}

/// What `ring::digest::digest` returns for SHA-256.
pub uninterp spec fn sha256_digest(bytes: Seq<u8>) -> Seq<u8>;

/// `ring::digest::digest` with `ring::digest::SHA256`: the 32 bytes of the SHA-256 digest.
/// It panics on an input whose length in bits does not fit 64 bits.
#[verifier::external_body]
fn sha256(bytes: &[u8]) -> (r: Vec<u8>)
    requires
        bytes@.len() <= MAX_HASH_INPUT,
    ensures
        r@ == sha256_digest(bytes@),
        r@.len() == 32,
{
    ring::digest::digest(&ring::digest::SHA256, bytes).as_ref().to_vec()
}

/// `ring::rand::SystemRandom`: 32 bytes of the system's randomness, or `None` where it has
/// none to give. Nothing is said of their values.
#[verifier::external_body]
pub(crate) fn random_secret() -> (r: Option<Vec<u8>>)
    ensures
        r matches Some(bytes) ==> bytes@.len() == 32,
{
    let mut bytes = vec![0u8; 32];
    match ring::rand::SecureRandom::fill(&ring::rand::SystemRandom::new(), &mut bytes) {
        Ok(_) => Some(bytes),
        Err(_) => None,
    }
}

/// The lower-case hexadecimal digit of a value below 16.
pub open spec fn hex_digit(value: int) -> char {
    if value < 10 {
        (48 + value) as char
    } else {
        (97 + value - 10) as char
    }
}

/// The lower-case hexadecimal form of a sequence of bytes.
pub open spec fn hex_text(bytes: Seq<u8>) -> Seq<char> {
    Seq::new(
        2 * bytes.len(),
        |i: int|
            if i % 2 == 0 {
                hex_digit(bytes[i / 2] as int / 16)
            } else {
                hex_digit(bytes[i / 2] as int % 16)
            },
    )
}

fn hex_char(value: u8) -> (r: char)
    requires
        value < 16,
    ensures
        r == hex_digit(value as int),
{
    if value < 10 {
        (48 + value) as char
    } else {
        (97 + (value - 10)) as char
    }
}

/// Writes bytes in lower-case hexadecimal.
pub fn hex(bytes: &Vec<u8>) -> (r: String)
    ensures
        r@ == hex_text(bytes@),
{
    let ghost all = hex_text(bytes@);
    let mut r = String::new();
    let mut i: usize = 0;
    assert(r@ =~= all.take(0));
    while i < bytes.len()
        invariant
            i <= bytes.len(),
            all == hex_text(bytes@),
            r@ == all.take(2 * i),
        decreases bytes.len() - i,
    {
        let ghost before = r@;
        r.push(hex_char(bytes[i] / 16));
        r.push(hex_char(bytes[i] % 16));
        proof {
            assert((2 * i) / 2 == i && (2 * i + 1) / 2 == i);
            assert((2 * i) % 2 == 0 && (2 * i + 1) % 2 == 1);
            assert(all[2 * i] == hex_digit(bytes@[i as int] as int / 16));
            assert(all[2 * i + 1] == hex_digit(bytes@[i as int] as int % 16));
            assert(r@ =~= before.push(all[2 * i]).push(all[2 * i + 1]));
            assert(r@ =~= all.take(2 * (i + 1)));
        }
        i += 1;
    }
    assert(all.take(2 * i) =~= all);
    r
}

/// The digest of a secret, as it is stored: the SHA-256 digest of its UTF-8 bytes, in
/// hexadecimal.
pub open spec fn secret_hash(secret: Seq<char>) -> Seq<char> {
    hex_text(sha256_digest(encode_utf8(secret)))
}

/// Whether a secret is short enough to be hashed.
pub open spec fn hashable(secret: Seq<char>) -> bool {
    encode_utf8(secret).len() <= MAX_HASH_INPUT
}

/// The digest of a secret, as it is stored. A secret that is too long to be hashed has
/// none.
pub fn sha256_hex(secret: &str) -> (r: Option<String>)
    ensures
        match r {
            Some(hash) => hashable(secret@) && hash@ == secret_hash(secret@),
            None => !hashable(secret@),
        },
{
    let bytes = secret.as_bytes();
    if bytes.len() as u64 > MAX_HASH_INPUT {
        return None;
    }
    Some(hex(&sha256(bytes)))
}

// The bits in which two characters differ.
fn different_bits(c: char, d: char) -> (r: u32)
    ensures
        r == 0 <==> c == d,
{
    let p: u32 = c as u32;
    let q: u32 = d as u32;
    assert((p ^ q) == 0 <==> p == q) by (bit_vector);
    p ^ q
}

/// Compares two texts. Where their lengths are the same, every character is looked at,
/// whatever was found before. How long that takes is not proved.
pub fn ct_eq(a: &str, b: &str) -> (r: bool)
    ensures
        r == (a@ == b@),
{
    let x = to_chars(a);
    let y = to_chars(b);
    if x.len() != y.len() {
        return false;
    }
    let mut difference: u32 = 0;
    let mut i: usize = 0;
    while i < x.len()
        invariant
            i <= x.len(),
            x.len() == y.len(),
            x@ == a@,
            y@ == b@,
            difference == 0 <==> forall|j: int| 0 <= j < i ==> a@[j] == b@[j],
        decreases x.len() - i,
    {
        let bits: u32 = different_bits(x[i], y[i]);
        assert((difference | bits) == 0 <==> difference == 0 && bits == 0) by (bit_vector);
        difference = difference | bits;
        i += 1;
    }
    if difference == 0 {
        assert(a@ =~= b@);
    }
    difference == 0
}

} // verus!
