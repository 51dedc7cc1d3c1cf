//! Signatures on deliveries.
//!
//! The platform signs the body of each delivery with a secret that it shares
//! with the bot, and sends the signature along: the text `sha1=` followed by
//! the HMAC-SHA1 of the body under the secret, in lower-case hexadecimal
//! digits.

use hmac::{Hmac, Mac};
use sha1::Sha1;
use vstd::prelude::*;
use vstd::utf8::encode_utf8;

verus! {

/// The HMAC-SHA1 of `message` under `key`.
pub uninterp spec fn hmac_sha1(key: Seq<u8>, message: Seq<u8>) -> Seq<u8>;

/// Calls `Hmac::<Sha1>::new_from_slice`, `update` and `finalize` of the crate
/// `hmac`. The contract gives the code a name, [`hmac_sha1`], and claims of
/// it what the crate shows: a key of any length is taken, so there always
/// is a code, and the code of SHA-1 is 20 bytes long.
#[verifier::external_body]
fn compute_hmac_sha1(key: &[u8], message: &[u8]) -> (code: Option<Vec<u8>>)
    ensures
        code is Some,
        code matches Some(bytes) ==> bytes@ == hmac_sha1(key@, message@),
        code matches Some(bytes) ==> bytes@.len() == 20,
{
    match <Hmac<Sha1> as Mac>::new_from_slice(key) {
        Ok(mut mac) => {
            mac.update(message);
            Some(mac.finalize().into_bytes().to_vec())
        },
        Err(_) => None,
    }
}

/// The hexadecimal digit for `n`, as an ASCII code: `0` to `9`, then `a` to
/// `f`.
pub open spec fn hex_digit(n: u8) -> u8 {
    if n < 10 {
        (48 + n) as u8
    } else {
        (87 + n) as u8
    }
}

/// `bytes` in hexadecimal digits, two for each byte, the high half first.
pub open spec fn hex_of(bytes: Seq<u8>) -> Seq<u8> {
    Seq::new(
        (2 * bytes.len()) as nat,
        |i: int|
            if i % 2 == 0 {
                hex_digit(bytes[i / 2] / 16)
            } else {
                hex_digit(bytes[i / 2] % 16)
            },
    )
}

/// The signature that carries the authentication code `code`.
pub open spec fn signature_with(code: Seq<u8>) -> Seq<u8> {
    encode_utf8("sha1="@) + hex_of(code)
}

/// The signature that belongs on a delivery of `body` under `secret`.
pub open spec fn signature_of(secret: Seq<u8>, body: Seq<u8>) -> Seq<u8> {
    signature_with(hmac_sha1(secret, body))
}

/// Whether `signature` is the one that belongs on a delivery of `body`
/// under `secret`.
pub open spec fn signed_by(secret: Seq<u8>, body: Seq<u8>, signature: Seq<u8>) -> bool {
    signature == signature_of(secret, body)
}

fn digit(n: u8) -> (d: u8)
    requires
        n < 16,
    ensures
        d == hex_digit(n),
{
    if n < 10 {
        48 + n
    } else {
        87 + n
    }
}

/// Writes `bytes` in hexadecimal digits.
pub fn to_hex(bytes: &[u8]) -> (out: Vec<u8>)
    ensures
        out@ == hex_of(bytes@),
{
    let mut out: Vec<u8> = Vec::new();
    let mut i: usize = 0;
    while i < bytes.len()
        invariant
            i <= bytes.len(),
            out@ == hex_of(bytes@.take(i as int)),
        decreases bytes.len() - i,
    {
        let b: u8 = bytes[i];
        out.push(digit(b / 16));
        out.push(digit(b % 16));
        assert(out@ =~= hex_of(bytes@.take(i + 1)));
        i = i + 1;
    }
    assert(bytes@.take(i as int) =~= bytes@);
    out
}

/// Whether `a` and `b` hold the same bytes. Where they are equally long the
/// time this takes does not depend on where they differ.
pub fn same_bytes(a: &[u8], b: &[u8]) -> (same: bool)
    ensures
        same == (a@ == b@),
{
    if a.len() != b.len() {
        return false;
    }
    let mut differ: u8 = 0;
    let mut i: usize = 0;
    assert(a@.take(0) =~= b@.take(0));
    while i < a.len()
        invariant
            i <= a.len(),
            a.len() == b.len(),
            differ == 0 <==> a@.take(i as int) == b@.take(i as int),
        decreases a.len() - i,
    {
        let x: u8 = a[i];
        let y: u8 = b[i];
        let ghost before = differ;
        differ = differ | (x ^ y);
        proof {
            assert((before | (x ^ y)) == 0 <==> before == 0 && x == y) by (bit_vector);
            let m = a@.take(i + 1);
            let n = b@.take(i + 1);
            assert(m.drop_last() =~= a@.take(i as int));
            assert(n.drop_last() =~= b@.take(i as int));
            assert(m.last() == x && n.last() == y);
            if a@.take(i as int) == b@.take(i as int) && x == y {
                assert(m =~= n);
            }
        }
        i = i + 1;
    }
    assert(a@.take(i as int) =~= a@);
    assert(b@.take(i as int) =~= b@);
    differ == 0
}

/// Writes the signature that carries the authentication code `code`.
pub fn sign(code: &[u8]) -> (signature: Vec<u8>)
    ensures
        signature@ == signature_with(code@),
{
    let mut signature: Vec<u8> = Vec::new();
    let digits = to_hex(code);
    signature.extend_from_slice("sha1=".as_bytes());
    signature.extend_from_slice(digits.as_slice());
    assert(signature@ =~= encode_utf8("sha1="@) + hex_of(code@));
    signature
}

/// Whether `signature` carries the authentication code `code`.
pub fn carries(signature: &[u8], code: &[u8]) -> (ok: bool)
    ensures
        ok == (signature@ == signature_with(code@)),
{
    let expected = sign(code);
    same_bytes(expected.as_slice(), signature)
}

/// Whether `signature` is the one that belongs on a delivery of `body`
/// under `secret`.
pub fn verify_signature(secret: &[u8], body: &[u8], signature: &[u8]) -> (ok: bool)
    ensures
        ok == signed_by(secret@, body@, signature@),
{
    match compute_hmac_sha1(secret, body) {
        Some(code) => carries(signature, code.as_slice()),
        None => false,
    }
}

} // verus!
