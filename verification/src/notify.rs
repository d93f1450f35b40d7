//! The billing notifier's outbound material: the signed JSON body that
//! reports the precomputed remaining balance after a committed turn.
//!
//! The body is `{"credits_remaining":N,"user_id":M}`, built here byte
//! for byte; its signature is an HMAC-SHA256 over those bytes with the
//! shared secret, sent base64-encoded in a header beside the body. The
//! HTTP call itself is the application's business.

use vstd::prelude::*;
use crate::bytes::{ascii_bytes, lit_bytes};
use base64::Engine;

verus! {

/// Decimal digits of `n`, most significant first.
pub open spec fn spec_u64_dec(n: nat) -> Seq<u8>
    decreases n,
{
    if n < 10 {
        seq![(48 + n) as u8]
    } else {
        spec_u64_dec(n / 10) + seq![(48 + n % 10) as u8]
    }
}

/// Decimal notation of a signed number: a leading `-` for negatives.
pub open spec fn spec_i64_dec(n: int) -> Seq<u8> {
    if n < 0 {
        seq![45u8] + spec_u64_dec((-n) as nat)
    } else {
        spec_u64_dec(n as nat)
    }
}

/// Exec mirror of [`spec_u64_dec`].
pub fn u64_dec(n: u64) -> (r: Vec<u8>)
    ensures
        r@ == spec_u64_dec(n as nat),
    decreases n,
{
    if n < 10 {
        let mut v: Vec<u8> = Vec::new();
        v.push((48 + n) as u8);
        proof {
            assert(v@ =~= spec_u64_dec(n as nat));
        }
        v
    } else {
        let mut v = u64_dec(n / 10);
        v.push((48 + n % 10) as u8);
        proof {
            assert(v@ =~= spec_u64_dec(n as nat));
        }
        v
    }
}

/// Exec mirror of [`spec_i64_dec`].
pub fn i64_dec(n: i64) -> (r: Vec<u8>)
    ensures
        r@ == spec_i64_dec(n as int),
{
    if n >= 0 {
        u64_dec(n as u64)
    } else {
        // the magnitude of `n`, computed without overflowing `i64::MIN`
        let mag: u64 = ((-(n + 1)) as u64) + 1;
        proof {
            assert(mag == -(n as int));
        }
        let mut v: Vec<u8> = Vec::new();
        v.push(45);
        let mut digits = u64_dec(mag);
        v.append(&mut digits);
        proof {
            assert(v@ =~= spec_i64_dec(n as int));
        }
        v
    }
}

/// The notifier body for a user's new balance, byte for byte.
pub open spec fn spec_session_payload(credits: int, uid: int) -> Seq<u8> {
    lit_bytes("{\"credits_remaining\":") + spec_i64_dec(credits) + lit_bytes(",\"user_id\":")
        + spec_i64_dec(uid) + seq![125u8]
}

/// Exec mirror of [`spec_session_payload`].
pub fn session_payload(credits_remaining: i64, user_id: i64) -> (v: Vec<u8>)
    ensures
        v@ == spec_session_payload(credits_remaining as int, user_id as int),
{
    proof {
        reveal_strlit("{\"credits_remaining\":");
        reveal_strlit(",\"user_id\":");
    }
    let mut v = ascii_bytes("{\"credits_remaining\":");
    let mut credits = i64_dec(credits_remaining);
    v.append(&mut credits);
    let mut mid = ascii_bytes(",\"user_id\":");
    v.append(&mut mid);
    let mut uid = i64_dec(user_id);
    v.append(&mut uid);
    v.push(125);
    proof {
        assert(v@ =~= spec_session_payload(credits_remaining as int, user_id as int));
    }
    v
}

/// The HMAC-SHA256 of `msg` under `key`: a function of the two byte
/// sequences alone, the same in every process.
pub uninterp spec fn hmac_sha256(key: Seq<u8>, msg: Seq<u8>) -> Seq<u8>;

/// Relies on `hmac::Hmac<sha2::Sha256>` (`new_from_slice`, `update`,
/// `finalize`): the MAC over `msg` keyed by `key`. `new_from_slice`
/// accepts keys of any length, so the construction cannot fail; the
/// digest is SHA-256's 32 bytes.
#[verifier::external_body]
fn hmac_sha256_digest(key: &[u8], msg: &[u8]) -> (r: Vec<u8>)
    ensures
        r@ == hmac_sha256(key@, msg@),
        r@.len() == 32,
{
    let mut mac = <hmac::Hmac<sha2::Sha256> as hmac::KeyInit>::new_from_slice(key).expect(
        "HMAC accepts keys of any length",
    );
    hmac::Mac::update(&mut mac, msg);
    hmac::Mac::finalize(mac).into_bytes().to_vec()
}

/// The standard base64 (with padding) of a byte sequence, as the
/// characters of the encoded text.
pub uninterp spec fn base64_std(data: Seq<u8>) -> Seq<char>;

/// Relies on `base64::engine::general_purpose::STANDARD.encode`: the
/// padded standard alphabet, four characters for every started group of
/// three bytes.
#[verifier::external_body]
fn base64_encode(data: &[u8]) -> (r: String)
    ensures
        r@ == base64_std(data@),
        r@.len() == 4 * ((data@.len() + 2) / 3),
{
    base64::engine::general_purpose::STANDARD.encode(data)
}

/// The signature header value the notifier call carries: base64 of the
/// body's HMAC-SHA256 under the shared secret.
pub fn sign_payload(secret: &[u8], body: &[u8]) -> (sig: String)
    ensures
        sig@ == base64_std(hmac_sha256(secret@, body@)),
        sig@.len() == 44,
{
    let digest = hmac_sha256_digest(secret, body);
    base64_encode(digest.as_slice())
}

} // verus!
