//! Keyed-MAC token codec: signs a payload with a server-held secret and
//! validates a signature by recomputing it.
//!
//! The MAC itself is HMAC-SHA-256 from the `hmac` and `sha2` crates; its
//! value is named by an uninterpreted spec function, since only the crates
//! compute it.  Everything around the two MAC calls is verified: hex
//! round-trip, malformed signatures, and the session-token pairing.

use vstd::prelude::*;

use crate::hexcode::{
    decode_hex, hex_decode, hex_encode, hex_of, is_hex_seq, is_lower_hex_seq,
    lemma_decode_inverts_encode, lemma_encode_inverts_decode, lemma_hex_of_well_formed,
};

verus! {

/// The HMAC-SHA-256 tag of a payload under a key.  A function of the two
/// strings alone; its value is known only to the MAC implementation.
pub uninterp spec fn hmac_sha256_of(key: Seq<char>, payload: Seq<char>) -> Seq<u8>;

/// Relies on `hmac::Hmac<sha2::Sha256>`: the tag is a function of key and
/// payload bytes alone, 32 bytes long, and any key length is accepted.
#[verifier::external_body]
fn hmac_sha256(key: &str, payload: &str) -> (r: Vec<u8>)
    ensures
        r@ == hmac_sha256_of(key@, payload@),
        r@.len() == 32,
{
    let mut mac = <hmac::Hmac<sha2::Sha256> as hmac::KeyInit>::new_from_slice(key.as_bytes())
        .expect("HMAC accepts keys of any length");
    hmac::Mac::update(&mut mac, payload.as_bytes());
    hmac::Mac::finalize(mac).into_bytes().to_vec()
}

/// Relies on `hmac::Mac::verify_slice`: accepts exactly the tag equal to the
/// recomputed MAC, and compares in constant time.
#[verifier::external_body]
fn hmac_sha256_check(key: &str, payload: &str, tag: &[u8]) -> (r: bool)
    ensures
        r == (tag@ == hmac_sha256_of(key@, payload@)),
{
    let mut mac = <hmac::Hmac<sha2::Sha256> as hmac::KeyInit>::new_from_slice(key.as_bytes())
        .expect("HMAC accepts keys of any length");
    hmac::Mac::update(&mut mac, payload.as_bytes());
    hmac::Mac::verify_slice(mac, tag).is_ok()
}

/// The signature string for a payload under a key: the hex spelling of its
/// MAC tag.
pub open spec fn signature_of(key: Seq<char>, payload: Seq<char>) -> Seq<char> {
    hex_of(hmac_sha256_of(key, payload))
}

/// Whether a submitted signature string is accepted for a payload under a
/// key: it must be well-formed hex and denote the recomputed tag.
pub open spec fn signature_accepted(key: Seq<char>, payload: Seq<char>, sig: Seq<char>) -> bool {
    is_hex_seq(sig) && decode_hex(sig) == hmac_sha256_of(key, payload)
}

/// Produce the signature of `payload` under `key`.
pub fn create_uuid(payload: &String, key: &String) -> (r: String)
    ensures
        r@ == signature_of(key@, payload@),
{
    let tag = hmac_sha256(key.as_str(), payload.as_str());
    hex_encode(tag.as_slice())
}

/// Check a submitted signature for `payload` under `key`.  A string that is
/// not well-formed hex is rejected, never an error.
pub fn verify_uuid(payload: &String, encoded_msg: &String, key: &String) -> (r: bool)
    ensures
        r == signature_accepted(key@, payload@, encoded_msg@),
{
    match hex_decode(encoded_msg.as_str()) {
        None => false,
        Some(code) => hmac_sha256_check(key.as_str(), payload.as_str(), code.as_slice()),
    }
}

/// A signature just produced for a payload is accepted for that payload:
/// checking recomputes the tag and the hex round trip gives it back.
pub proof fn lemma_sign_then_verify(key: Seq<char>, payload: Seq<char>)
    ensures
        signature_accepted(key, payload, signature_of(key, payload)),
{
    let tag = hmac_sha256_of(key, payload);
    lemma_hex_of_well_formed(tag);
    lemma_decode_inverts_encode(tag);
}

/// A lowercase hex string other than the true signature is rejected: in
/// particular, flipping any digit of a signature to a different one yields
/// a string that no longer verifies.
pub proof fn lemma_altered_signature_rejected(key: Seq<char>, payload: Seq<char>, sig: Seq<char>)
    requires
        is_lower_hex_seq(sig),
        sig != signature_of(key, payload),
    ensures
        !signature_accepted(key, payload, sig),
{
    if is_hex_seq(sig) && decode_hex(sig) == hmac_sha256_of(key, payload) {
        lemma_encode_inverts_decode(sig);
        assert(sig =~= signature_of(key, payload));
    }
}

/// A signed credential: the payload in the clear next to its signature.
/// Validity is a function of the signature alone; there is no server-side
/// session table.
pub struct SessionToken {
    pub payload: String,
    pub signature: String,
}

impl SessionToken {
    /// Sign `payload` under `key` and pair it with the signature.
    pub fn sign(payload: &String, key: &String) -> (t: SessionToken)
        ensures
            t.payload@ == payload@,
            t.signature@ == signature_of(key@, payload@),
    {
        let signature = create_uuid(payload, key);
        SessionToken { payload: payload.clone(), signature }
    }

    /// Check this token against a payload: recompute the MAC of `payload`
    /// under `key` and compare it with the stored signature.
    pub fn verify(&self, payload: &String, key: &String) -> (r: bool)
        ensures
            r == signature_accepted(key@, payload@, self.signature@),
    {
        verify_uuid(payload, &self.signature, key)
    }
}

} // verus!
