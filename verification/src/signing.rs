//! The request signer.
//!
//! The signed material is `GET&%2F&` followed by the percent-encoded
//! canonical string — the HTTP method and an encoded `/` path segment are
//! part of it, exactly as the provider verifies it.  The key is the
//! caller's secret with a literal `&` appended.  The keyed hash is
//! HMAC-SHA1 and the tag is base64-encoded to give the signature string.

use vstd::prelude::*;
use vstd::string::*;
use vstd::utf8::encode_utf8;

use base64::Engine;
use hmac::Mac;

use crate::encode::{percent_encode, percent_encoded};
use crate::params::{canon_of_map, ParamMap};

verus! {

/// The HMAC-SHA1 tag over a message: what `hmac::Hmac<sha1::Sha1>`
/// computes from the key and message bytes alone.
pub uninterp spec fn hmac_sha1_of(key: Seq<u8>, msg: Seq<u8>) -> Seq<u8>;

/// The base64 rendering (standard alphabet, padded) of a byte sequence:
/// what `base64`'s standard engine computes from the bytes alone.
pub uninterp spec fn base64_of(data: Seq<u8>) -> Seq<u8>;

/// Relies on `hmac::Hmac<sha1::Sha1>` (`new_from_slice`, `update`,
/// `finalize`): the tag is a function of key and message alone and is 20
/// bytes, SHA-1's output width.  `new_from_slice` accepts keys of any
/// length for an HMAC, so the construction cannot fail.
#[verifier::external_body]
fn hmac_sha1(key: &[u8], msg: &[u8]) -> (r: Vec<u8>)
    ensures
        r@ == hmac_sha1_of(key@, msg@),
        r@.len() == 20,
{
    let mut mac = <hmac::Hmac<sha1::Sha1> as hmac::Mac>::new_from_slice(key).unwrap();
    mac.update(msg);
    mac.finalize().into_bytes().to_vec()
}

/// Relies on `base64::engine::general_purpose::STANDARD` via
/// `Engine::encode`: the output is a function of the input bytes alone,
/// four ASCII characters for every started group of three bytes (padding
/// included).  The length bound keeps the engine's own buffer-size
/// computation from overflowing.
#[verifier::external_body]
fn base64_encode(data: &[u8]) -> (r: Vec<u8>)
    requires
        4 * ((data@.len() + 2) / 3) <= usize::MAX,
    ensures
        r@ == base64_of(data@),
        r@.len() == 4 * ((data@.len() + 2) / 3),
{
    base64::engine::general_purpose::STANDARD.encode(data).into_bytes()
}

/// The key the tag is computed under: the secret with `&` appended.
pub open spec fn signature_key_of(secret: Seq<u8>) -> Seq<u8> {
    secret + seq![0x26u8]
}

/// The material the tag is computed over: method, encoded root path and
/// the percent-encoded canonical string.
pub open spec fn string_to_sign_of(canonical: Seq<u8>) -> Seq<u8> {
    encode_utf8("GET&%2F&"@) + percent_encoded(canonical)
}

/// The signature string for a canonical string under a secret.
pub open spec fn signature_of(canonical: Seq<u8>, secret: Seq<u8>) -> Seq<u8> {
    base64_of(hmac_sha1_of(signature_key_of(secret), string_to_sign_of(canonical)))
}

/// Signs a canonical string with the secret.
pub fn compute_signature(canonical: &[u8], secret: &[u8]) -> (r: Vec<u8>)
    ensures
        r@ == signature_of(canonical@, secret@),
{
    let mut key: Vec<u8> = Vec::new();
    key.extend_from_slice(secret);
    key.push(0x26);  // &
    proof {
        assert(key@ =~= signature_key_of(secret@));
    }
    let mut sts: Vec<u8> = Vec::new();
    sts.extend_from_slice("GET&%2F&".as_bytes());
    let mut enc = percent_encode(canonical);
    sts.append(&mut enc);
    proof {
        assert(sts@ =~= string_to_sign_of(canonical@));
    }
    let digest = hmac_sha1(key.as_slice(), sts.as_slice());
    base64_encode(digest.as_slice())
}

/// The signature for a whole parameter mapping: its canonical string
/// signed with the secret.
pub fn calculate_signature(params: &ParamMap, secret: &str) -> (r: Vec<u8>)
    requires
        params.wf(),
    ensures
        r@ == signature_of(canon_of_map(params@), encode_utf8(secret@)),
{
    let canonical = params.canonical_string();
    compute_signature(canonical.as_slice(), secret.as_bytes())
}

} // verus!
