//! The request dispatcher's verified core.
//!
//! [`AliyunClient`] owns the immutable credentials.  Its methods inject the
//! common request fields, sign the canonical string, and render the final
//! request URL; the one thing left to a caller is to perform the HTTP
//! exchange itself and hand the decoded body to the response classifier.

use vstd::prelude::*;
use vstd::string::*;
use vstd::utf8::encode_utf8;

use crate::params::{canon_of_map, utf8_bytes, ParamMap};
use crate::signing::{calculate_signature, signature_of};

verus! {

/// The `AccessKeyId` parameter name.
pub open spec fn k_access_key_id() -> Seq<u8> {
    encode_utf8("AccessKeyId"@)
}

/// The `SignatureMethod` parameter name.
pub open spec fn k_signature_method() -> Seq<u8> {
    encode_utf8("SignatureMethod"@)
}

/// The fixed signature algorithm tag.
pub open spec fn v_signature_method() -> Seq<u8> {
    encode_utf8("HMAC-SHA1"@)
}

/// The `SignatureVersion` parameter name.
pub open spec fn k_signature_version() -> Seq<u8> {
    encode_utf8("SignatureVersion"@)
}

/// The fixed signature version tag.
pub open spec fn v_signature_version() -> Seq<u8> {
    encode_utf8("1.0"@)
}

/// The `SignatureNonce` parameter name.
pub open spec fn k_signature_nonce() -> Seq<u8> {
    encode_utf8("SignatureNonce"@)
}

/// The `Timestamp` parameter name.
pub open spec fn k_timestamp() -> Seq<u8> {
    encode_utf8("Timestamp"@)
}

/// The `Signature` parameter name.
pub open spec fn k_signature() -> Seq<u8> {
    encode_utf8("Signature"@)
}

/// The mapping with a binding added only where the key is absent:
/// a caller-supplied value wins over an injected one.
pub open spec fn added_if_absent(m: Map<Seq<u8>, Seq<u8>>, k: Seq<u8>, v: Seq<u8>) -> Map<
    Seq<u8>,
    Seq<u8>,
> {
    if m.contains_key(k) {
        m
    } else {
        m.insert(k, v)
    }
}

/// The mapping after the common fields are injected: credential id,
/// method tag and version tag only where absent; nonce and timestamp
/// always overwritten.
pub open spec fn with_common(
    m: Map<Seq<u8>, Seq<u8>>,
    akid: Seq<u8>,
    nonce: Seq<u8>,
    ts: Seq<u8>,
) -> Map<Seq<u8>, Seq<u8>> {
    added_if_absent(
        added_if_absent(
            added_if_absent(m, k_access_key_id(), akid),
            k_signature_method(),
            v_signature_method(),
        ),
        k_signature_version(),
        v_signature_version(),
    ).insert(k_signature_nonce(), nonce).insert(k_timestamp(), ts)
}

/// The fully signed mapping: the assembled mapping with the signature of
/// its own canonical string appended under `Signature`.
pub open spec fn signed_map_of(
    m: Map<Seq<u8>, Seq<u8>>,
    akid: Seq<u8>,
    secret: Seq<u8>,
    nonce: Seq<u8>,
    ts: Seq<u8>,
) -> Map<Seq<u8>, Seq<u8>> {
    let assembled = with_common(m, akid, nonce, ts);
    assembled.insert(k_signature(), signature_of(canon_of_map(assembled), secret))
}

/// The final request URL for an endpoint and a signed mapping.
pub open spec fn url_of(endpoint: Seq<u8>, m: Map<Seq<u8>, Seq<u8>>) -> Seq<u8> {
    encode_utf8("https://"@) + endpoint + seq![0x3fu8] + canon_of_map(m)
}

/// Holds the credentials and builds signed requests with them.
#[derive(Debug, Clone)]
pub struct AliyunClient {
    pub access_key_id: String,
    pub access_key_secret: String,
}

impl AliyunClient {
    /// A client over the given credential pair.
    pub fn new(access_key_id: String, access_key_secret: String) -> (r: AliyunClient)
        ensures
            r.access_key_id@ == access_key_id@,
            r.access_key_secret@ == access_key_secret@,
    {
        AliyunClient { access_key_id, access_key_secret }
    }

    /// Injects the common request fields into a parameter mapping.
    pub fn add_common_params(&self, params: &mut ParamMap, nonce: &str, timestamp: &str)
        requires
            old(params).wf(),
        ensures
            final(params).wf(),
            final(params)@ == with_common(
                old(params)@,
                encode_utf8(self.access_key_id@),
                encode_utf8(nonce@),
                encode_utf8(timestamp@),
            ),
    {
        params.insert_if_absent(utf8_bytes("AccessKeyId"), utf8_bytes(self.access_key_id.as_str()));
        params.insert_if_absent(utf8_bytes("SignatureMethod"), utf8_bytes("HMAC-SHA1"));
        params.insert_if_absent(utf8_bytes("SignatureVersion"), utf8_bytes("1.0"));
        params.insert(utf8_bytes("SignatureNonce"), utf8_bytes(nonce));
        params.insert(utf8_bytes("Timestamp"), utf8_bytes(timestamp));
    }

    /// Builds the full signed request URL
    /// `https://{endpoint}?{canonical query with signature}` for the given
    /// nonce and timestamp; fixing those two makes the result a pure
    /// function of its arguments, which is what makes signing testable.
    pub fn build_request_url(
        &self,
        endpoint: &str,
        params: ParamMap,
        nonce: &str,
        timestamp: &str,
    ) -> (r: Vec<u8>)
        requires
            params.wf(),
        ensures
            r@ == url_of(
                encode_utf8(endpoint@),
                signed_map_of(
                    params@,
                    encode_utf8(self.access_key_id@),
                    encode_utf8(self.access_key_secret@),
                    encode_utf8(nonce@),
                    encode_utf8(timestamp@),
                ),
            ),
    {
        let mut p = params;
        self.add_common_params(&mut p, nonce, timestamp);
        let signature = calculate_signature(&p, self.access_key_secret.as_str());
        p.insert(utf8_bytes("Signature"), signature);
        let mut query = p.canonical_string();
        let mut r: Vec<u8> = Vec::new();
        r.extend_from_slice("https://".as_bytes());
        r.extend_from_slice(endpoint.as_bytes());
        r.push(0x3f);  // ?
        r.append(&mut query);
        proof {
            assert(r@ =~= url_of(
                encode_utf8(endpoint@),
                signed_map_of(
                    params@,
                    encode_utf8(self.access_key_id@),
                    encode_utf8(self.access_key_secret@),
                    encode_utf8(nonce@),
                    encode_utf8(timestamp@),
                ),
            ));
        }
        r
    }

    /// Builds a signed request URL with a fresh random nonce and the
    /// current UTC timestamp: the URL is the one [`Self::build_request_url`]
    /// gives for some hyphenated 36-character nonce and some ISO-8601
    /// `Z`-suffixed timestamp.
    pub fn signed_request_url(&self, endpoint: &str, params: ParamMap) -> (r: Vec<u8>)
        requires
            params.wf(),
        ensures
            exists|nonce: Seq<char>, ts: Seq<char>|
                nonce_shape(nonce) && timestamp_shape(ts) && r@ == url_of(
                    encode_utf8(endpoint@),
                    #[trigger] signed_map_of(
                        params@,
                        encode_utf8(self.access_key_id@),
                        encode_utf8(self.access_key_secret@),
                        encode_utf8(nonce),
                        encode_utf8(ts),
                    ),
                ),
    {
        let nonce = fresh_nonce();
        let ts = utc_timestamp();
        let r = self.build_request_url(endpoint, params, nonce.as_str(), ts.as_str());
        proof {
            assert(r@ == url_of(
                encode_utf8(endpoint@),
                signed_map_of(
                    params@,
                    encode_utf8(self.access_key_id@),
                    encode_utf8(self.access_key_secret@),
                    encode_utf8(nonce@),
                    encode_utf8(ts@),
                ),
            ));
        }
        r
    }
}

/// An ASCII decimal digit.
pub open spec fn is_digit_char(c: char) -> bool {
    '0' <= c && c <= '9'
}

/// An ASCII lowercase hex digit.
pub open spec fn is_lower_hex_char(c: char) -> bool {
    ('0' <= c && c <= '9') || ('a' <= c && c <= 'f')
}

/// The canonical hyphenated rendering of a 128-bit token: 36 characters,
/// lowercase hex digits in five groups separated by `-`.
pub open spec fn nonce_shape(s: Seq<char>) -> bool {
    &&& s.len() == 36
    &&& forall|i: int|
        0 <= i < 36 ==> (if i == 8 || i == 13 || i == 18 || i == 23 {
            s[i] == '-'
        } else {
            is_lower_hex_char(#[trigger] s[i])
        })
}

/// ISO-8601 UTC at second precision with a literal `Z`:
/// `year-MM-DDTHH:MM:SSZ`, anchored at the tail because the year widens
/// past four digits (then with an explicit leading sign) when the clock
/// is set past the year 9999.
pub open spec fn timestamp_shape(s: Seq<char>) -> bool {
    let n = s.len() as int;
    &&& n >= 20
    &&& (n == 20 ==> is_digit_char(s[0]))
    &&& (n > 20 ==> s[0] == '+')
    &&& forall|i: int| 1 <= i < n - 16 ==> is_digit_char(#[trigger] s[i])
    &&& s[n - 16] == '-'
    &&& is_digit_char(s[n - 15]) && is_digit_char(s[n - 14])
    &&& s[n - 13] == '-'
    &&& is_digit_char(s[n - 12]) && is_digit_char(s[n - 11])
    &&& s[n - 10] == 'T'
    &&& is_digit_char(s[n - 9]) && is_digit_char(s[n - 8])
    &&& s[n - 7] == ':'
    &&& is_digit_char(s[n - 6]) && is_digit_char(s[n - 5])
    &&& s[n - 4] == ':'
    &&& is_digit_char(s[n - 3]) && is_digit_char(s[n - 2])
    &&& s[n - 1] == 'Z'
}

/// Relies on `uuid::Uuid::new_v4` and its hyphenated rendering: a random
/// single-use token.  The value is random and gets no name; its rendered
/// form is always the documented 36-character lowercase-hex shape.
#[verifier::external_body]
pub fn fresh_nonce() -> (r: String)
    ensures
        nonce_shape(r@),
{
    uuid::Uuid::new_v4().to_string()
}

/// Relies on `chrono::Utc::now` and its formatter, asked for the current
/// UTC time as ISO-8601 with second precision and a literal `Z` suffix.
/// The instant depends on the clock and gets no name; every rendering has
/// the documented shape: the month through `Z` tail is fixed, two-digit
/// zero-padded fields, and the year is four zero-padded digits (more,
/// behind an explicit sign, only for a clock set past the year 9999 —
/// `now` refuses one set before 1970 altogether).
#[verifier::external_body]
pub fn utc_timestamp() -> (r: String)
    ensures
        timestamp_shape(r@),
{
    chrono::Utc::now().format("%Y-%m-%dT%H:%M:%SZ").to_string()
}

/// A thin, non-owning handle for the identity service's operations,
/// borrowing the parent client.
pub struct STSClient<'a> {
    pub client: &'a AliyunClient,
}

impl<'a> STSClient<'a> {
    /// A handle borrowing the given client.
    pub fn new(client: &'a AliyunClient) -> (r: STSClient<'a>)
        ensures
            r.client == client,
    {
        STSClient { client }
    }
}

impl AliyunClient {
    /// An identity-service handle borrowing this client.
    pub fn sts<'a>(&'a self) -> (r: STSClient<'a>)
        ensures
            r.client == self,
    {
        STSClient { client: self }
    }
}

} // verus!
