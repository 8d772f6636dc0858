//! The signer: signature base string, HMAC-SHA1, base64, and the one-call
//! signing pipeline.

use vstd::prelude::*;
use vstd::string::StringExecFns;
use vstd::utf8::encode_utf8;
use crate::config::Credentials;
use crate::encode::{pe_str, percent_encode};
use crate::params::{
    authorization_header, collect_params, header_spec, param_string, param_string_spec,
    pair_views, protocol_params, signing_key, signing_key_spec,
};

verus! {

/// What `hmacsha1::hmac_sha1` returns for a key and a message.
pub uninterp spec fn hmac_sha1_of(key: Seq<u8>, message: Seq<u8>) -> Seq<u8>;

/// Relies on `hmacsha1::hmac_sha1`: the HMAC-SHA1 digest of the message
/// under the key, a function of its two arguments alone, always 20 bytes.
#[verifier::external_body]
fn hmac_sha1(key: &[u8], message: &[u8]) -> (r: Vec<u8>)
    ensures
        r@ == hmac_sha1_of(key@, message@),
        r@.len() == 20,
{
    hmacsha1::hmac_sha1(key, message).to_vec()
}

/// What `base64::encode` returns for a byte string.
pub uninterp spec fn base64_of(bytes: Seq<u8>) -> Seq<char>;

/// Relies on `base64::encode`: the standard-alphabet, padded base64 form of
/// the bytes, a function of them alone; four characters for every three
/// bytes, rounded up.
#[verifier::external_body]
fn base64_encode(bytes: &[u8]) -> (r: String)
    ensures
        r@ == base64_of(bytes@),
        r@.len() == 4 * ((bytes@.len() + 2) / 3),
{
    base64::encode(bytes)
}

/// The signature base string: method, URL and parameter string, each
/// percent-encoded, joined with `&`. The method is always `POST` here.
pub open spec fn base_string_spec(url: Seq<char>, params: Seq<char>) -> Seq<char> {
    pe_str("POST"@) + seq!['&'] + pe_str(url) + seq!['&'] + pe_str(params)
}

/// Build the signature base string.
pub fn build_base_string(url: &str, params: &str) -> (r: String)
    ensures
        r@ == base_string_spec(url@, params@),
{
    let mut r = percent_encode("POST");
    r.append("&");
    let u = percent_encode(url);
    r.append(u.as_str());
    r.append("&");
    let p = percent_encode(params);
    r.append(p.as_str());
    proof {
        reveal_strlit("&");
        assert("&"@ =~= seq!['&']);
    }
    r
}

/// The `oauth_signature` value: HMAC-SHA1 of the base string under the key,
/// base64-encoded, then percent-encoded.
pub open spec fn signature_spec(key: Seq<char>, url: Seq<char>, params: Seq<char>) -> Seq<char> {
    pe_str(
        base64_of(
            hmac_sha1_of(encode_utf8(key), encode_utf8(base_string_spec(url, params))),
        ),
    )
}

/// Compute the `oauth_signature` value for a signing key, a target URL and a
/// canonical parameter string.
pub fn gen_signature(key: String, url: &str, params: &str) -> (r: String)
    ensures
        r@ == signature_spec(key@, url@, params@),
{
    let base = build_base_string(url, params);
    let digest = hmac_sha1(key.as_str().as_bytes(), base.as_str().as_bytes());
    let b64 = base64_encode(digest.as_slice());
    percent_encode(b64.as_str())
}

/// The complete `Authorization` value for one request, as a function of the
/// credentials, the status, the timestamp, the nonce and the target URL:
/// with all of them fixed, the header (and with it the base string and the
/// signature) is exactly reproducible.
pub open spec fn signed_header_spec(
    ck: Seq<char>,
    cs: Seq<char>,
    at: Seq<char>,
    ats: Seq<char>,
    status: Seq<char>,
    ts: Seq<char>,
    nonce: Seq<char>,
    url: Seq<char>,
) -> Seq<char> {
    let pairs = protocol_params(ck, at, ts, nonce);
    header_spec(
        pairs,
        signature_spec(signing_key_spec(cs, ats), url, param_string_spec(pairs, status)),
    )
}

/// Run the whole pipeline: collect the parameters, build the canonical
/// parameter string, derive the key, sign, and assemble the header.
pub fn sign_request(creds: &Credentials, status: &str, timestamp: &str, nonce: &str, url: &str) -> (r:
    String)
    ensures
        r@ == signed_header_spec(
            creds.consumer_key@,
            creds.consumer_secret@,
            creds.access_token@,
            creds.access_token_secret@,
            status@,
            timestamp@,
            nonce@,
            url@,
        ),
{
    let params = collect_params(
        creds.consumer_key.as_str(),
        creds.access_token.as_str(),
        timestamp,
        nonce,
    );
    let pstr = param_string(&params, status);
    let key = signing_key(
        creds.consumer_secret.as_str(),
        creds.access_token_secret.as_str(),
    );
    let signature = gen_signature(key, url, pstr.as_str());
    authorization_header(&params, signature.as_str())
}

} // verus!
