use vstd::prelude::*;
use base64::Engine;
use hmac::Mac;
use vstd::string::StringSliceAdditionalSpecFns;

verus! {

/// The HMAC-SHA256 tag of `msg` under `key`.
pub uninterp spec fn hmac_sha256_of(key: Seq<u8>, msg: Seq<u8>) -> Seq<u8>;

/// The padded URL-safe base64 text of `b`.
pub uninterp spec fn base64_url_of(b: Seq<u8>) -> Seq<char>;

/// Relies on hmac's `Hmac::<Sha256>` (`new_from_slice`, `update`,
/// `finalize`): any key length is accepted, and the tag is 32 bytes that
/// depend on the key and the message alone.
#[verifier::external_body]
fn hmac_sha256(key: &[u8], msg: &[u8]) -> (r: Vec<u8>)
    ensures
        r@ == hmac_sha256_of(key@, msg@),
        r@.len() == 32,
{
    match hmac::Hmac::<sha2::Sha256>::new_from_slice(key) {
        Ok(mut mac) => {
            mac.update(msg);
            mac.finalize().into_bytes().to_vec()
        },
        Err(_) => Vec::new(),
    }
}

/// Relies on base64's `general_purpose::URL_SAFE.encode`: padded text of
/// four characters per started group of three bytes, depending on the bytes
/// alone (it panics only when that length overflows).
#[verifier::external_body]
fn base64_url(b: &[u8]) -> (r: String)
    requires
        b@.len() <= u32::MAX,
    ensures
        r@ == base64_url_of(b@),
        r@.len() == 4 * ((b@.len() + 2) / 3),
{
    base64::engine::general_purpose::URL_SAFE.encode(b)
}

/// The signed text of a request: timestamp, method, path and body, joined.
pub open spec fn request_message(timestamp: &str, method: &str, path: &str, body: &str) -> Seq<u8> {
    timestamp.spec_bytes() + method.spec_bytes() + path.spec_bytes() + body.spec_bytes()
}

/// Appends `b` to `v`.
fn push_all(v: &mut Vec<u8>, b: &[u8])
    ensures
        final(v)@ == old(v)@ + b@,
{
    let mut i: usize = 0;
    while i < b.len()
        invariant
            0 <= i <= b@.len(),
            v@ == old(v)@ + b@.subrange(0, i as int),
        decreases b@.len() - i,
    {
        v.push(b[i]);
        i = i + 1;
        proof {
            assert(b@.subrange(0, i as int) =~= b@.subrange(0, i - 1).push(b@[i - 1]));
        }
    }
    proof {
        assert(b@.subrange(0, b@.len() as int) =~= b@);
    }
}

/// The venue's request signature: base64 of the HMAC-SHA256 of the request
/// message under the decoded API secret.
pub fn sign_request(
    secret: &[u8],
    timestamp: &str,
    method: &str,
    path: &str,
    body: &str,
) -> (r: String)
    ensures
        r@ == base64_url_of(hmac_sha256_of(secret@, request_message(timestamp, method, path, body))),
        r@.len() == 44,
{
    let mut msg: Vec<u8> = Vec::new();
    push_all(&mut msg, timestamp.as_bytes());
    push_all(&mut msg, method.as_bytes());
    push_all(&mut msg, path.as_bytes());
    push_all(&mut msg, body.as_bytes());
    proof {
        assert(msg@ =~= request_message(timestamp, method, path, body));
    }
    let tag = hmac_sha256(secret, msg.as_slice());
    base64_url(tag.as_slice())
}

/// Names of the authentication headers, in the order they are sent.
pub open spec fn header_names() -> Seq<Seq<char>> {
    seq![
        "POLY_ADDRESS"@,
        "POLY_API_KEY"@,
        "POLY_PASSPHRASE"@,
        "POLY_TIMESTAMP"@,
        "POLY_SIGNATURE"@,
    ]
}

/// The authentication headers of a request, given its signature.
pub fn auth_headers(
    wallet: &str,
    api_key: &str,
    passphrase: &str,
    timestamp: &str,
    signature: &str,
) -> (r: Vec<(String, String)>)
    ensures
        r@.len() == 5,
        forall|i: int| 0 <= i < 5 ==> #[trigger] r@[i].0@ == header_names()[i],
        r@[0].1@ == wallet@,
        r@[1].1@ == api_key@,
        r@[2].1@ == passphrase@,
        r@[3].1@ == timestamp@,
        r@[4].1@ == signature@,
{
    let mut r: Vec<(String, String)> = Vec::new();
    r.push((String::from_str("POLY_ADDRESS"), wallet.to_owned()));
    r.push((String::from_str("POLY_API_KEY"), api_key.to_owned()));
    r.push((String::from_str("POLY_PASSPHRASE"), passphrase.to_owned()));
    r.push((String::from_str("POLY_TIMESTAMP"), timestamp.to_owned()));
    r.push((String::from_str("POLY_SIGNATURE"), signature.to_owned()));
    r
}

/// The signed authentication headers of a request (see `sign_request` and
/// `auth_headers`).
pub fn sign_hmac(
    wallet: &str,
    api_key: &str,
    passphrase: &str,
    secret: &[u8],
    timestamp: &str,
    method: &str,
    path: &str,
    body: &str,
) -> (r: Vec<(String, String)>)
    ensures
        r@.len() == 5,
        forall|i: int| 0 <= i < 5 ==> #[trigger] r@[i].0@ == header_names()[i],
        r@[0].1@ == wallet@,
        r@[1].1@ == api_key@,
        r@[2].1@ == passphrase@,
        r@[3].1@ == timestamp@,
        r@[4].1@ == base64_url_of(
            hmac_sha256_of(secret@, request_message(timestamp, method, path, body)),
        ),
{
    let signature = sign_request(secret, timestamp, method, path, body);
    auth_headers(wallet, api_key, passphrase, timestamp, signature.as_str())
}

} // verus!
