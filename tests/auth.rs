use window_trader::auth::{auth_headers, sign_hmac, sign_request};

#[test]
fn signature_matches_reference_hmac() {
    let sig = sign_request(b"secret-key", "1700000000", "GET", "/orders", "");
    assert_eq!(sig, "FiR_8-FuoyTo5Tj6Wu3NxOZad4qYdR19WFI9WxOwZ-U=");
}

#[test]
fn signature_covers_the_body() {
    let sig = sign_request(b"secret-key", "1700000000", "POST", "/order", "{\"a\":1}");
    assert_eq!(sig, "y3JUrDozmq-URLlwR41ejyzrxKxLS_J7CEMuOnFagcY=");
    assert_eq!(sig.len(), 44);
}

#[test]
fn headers_in_order() {
    let h = auth_headers("0xabc", "key", "pass", "1700000000", "sig");
    let names: Vec<&str> = h.iter().map(|(k, _)| k.as_str()).collect();
    assert_eq!(
        names,
        vec!["POLY_ADDRESS", "POLY_API_KEY", "POLY_PASSPHRASE", "POLY_TIMESTAMP", "POLY_SIGNATURE"]
    );
    assert_eq!(h[0].1, "0xabc");
    assert_eq!(h[4].1, "sig");
}

#[test]
fn signed_headers_carry_signature() {
    let h = sign_hmac("0xabc", "key", "pass", b"secret-key", "1700000000", "GET", "/orders", "");
    assert_eq!(h[3].1, "1700000000");
    assert_eq!(h[4].1, "FiR_8-FuoyTo5Tj6Wu3NxOZad4qYdR19WFI9WxOwZ-U=");
}
