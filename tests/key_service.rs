use snailcrypt::key_service::{
    keys_url, lockdate_request_body, private_key_response, public_key_response,
};
use snailcrypt::{ConfigFactory, KeyResponse, Lockdate};

#[test]
fn request_names_the_lockdate() {
    let d = Lockdate::parse("2022-11-19T17:00:00+0100").unwrap();
    assert_eq!(lockdate_request_body(&d), "{\"lock_date\":\"2022-11-19T17:00:00+0100\"}");
    assert_eq!(keys_url(&ConfigFactory::new().create()), "https://api.snailcrypt.com/keys");
}

#[test]
fn private_key_replies() {
    let r = private_key_response(br#"{"public_key":"P"}"#);
    assert!(matches!(r, KeyResponse::NotYetReleased));
    let r = private_key_response(br#"{"public_key":"P","private_key":7}"#);
    assert!(matches!(r, KeyResponse::NotYetReleased));
    let r = private_key_response(br#"{"public_key":"P","private_key":"'-----KEY-----'"}"#);
    assert!(matches!(r, KeyResponse::Released(k) if k == "-----KEY-----"));
    let r = private_key_response(br#"{"code":"E1","message":"too early","private_key":"K"}"#);
    assert!(matches!(r, KeyResponse::LookupFailed(m) if m == "too early"));
    let r = private_key_response(br#"{"code":"E1"}"#);
    assert!(
        matches!(r, KeyResponse::LookupFailed(m) if m == "Error: unable to extract message from response")
    );
    // On this path only a string code is an error.
    let r = private_key_response(br#"{"code":404,"message":"x","private_key":"K"}"#);
    assert!(matches!(r, KeyResponse::Released(k) if k == "K"));
    let r = private_key_response(b"<html>");
    assert!(matches!(r, KeyResponse::LookupFailed(_)));
}

#[test]
fn public_key_replies() {
    let r = public_key_response(br#"{"public_key":"PUB"}"#);
    assert!(matches!(r, KeyResponse::Released(k) if k == "PUB"));
    let r = public_key_response(br#"{}"#);
    assert!(
        matches!(r, KeyResponse::LookupFailed(m) if m == "Error: unable to extract public key from response")
    );
    let r = public_key_response(br#"{"code":404,"message":"unknown"}"#);
    assert!(matches!(r, KeyResponse::LookupFailed(m) if m == "unknown"));
    // On this path only a numeric code is an error.
    let r = public_key_response(br#"{"code":"E1","public_key":"PUB"}"#);
    assert!(matches!(r, KeyResponse::Released(k) if k == "PUB"));
    let r = public_key_response(b"<html>");
    assert!(
        matches!(r, KeyResponse::LookupFailed(m) if m == "Error: the answer of the key-release service is not JSON")
    );
}
