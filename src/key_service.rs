//! Talking to the key-release service: the request for a lockdate's keys,
//! and what its JSON answer means.
//!
//! The service is asked with a POST to `<api url>/keys` whose body names the
//! lockdate. It answers with a JSON object holding `public_key` and, once the
//! lockdate has passed, `private_key`, or an error `code` and `message`.

use vstd::prelude::*;
use vstd::utf8::*;
use serde_json::Value;
use crate::client::KeyResponse;
use crate::config::{Config, DefaultConfig};
use crate::encoding::utf8_to_string;
use crate::lockdate::{Lockdate, lockdate_text};

verus! {

/// The quote character (`'`), which the service may wrap keys in.
pub const QUOTE: u8 = 39;

/// `b` without its quote bytes.
pub open spec fn without_quotes(b: Seq<u8>) -> Seq<u8>
    decreases b.len(),
{
    if b.len() == 0 {
        Seq::empty()
    } else if b.last() == QUOTE {
        without_quotes(b.drop_last())
    } else {
        without_quotes(b.drop_last()).push(b.last())
    }
}

/// A key as the service sent it, with its quotes removed.
pub open spec fn unquoted_key(k: Seq<char>) -> Option<Seq<char>> {
    let b = without_quotes(encode_utf8(k));
    if valid_utf8(b) {
        Some(decode_utf8(b))
    } else {
        None
    }
}

/// What serde_json finds under a key of the JSON object in an answer.
pub enum JsonMember {
    /// The answer is not JSON.
    NotJson,
    /// The answer has no member of that name, or is not an object.
    Missing,
    Text(String),
    Number,
    /// A member of another JSON type.
    Other,
}

/// A `JsonMember` as seen in specifications.
pub enum JsonMemberView {
    NotJson,
    Missing,
    Text(Seq<char>),
    Number,
    Other,
}

pub open spec fn member_view(m: JsonMember) -> JsonMemberView {
    match m {
        JsonMember::NotJson => JsonMemberView::NotJson,
        JsonMember::Missing => JsonMemberView::Missing,
        JsonMember::Text(s) => JsonMemberView::Text(s@),
        JsonMember::Number => JsonMemberView::Number,
        JsonMember::Other => JsonMemberView::Other,
    }
}

/// What serde_json reads under `key` from the JSON answer `body`.
pub uninterp spec fn json_member_of(body: Seq<u8>, key: Seq<char>) -> JsonMemberView;

/// The text under `key`, where it is a JSON string.
pub open spec fn member_text(body: Seq<u8>, key: Seq<char>) -> Option<Seq<char>> {
    match json_member_of(body, key) {
        JsonMemberView::Text(s) => Some(s),
        _ => None,
    }
}

/// The key that an answer holds, unquoted, as the service's released key.
pub open spec fn released_key(k: Seq<char>, r: KeyResponse) -> bool {
    match unquoted_key(k) {
        Some(u) => r matches KeyResponse::Released(s) && s@ == u,
        None => r matches KeyResponse::LookupFailed(m) && m@
            == "Error: the key is not UTF-8 text"@,
    }
}

/// An error answer: its message, or a fixed one where it has none.
pub open spec fn answer_error(body: Seq<u8>, r: KeyResponse) -> bool {
    r matches KeyResponse::LookupFailed(m) && match member_text(body, "message"@) {
        Some(s) => m@ == s,
        None => m@ == "Error: unable to extract message from response"@,
    }
}

/// The failure for an answer that is not JSON.
pub open spec fn not_json(r: KeyResponse) -> bool {
    r matches KeyResponse::LookupFailed(m) && m@
        == "Error: the answer of the key-release service is not JSON"@
}

/// What an answer to a request for a public key means: a numeric `code` is
/// an error; otherwise the `public_key` string, unquoted, is the key.
pub open spec fn public_answer(body: Seq<u8>, r: KeyResponse) -> bool {
    match json_member_of(body, "code"@) {
        JsonMemberView::NotJson => not_json(r),
        JsonMemberView::Number => answer_error(body, r),
        _ => match member_text(body, "public_key"@) {
            Some(k) => released_key(k, r),
            None => r matches KeyResponse::LookupFailed(m) && m@
                == "Error: unable to extract public key from response"@,
        },
    }
}

/// What an answer to a request for a private key means: a string `code` is
/// an error; otherwise the `private_key` string, unquoted, is the key, and
/// without one the key has not been released yet.
pub open spec fn private_answer(body: Seq<u8>, r: KeyResponse) -> bool {
    match json_member_of(body, "code"@) {
        JsonMemberView::NotJson => not_json(r),
        JsonMemberView::Text(_) => answer_error(body, r),
        _ => match member_text(body, "private_key"@) {
            Some(k) => released_key(k, r),
            None => r is NotYetReleased,
        },
    }
}

/// The request body for the keys of `lockdate`: `{"lock_date":"<lockdate>"}`.
pub fn lockdate_request_body(lockdate: &Lockdate) -> (r: String)
    requires
        lockdate.wf(),
    ensures
        r@ == "{\"lock_date\":\""@ + lockdate_text(*lockdate) + "\"}"@,
{
    let mut r = String::from_str("{\"lock_date\":\"");
    let t = lockdate.to_text();
    r.append(t.as_str());
    r.append("\"}");
    r
}

/// Where the keys are asked for: the API URL followed by `/keys`.
pub fn keys_url(config: &DefaultConfig) -> (r: String)
    ensures
        r@ == config.api_url_spec() + "/keys"@,
{
    let mut r = String::from_str(config.get_api_url());
    r.append("/keys");
    r
}

/// `k` without its quotes.
pub fn unquote_key(k: &str) -> (r: Option<String>)
    ensures
        r is Some <==> unquoted_key(k@) is Some,
        r matches Some(s) ==> unquoted_key(k@) == Some(s@),
{
    let b = k.as_bytes();
    let mut out: Vec<u8> = Vec::new();
    let mut i: usize = 0;
    while i < b.len()
        invariant
            i <= b@.len(),
            b@ == encode_utf8(k@),
            out@ == without_quotes(b@.take(i as int)),
        decreases b@.len() - i,
    {
        let c = b[i];
        proof {
            assert(b@.take(i + 1).drop_last() =~= b@.take(i as int));
            assert(b@.take(i + 1).last() == c);
        }
        if c != QUOTE {
            out.push(c);
        }
        i = i + 1;
    }
    assert(b@.take(b@.len() as int) =~= b@);
    utf8_to_string(out)
}

fn released(k: &String) -> (r: KeyResponse)
    ensures
        released_key(k@, r),
{
    match unquote_key(k.as_str()) {
        Some(s) => KeyResponse::Released(s),
        None => KeyResponse::LookupFailed(String::from_str("Error: the key is not UTF-8 text")),
    }
}

/// Relies on `serde_json::from_slice` into a `Value`, then `Value::get` with
/// `key`, told apart by the variant found: what it reads depends on the bytes
/// and the key alone.
#[verifier::external_body]
fn read_json_member(body: &[u8], key: &str) -> (r: JsonMember)
    ensures
        member_view(r) == json_member_of(body@, key@),
{
    match serde_json::from_slice::<Value>(body) {
        Err(_) => JsonMember::NotJson,
        Ok(v) => match v.get(key) {
            None => JsonMember::Missing,
            Some(Value::String(s)) => JsonMember::Text(s.clone()),
            Some(Value::Number(_)) => JsonMember::Number,
            Some(_) => JsonMember::Other,
        },
    }
}

fn text_member(body: &[u8], key: &str) -> (r: Option<String>)
    ensures
        r is None ==> member_text(body@, key@) is None,
        r matches Some(s) ==> member_text(body@, key@) == Some(s@),
{
    match read_json_member(body, key) {
        JsonMember::Text(s) => Some(s),
        _ => None,
    }
}

fn error_response(body: &[u8]) -> (r: KeyResponse)
    ensures
        answer_error(body@, r),
{
    match text_member(body, "message") {
        Some(m) => KeyResponse::LookupFailed(m),
        None => KeyResponse::LookupFailed(
            String::from_str("Error: unable to extract message from response"),
        ),
    }
}

/// What the service's answer to a request for a public key means.
pub fn public_key_response(body: &[u8]) -> (r: KeyResponse)
    ensures
        public_answer(body@, r),
{
    match read_json_member(body, "code") {
        JsonMember::NotJson => KeyResponse::LookupFailed(
            String::from_str("Error: the answer of the key-release service is not JSON"),
        ),
        JsonMember::Number => error_response(body),
        _ => match text_member(body, "public_key") {
            Some(k) => released(&k),
            None => KeyResponse::LookupFailed(
                String::from_str("Error: unable to extract public key from response"),
            ),
        },
    }
}

/// What the service's answer to a request for a private key means.
pub fn private_key_response(body: &[u8]) -> (r: KeyResponse)
    ensures
        private_answer(body@, r),
{
    match read_json_member(body, "code") {
        JsonMember::NotJson => KeyResponse::LookupFailed(
            String::from_str("Error: the answer of the key-release service is not JSON"),
        ),
        JsonMember::Text(_) => error_response(body),
        _ => match text_member(body, "private_key") {
            Some(k) => released(&k),
            None => KeyResponse::NotYetReleased,
        },
    }
}

} // verus!
