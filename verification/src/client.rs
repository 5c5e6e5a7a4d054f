use vstd::prelude::*;
use vstd::utf8::encode_utf8;
use reqwest::header::{HeaderValue, InvalidHeaderValue};

verus! {

#[verifier::external_type_specification]
#[verifier::external_body]
pub struct ExHeaderValue(reqwest::header::HeaderValue);

#[verifier::external_type_specification]
#[verifier::external_body]
pub struct ExInvalidHeaderValue(reqwest::header::InvalidHeaderValue);

/// A byte that a header value may hold: any but the control characters,
/// where horizontal tab is allowed.
pub open spec fn is_header_byte(b: u8) -> bool {
    (b >= 32 && b != 127) || b == 9
}

pub open spec fn all_header_bytes(bytes: Seq<u8>) -> bool {
    forall|i: int| 0 <= i < bytes.len() ==> is_header_byte(#[trigger] bytes[i])
}

/// The bytes a header value holds (what `HeaderValue::as_bytes` gives).
pub uninterp spec fn header_value_bytes(value: HeaderValue) -> Seq<u8>;

/// Calls `HeaderValue::from_str`. Claimed, as its source shows: it accepts
/// the text exactly when every byte of the text's UTF-8 encoding is a
/// header byte, and the value it makes holds those bytes.
#[verifier::external_body]
fn header_value_from_str(text: &str) -> (r: Result<HeaderValue, InvalidHeaderValue>)
    ensures
        r is Ok <==> all_header_bytes(encode_utf8(text@)),
        r matches Ok(v) ==> header_value_bytes(v) == encode_utf8(text@),
{
    HeaderValue::from_str(text)
}

/// The credentials that go with each API request: `Bearer ` and the
/// access token.
pub open spec fn bearer(access_token: Seq<char>) -> Seq<char> {
    "Bearer "@ + access_token
}

/// The credentials are `Bearer ` and then the token exactly as given:
/// seven characters longer, starting with `Bearer `, and the rest is the
/// token, character for character.
pub proof fn lemma_bearer_keeps_token(access_token: Seq<char>)
    ensures
        bearer(access_token).len() == access_token.len() + 7,
        bearer(access_token).subrange(0, 7) == seq!['B', 'e', 'a', 'r', 'e', 'r', ' '],
        bearer(access_token).subrange(7, bearer(access_token).len() as int) == access_token,
{
    reveal_strlit("Bearer ");
    assert(bearer(access_token).subrange(0, 7) =~= seq!['B', 'e', 'a', 'r', 'e', 'r', ' ']);
    assert(bearer(access_token).subrange(7, bearer(access_token).len() as int) =~= access_token);
}

/// `Bearer ` followed by the access token.
pub fn bearer_token(access_token: &str) -> (r: String)
    ensures
        r@ == bearer(access_token@),
{
    let mut token = "Bearer ".to_owned();
    token.append(access_token);
    token
}

/// The value of the `Authorization` header for an access token: the bytes
/// of `Bearer ` and the token. It is refused exactly when the token holds a
/// control character other than horizontal tab.
pub fn authorization_value(access_token: &str) -> (r: Result<HeaderValue, InvalidHeaderValue>)
    ensures
        r is Ok <==> all_header_bytes(encode_utf8(bearer(access_token@))),
        r matches Ok(v) ==> header_value_bytes(v) == encode_utf8(bearer(access_token@)),
{
    let token = bearer_token(access_token);
    header_value_from_str(token.as_str())
}

} // verus!
