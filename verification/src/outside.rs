//! The points where the library touches code it does not verify: a handful of
//! std functions that vstd gives no specification, and the outside crates the
//! library relies on (chrono, uuid, base64, validator, serde_json). Each item
//! here carries the contract the rest of the library is proved against; its
//! doc comment names the outside function relied on.

use vstd::prelude::*;

verus! {

/// Relies on str's PartialEq: two string slices are equal exactly when their
/// character sequences are equal.
#[verifier::external_body]
pub(crate) fn str_eq(a: &str, b: &str) -> (r: bool)
    ensures
        r == (a@ == b@),
{
    a == b
}

/// Relies on chrono's Utc::now / DateTime::timestamp: the current wall-clock
/// time as Unix seconds. The clock can say anything, so nothing is promised
/// of the result.
#[verifier::external_body]
pub(crate) fn current_timestamp() -> i64 {
    chrono::Utc::now().timestamp()
}

/// Relies on uuid's Uuid::new_v4 and its hyphenated Display form: a freshly
/// drawn random order id. The value is random, so nothing is promised of it
/// beyond its shape: "order-" followed by the 36-character hyphenated UUID.
#[verifier::external_body]
pub(crate) fn fresh_order_id() -> (r: String)
    ensures
        r@.len() == 42,
{
    format!("order-{}", uuid::Uuid::new_v4())
}

/// What base64's standard-alphabet encoding returns for a byte sequence.
pub uninterp spec fn base64_of(bytes: Seq<u8>) -> Seq<char>;

/// Relies on base64::encode (standard alphabet, with padding): the encoding
/// depends on the input bytes alone.
#[verifier::external_body]
pub(crate) fn base64_encode(bytes: &[u8]) -> (r: String)
    ensures
        r@ == base64_of(bytes@),
{
    base64::encode(bytes)
}

/// What base64's standard-alphabet decoding returns for a string: the
/// decoded bytes, or nothing when the string is not valid base64. The result
/// depends on the input characters alone.
pub uninterp spec fn base64_decoded(s: Seq<char>) -> Option<Seq<u8>>;

/// Relies on base64::decode (standard alphabet): succeeds exactly on valid
/// base64, and the decoded bytes depend on the input alone.
#[verifier::external_body]
pub(crate) fn base64_decode(s: &str) -> (r: Option<Vec<u8>>)
    ensures
        match r {
            Some(v) => base64_decoded(s@) == Some(v@),
            None => base64_decoded(s@) is None,
        },
{
    base64::decode(s).ok()
}

/// What String::from_utf8 returns for a byte sequence: the decoded character
/// sequence, or nothing when the bytes are not valid UTF-8. The result
/// depends on the input bytes alone.
pub uninterp spec fn utf8_decoded(bytes: Seq<u8>) -> Option<Seq<char>>;

/// Relies on String::from_utf8: succeeds exactly on valid UTF-8, and the
/// decoded text depends on the input alone.
#[verifier::external_body]
pub(crate) fn utf8_to_string(bytes: Vec<u8>) -> (r: Option<String>)
    ensures
        match r {
            Some(v) => utf8_decoded(bytes@) == Some(v@),
            None => utf8_decoded(bytes@) is None,
        },
{
    String::from_utf8(bytes).ok()
}

/// serde_json's Value, carried through the library as an opaque payload.
#[verifier::external_type_specification]
#[verifier::external_body]
pub struct ExValue(serde_json::Value);

/// validator's ValidationError, the error shape the field-level validation
/// helpers hand to their callers.
#[verifier::external_type_specification]
#[verifier::external_body]
pub struct ExValidationError(validator::ValidationError);

/// Relies on validator::ValidationError::new and the public `message` field:
/// builds an error value with the given code and message. The value is
/// opaque, so nothing more is promised than that it is returned.
#[verifier::external_body]
pub(crate) fn new_validation_error(code: &'static str, message: String) -> (r: validator::ValidationError)
{
    let mut error = validator::ValidationError::new(code);
    error.message = Some(message.into());
    error
}

} // verus!
