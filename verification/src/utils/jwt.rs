//! Reading the claims out of a token that the gateway has verified.
//!
//! A token is three sections joined by dots. The second one holds the
//! claims, written in base64 without padding. Nothing here checks a
//! signature: the token comes from the authorizer, which did.
use crate::models::user::User;
use crate::text::{segment, segment_of};
use base64::Engine;
use vstd::prelude::*;
use vstd::string::*;

verus! {

/// Reader of tokens.
pub struct Jwt;

/// The bytes that a text stands for in base64 with the standard alphabet and
/// without padding; `None` for a text that is not such an encoding.
pub uninterp spec fn base64_decoded(text: Seq<char>) -> Option<Seq<u8>>;

/// `Engine::decode` of the `base64` crate, on its engine `STANDARD_NO_PAD`:
/// the decoded bytes of `text`, or nothing where the engine reports an
/// error. The result depends on the text alone.
#[verifier::external_body]
fn decode_base64(text: &str) -> (bytes: Option<Vec<u8>>)
    ensures
        bytes.deep_view() == base64_decoded(text@),
{
    base64::engine::general_purpose::STANDARD_NO_PAD.decode(text).ok()
}

/// What is reported for a token that cannot be read.
pub open spec fn decode_error() -> Seq<char> {
    "Couldn't decode the token"@
}

/// The section of a token that holds its claims: what stands between the
/// first dot and the second, or the end. A token without a dot has none.
pub open spec fn claims_section(token: Seq<char>) -> Option<Seq<char>> {
    segment_of(token, '.', 1)
}

/// The bytes of the claims of a token, if it has a claims section and that
/// section decodes.
pub open spec fn claims_bytes(token: Seq<char>) -> Option<Seq<u8>> {
    match claims_section(token) {
        Some(section) => base64_decoded(section),
        None => None,
    }
}

/// Whether `result` is what reading gives when the claims parse to `parsed`.
pub open spec fn reads_as<T>(result: Result<T, String>, parsed: Option<T>) -> bool {
    match parsed {
        Some(value) => result == Ok::<T, String>(value),
        None => result is Err && result->Err_0@ == decode_error(),
    }
}

impl Jwt {
    /// The section of a token that holds its claims.
    pub fn payload_section(token: &str) -> (section: Option<String>)
        ensures
            section.deep_view() == claims_section(token@),
    {
        segment(token, '.', 1)
    }

    /// The claims of a token from the bytes its claims section decoded to,
    /// if it did: `parse` reads the bytes, and a token that did not decode
    /// or does not parse is reported unreadable.
    pub fn read_claims<T, F: Fn(&Vec<u8>) -> Option<T>>(decoded: Option<Vec<u8>>, parse: F) -> (result:
        Result<T, String>)
        requires
            forall|bytes: &Vec<u8>| call_requires(parse, (bytes,)),
        ensures
            match decoded {
                Some(bytes) => exists|parsed: Option<T>|
                    call_ensures(parse, (&bytes,), parsed) && reads_as(result, parsed),
                None => reads_as(result, None),
            },
    {
        let parsed = match &decoded {
            Some(bytes) => parse(bytes),
            None => None,
        };
        let ghost outcome = parsed;
        let result = match parsed {
            Some(value) => Ok(value),
            None => Err(String::from_str("Couldn't decode the token")),
        };
        assert(reads_as(result, outcome));
        result
    }

    /// The claims of a token, as `parse` reads them from the decoded bytes
    /// of its claims section.
    pub fn decode_payload<T, F: Fn(&Vec<u8>) -> Option<T>>(token: &str, parse: F) -> (result: Result<
        T,
        String,
    >)
        requires
            forall|bytes: &Vec<u8>| call_requires(parse, (bytes,)),
        ensures
            match claims_bytes(token@) {
                Some(payload) => exists|bytes: Vec<u8>, parsed: Option<T>|
                    bytes@ == payload && call_ensures(parse, (&bytes,), parsed) && reads_as(
                        result,
                        parsed,
                    ),
                None => reads_as(result, None),
            },
    {
        let decoded = match Self::payload_section(token) {
            Some(section) => decode_base64(section.as_str()),
            None => None,
        };
        Self::read_claims(decoded, parse)
    }

    /// The principal behind a request that passed the authorizer, from the
    /// token that the authorizer left as the principal id.
    pub fn get_user_from_payload<F: Fn(&Vec<u8>) -> Option<User>>(
        principal_id: Option<&str>,
        parse: F,
    ) -> (user: Option<User>)
        requires
            forall|bytes: &Vec<u8>| call_requires(parse, (bytes,)),
        ensures
            match principal_id {
                Some(token) => match claims_bytes(token@) {
                    Some(payload) => exists|bytes: Vec<u8>|
                        bytes@ == payload && call_ensures(parse, (&bytes,), user),
                    None => user is None,
                },
                None => user is None,
            },
    {
        match principal_id {
            Some(token) => match Self::decode_payload(token, parse) {
                Ok(user) => Some(user),
                Err(_) => None,
            },
            None => None,
        }
    }
}

} // verus!
