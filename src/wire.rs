//! Decoding identifiers from wire tokens and encoding them back.
//!
//! An identifier travels as a bare text token. It may also arrive as a keyed
//! structure with one entry, whose key is the identifier's text and whose value
//! is empty: a non-empty value marks an operation reference, which shares that
//! shape and is no identifier.

use vstd::prelude::*;

use crate::id::Id;
use crate::validate::{is_valid_id, rejection, ParseError};

verus! {

/// Why a wire token could not be decoded into an identifier.
#[derive(Debug)]
pub enum DecodeError {
    /// The text breaks a rule of an identifier.
    Invalid(ParseError),
    /// A keyed structure with a non-empty value: an operation reference.
    OperationReference,
}

impl DecodeError {
    /// A message that says what went wrong.
    pub fn to_string(&self) -> (r: String)
        ensures
            self matches DecodeError::Invalid(e) ==> r@ == e@,
            self is OperationReference ==> r@ == "expected an identifier, found an operation reference"@,
    {
        match self {
            DecodeError::Invalid(e) => e.to_string(),
            DecodeError::OperationReference => String::from_str(
                "expected an identifier, found an operation reference",
            ),
        }
    }
}

/// Decodes a bare text token, checking it against the rules.
pub fn decode_token(token: &str) -> (r: Result<Id, DecodeError>)
    ensures
        r is Ok <==> is_valid_id(token@),
        r matches Ok(id) ==> id@ == token@,
        r matches Err(DecodeError::Invalid(e)) ==> rejection(token@) == Some(e@),
        !(r matches Err(DecodeError::OperationReference)),
{
    match Id::parse(token) {
        Ok(id) => Ok(id),
        Err(e) => Err(DecodeError::Invalid(e)),
    }
}

/// Decodes a keyed structure of one entry: `key` is the identifier's text, and
/// `value` must be empty.
pub fn decode_keyed(key: &str, value: &[u8]) -> (r: Result<Id, DecodeError>)
    ensures
        value@.len() > 0 ==> r matches Err(DecodeError::OperationReference),
        value@.len() == 0 ==> (r is Ok <==> is_valid_id(key@)),
        value@.len() == 0 ==> !(r matches Err(DecodeError::OperationReference)),
        r matches Ok(id) ==> id@ == key@,
        r matches Err(DecodeError::Invalid(e)) ==> rejection(key@) == Some(e@),
{
    if value.len() > 0 {
        return Err(DecodeError::OperationReference);
    }
    decode_token(key)
}

/// The token that `id` travels as: its text.
pub fn encode(id: &Id) -> (r: String)
    ensures
        r@ == id@,
{
    id.to_string()
}

} // verus!
