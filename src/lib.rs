//! A human-readable identifier that is safe to use as a component of a URI path.

pub mod decimal;
pub mod encode;
pub mod id;
pub mod order;
pub mod validate;
pub mod wire;

pub use id::{label, Id, Label};
pub use validate::{validate_id, ParseError};
pub use wire::{decode_keyed, decode_token, encode, DecodeError};
