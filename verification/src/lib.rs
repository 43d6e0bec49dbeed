use vstd::prelude::*;

pub mod decode;
pub mod decode_iterator;
pub mod encode;
pub mod enums;
pub mod error;
pub mod metadata;
pub mod record_enum;
pub mod record_ref;
pub mod records;
pub mod source;
pub mod symbols;

verus! {

/// Byte size of the fixed leading block that carries the serialized metadata,
/// zero-padded on the right.
pub const METADATA_LENGTH: usize = 100;

/// Fixed-point scale used for all price fields: one unit is 1e-9.
pub const PRICE_SCALE: i64 = 1_000_000_000;

} // verus!
