use vstd::prelude::*;

verus! {

/// The part of a container an I/O failure was detected in.
#[derive(Clone, Copy, Debug, PartialEq, Eq, Structural)]
pub enum Phase {
    /// Reading or writing the fixed-size leading metadata block.
    Metadata,
    /// Reading or writing the framed record stream.
    Record,
}

/// Everything that can go wrong while encoding or decoding a container.
///
/// End of stream is not an error: the decoders report it through `Option`.
#[derive(Clone, Copy, Debug, PartialEq, Eq, Structural)]
pub enum Error {
    /// The underlying byte source or sink failed; the payload names the
    /// phase in which the failure was seen.
    Io(Phase),
    /// A frame's length byte maps to fewer bytes than a record header
    /// occupies; the payload is the offending length byte.
    MalformedFrame(u8),
    /// A frame carries a type tag that does not map to a supported record
    /// variant (or its size does not match that variant); the payload is
    /// the offending type tag byte.
    UnsupportedRType(u8),
    /// A value (an enum byte or name) does not identify any variant.
    Conversion,
    /// Serialized metadata does not fit inside the fixed leading block;
    /// the payload is the serialized byte length.
    MetadataOverflow(usize),
}

} // verus!
