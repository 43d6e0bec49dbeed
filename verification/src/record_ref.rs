use crate::records::{header_of_bytes, HasRType, RecordHeader, RECORD_HEADER_SIZE};
use vstd::prelude::*;
use vstd::slice::slice_subrange;

verus! {

/// The record of type `T` standing at the front of `bytes`: defined when
/// the span is long enough for one `T` frame whose header announces `T`'s
/// tag and size, nothing otherwise.
pub open spec fn spec_get<T: HasRType>(bytes: Seq<u8>) -> Option<T> {
    if bytes.len() >= T::spec_size() {
        T::spec_parse(bytes.take(T::spec_size() as int))
    } else {
        None
    }
}

/// A borrowed, type-checked view over one frame's bytes. It never owns or
/// copies the underlying buffer; typed access decodes fields at their
/// fixed offsets and only after the type tag has been checked.
#[derive(Clone, Copy, Debug)]
pub struct RecordRef<'a> {
    bytes: &'a [u8],
}

impl<'a> RecordRef<'a> {
    /// The bytes this view stands over.
    pub closed spec fn view(&self) -> Seq<u8> {
        self.bytes@
    }

    #[verifier::type_invariant]
    closed spec fn type_inv(self) -> bool {
        self.bytes@.len() >= RECORD_HEADER_SIZE
    }

    /// Wraps a span that the framing layer has already validated to hold
    /// at least a whole header; no further validation happens here.
    pub fn new(bytes: &'a [u8]) -> (r: RecordRef<'a>)
        requires
            bytes@.len() >= RECORD_HEADER_SIZE,
        ensures
            r@ == bytes@,
    {
        RecordRef { bytes }
    }

    /// The span's byte length.
    pub fn len(&self) -> (r: usize)
        ensures
            r == self@.len(),
    {
        self.bytes.len()
    }

    /// The raw bytes of the frame.
    pub fn as_bytes(&self) -> (r: &'a [u8])
        ensures
            r@ == self@,
    {
        self.bytes
    }

    /// The common header at the front of the frame, decoded.
    pub fn header(&self) -> (r: RecordHeader)
        ensures
            r == header_of_bytes(self@),
            self@.len() >= RECORD_HEADER_SIZE,
    {
        proof {
            use_type_invariant(self);
        }
        RecordHeader::parse(self.bytes)
    }

    /// The payload reinterpreted as `T`, if the span's tag byte and frame
    /// size are `T`'s; nothing otherwise — no panic, no out-of-bounds
    /// read.
    pub fn get<T: HasRType>(&self) -> (r: Option<T>)
        ensures
            r == spec_get::<T>(self@),
    {
        proof {
            use_type_invariant(self);
            T::lemma_size();
        }
        let size: usize = T::frame_size();
        let n: usize = self.bytes.len();
        if n >= size {
            T::parse_frame(slice_subrange(self.bytes, 0, size))
        } else {
            None
        }
    }
}

} // verus!
