use crate::decode_iterator::DecoderIterator;
use crate::error::{Error, Phase};
use crate::metadata::{parse_metadata, Metadata};
use crate::record_enum::{parse_rec, RecordEnum};
use crate::record_ref::RecordRef;
use crate::records::{LENGTH_MULTIPLIER, RECORD_HEADER_SIZE};
use crate::source::{ByteSource, SourceStatus};
use crate::METADATA_LENGTH;
use vstd::prelude::*;

verus! {

/// How a record stream ends: cleanly at (or truncated before) a frame
/// boundary, on a frame too short for a header, or on a frame whose type
/// tag maps to no supported variant.
#[derive(Clone, Copy, Debug, PartialEq, Eq, Structural)]
pub enum Terminal {
    Clean,
    Malformed(u8),
    Unsupported(u8),
}

/// The byte size the head frame's length byte announces.
pub open spec fn head_size(bytes: Seq<u8>) -> int
    recommends
        bytes.len() > 0,
{
    bytes[0] as int * LENGTH_MULTIPLIER as int
}

/// True when the head frame's announced size cannot hold a header.
pub open spec fn head_malformed(bytes: Seq<u8>) -> bool {
    bytes.len() > 0 && head_size(bytes) < RECORD_HEADER_SIZE
}

/// True when the stream ends mid-frame: a sound length byte, but fewer
/// bytes left than one frame.
pub open spec fn head_truncated(bytes: Seq<u8>) -> bool {
    bytes.len() > 0 && head_size(bytes) >= RECORD_HEADER_SIZE && bytes.len() < head_size(bytes)
}

/// True when a whole head frame is available.
pub open spec fn head_available(bytes: Seq<u8>) -> bool {
    bytes.len() > 0 && head_size(bytes) >= RECORD_HEADER_SIZE && bytes.len() >= head_size(bytes)
}

/// The records a byte stream holds, in order, with its terminal: frames
/// are split off by their length byte and decoded until the stream ends
/// (an empty rest, or a trailing partial frame, both end cleanly) or a
/// frame is malformed or unsupported.
pub open spec fn parse_stream(bytes: Seq<u8>) -> (Seq<RecordEnum>, Terminal)
    decreases bytes.len(),
{
    if bytes.len() == 0 {
        (Seq::empty(), Terminal::Clean)
    } else if head_malformed(bytes) {
        (Seq::empty(), Terminal::Malformed(bytes[0]))
    } else if bytes.len() < head_size(bytes) {
        (Seq::empty(), Terminal::Clean)
    } else {
        match parse_rec(bytes.take(head_size(bytes))) {
            Some(rec) => {
                let rest = parse_stream(bytes.skip(head_size(bytes)));
                (seq![rec] + rest.0, rest.1)
            },
            None => (Seq::empty(), Terminal::Unsupported(bytes[1])),
        }
    }
}

/// The byte size a frame's length byte announces, or the malformed-frame
/// error naming that byte when the size could not hold even a header.
pub fn frame_size(length_byte: u8) -> (r: Result<usize, Error>)
    ensures
        r == (if length_byte as int * LENGTH_MULTIPLIER as int >= RECORD_HEADER_SIZE {
            Ok::<usize, Error>((length_byte * LENGTH_MULTIPLIER as u8) as usize)
        } else {
            Err::<usize, Error>(Error::MalformedFrame(length_byte))
        }),
        r matches Ok(s) ==> s == length_byte as int * LENGTH_MULTIPLIER as int && s
            >= RECORD_HEADER_SIZE,
{
    let size: usize = length_byte as usize * LENGTH_MULTIPLIER;
    if size < RECORD_HEADER_SIZE {
        Err(Error::MalformedFrame(length_byte))
    } else {
        proof {
            assert(size == (length_byte * LENGTH_MULTIPLIER as u8) as usize) by (bit_vector)
                requires
                    size == length_byte as usize * 4,
            ;
        }
        Ok(size)
    }
}

/// Streaming frame decoder over a byte source, with a reusable scratch
/// buffer so that no allocation happens per frame.
pub struct RecordDecoder<R: ByteSource> {
    reader: R,
    read_buffer: Vec<u8>,
}

impl<R: ByteSource> RecordDecoder<R> {
    /// The bytes the underlying source has still to deliver.
    pub closed spec fn remaining(&self) -> Seq<u8> {
        self.reader.remaining()
    }

    /// True when the underlying source never fails.
    pub closed spec fn reliable(&self) -> bool {
        self.reader.reliable()
    }

    /// Creates a decoder that will decode from `reader`.
    pub fn new(reader: R) -> (r: RecordDecoder<R>)
        ensures
            r.remaining() == reader.remaining(),
            r.reliable() == reader.reliable(),
    {
        RecordDecoder { reader, read_buffer: Vec::new() }
    }

    /// Hands the source back.
    pub fn into_inner(self) -> (r: R)
        ensures
            r.remaining() == self.remaining(),
            r.reliable() == self.reliable(),
    {
        self.reader
    }

    /// Reads the next frame and wraps it as a borrowed view. End of
    /// stream before the length byte, or mid-frame, is a clean end
    /// (`None`); a length byte too small for a header is an error naming
    /// that byte.
    pub fn decode_ref(&mut self) -> (r: Result<Option<RecordRef<'_>>, Error>)
        ensures
            final(self).reliable() == old(self).reliable(),
            ({
                let rem = old(self).remaining();
                match r {
                    Ok(Some(rr)) => {
                        &&& head_available(rem)
                        &&& rr@ == rem.take(head_size(rem))
                        &&& final(self).remaining() == rem.skip(head_size(rem))
                    },
                    Ok(None) => (rem.len() == 0 && final(self).remaining() == rem) || (
                    head_truncated(rem) && final(self).remaining() == rem.skip(1)),
                    Err(Error::MalformedFrame(lb)) => {
                        &&& head_malformed(rem)
                        &&& lb == rem[0]
                        &&& final(self).remaining() == rem.skip(1)
                    },
                    Err(Error::Io(p)) => p == Phase::Record && !old(self).reliable(),
                    Err(_) => false,
                }
            }),
    {
        let ghost rem = self.reader.remaining();
        self.read_buffer.clear();
        match self.reader.read_exact(1, &mut self.read_buffer) {
            SourceStatus::Ended => {
                return Ok(None);
            },
            SourceStatus::Failed => {
                return Err(Error::Io(Phase::Record));
            },
            SourceStatus::Filled => {},
        }
        let lb: u8 = self.read_buffer[0];
        proof {
            assert(lb == rem[0]);
        }
        let size: usize = match frame_size(lb) {
            Ok(s) => s,
            Err(e) => {
                return Err(e);
            },
        };
        match self.reader.read_exact(size - 1, &mut self.read_buffer) {
            SourceStatus::Ended => {
                proof {
                    assert(head_truncated(rem));
                }
                Ok(None)
            },
            SourceStatus::Failed => Err(Error::Io(Phase::Record)),
            SourceStatus::Filled => {
                proof {
                    assert(self.read_buffer@ =~= rem.take(head_size(rem)));
                    assert(self.reader.remaining() =~= rem.skip(head_size(rem)));
                }
                Ok(Some(RecordRef::new(self.read_buffer.as_slice())))
            },
        }
    }

    /// Repeatedly decodes frames, converting each view into an owned
    /// record, in stream order; the whole batch aborts on the first
    /// malformed or unsupported frame, whose error names the bad byte.
    pub fn decode_to_owned(&mut self) -> (r: Result<Vec<RecordEnum>, Error>)
        ensures
            final(self).reliable() == old(self).reliable(),
            ({
                let parsed = parse_stream(old(self).remaining());
                match r {
                    Ok(v) => {
                        &&& v@ == parsed.0
                        &&& parsed.1 == Terminal::Clean
                        &&& forall|i: int| 0 <= i < v@.len() ==> (#[trigger] v@[i]).wf()
                    },
                    Err(Error::Io(p)) => p == Phase::Record && !old(self).reliable(),
                    Err(Error::MalformedFrame(lb)) => parsed.1 == Terminal::Malformed(lb),
                    Err(Error::UnsupportedRType(b)) => parsed.1 == Terminal::Unsupported(b),
                    Err(_) => false,
                }
            }),
    {
        let ghost orig = self.remaining();
        let mut records: Vec<RecordEnum> = Vec::new();
        loop
            invariant
                orig == old(self).remaining(),
                self.reliable() == old(self).reliable(),
                parse_stream(orig).0 == records@ + parse_stream(self.remaining()).0,
                parse_stream(orig).1 == parse_stream(self.remaining()).1,
                forall|i: int| 0 <= i < records@.len() ==> (#[trigger] records@[i]).wf(),
            decreases self.remaining().len(),
        {
            let ghost rem = self.remaining();
            let step = self.decode_ref();
            match step {
                Ok(None) => {
                    proof {
                        assert(parse_stream(rem).0 =~= Seq::<RecordEnum>::empty());
                        assert(records@ + parse_stream(rem).0 =~= records@);
                    }
                    return Ok(records);
                },
                Ok(Some(rec_ref)) => {
                    match RecordEnum::from_ref(rec_ref) {
                        Ok(rec) => {
                            let ghost before = records@;
                            records.push(rec);
                            proof {
                                let rest = parse_stream(rem.skip(head_size(rem)));
                                assert(parse_stream(rem).0 == seq![rec] + rest.0);
                                assert(records@ + rest.0 =~= before + (seq![rec] + rest.0));
                            }
                        },
                        Err(e) => {
                            proof {
                                assert(rem.take(head_size(rem))[1] == rem[1]);
                            }
                            return Err(e);
                        },
                    }
                },
                Err(e) => {
                    return Err(e);
                },
            }
        }
    }

    /// Turns this decoder into a lazy, single-pass record sequence.
    pub fn decode_iterator(self) -> (r: DecoderIterator<R>)
        ensures
            r.remaining() == self.remaining(),
            r.reliable() == self.reliable(),
            !r.done(),
    {
        DecoderIterator::new(self.into_inner())
    }
}

/// True when the stream opens with a well-formed metadata block.
pub open spec fn meta_present(bytes: Seq<u8>) -> bool {
    bytes.len() >= METADATA_LENGTH && parse_metadata(bytes.take(METADATA_LENGTH as int)) is Some
}

/// Decodes the optional fixed-size metadata block at the front of a
/// stream, consuming it only when it is present and well formed.
pub struct MetadataDecoder<R: ByteSource> {
    reader: R,
    scratch: Vec<u8>,
}

impl<R: ByteSource> MetadataDecoder<R> {
    /// The bytes the underlying source has still to deliver.
    pub closed spec fn remaining(&self) -> Seq<u8> {
        self.reader.remaining()
    }

    /// True when the underlying source never fails.
    pub closed spec fn reliable(&self) -> bool {
        self.reader.reliable()
    }

    pub fn new(reader: R) -> (r: MetadataDecoder<R>)
        ensures
            r.remaining() == reader.remaining(),
            r.reliable() == reader.reliable(),
    {
        MetadataDecoder { reader, scratch: Vec::new() }
    }

    /// Hands the source back.
    pub fn into_inner(self) -> (r: R)
        ensures
            r.remaining() == self.remaining(),
            r.reliable() == self.reliable(),
    {
        self.reader
    }

    /// Peeks one block's worth of bytes without consuming them; when
    /// they deserialize as metadata, consumes exactly the block and
    /// returns the metadata. A short stream, or a block that is not
    /// metadata, is "no metadata present", not an error, and consumes
    /// nothing.
    pub fn decode(&mut self) -> (r: Result<Option<Metadata>, Error>)
        ensures
            final(self).reliable() == old(self).reliable(),
            ({
                let rem = old(self).remaining();
                match r {
                    Ok(Some(m)) => {
                        &&& meta_present(rem)
                        &&& parse_metadata(rem.take(METADATA_LENGTH as int)) == Some(m@)
                        &&& final(self).remaining() == rem.skip(METADATA_LENGTH as int)
                    },
                    Ok(None) => !meta_present(rem) && final(self).remaining() == rem,
                    Err(e) => e == Error::Io(Phase::Metadata) && !old(self).reliable(),
                }
            }),
    {
        let ghost rem = self.reader.remaining();
        self.scratch.clear();
        match self.reader.peek_exact(METADATA_LENGTH, &mut self.scratch) {
            SourceStatus::Ended => {
                return Ok(None);
            },
            SourceStatus::Failed => {
                return Err(Error::Io(Phase::Metadata));
            },
            SourceStatus::Filled => {},
        }
        match Metadata::deserialize(self.scratch.as_slice()) {
            Ok(m) => {
                self.scratch.clear();
                match self.reader.read_exact(METADATA_LENGTH, &mut self.scratch) {
                    SourceStatus::Filled => Ok(Some(m)),
                    SourceStatus::Ended => {
                        proof {
                            assert(false);
                        }
                        Err(Error::Io(Phase::Metadata))
                    },
                    SourceStatus::Failed => Err(Error::Io(Phase::Metadata)),
                }
            },
            Err(_) => Ok(None),
        }
    }
}

/// The combined decoder: reads the optional metadata block, then decodes
/// the framed records that follow.
pub struct Decoder<R: ByteSource> {
    /// The metadata found at the front of the stream, if any.
    pub metadata: Option<Metadata>,
    decoder: RecordDecoder<R>,
}

impl<R: ByteSource> Decoder<R> {
    /// The metadata found at the front of the stream, if any.
    pub closed spec fn spec_metadata(&self) -> Option<Metadata> {
        self.metadata
    }

    /// The bytes the underlying source has still to deliver.
    pub closed spec fn remaining(&self) -> Seq<u8> {
        self.decoder.remaining()
    }

    /// True when the underlying source never fails.
    pub closed spec fn reliable(&self) -> bool {
        self.decoder.reliable()
    }

    /// Reads the optional metadata block, then positions a record
    /// decoder over the rest of the stream.
    pub fn new(reader: R) -> (r: Result<Decoder<R>, Error>)
        ensures
            ({
                let rem = reader.remaining();
                match r {
                    Ok(d) => {
                        &&& d.reliable() == reader.reliable()
                        &&& if meta_present(rem) {
                            &&& (match d.spec_metadata() {
                                Some(m) => parse_metadata(rem.take(METADATA_LENGTH as int))
                                    == Some(m@),
                                None => false,
                            })
                            &&& d.remaining() == rem.skip(METADATA_LENGTH as int)
                        } else {
                            &&& d.spec_metadata() is None
                            &&& d.remaining() == rem
                        }
                    },
                    Err(e) => e == Error::Io(Phase::Metadata) && !reader.reliable(),
                }
            }),
    {
        let mut md = MetadataDecoder::new(reader);
        let metadata = match md.decode() {
            Ok(m) => m,
            Err(e) => {
                return Err(e);
            },
        };
        Ok(Decoder { metadata, decoder: RecordDecoder::new(md.into_inner()) })
    }

    /// A copy of the metadata found at the front of the stream, if any.
    pub fn metadata(&mut self) -> (r: Option<Metadata>)
        ensures
            *final(self) == *old(self),
            match r {
                Some(m) => (match final(self).spec_metadata() {
                    Some(m0) => m@ == m0@,
                    None => false,
                }),
                None => final(self).spec_metadata() is None,
            },
    {
        match &self.metadata {
            Some(m) => Some(m.clone()),
            None => None,
        }
    }

    /// Drains the remaining stream to an owned record sequence, as
    /// `RecordDecoder::decode_to_owned` does.
    pub fn decode(&mut self) -> (r: Result<Vec<RecordEnum>, Error>)
        ensures
            final(self).reliable() == old(self).reliable(),
            final(self).spec_metadata() == old(self).spec_metadata(),
            ({
                let parsed = parse_stream(old(self).remaining());
                match r {
                    Ok(v) => {
                        &&& v@ == parsed.0
                        &&& parsed.1 == Terminal::Clean
                        &&& forall|i: int| 0 <= i < v@.len() ==> (#[trigger] v@[i]).wf()
                    },
                    Err(Error::Io(p)) => p == Phase::Record && !old(self).reliable(),
                    Err(Error::MalformedFrame(lb)) => parsed.1 == Terminal::Malformed(lb),
                    Err(Error::UnsupportedRType(b)) => parsed.1 == Terminal::Unsupported(b),
                    Err(_) => false,
                }
            }),
    {
        self.decoder.decode_to_owned()
    }

    /// Decodes the single next frame as a borrowed view, as
    /// `RecordDecoder::decode_ref` does.
    pub fn decode_ref(&mut self) -> (r: Result<Option<RecordRef<'_>>, Error>)
        ensures
            final(self).reliable() == old(self).reliable(),
            final(self).spec_metadata() == old(self).spec_metadata(),
            ({
                let rem = old(self).remaining();
                match r {
                    Ok(Some(rr)) => {
                        &&& head_available(rem)
                        &&& rr@ == rem.take(head_size(rem))
                        &&& final(self).remaining() == rem.skip(head_size(rem))
                    },
                    Ok(None) => (rem.len() == 0 && final(self).remaining() == rem) || (
                    head_truncated(rem) && final(self).remaining() == rem.skip(1)),
                    Err(Error::MalformedFrame(lb)) => {
                        &&& head_malformed(rem)
                        &&& lb == rem[0]
                        &&& final(self).remaining() == rem.skip(1)
                    },
                    Err(Error::Io(p)) => p == Phase::Record && !old(self).reliable(),
                    Err(_) => false,
                }
            }),
    {
        self.decoder.decode_ref()
    }

    /// Turns the rest of the stream into a lazy record sequence.
    pub fn decode_iterator(self) -> (r: DecoderIterator<R>)
        ensures
            r.remaining() == self.remaining(),
            r.reliable() == self.reliable(),
            !r.done(),
    {
        self.decoder.decode_iterator()
    }
}

/// The concatenated frame bytes of a sequence of owned records.
pub open spec fn stream_wire(records: Seq<RecordEnum>) -> Seq<u8>
    decreases records.len(),
{
    if records.len() == 0 {
        Seq::empty()
    } else {
        records[0].wire() + stream_wire(records.drop_first())
    }
}

/// Round trip: a sequence of well-formed records, encoded frame by
/// frame, decodes back to exactly the same records, in order, ending
/// cleanly.
pub proof fn lemma_stream_round_trip(records: Seq<RecordEnum>)
    requires
        forall|i: int| 0 <= i < records.len() ==> (#[trigger] records[i]).wf(),
    ensures
        parse_stream(stream_wire(records)) == (records, Terminal::Clean),
    decreases records.len(),
{
    if records.len() == 0 {
        assert(records =~= Seq::<RecordEnum>::empty());
    } else {
        let r0 = records[0];
        let rest = records.drop_first();
        crate::record_enum::lemma_rec_round_trip(r0);
        let all = stream_wire(records);
        let fs = r0.spec_frame_size() as int;
        assert(all == r0.wire() + stream_wire(rest));
        assert(all[0] == r0.wire()[0]);
        assert(head_size(all) == fs);
        assert(all.take(fs) =~= r0.wire());
        assert(all.skip(fs) =~= stream_wire(rest));
        assert(forall|i: int| 0 <= i < rest.len() ==> rest[i] == records[i + 1]);
        lemma_stream_round_trip(rest);
        assert(parse_stream(all).0 =~= records);
    }
}

/// Round trip for a whole container: a fixed-size metadata block
/// followed by encoded frames decodes back to exactly the metadata and
/// the records that were written.
pub proof fn lemma_container_round_trip(m: crate::metadata::MetadataView, records: Seq<RecordEnum>)
    requires
        crate::symbols::serializable(m.mappings),
        crate::symbols::keys_unique(m.mappings),
        crate::metadata::meta_wire(m).len() <= METADATA_LENGTH,
        forall|i: int| 0 <= i < records.len() ==> (#[trigger] records[i]).wf(),
    ensures
        ({
            let bytes = crate::encode::meta_block(m) + stream_wire(records);
            &&& meta_present(bytes)
            &&& parse_metadata(bytes.take(METADATA_LENGTH as int)) == Some(m)
            &&& parse_stream(bytes.skip(METADATA_LENGTH as int)) == (records, Terminal::Clean)
        }),
{
    let block = crate::encode::meta_block(m);
    let bytes = block + stream_wire(records);
    assert(block.len() == METADATA_LENGTH);
    assert(bytes.take(METADATA_LENGTH as int) =~= block);
    let pad = Seq::new(
        (METADATA_LENGTH - crate::metadata::meta_wire(m).len()) as nat,
        |i: int| 0u8,
    );
    assert(block == crate::metadata::meta_wire(m) + pad);
    crate::metadata::lemma_metadata_round_trip(m, pad);
    assert(bytes.skip(METADATA_LENGTH as int) =~= stream_wire(records));
    lemma_stream_round_trip(records);
}

/// Every record a stream decodes to is well formed: its header announces
/// its concrete type's exact byte size.
pub proof fn lemma_decoded_records_well_formed(bytes: Seq<u8>)
    ensures
        forall|i: int|
            0 <= i < parse_stream(bytes).0.len() ==> (#[trigger] parse_stream(bytes).0[i]).wf(),
    decreases bytes.len(),
{
    if bytes.len() > 0 && !head_malformed(bytes) && bytes.len() >= head_size(bytes) {
        crate::record_enum::lemma_parse_rec_wf(bytes.take(head_size(bytes)));
        match parse_rec(bytes.take(head_size(bytes))) {
            Some(rec) => {
                lemma_decoded_records_well_formed(bytes.skip(head_size(bytes)));
                let rest = parse_stream(bytes.skip(head_size(bytes)));
                assert forall|i: int| 0 <= i < parse_stream(bytes).0.len() implies (
                #[trigger] parse_stream(bytes).0[i]).wf() by {
                    if i > 0 {
                        assert(parse_stream(bytes).0[i] == rest.0[i - 1]);
                    }
                }
            },
            None => {},
        }
    }
}

} // verus!
