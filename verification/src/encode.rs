use crate::error::{Error, Phase};
use crate::metadata::{meta_wire, Metadata, MetadataView};
use crate::record_ref::RecordRef;
use crate::source::ByteSink;
use crate::symbols::serializable;
use crate::METADATA_LENGTH;
use vstd::prelude::*;

verus! {

/// The fixed-size leading block: the serialized metadata, zero-padded on
/// the right to `METADATA_LENGTH` bytes.
pub open spec fn meta_block(m: MetadataView) -> Seq<u8>
    recommends
        meta_wire(m).len() <= METADATA_LENGTH,
{
    meta_wire(m) + Seq::new((METADATA_LENGTH - meta_wire(m).len()) as nat, |i: int| 0u8)
}

/// The concatenated frame bytes of a sequence of record views, in order.
pub open spec fn refs_wire<'a>(records: Seq<RecordRef<'a>>) -> Seq<u8>
    decreases records.len(),
{
    if records.len() == 0 {
        Seq::empty()
    } else {
        records[0]@ + refs_wire(records.drop_first())
    }
}

pub proof fn lemma_refs_wire_push<'a>(records: Seq<RecordRef<'a>>, r: RecordRef<'a>)
    ensures
        refs_wire(records.push(r)) == refs_wire(records) + r@,
    decreases records.len(),
{
    if records.len() == 0 {
        let empty = Seq::<RecordRef<'a>>::empty();
        assert(records.push(r).drop_first() =~= empty);
        assert(records =~= empty);
        assert(refs_wire(empty) == Seq::<u8>::empty());
        assert(refs_wire(records.push(r)) == r@ + Seq::<u8>::empty());
        assert(r@ + Seq::<u8>::empty() =~= r@);
        assert(Seq::<u8>::empty() + r@ =~= r@);
    } else {
        assert(records.push(r).drop_first() =~= records.drop_first().push(r));
        lemma_refs_wire_push(records.drop_first(), r);
        assert(refs_wire(records.push(r)) =~= refs_wire(records) + r@);
    }
}

/// Record views that stand over the frame bytes of a record sequence
/// write, together, exactly that sequence's stream bytes: this ties what
/// the encoder emits to what the stream parser reads back.
pub proof fn lemma_refs_wire_matches_stream<'a>(
    refs: Seq<RecordRef<'a>>,
    records: Seq<crate::record_enum::RecordEnum>,
)
    requires
        refs.len() == records.len(),
        forall|i: int| 0 <= i < refs.len() ==> (#[trigger] refs[i])@ == records[i].wire(),
    ensures
        refs_wire(refs) == crate::decode::stream_wire(records),
    decreases refs.len(),
{
    if refs.len() == 0 {
        assert(refs_wire(refs) =~= crate::decode::stream_wire(records));
    } else {
        assert(forall|i: int|
            0 <= i < refs.drop_first().len() ==> (#[trigger] refs.drop_first()[i])
                == refs[i + 1]);
        assert(forall|i: int|
            0 <= i < records.drop_first().len() ==> (#[trigger] records.drop_first()[i])
                == records[i + 1]);
        lemma_refs_wire_matches_stream(refs.drop_first(), records.drop_first());
    }
}

/// Serializes `metadata`, pads it to the fixed block size and writes the
/// block, then flushes. Metadata whose serialized form does not fit the
/// block is rejected with `MetadataOverflow` and nothing is written.
fn write_metadata_block<W: ByteSink>(writer: &mut W, metadata: &Metadata) -> (r: Result<(), Error>)
    requires
        serializable(metadata.mappings.entries()),
    ensures
        match r {
            Ok(()) => {
                &&& meta_wire(metadata@).len() <= METADATA_LENGTH
                &&& final(writer).written() == old(writer).written() + meta_block(metadata@)
            },
            Err(Error::MetadataOverflow(n)) => {
                &&& n == meta_wire(metadata@).len()
                &&& n > METADATA_LENGTH
                &&& final(writer).written() == old(writer).written()
            },
            Err(Error::Io(p)) => p == Phase::Metadata && !old(writer).reliable(),
            Err(_) => false,
        },
        final(writer).reliable() == old(writer).reliable(),
{
    let mut block = metadata.serialize();
    let ghost wire = block@;
    if block.len() > METADATA_LENGTH {
        return Err(Error::MetadataOverflow(block.len()));
    }
    while block.len() < METADATA_LENGTH
        invariant
            wire.len() <= METADATA_LENGTH,
            wire.len() <= block@.len() <= METADATA_LENGTH,
            block@.subrange(0, wire.len() as int) == wire,
            forall|j: int| wire.len() <= j < block@.len() ==> block@[j] == 0u8,
        decreases METADATA_LENGTH - block@.len(),
    {
        block.push(0u8);
        proof {
            assert(block@.subrange(0, wire.len() as int) =~= wire);
        }
    }
    proof {
        assert(block@ =~= meta_block(metadata@));
    }
    if !writer.write_all(block.as_slice()) {
        return Err(Error::Io(Phase::Metadata));
    }
    if !writer.flush() {
        return Err(Error::Io(Phase::Metadata));
    }
    Ok(())
}

/// Writes one record view's bytes, unchanged, to the sink.
fn write_record<W: ByteSink>(writer: &mut W, record: &RecordRef<'_>) -> (r: Result<(), Error>)
    ensures
        match r {
            Ok(()) => final(writer).written() == old(writer).written() + record@,
            Err(e) => e == Error::Io(Phase::Record) && !old(writer).reliable(),
        },
        final(writer).reliable() == old(writer).reliable(),
{
    if writer.write_all(record.as_bytes()) {
        Ok(())
    } else {
        Err(Error::Io(Phase::Record))
    }
}

/// Writes each record view's bytes in order, then flushes once.
fn write_records<W: ByteSink>(writer: &mut W, records: &[RecordRef<'_>]) -> (r: Result<(), Error>)
    ensures
        match r {
            Ok(()) => final(writer).written() == old(writer).written() + refs_wire(records@),
            Err(e) => e == Error::Io(Phase::Record) && !old(writer).reliable(),
        },
        final(writer).reliable() == old(writer).reliable(),
{
    let n: usize = records.len();
    let mut i: usize = 0;
    while i < n
        invariant
            n == records@.len(),
            i <= n,
            writer.reliable() == old(writer).reliable(),
            writer.written() == old(writer).written() + refs_wire(records@.take(i as int)),
        decreases n - i,
    {
        match write_record(writer, &records[i]) {
            Ok(()) => {
                proof {
                    lemma_refs_wire_push(records@.take(i as int), records@[i as int]);
                    assert(records@.take(i as int).push(records@[i as int]) =~= records@.take(
                        i as int + 1,
                    ));
                }
                i = i + 1;
            },
            Err(e) => {
                return Err(e);
            },
        }
    }
    proof {
        assert(records@.take(n as int) =~= records@);
    }
    if !writer.flush() {
        return Err(Error::Io(Phase::Record));
    }
    Ok(())
}

/// Streams record frames to a byte sink.
pub struct RecordEncoder<W: ByteSink> {
    writer: W,
}

impl<W: ByteSink> RecordEncoder<W> {
    /// The bytes handed to the sink so far.
    pub closed spec fn written(&self) -> Seq<u8> {
        self.writer.written()
    }

    /// True when the underlying sink never fails.
    pub closed spec fn reliable(&self) -> bool {
        self.writer.reliable()
    }

    pub fn new(writer: W) -> (r: RecordEncoder<W>)
        ensures
            r.written() == writer.written(),
            r.reliable() == writer.reliable(),
    {
        RecordEncoder { writer }
    }

    /// Writes the record's own byte representation unchanged to the
    /// sink; no marshalling step and no semantic validation.
    pub fn encode_record(&mut self, record: &RecordRef<'_>) -> (r: Result<(), Error>)
        ensures
            match r {
                Ok(()) => final(self).written() == old(self).written() + record@,
                Err(e) => e == Error::Io(Phase::Record) && !old(self).reliable(),
            },
            final(self).reliable() == old(self).reliable(),
    {
        write_record(&mut self.writer, record)
    }

    /// Writes each frame in order and flushes once at the end.
    pub fn encode_records(&mut self, records: &[RecordRef<'_>]) -> (r: Result<(), Error>)
        ensures
            match r {
                Ok(()) => final(self).written() == old(self).written() + refs_wire(records@),
                Err(e) => e == Error::Io(Phase::Record) && !old(self).reliable(),
            },
            final(self).reliable() == old(self).reliable(),
    {
        write_records(&mut self.writer, records)
    }

    /// Hands the sink back.
    pub fn into_inner(self) -> (r: W)
        ensures
            r.written() == self.written(),
            r.reliable() == self.reliable(),
    {
        self.writer
    }
}

/// Writes the fixed-size metadata block to a byte sink.
pub struct MetadataEncoder<W: ByteSink> {
    writer: W,
}

impl<W: ByteSink> MetadataEncoder<W> {
    /// The bytes handed to the sink so far.
    pub closed spec fn written(&self) -> Seq<u8> {
        self.writer.written()
    }

    /// True when the underlying sink never fails.
    pub closed spec fn reliable(&self) -> bool {
        self.writer.reliable()
    }

    pub fn new(writer: W) -> (r: MetadataEncoder<W>)
        ensures
            r.written() == writer.written(),
            r.reliable() == writer.reliable(),
    {
        MetadataEncoder { writer }
    }

    /// Serializes the metadata into the fixed-size block, zero-padded on
    /// the right, and writes it atomically; metadata too large for the
    /// block is rejected with `MetadataOverflow`.
    pub fn encode_metadata(&mut self, metadata: &Metadata) -> (r: Result<(), Error>)
        requires
            serializable(metadata.mappings.entries()),
        ensures
            match r {
                Ok(()) => {
                    &&& meta_wire(metadata@).len() <= METADATA_LENGTH
                    &&& final(self).written() == old(self).written() + meta_block(metadata@)
                },
                Err(Error::MetadataOverflow(n)) => {
                    &&& n == meta_wire(metadata@).len()
                    &&& n > METADATA_LENGTH
                    &&& final(self).written() == old(self).written()
                },
                Err(Error::Io(p)) => p == Phase::Metadata && !old(self).reliable(),
                Err(_) => false,
            },
            final(self).reliable() == old(self).reliable(),
    {
        write_metadata_block(&mut self.writer, metadata)
    }

    /// Hands the sink back.
    pub fn into_inner(self) -> (r: W)
        ensures
            r.written() == self.written(),
            r.reliable() == self.reliable(),
    {
        self.writer
    }
}

/// Writes a whole container: the metadata block, then the record frames.
pub struct CombinedEncoder<W: ByteSink> {
    writer: W,
}

impl<W: ByteSink> CombinedEncoder<W> {
    /// The bytes handed to the sink so far.
    pub closed spec fn written(&self) -> Seq<u8> {
        self.writer.written()
    }

    /// True when the underlying sink never fails.
    pub closed spec fn reliable(&self) -> bool {
        self.writer.reliable()
    }

    pub fn new(writer: W) -> (r: CombinedEncoder<W>)
        ensures
            r.written() == writer.written(),
            r.reliable() == writer.reliable(),
    {
        CombinedEncoder { writer }
    }

    /// Writes the fixed-size metadata block, as `MetadataEncoder` does.
    pub fn encode_metadata(&mut self, metadata: &Metadata) -> (r: Result<(), Error>)
        requires
            serializable(metadata.mappings.entries()),
        ensures
            match r {
                Ok(()) => {
                    &&& meta_wire(metadata@).len() <= METADATA_LENGTH
                    &&& final(self).written() == old(self).written() + meta_block(metadata@)
                },
                Err(Error::MetadataOverflow(n)) => {
                    &&& n == meta_wire(metadata@).len()
                    &&& n > METADATA_LENGTH
                    &&& final(self).written() == old(self).written()
                },
                Err(Error::Io(p)) => p == Phase::Metadata && !old(self).reliable(),
                Err(_) => false,
            },
            final(self).reliable() == old(self).reliable(),
    {
        write_metadata_block(&mut self.writer, metadata)
    }

    /// Writes one record frame, as `RecordEncoder` does.
    pub fn encode_record(&mut self, record: &RecordRef<'_>) -> (r: Result<(), Error>)
        ensures
            match r {
                Ok(()) => final(self).written() == old(self).written() + record@,
                Err(e) => e == Error::Io(Phase::Record) && !old(self).reliable(),
            },
            final(self).reliable() == old(self).reliable(),
    {
        write_record(&mut self.writer, record)
    }

    /// Writes each record frame in order and flushes once at the end.
    pub fn encode_records(&mut self, records: &[RecordRef<'_>]) -> (r: Result<(), Error>)
        ensures
            match r {
                Ok(()) => final(self).written() == old(self).written() + refs_wire(records@),
                Err(e) => e == Error::Io(Phase::Record) && !old(self).reliable(),
            },
            final(self).reliable() == old(self).reliable(),
    {
        write_records(&mut self.writer, records)
    }

    /// Writes the metadata block and then the record frames.
    pub fn encode(&mut self, metadata: &Metadata, records: &[RecordRef<'_>]) -> (r: Result<
        (),
        Error,
    >)
        requires
            serializable(metadata.mappings.entries()),
        ensures
            match r {
                Ok(()) => {
                    &&& meta_wire(metadata@).len() <= METADATA_LENGTH
                    &&& final(self).written() == old(self).written() + meta_block(metadata@)
                        + refs_wire(records@)
                },
                Err(Error::MetadataOverflow(n)) => {
                    &&& n == meta_wire(metadata@).len()
                    &&& n > METADATA_LENGTH
                    &&& final(self).written() == old(self).written()
                },
                Err(Error::Io(_)) => !old(self).reliable(),
                Err(_) => false,
            },
            final(self).reliable() == old(self).reliable(),
    {
        match write_metadata_block(&mut self.writer, metadata) {
            Ok(()) => {},
            Err(e) => {
                return Err(e);
            },
        }
        match write_records(&mut self.writer, records) {
            Ok(()) => Ok(()),
            Err(e) => Err(e),
        }
    }

    /// Hands the sink back.
    pub fn into_inner(self) -> (r: W)
        ensures
            r.written() == self.written(),
            r.reliable() == self.reliable(),
    {
        self.writer
    }
}

} // verus!
