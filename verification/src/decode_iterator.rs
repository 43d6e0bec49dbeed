use crate::decode::{
    head_available, head_malformed, head_size, head_truncated, parse_stream, RecordDecoder,
    Terminal,
};
use crate::error::{Error, Phase};
use crate::record_enum::{parse_rec, RecordEnum};
use crate::source::ByteSource;
use vstd::prelude::*;

verus! {

/// What one advance of the lazy record sequence yields on a given
/// stream: nothing at a clean end (empty rest, or a trailing partial
/// frame), one error item on a malformed or unsupported frame, and the
/// decoded record otherwise.
pub open spec fn next_item(bytes: Seq<u8>) -> Option<Result<RecordEnum, Error>> {
    if bytes.len() == 0 || head_truncated(bytes) {
        None
    } else if head_malformed(bytes) {
        Some(Err(Error::MalformedFrame(bytes[0])))
    } else {
        match parse_rec(bytes.take(head_size(bytes))) {
            Some(rec) => Some(Ok(rec)),
            None => Some(Err(Error::UnsupportedRType(bytes[1]))),
        }
    }
}

/// Every item the lazy sequence yields on a given stream, in order: the
/// decoded records, then at most one error item.
pub open spec fn iter_items(bytes: Seq<u8>) -> Seq<Result<RecordEnum, Error>>
    decreases bytes.len(),
{
    if bytes.len() == 0 || head_truncated(bytes) {
        Seq::empty()
    } else if head_malformed(bytes) {
        seq![Err(Error::MalformedFrame(bytes[0]))]
    } else {
        match parse_rec(bytes.take(head_size(bytes))) {
            Some(rec) => seq![Ok(rec)] + iter_items(bytes.skip(head_size(bytes))),
            None => seq![Err(Error::UnsupportedRType(bytes[1]))],
        }
    }
}

/// A lazy, single-pass, non-restartable sequence of decoded records;
/// each advance performs exactly one frame decode against the source,
/// and after yielding an error item the sequence terminates.
pub struct DecoderIterator<R: ByteSource> {
    decoder: RecordDecoder<R>,
    finished: bool,
}

impl<R: ByteSource> DecoderIterator<R> {
    /// The bytes the underlying source has still to deliver.
    pub closed spec fn remaining(&self) -> Seq<u8> {
        self.decoder.remaining()
    }

    /// True when the underlying source never fails.
    pub closed spec fn reliable(&self) -> bool {
        self.decoder.reliable()
    }

    /// True once the sequence has terminated by yielding an error.
    pub closed spec fn done(&self) -> bool {
        self.finished
    }

    pub fn new(reader: R) -> (r: DecoderIterator<R>)
        ensures
            r.remaining() == reader.remaining(),
            r.reliable() == reader.reliable(),
            !r.done(),
    {
        DecoderIterator { decoder: RecordDecoder::new(reader), finished: false }
    }

    /// Advances the sequence by one frame decode. Yields `None` at a
    /// clean end of stream and after a previous error; on a malformed or
    /// unsupported frame yields one error item and terminates the
    /// sequence.
    pub fn next(&mut self) -> (r: Option<Result<RecordEnum, Error>>)
        ensures
            final(self).reliable() == old(self).reliable(),
            old(self).done() ==> r is None && *final(self) == *old(self),
            !old(self).done() ==> ({
                let rem = old(self).remaining();
                match r {
                    None => {
                        &&& next_item(rem) is None
                        &&& !final(self).done()
                    },
                    Some(Ok(rec)) => {
                        &&& next_item(rem) == Some(Ok::<RecordEnum, Error>(rec))
                        &&& head_available(rem)
                        &&& rec.wf()
                        &&& final(self).remaining() == rem.skip(head_size(rem))
                        &&& !final(self).done()
                    },
                    Some(Err(e)) => {
                        &&& (e == Error::Io(Phase::Record) && !old(self).reliable()) || next_item(
                            rem,
                        ) == Some(Err::<RecordEnum, Error>(e))
                        &&& final(self).done()
                    },
                }
            }),
    {
        if self.finished {
            return None;
        }
        let ghost rem = self.decoder.remaining();
        let step = self.decoder.decode_ref();
        match step {
            Ok(None) => None,
            Ok(Some(rec_ref)) => {
                match RecordEnum::from_ref(rec_ref) {
                    Ok(rec) => Some(Ok(rec)),
                    Err(e) => {
                        proof {
                            assert(rem.take(head_size(rem))[1] == rem[1]);
                        }
                        self.finished = true;
                        Some(Err(e))
                    },
                }
            },
            Err(e) => {
                self.finished = true;
                Some(Err(e))
            },
        }
    }
}

/// The lazy sequence over a byte stream yields the same ordered results
/// as draining the stream in one batch: each record the batch decode
/// returns, in order and wrapped in `Ok`, followed by exactly the batch
/// decode's error where it would fail, and nothing more where it would
/// end cleanly.
pub proof fn lemma_iterator_matches_batch(bytes: Seq<u8>)
    ensures
        iter_items(bytes) == parse_stream(bytes).0.map_values(
            |rec: RecordEnum| Ok::<RecordEnum, Error>(rec),
        ) + (match parse_stream(bytes).1 {
            Terminal::Clean => Seq::<Result<RecordEnum, Error>>::empty(),
            Terminal::Malformed(lb) => seq![Err(Error::MalformedFrame(lb))],
            Terminal::Unsupported(b) => seq![Err(Error::UnsupportedRType(b))],
        }),
    decreases bytes.len(),
{
    let items = iter_items(bytes);
    let parsed = parse_stream(bytes);
    let oks = parsed.0.map_values(|rec: RecordEnum| Ok::<RecordEnum, Error>(rec));
    let tail = (match parsed.1 {
        Terminal::Clean => Seq::<Result<RecordEnum, Error>>::empty(),
        Terminal::Malformed(lb) => seq![Err::<RecordEnum, Error>(Error::MalformedFrame(lb))],
        Terminal::Unsupported(b) => seq![Err::<RecordEnum, Error>(Error::UnsupportedRType(b))],
    });
    if bytes.len() == 0 || head_truncated(bytes) {
        assert(items =~= oks + tail);
    } else if head_malformed(bytes) {
        assert(items =~= oks + tail);
    } else if bytes.len() < head_size(bytes) {
        assert(items =~= oks + tail);
    } else {
        match parse_rec(bytes.take(head_size(bytes))) {
            Some(rec) => {
                lemma_iterator_matches_batch(bytes.skip(head_size(bytes)));
                assert(items =~= oks + tail);
            },
            None => {
                assert(items =~= oks + tail);
            },
        }
    }
}

} // verus!
