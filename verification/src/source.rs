use vstd::prelude::*;
use vstd::slice::slice_subrange;

verus! {

/// What one read attempt against a byte source came to.
#[derive(Clone, Copy, Debug, PartialEq, Eq, Structural)]
pub enum SourceStatus {
    /// All requested bytes were delivered.
    Filled,
    /// The source ended before delivering the requested count.
    Ended,
    /// The source failed; only an unreliable source reports this.
    Failed,
}

/// An ordered byte source a decoder pulls from. The model is the sequence
/// of bytes still to be delivered; an in-memory source is reliable and
/// never fails, while a caller-supplied reader may fail at any read.
pub trait ByteSource: Sized {
    /// The bytes this source has still to deliver.
    spec fn remaining(&self) -> Seq<u8>;

    /// True of a source whose reads never fail.
    spec fn reliable(&self) -> bool;

    /// Appends the source's next `n` bytes to `out` and consumes them;
    /// ends cleanly, consuming and writing nothing, when fewer than `n`
    /// bytes are left.
    fn read_exact(&mut self, n: usize, out: &mut Vec<u8>) -> (r: SourceStatus)
        ensures
            final(self).reliable() == old(self).reliable(),
            match r {
                SourceStatus::Filled => {
                    &&& n <= old(self).remaining().len()
                    &&& final(out)@ == old(out)@ + old(self).remaining().take(n as int)
                    &&& final(self).remaining() == old(self).remaining().skip(n as int)
                },
                SourceStatus::Ended => {
                    &&& old(self).remaining().len() < n
                    &&& final(self).remaining() == old(self).remaining()
                    &&& final(out)@ == old(out)@
                },
                SourceStatus::Failed => {
                    &&& !old(self).reliable()
                    &&& final(self).remaining() == old(self).remaining()
                    &&& final(out)@ == old(out)@
                },
            },
    ;

    /// Appends a copy of the source's next `n` bytes to `out` without
    /// consuming anything.
    fn peek_exact(&mut self, n: usize, out: &mut Vec<u8>) -> (r: SourceStatus)
        ensures
            final(self).reliable() == old(self).reliable(),
            final(self).remaining() == old(self).remaining(),
            match r {
                SourceStatus::Filled => {
                    &&& n <= old(self).remaining().len()
                    &&& final(out)@ == old(out)@ + old(self).remaining().take(n as int)
                },
                SourceStatus::Ended => {
                    &&& old(self).remaining().len() < n
                    &&& final(out)@ == old(out)@
                },
                SourceStatus::Failed => {
                    &&& !old(self).reliable()
                    &&& final(out)@ == old(out)@
                },
            },
    ;
}

/// An ordered byte sink an encoder pushes to. The model is the sequence
/// of bytes accepted so far; an in-memory sink is reliable and never
/// fails, while a caller-supplied writer may fail at any write.
pub trait ByteSink: Sized {
    /// The bytes this sink has accepted so far.
    spec fn written(&self) -> Seq<u8>;

    /// True of a sink whose writes never fail.
    spec fn reliable(&self) -> bool;

    /// Appends `bytes` to the sink; false only on a failed, unreliable
    /// sink.
    fn write_all(&mut self, bytes: &[u8]) -> (r: bool)
        ensures
            final(self).reliable() == old(self).reliable(),
            r ==> final(self).written() == old(self).written() + bytes@,
            !r ==> !old(self).reliable(),
    ;

    /// Pushes buffered bytes through; false only on a failed, unreliable
    /// sink.
    fn flush(&mut self) -> (r: bool)
        ensures
            final(self).reliable() == old(self).reliable(),
            r ==> final(self).written() == old(self).written(),
            !r ==> !old(self).reliable(),
    ;
}

/// An in-memory byte source over an owned buffer: the reliable source the
/// library itself supplies.
pub struct BufferSource {
    data: Vec<u8>,
    pos: usize,
}

impl BufferSource {
    #[verifier::type_invariant]
    closed spec fn type_inv(self) -> bool {
        self.pos <= self.data@.len()
    }

    /// Wraps a whole buffer as a source positioned at its start.
    pub fn new(data: Vec<u8>) -> (r: BufferSource)
        ensures
            r.remaining() == data@,
            r.reliable(),
    {
        let r = BufferSource { data, pos: 0 };
        proof {
            assert(r.remaining() =~= r.data@);
        }
        r
    }
}

impl ByteSource for BufferSource {
    closed spec fn remaining(&self) -> Seq<u8> {
        self.data@.skip(self.pos as int)
    }

    closed spec fn reliable(&self) -> bool {
        true
    }

    fn read_exact(&mut self, n: usize, out: &mut Vec<u8>) -> (r: SourceStatus) {
        proof {
            use_type_invariant(&*self);
        }
        let len: usize = self.data.len();
        if len - self.pos < n {
            return SourceStatus::Ended;
        }
        out.extend_from_slice(slice_subrange(self.data.as_slice(), self.pos, self.pos + n));
        proof {
            assert(self.data@.subrange(self.pos as int, self.pos as int + n as int) =~= old(
                self,
            ).remaining().take(n as int));
        }
        self.pos = self.pos + n;
        proof {
            assert(self.remaining() =~= old(self).remaining().skip(n as int));
        }
        SourceStatus::Filled
    }

    fn peek_exact(&mut self, n: usize, out: &mut Vec<u8>) -> (r: SourceStatus) {
        proof {
            use_type_invariant(&*self);
        }
        let len: usize = self.data.len();
        if len - self.pos < n {
            return SourceStatus::Ended;
        }
        out.extend_from_slice(slice_subrange(self.data.as_slice(), self.pos, self.pos + n));
        proof {
            assert(self.data@.subrange(self.pos as int, self.pos as int + n as int) =~= self
                .remaining()
                .take(n as int));
        }
        SourceStatus::Filled
    }
}

impl ByteSink for Vec<u8> {
    open spec fn written(&self) -> Seq<u8> {
        self@
    }

    open spec fn reliable(&self) -> bool {
        true
    }

    fn write_all(&mut self, bytes: &[u8]) -> (r: bool) {
        self.extend_from_slice(bytes);
        true
    }

    fn flush(&mut self) -> (r: bool) {
        true
    }
}

} // verus!
