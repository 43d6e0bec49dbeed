use crate::enums::RType;
use vstd::bytes::{
    lemma_auto_spec_u32_to_from_le_bytes, lemma_auto_spec_u64_to_from_le_bytes,
    spec_u32_from_le_bytes, spec_u32_to_le_bytes, spec_u64_from_le_bytes, spec_u64_to_le_bytes,
    u32_from_le_bytes, u32_to_le_bytes, u64_from_le_bytes, u64_to_le_bytes,
};
use vstd::prelude::*;
use vstd::slice::slice_subrange;

verus! {

broadcast use vstd::array::group_array_axioms;

/// Byte size of the common record header on the wire.
pub const RECORD_HEADER_SIZE: usize = 16;

/// A header's length byte counts this many bytes each.
pub const LENGTH_MULTIPLIER: usize = 4;

/// Byte size of one `Mbp1Msg` frame.
pub const MBP1_MSG_SIZE: usize = 80;

/// Byte size of one `OhlcvMsg` frame.
pub const OHLCV_MSG_SIZE: usize = 56;

/// Type tag byte of `Mbp1Msg`.
pub const RTYPE_MBP1: u8 = 1;

/// Type tag byte of `OhlcvMsg`.
pub const RTYPE_OHLCV: u8 = 2;

pub proof fn lemma_i64_u64_cast(x: i64)
    ensures
        ((x as u64) as i64) == x,
{
    assert(((x as u64) as i64) == x) by (bit_vector);
}


pub proof fn lemma_i32_u32_cast(x: i32)
    ensures
        ((x as u32) as i32) == x,
{
    assert(((x as u32) as i32) == x) by (bit_vector);
}


pub proof fn lemma_i8_u8_cast(x: i8)
    ensures
        ((x as u8) as i8) == x,
{
    assert(((x as u8) as i8) == x) by (bit_vector);
}


/// Appends the four little-endian bytes of `x`.
pub(crate) fn push_u32_le(out: &mut Vec<u8>, x: u32)
    ensures
        final(out)@ == old(out)@ + spec_u32_to_le_bytes(x),
{
    let mut b = u32_to_le_bytes(x);
    out.append(&mut b);
}

/// Appends the eight little-endian bytes of `x`.
pub(crate) fn push_u64_le(out: &mut Vec<u8>, x: u64)
    ensures
        final(out)@ == old(out)@ + spec_u64_to_le_bytes(x),
{
    let mut b = u64_to_le_bytes(x);
    out.append(&mut b);
}

/// Reads the little-endian `u32` at byte offset `off`.
pub(crate) fn read_u32_le(bytes: &[u8], off: usize) -> (r: u32)
    requires
        off + 4 <= bytes@.len(),
    ensures
        r == spec_u32_from_le_bytes(bytes@.subrange(off as int, off as int + 4)),
{
    let n: usize = bytes.len();
    assert(off + 4 <= n);
    u32_from_le_bytes(slice_subrange(bytes, off, off + 4))
}

/// Reads the little-endian `u64` at byte offset `off`.
pub(crate) fn read_u64_le(bytes: &[u8], off: usize) -> (r: u64)
    requires
        off + 8 <= bytes@.len(),
    ensures
        r == spec_u64_from_le_bytes(bytes@.subrange(off as int, off as int + 8)),
{
    let n: usize = bytes.len();
    assert(off + 8 <= n);
    u64_from_le_bytes(slice_subrange(bytes, off, off + 8))
}

/// Constant data across all records: the frame size in 4-byte units, the
/// type tag, the instrument and the event time in nanoseconds.
#[derive(Clone, Copy, Debug, PartialEq, Eq, Hash, Structural)]
pub struct RecordHeader {
    pub length: u8,
    pub rtype: u8,
    pub instrument_id: u32,
    pub ts_event: u64,
}

/// The sixteen wire bytes of a record header: length byte, type tag, two
/// padding zeros, then the instrument id and the event time, little-endian.
pub open spec fn header_wire(h: RecordHeader) -> Seq<u8> {
    seq![h.length, h.rtype, 0u8, 0u8] + spec_u32_to_le_bytes(h.instrument_id)
        + spec_u64_to_le_bytes(h.ts_event)
}

/// The header whose fields stand at the front of `b`; the two padding
/// bytes are ignored.
pub open spec fn header_of_bytes(b: Seq<u8>) -> RecordHeader
    recommends
        b.len() >= RECORD_HEADER_SIZE,
{
    RecordHeader {
        length: b[0],
        rtype: b[1],
        instrument_id: spec_u32_from_le_bytes(b.subrange(4, 8)),
        ts_event: spec_u64_from_le_bytes(b.subrange(8, 16)),
    }
}

pub proof fn lemma_header_wire_len(h: RecordHeader)
    ensures
        header_wire(h).len() == RECORD_HEADER_SIZE,
        header_wire(h)[0] == h.length,
        header_wire(h)[1] == h.rtype,
{
    lemma_auto_spec_u32_to_from_le_bytes();
    lemma_auto_spec_u64_to_from_le_bytes();
}


impl RecordHeader {
    /// Builds the header that prefixes a record of type `R` on the wire.
    pub fn new<R: HasRType>(instrument_id: u32, ts_event: u64) -> (r: RecordHeader)
        ensures
            r == (RecordHeader {
                length: (R::spec_size() as int / LENGTH_MULTIPLIER as int) as u8,
                rtype: R::spec_rtype(),
                instrument_id,
                ts_event,
            }),
    {
        proof {
            R::lemma_size();
        }
        let size: usize = R::frame_size();
        RecordHeader {
            length: (size / LENGTH_MULTIPLIER) as u8,
            rtype: R::rtype_byte(),
            instrument_id,
            ts_event,
        }
    }

    /// The frame size this header announces, in bytes.
    pub fn record_size(&self) -> (r: usize)
        ensures
            r == self.length as int * LENGTH_MULTIPLIER as int,
    {
        self.length as usize * LENGTH_MULTIPLIER
    }

    /// True when the type tag maps to a supported record variant.
    pub open spec fn rtype_supported(self) -> bool {
        self.rtype == RTYPE_MBP1 || self.rtype == RTYPE_OHLCV
    }

    /// The record type this header's tag byte stands for.
    pub fn rtype(&self) -> (r: RType)
        requires
            self.rtype_supported(),
        ensures
            self.rtype == RTYPE_MBP1 ==> r == RType::Mbp1,
            self.rtype == RTYPE_OHLCV ==> r == RType::Ohlcv,
    {
        if self.rtype == RTYPE_MBP1 {
            RType::Mbp1
        } else {
            RType::Ohlcv
        }
    }

    /// Appends this header's sixteen wire bytes.
    pub(crate) fn write_wire(&self, out: &mut Vec<u8>)
        ensures
            final(out)@ == old(out)@ + header_wire(*self),
    {
        out.push(self.length);
        out.push(self.rtype);
        out.push(0u8);
        out.push(0u8);
        push_u32_le(out, self.instrument_id);
        push_u64_le(out, self.ts_event);
        proof {
            assert(out@ =~= old(out)@ + header_wire(*self));
        }
    }

    /// Reads the header standing at the front of `bytes`.
    pub(crate) fn parse(bytes: &[u8]) -> (r: RecordHeader)
        requires
            bytes@.len() >= RECORD_HEADER_SIZE,
        ensures
            r == header_of_bytes(bytes@),
    {
        RecordHeader {
            length: bytes[0],
            rtype: bytes[1],
            instrument_id: read_u32_le(bytes, 4),
            ts_event: read_u64_le(bytes, 8),
        }
    }
}

/// Access to the common header shared by every record variant.
pub trait Record {
    /// The header value this record carries.
    spec fn spec_header(&self) -> RecordHeader;

    /// A borrow of the record's header.
    fn header(&self) -> (r: &RecordHeader)
        ensures
            *r == self.spec_header(),
    ;
}

/// The wire identity of a fixed-layout record type: its type tag, its
/// frame size, and how one frame's bytes encode and decode a value.
pub trait HasRType: Record + Sized {
    /// The type tag byte of this record type.
    spec fn spec_rtype() -> u8;

    /// The byte size of one frame of this record type.
    spec fn spec_size() -> usize;

    /// True when the record's own header announces this type's tag and
    /// frame size.
    spec fn wf(self) -> bool;

    /// The frame bytes this record value encodes to.
    spec fn wire(self) -> Seq<u8>;

    /// The record value one frame's bytes decode to: defined exactly on
    /// byte strings of this type's frame size whose header announces this
    /// type's tag and size.
    spec fn spec_parse(bytes: Seq<u8>) -> Option<Self>;

    /// The frame size is a positive multiple of four no smaller than a
    /// header and small enough for the length byte.
    proof fn lemma_size()
        ensures
            RECORD_HEADER_SIZE <= Self::spec_size(),
            Self::spec_size() % 4 == 0,
            Self::spec_size() <= 1020,
    ;

    /// A well-formed record is recovered exactly from its own wire bytes.
    proof fn lemma_wire_round_trip(self)
        requires
            self.wf(),
        ensures
            self.wire().len() == Self::spec_size(),
            Self::spec_parse(self.wire()) == Some(self),
    ;

    /// Whatever parses is well formed and sits in a frame of the
    /// announced size.
    proof fn lemma_parse_well_formed(bytes: Seq<u8>)
        ensures
            Self::spec_parse(bytes) matches Some(x) ==> {
                &&& x.wf()
                &&& bytes.len() == Self::spec_size()
                &&& bytes[0] as int * LENGTH_MULTIPLIER as int == Self::spec_size()
                &&& bytes[1] == Self::spec_rtype()
                &&& x.spec_header() == header_of_bytes(bytes)
            },
    ;

    /// True when `rtype` is this type's tag byte.
    fn has_rtype(rtype: u8) -> (r: bool)
        ensures
            r == (rtype == Self::spec_rtype()),
    ;

    /// This type's tag byte.
    fn rtype_byte() -> (r: u8)
        ensures
            r == Self::spec_rtype(),
    ;

    /// The byte size of one frame of this type.
    fn frame_size() -> (r: usize)
        ensures
            r == Self::spec_size(),
    ;

    /// Decodes one frame, if `bytes` is exactly a frame of this type.
    fn parse_frame(bytes: &[u8]) -> (r: Option<Self>)
        ensures
            r == Self::spec_parse(bytes@),
    ;

    /// Encodes this record into its frame bytes.
    fn frame_bytes(&self) -> (r: Vec<u8>)
        ensures
            r@ == self.wire(),
    ;
}

/// One order book level: bid and ask price, size and order count.
#[derive(Clone, Copy, Debug, PartialEq, Eq, Hash, Structural)]
pub struct BidAskPair {
    /// The bid price.
    pub bid_px: i64,
    /// The ask price.
    pub ask_px: i64,
    /// The bid size.
    pub bid_sz: u32,
    /// The ask size.
    pub ask_sz: u32,
    /// The bid order count.
    pub bid_ct: u32,
    /// The ask order count.
    pub ask_ct: u32,
}

/// Byte size of one book level on the wire.
pub const BID_ASK_PAIR_SIZE: usize = 32;

/// The thirty-two wire bytes of one book level, fields little-endian in
/// declaration order.
pub open spec fn pair_wire(p: BidAskPair) -> Seq<u8> {
    spec_u64_to_le_bytes(p.bid_px as u64) + spec_u64_to_le_bytes(p.ask_px as u64)
        + spec_u32_to_le_bytes(p.bid_sz) + spec_u32_to_le_bytes(p.ask_sz)
        + spec_u32_to_le_bytes(p.bid_ct) + spec_u32_to_le_bytes(p.ask_ct)
}

/// The book level whose fields stand at the front of `b`.
pub open spec fn pair_of_bytes(b: Seq<u8>) -> BidAskPair
    recommends
        b.len() >= BID_ASK_PAIR_SIZE,
{
    BidAskPair {
        bid_px: spec_u64_from_le_bytes(b.subrange(0, 8)) as i64,
        ask_px: spec_u64_from_le_bytes(b.subrange(8, 16)) as i64,
        bid_sz: spec_u32_from_le_bytes(b.subrange(16, 20)),
        ask_sz: spec_u32_from_le_bytes(b.subrange(20, 24)),
        bid_ct: spec_u32_from_le_bytes(b.subrange(24, 28)),
        ask_ct: spec_u32_from_le_bytes(b.subrange(28, 32)),
    }
}

pub proof fn lemma_pair_round_trip(p: BidAskPair)
    ensures
        pair_wire(p).len() == BID_ASK_PAIR_SIZE,
        pair_of_bytes(pair_wire(p)) == p,
{
    lemma_auto_spec_u32_to_from_le_bytes();
    lemma_auto_spec_u64_to_from_le_bytes();
    let w = pair_wire(p);
    assert(w.subrange(0, 8) =~= spec_u64_to_le_bytes(p.bid_px as u64));
    assert(w.subrange(8, 16) =~= spec_u64_to_le_bytes(p.ask_px as u64));
    assert(w.subrange(16, 20) =~= spec_u32_to_le_bytes(p.bid_sz));
    assert(w.subrange(20, 24) =~= spec_u32_to_le_bytes(p.ask_sz));
    assert(w.subrange(24, 28) =~= spec_u32_to_le_bytes(p.bid_ct));
    assert(w.subrange(28, 32) =~= spec_u32_to_le_bytes(p.ask_ct));
    lemma_i64_u64_cast(p.bid_px);
    lemma_i64_u64_cast(p.ask_px);
}

/// Appends the thirty-two wire bytes of one book level.
pub(crate) fn push_pair(out: &mut Vec<u8>, p: &BidAskPair)
    ensures
        final(out)@ == old(out)@ + pair_wire(*p),
{
    push_u64_le(out, #[verifier::truncate] (p.bid_px as u64));
    push_u64_le(out, #[verifier::truncate] (p.ask_px as u64));
    push_u32_le(out, p.bid_sz);
    push_u32_le(out, p.ask_sz);
    push_u32_le(out, p.bid_ct);
    push_u32_le(out, p.ask_ct);
    proof {
        assert(out@ =~= old(out)@ + pair_wire(*p));
    }
}

/// Reads the book level at byte offset `off`.
pub(crate) fn parse_pair(bytes: &[u8], off: usize) -> (r: BidAskPair)
    requires
        off + BID_ASK_PAIR_SIZE <= bytes@.len(),
    ensures
        r == pair_of_bytes(bytes@.subrange(off as int, off as int + BID_ASK_PAIR_SIZE as int)),
    {
    let n: usize = bytes.len();
    assert(off + 32 <= n);
    let r = BidAskPair {
        bid_px: #[verifier::truncate] (read_u64_le(bytes, off) as i64),
        ask_px: #[verifier::truncate] (read_u64_le(bytes, off + 8) as i64),
        bid_sz: read_u32_le(bytes, off + 16),
        ask_sz: read_u32_le(bytes, off + 20),
        bid_ct: read_u32_le(bytes, off + 24),
        ask_ct: read_u32_le(bytes, off + 28),
    };
    proof {
        let sub = bytes@.subrange(off as int, off as int + 32);
        assert(sub.subrange(0, 8) =~= bytes@.subrange(off as int, off as int + 8));
        assert(sub.subrange(8, 16) =~= bytes@.subrange(off as int + 8, off as int + 16));
        assert(sub.subrange(16, 20) =~= bytes@.subrange(off as int + 16, off as int + 20));
        assert(sub.subrange(20, 24) =~= bytes@.subrange(off as int + 20, off as int + 24));
        assert(sub.subrange(24, 28) =~= bytes@.subrange(off as int + 24, off as int + 28));
        assert(sub.subrange(28, 32) =~= bytes@.subrange(off as int + 28, off as int + 32));
    }
    r
}

/// An open-high-low-close-volume bar.
#[derive(Clone, Copy, Debug, PartialEq, Eq, Hash, Structural)]
pub struct OhlcvMsg {
    pub hd: RecordHeader,
    pub open: i64,
    pub high: i64,
    pub low: i64,
    pub close: i64,
    pub volume: u64,
}

impl Record for OhlcvMsg {
    open spec fn spec_header(&self) -> RecordHeader {
        self.hd
    }

    fn header(&self) -> (r: &RecordHeader) {
        &self.hd
    }
}

impl HasRType for OhlcvMsg {
    open spec fn spec_rtype() -> u8 {
        RTYPE_OHLCV
    }

    open spec fn spec_size() -> usize {
        OHLCV_MSG_SIZE
    }

    open spec fn wf(self) -> bool {
        self.hd.length == 14u8 && self.hd.rtype == RTYPE_OHLCV
    }

    open spec fn wire(self) -> Seq<u8> {
        header_wire(self.hd) + spec_u64_to_le_bytes(self.open as u64)
            + spec_u64_to_le_bytes(self.high as u64) + spec_u64_to_le_bytes(self.low as u64)
            + spec_u64_to_le_bytes(self.close as u64) + spec_u64_to_le_bytes(self.volume)
    }

    open spec fn spec_parse(bytes: Seq<u8>) -> Option<OhlcvMsg> {
        if bytes.len() == OHLCV_MSG_SIZE && bytes[0] == 14u8 && bytes[1] == RTYPE_OHLCV {
            Some(
                OhlcvMsg {
                    hd: header_of_bytes(bytes),
                    open: spec_u64_from_le_bytes(bytes.subrange(16, 24)) as i64,
                    high: spec_u64_from_le_bytes(bytes.subrange(24, 32)) as i64,
                    low: spec_u64_from_le_bytes(bytes.subrange(32, 40)) as i64,
                    close: spec_u64_from_le_bytes(bytes.subrange(40, 48)) as i64,
                    volume: spec_u64_from_le_bytes(bytes.subrange(48, 56)),
                },
            )
        } else {
            None
        }
    }

    proof fn lemma_size() {
    }

    proof fn lemma_wire_round_trip(self) {
        lemma_auto_spec_u32_to_from_le_bytes();
        lemma_auto_spec_u64_to_from_le_bytes();
        lemma_header_wire_len(self.hd);
        let w = self.wire();
        assert(w.subrange(0, 16) =~= header_wire(self.hd));
        assert(w.subrange(4, 8) =~= spec_u32_to_le_bytes(self.hd.instrument_id));
        assert(w.subrange(8, 16) =~= spec_u64_to_le_bytes(self.hd.ts_event));
        assert(w.subrange(16, 24) =~= spec_u64_to_le_bytes(self.open as u64));
        assert(w.subrange(24, 32) =~= spec_u64_to_le_bytes(self.high as u64));
        assert(w.subrange(32, 40) =~= spec_u64_to_le_bytes(self.low as u64));
        assert(w.subrange(40, 48) =~= spec_u64_to_le_bytes(self.close as u64));
        assert(w.subrange(48, 56) =~= spec_u64_to_le_bytes(self.volume));
        lemma_i64_u64_cast(self.open);
        lemma_i64_u64_cast(self.high);
        lemma_i64_u64_cast(self.low);
        lemma_i64_u64_cast(self.close);
        assert(header_of_bytes(w) == self.hd);
        assert(Self::spec_parse(w) == Some(self));
    }

    proof fn lemma_parse_well_formed(bytes: Seq<u8>) {
    }

    fn has_rtype(rtype: u8) -> (r: bool) {
        rtype == RTYPE_OHLCV
    }

    fn rtype_byte() -> (r: u8) {
        RTYPE_OHLCV
    }

    fn frame_size() -> (r: usize) {
        OHLCV_MSG_SIZE
    }

    fn parse_frame(bytes: &[u8]) -> (r: Option<OhlcvMsg>) {
        let n: usize = bytes.len();
        if n != OHLCV_MSG_SIZE {
            return None;
        }
        let hd = RecordHeader::parse(bytes);
        if hd.length != 14u8 || hd.rtype != RTYPE_OHLCV {
            return None;
        }
        Some(
            OhlcvMsg {
                hd,
                open: #[verifier::truncate] (read_u64_le(bytes, 16) as i64),
                high: #[verifier::truncate] (read_u64_le(bytes, 24) as i64),
                low: #[verifier::truncate] (read_u64_le(bytes, 32) as i64),
                close: #[verifier::truncate] (read_u64_le(bytes, 40) as i64),
                volume: read_u64_le(bytes, 48),
            },
        )
    }

    fn frame_bytes(&self) -> (r: Vec<u8>) {
        let mut out: Vec<u8> = Vec::new();
        self.hd.write_wire(&mut out);
        push_u64_le(&mut out, #[verifier::truncate] (self.open as u64));
        push_u64_le(&mut out, #[verifier::truncate] (self.high as u64));
        push_u64_le(&mut out, #[verifier::truncate] (self.low as u64));
        push_u64_le(&mut out, #[verifier::truncate] (self.close as u64));
        push_u64_le(&mut out, self.volume);
        proof {
            assert(out@ =~= self.wire());
        }
        out
    }
}


/// One top-of-book update: price, size, event bytes, timestamps and the
/// top book level.
#[derive(Clone, Copy, Debug, Eq, Hash)]
pub struct Mbp1Msg {
    pub hd: RecordHeader,
    pub price: i64,
    pub size: u32,
    pub action: i8,
    pub side: i8,
    pub depth: u8,
    pub flags: u8,
    pub ts_recv: u64,
    pub ts_in_delta: i32,
    pub sequence: u32,
    pub levels: [BidAskPair; 1],
}

impl PartialEq for Mbp1Msg {
    fn eq(&self, other: &Mbp1Msg) -> (r: bool)
        ensures
            r == (*self == *other),
    {
        let r = self.hd == other.hd && self.price == other.price && self.size == other.size
            && self.action == other.action && self.side == other.side
            && self.depth == other.depth && self.flags == other.flags
            && self.ts_recv == other.ts_recv && self.ts_in_delta == other.ts_in_delta
            && self.sequence == other.sequence && self.levels[0] == other.levels[0];
        proof {
            if r {
                assert(self.levels =~= other.levels);
            }
        }
        r
    }
}

impl vstd::std_specs::cmp::PartialEqSpecImpl for Mbp1Msg {
    open spec fn obeys_eq_spec() -> bool {
        true
    }

    open spec fn eq_spec(&self, other: &Mbp1Msg) -> bool {
        *self == *other
    }
}

impl Record for Mbp1Msg {
    open spec fn spec_header(&self) -> RecordHeader {
        self.hd
    }

    fn header(&self) -> (r: &RecordHeader) {
        &self.hd
    }
}

impl HasRType for Mbp1Msg {
    open spec fn spec_rtype() -> u8 {
        RTYPE_MBP1
    }

    open spec fn spec_size() -> usize {
        MBP1_MSG_SIZE
    }

    open spec fn wf(self) -> bool {
        self.hd.length == 20u8 && self.hd.rtype == RTYPE_MBP1
    }

    open spec fn wire(self) -> Seq<u8> {
        header_wire(self.hd) + spec_u64_to_le_bytes(self.price as u64)
            + spec_u32_to_le_bytes(self.size)
            + seq![self.action as u8, self.side as u8, self.depth, self.flags]
            + spec_u64_to_le_bytes(self.ts_recv) + spec_u32_to_le_bytes(self.ts_in_delta as u32)
            + spec_u32_to_le_bytes(self.sequence) + pair_wire(self.levels[0])
    }

    open spec fn spec_parse(bytes: Seq<u8>) -> Option<Mbp1Msg> {
        if bytes.len() == MBP1_MSG_SIZE && bytes[0] == 20u8 && bytes[1] == RTYPE_MBP1 {
            Some(
                Mbp1Msg {
                    hd: header_of_bytes(bytes),
                    price: spec_u64_from_le_bytes(bytes.subrange(16, 24)) as i64,
                    size: spec_u32_from_le_bytes(bytes.subrange(24, 28)),
                    action: bytes[28] as i8,
                    side: bytes[29] as i8,
                    depth: bytes[30],
                    flags: bytes[31],
                    ts_recv: spec_u64_from_le_bytes(bytes.subrange(32, 40)),
                    ts_in_delta: spec_u32_from_le_bytes(bytes.subrange(40, 44)) as i32,
                    sequence: spec_u32_from_le_bytes(bytes.subrange(44, 48)),
                    levels: [pair_of_bytes(bytes.subrange(48, 80))],
                },
            )
        } else {
            None
        }
    }

    proof fn lemma_size() {
    }

    proof fn lemma_wire_round_trip(self) {
        lemma_auto_spec_u32_to_from_le_bytes();
        lemma_auto_spec_u64_to_from_le_bytes();
        lemma_header_wire_len(self.hd);
        lemma_pair_round_trip(self.levels[0]);
        let w = self.wire();
        assert(w.subrange(0, 16) =~= header_wire(self.hd));
        assert(w.subrange(4, 8) =~= spec_u32_to_le_bytes(self.hd.instrument_id));
        assert(w.subrange(8, 16) =~= spec_u64_to_le_bytes(self.hd.ts_event));
        assert(w.subrange(16, 24) =~= spec_u64_to_le_bytes(self.price as u64));
        assert(w.subrange(24, 28) =~= spec_u32_to_le_bytes(self.size));
        assert(w.subrange(32, 40) =~= spec_u64_to_le_bytes(self.ts_recv));
        assert(w.subrange(40, 44) =~= spec_u32_to_le_bytes(self.ts_in_delta as u32));
        assert(w.subrange(44, 48) =~= spec_u32_to_le_bytes(self.sequence));
        assert(w.subrange(48, 80) =~= pair_wire(self.levels[0]));
        lemma_i64_u64_cast(self.price);
        lemma_i32_u32_cast(self.ts_in_delta);
        lemma_i8_u8_cast(self.action);
        lemma_i8_u8_cast(self.side);
        assert(header_of_bytes(w) == self.hd);
        assert(w[28] == self.action as u8);
        assert(w[29] == self.side as u8);
        assert(w[30] == self.depth);
        assert(w[31] == self.flags);
        assert([pair_of_bytes(w.subrange(48, 80))] =~= self.levels);
        assert(Self::spec_parse(w) == Some(self));
    }

    proof fn lemma_parse_well_formed(bytes: Seq<u8>) {
    }

    fn has_rtype(rtype: u8) -> (r: bool) {
        rtype == RTYPE_MBP1
    }

    fn rtype_byte() -> (r: u8) {
        RTYPE_MBP1
    }

    fn frame_size() -> (r: usize) {
        MBP1_MSG_SIZE
    }

    fn parse_frame(bytes: &[u8]) -> (r: Option<Mbp1Msg>) {
        let n: usize = bytes.len();
        if n != MBP1_MSG_SIZE {
            return None;
        }
        let hd = RecordHeader::parse(bytes);
        if hd.length != 20u8 || hd.rtype != RTYPE_MBP1 {
            return None;
        }
        let parsed = Mbp1Msg {
            hd,
            price: #[verifier::truncate] (read_u64_le(bytes, 16) as i64),
            size: read_u32_le(bytes, 24),
            action: #[verifier::truncate] (bytes[28] as i8),
            side: #[verifier::truncate] (bytes[29] as i8),
            depth: bytes[30],
            flags: bytes[31],
            ts_recv: read_u64_le(bytes, 32),
            ts_in_delta: #[verifier::truncate] (read_u32_le(bytes, 40) as i32),
            sequence: read_u32_le(bytes, 44),
            levels: [parse_pair(bytes, 48)],
        };
        proof {
            assert(parsed.levels =~= Self::spec_parse(bytes@)->Some_0.levels);
        }
        Some(parsed)
    }

    fn frame_bytes(&self) -> (r: Vec<u8>) {
        let mut out: Vec<u8> = Vec::new();
        self.hd.write_wire(&mut out);
        push_u64_le(&mut out, #[verifier::truncate] (self.price as u64));
        push_u32_le(&mut out, self.size);
        out.push(#[verifier::truncate] (self.action as u8));
        out.push(#[verifier::truncate] (self.side as u8));
        out.push(self.depth);
        out.push(self.flags);
        push_u64_le(&mut out, self.ts_recv);
        push_u32_le(&mut out, #[verifier::truncate] (self.ts_in_delta as u32));
        push_u32_le(&mut out, self.sequence);
        push_pair(&mut out, &self.levels[0]);
        proof {
            assert(out@ =~= self.wire());
        }
        out
    }
}

} // verus!
