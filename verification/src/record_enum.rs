use crate::error::Error;
use crate::record_ref::{spec_get, RecordRef};
use crate::records::{
    HasRType, Mbp1Msg, OhlcvMsg, Record, RecordHeader, MBP1_MSG_SIZE, OHLCV_MSG_SIZE,
    RECORD_HEADER_SIZE, RTYPE_MBP1, RTYPE_OHLCV,
};
use vstd::prelude::*;

verus! {

/// The owned record standing at the front of `bytes`: the tag byte picks
/// the variant, and the frame must be exactly that variant's; nothing
/// otherwise.
pub open spec fn parse_rec(bytes: Seq<u8>) -> Option<RecordEnum> {
    if bytes.len() < RECORD_HEADER_SIZE {
        None
    } else if bytes[1] == RTYPE_MBP1 {
        match spec_get::<Mbp1Msg>(bytes) {
            Some(m) => Some(RecordEnum::Mbp1(m)),
            None => None,
        }
    } else if bytes[1] == RTYPE_OHLCV {
        match spec_get::<OhlcvMsg>(bytes) {
            Some(m) => Some(RecordEnum::Ohlcv(m)),
            None => None,
        }
    } else {
        None
    }
}

/// An owned, closed tagged union holding exactly one concrete record.
#[derive(Clone, Copy, Debug, Eq, Hash)]
pub enum RecordEnum {
    Mbp1(Mbp1Msg),
    Ohlcv(OhlcvMsg),
}

impl PartialEq for RecordEnum {
    fn eq(&self, other: &RecordEnum) -> (r: bool)
        ensures
            r == (*self == *other),
    {
        match (self, other) {
            (RecordEnum::Mbp1(a), RecordEnum::Mbp1(b)) => a == b,
            (RecordEnum::Ohlcv(a), RecordEnum::Ohlcv(b)) => a == b,
            _ => false,
        }
    }
}

impl vstd::std_specs::cmp::PartialEqSpecImpl for RecordEnum {
    open spec fn obeys_eq_spec() -> bool {
        true
    }

    open spec fn eq_spec(&self, other: &RecordEnum) -> bool {
        *self == *other
    }
}

impl Record for RecordEnum {
    open spec fn spec_header(&self) -> RecordHeader {
        match self {
            RecordEnum::Mbp1(m) => m.hd,
            RecordEnum::Ohlcv(m) => m.hd,
        }
    }

    fn header(&self) -> (r: &RecordHeader) {
        match self {
            RecordEnum::Mbp1(m) => &m.hd,
            RecordEnum::Ohlcv(m) => &m.hd,
        }
    }
}

impl RecordEnum {
    /// True when the record's own header announces its variant's tag and
    /// frame size.
    pub open spec fn wf(self) -> bool {
        match self {
            RecordEnum::Mbp1(m) => m.wf(),
            RecordEnum::Ohlcv(m) => m.wf(),
        }
    }

    /// The frame bytes this record encodes to.
    pub open spec fn wire(self) -> Seq<u8> {
        match self {
            RecordEnum::Mbp1(m) => m.wire(),
            RecordEnum::Ohlcv(m) => m.wire(),
        }
    }

    /// The byte size of this record's frame.
    pub open spec fn spec_frame_size(self) -> usize {
        match self {
            RecordEnum::Mbp1(_) => MBP1_MSG_SIZE,
            RecordEnum::Ohlcv(_) => OHLCV_MSG_SIZE,
        }
    }

    /// Validates the view's tag and copies the frame into the matching
    /// owned variant; an unsupported or mismatched tag is an error that
    /// names the tag byte.
    pub fn from_ref(rec_ref: RecordRef<'_>) -> (r: Result<RecordEnum, Error>)
        ensures
            rec_ref@.len() >= RECORD_HEADER_SIZE,
            match r {
                Ok(rec) => parse_rec(rec_ref@) == Some(rec) && rec.wf(),
                Err(e) => parse_rec(rec_ref@) is None && e == Error::UnsupportedRType(
                    rec_ref@[1],
                ),
            },
    {
        let h = rec_ref.header();
        if h.rtype == RTYPE_MBP1 {
            match rec_ref.get::<Mbp1Msg>() {
                Some(m) => {
                    proof {
                        Mbp1Msg::lemma_parse_well_formed(rec_ref@.take(MBP1_MSG_SIZE as int));
                    }
                    Ok(RecordEnum::Mbp1(m))
                },
                None => Err(Error::UnsupportedRType(h.rtype)),
            }
        } else if h.rtype == RTYPE_OHLCV {
            match rec_ref.get::<OhlcvMsg>() {
                Some(m) => {
                    proof {
                        OhlcvMsg::lemma_parse_well_formed(rec_ref@.take(OHLCV_MSG_SIZE as int));
                    }
                    Ok(RecordEnum::Ohlcv(m))
                },
                None => Err(Error::UnsupportedRType(h.rtype)),
            }
        } else {
            Err(Error::UnsupportedRType(h.rtype))
        }
    }

    /// A borrowed twin of this record, avoiding the copy.
    pub fn to_ref(&self) -> (r: RecordEnumRef<'_>)
        ensures
            r.to_owned_spec() == *self,
    {
        match self {
            RecordEnum::Mbp1(m) => RecordEnumRef::Mbp1(m),
            RecordEnum::Ohlcv(m) => RecordEnumRef::Ohlcv(m),
        }
    }

    /// Encodes this record into its frame bytes.
    pub fn frame_bytes(&self) -> (r: Vec<u8>)
        ensures
            r@ == self.wire(),
    {
        match self {
            RecordEnum::Mbp1(m) => m.frame_bytes(),
            RecordEnum::Ohlcv(m) => m.frame_bytes(),
        }
    }
}

/// A well-formed record is recovered exactly from its own frame bytes,
/// whose announced and actual sizes agree.
pub proof fn lemma_rec_round_trip(rec: RecordEnum)
    requires
        rec.wf(),
    ensures
        rec.wire().len() == rec.spec_frame_size(),
        RECORD_HEADER_SIZE <= rec.spec_frame_size(),
        rec.wire()[0] as int * 4 == rec.spec_frame_size() as int,
        rec.wire()[1] == rec.spec_header().rtype,
        parse_rec(rec.wire()) == Some(rec),
{
    match rec {
        RecordEnum::Mbp1(m) => {
            m.lemma_wire_round_trip();
            crate::records::lemma_header_wire_len(m.hd);
            assert(m.wire().take(MBP1_MSG_SIZE as int) =~= m.wire());
            assert(m.wire()[0] == m.hd.length);
        },
        RecordEnum::Ohlcv(m) => {
            m.lemma_wire_round_trip();
            crate::records::lemma_header_wire_len(m.hd);
            assert(m.wire().take(OHLCV_MSG_SIZE as int) =~= m.wire());
            assert(m.wire()[0] == m.hd.length);
        },
    }
}

/// The borrowed twin of `RecordEnum`: holds a reference instead of a
/// value.
#[derive(Clone, Copy, Debug)]
pub enum RecordEnumRef<'a> {
    Mbp1(&'a Mbp1Msg),
    Ohlcv(&'a OhlcvMsg),
}

impl<'a> Record for RecordEnumRef<'a> {
    open spec fn spec_header(&self) -> RecordHeader {
        match self {
            RecordEnumRef::Mbp1(m) => m.hd,
            RecordEnumRef::Ohlcv(m) => m.hd,
        }
    }

    fn header(&self) -> (r: &RecordHeader) {
        match self {
            RecordEnumRef::Mbp1(m) => &m.hd,
            RecordEnumRef::Ohlcv(m) => &m.hd,
        }
    }
}

impl<'a> RecordEnumRef<'a> {
    /// The owned record this reference stands for.
    pub open spec fn to_owned_spec(self) -> RecordEnum {
        match self {
            RecordEnumRef::Mbp1(m) => RecordEnum::Mbp1(*m),
            RecordEnumRef::Ohlcv(m) => RecordEnum::Ohlcv(*m),
        }
    }

    /// Copies the referenced record into an owned tagged union.
    pub fn to_owned(&self) -> (r: RecordEnum)
        ensures
            r == self.to_owned_spec(),
    {
        match self {
            RecordEnumRef::Mbp1(m) => RecordEnum::Mbp1(**m),
            RecordEnumRef::Ohlcv(m) => RecordEnum::Ohlcv(**m),
        }
    }
}

/// Whatever parses as a record is well formed: its header announces its
/// variant's tag and exact frame size.
pub proof fn lemma_parse_rec_wf(bytes: Seq<u8>)
    ensures
        parse_rec(bytes) matches Some(rec) ==> rec.wf(),
{
    if bytes.len() >= RECORD_HEADER_SIZE {
        if bytes[1] == RTYPE_MBP1 {
            Mbp1Msg::lemma_parse_well_formed(bytes.take(MBP1_MSG_SIZE as int));
        } else if bytes[1] == RTYPE_OHLCV {
            OhlcvMsg::lemma_parse_well_formed(bytes.take(OHLCV_MSG_SIZE as int));
        }
    }
}

} // verus!
