use mbn::enums::{Action, RType, Side};
use mbn::record_enum::RecordEnum;
use mbn::record_ref::RecordRef;
use mbn::records::{BidAskPair, HasRType, Mbp1Msg, Record, RecordHeader};

#[test]
fn test_construct_record() {
    // Test
    let record = Mbp1Msg {
        hd: RecordHeader::new::<Mbp1Msg>(1, 1622471124),
        price: 1000,
        size: 10,
        action: Action::Modify.to_i8(),
        side: Side::Bid.to_i8(),
        depth: 0,
        flags: 0,
        ts_recv: 123456789098765,
        ts_in_delta: 12345,
        sequence: 123456,
        levels: [BidAskPair {
            bid_px: 1,
            ask_px: 2,
            bid_sz: 2,
            ask_sz: 2,
            bid_ct: 1,
            ask_ct: 3,
        }],
    };

    // Validate
    let rtype_u8 = record.header().rtype;
    let rtype = RType::try_from(rtype_u8).unwrap();
    assert_eq!(rtype.as_str(), "mbp-1");
}

#[test]
fn test_encode_decode_record_enum() {
    let record_enum = RecordEnum::Mbp1(Mbp1Msg {
        hd: RecordHeader::new::<Mbp1Msg>(1, 1622471124),
        price: 1000,
        size: 10,
        action: 1,
        side: 1,
        depth: 0,
        flags: 0,
        ts_recv: 123456789098765,
        ts_in_delta: 12345,
        sequence: 123456,
        levels: [BidAskPair {
            bid_px: 1,
            ask_px: 2,
            bid_sz: 2,
            ask_sz: 2,
            bid_ct: 1,
            ask_ct: 3,
        }],
    });

    // Test
    let bytes = record_enum.frame_bytes();
    let new_ref = RecordRef::new(&bytes);
    let decoded = RecordEnum::from_ref(new_ref).unwrap();

    // Validate
    assert_eq!(decoded, record_enum);
}

#[test]
fn record_enum_borrowed_twin_round_trips() {
    let record = Mbp1Msg {
        hd: RecordHeader::new::<Mbp1Msg>(9, 1),
        price: -5,
        size: 1,
        action: Action::Trade.to_i8(),
        side: Side::Ask.to_i8(),
        depth: 2,
        flags: 128,
        ts_recv: 2,
        ts_in_delta: -3,
        sequence: 4,
        levels: [BidAskPair {
            bid_px: -1,
            ask_px: 1,
            bid_sz: 0,
            ask_sz: 0,
            bid_ct: 0,
            ask_ct: 0,
        }],
    };
    let owned = RecordEnum::Mbp1(record);
    let borrowed = owned.to_ref();
    assert_eq!(borrowed.header(), owned.header());
    assert_eq!(borrowed.to_owned(), owned);
}

#[test]
fn header_announces_concrete_record_size() {
    let mbp1_header = RecordHeader::new::<Mbp1Msg>(1, 2);
    assert_eq!(mbp1_header.record_size(), 80);
    assert_eq!(mbp1_header.rtype, 1);

    let ohlcv_header = RecordHeader::new::<mbn::records::OhlcvMsg>(1, 2);
    assert_eq!(ohlcv_header.record_size(), 56);
    assert_eq!(ohlcv_header.rtype, 2);
}

#[test]
fn mbp1_frame_layout_is_exact() {
    let record = Mbp1Msg {
        hd: RecordHeader::new::<Mbp1Msg>(0x01020304, 0x1122334455667788),
        price: 2,
        size: 3,
        action: 77,
        side: 66,
        depth: 1,
        flags: 64,
        ts_recv: 4,
        ts_in_delta: 5,
        sequence: 6,
        levels: [BidAskPair {
            bid_px: 7,
            ask_px: 8,
            bid_sz: 9,
            ask_sz: 10,
            bid_ct: 11,
            ask_ct: 12,
        }],
    };
    let bytes = record.frame_bytes();
    assert_eq!(bytes.len(), 80);
    // Header: length byte, type tag, two padding zeros, then the
    // instrument id and the event time, little-endian.
    assert_eq!(&bytes[0..4], &[20, 1, 0, 0]);
    assert_eq!(&bytes[4..8], &[0x04, 0x03, 0x02, 0x01]);
    assert_eq!(
        &bytes[8..16],
        &[0x88, 0x77, 0x66, 0x55, 0x44, 0x33, 0x22, 0x11]
    );
    assert_eq!(bytes[16], 2); // price
    assert_eq!(bytes[24], 3); // size
    assert_eq!(&bytes[28..32], &[77, 66, 1, 64]); // action, side, depth, flags
    assert_eq!(bytes[32], 4); // ts_recv
    assert_eq!(bytes[40], 5); // ts_in_delta
    assert_eq!(bytes[44], 6); // sequence
    assert_eq!(bytes[48], 7); // bid_px
    assert_eq!(bytes[56], 8); // ask_px
    assert_eq!(&bytes[64..80], &[9, 0, 0, 0, 10, 0, 0, 0, 11, 0, 0, 0, 12, 0, 0, 0]);
}

#[test]
fn get_refuses_mismatched_type() {
    let record = mbn::records::OhlcvMsg {
        hd: RecordHeader::new::<mbn::records::OhlcvMsg>(1, 2),
        open: 1,
        high: 2,
        low: 3,
        close: 4,
        volume: 5,
    };
    let bytes = record.frame_bytes();
    let rec_ref = RecordRef::new(&bytes);
    assert!(rec_ref.get::<Mbp1Msg>().is_none());
    assert_eq!(rec_ref.get::<mbn::records::OhlcvMsg>().unwrap(), record);
}
