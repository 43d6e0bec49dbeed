use mbn::decode::RecordDecoder;
use mbn::encode::{CombinedEncoder, MetadataEncoder, RecordEncoder};
use mbn::enums::Schema;
use mbn::metadata::Metadata;
use mbn::record_enum::RecordEnum;
use mbn::record_ref::RecordRef;
use mbn::records::{HasRType, OhlcvMsg, RecordHeader};
use mbn::source::BufferSource;
use mbn::symbols::SymbolMap;

#[test]
fn test_encode_record() {
    let ohlcv_msg = OhlcvMsg {
        hd: RecordHeader::new::<OhlcvMsg>(1, 1622471124),
        open: 100,
        high: 200,
        low: 50,
        close: 150,
        volume: 1000,
    };
    let frame = ohlcv_msg.frame_bytes();
    let record_ref = RecordRef::new(&frame);

    // Test
    let mut encoder = RecordEncoder::new(Vec::new());
    encoder.encode_record(&record_ref).expect("Encoding failed");
    let buffer = encoder.into_inner();

    // Validate
    let mut decoder = RecordDecoder::new(BufferSource::new(buffer));
    let record_ref = decoder.decode_ref().unwrap().unwrap();
    let decoded_record: OhlcvMsg = record_ref.get().unwrap();
    assert_eq!(&decoded_record, &ohlcv_msg);
}

#[test]
fn encode_test_encode_decode_records() {
    let ohlcv_msg1 = OhlcvMsg {
        hd: RecordHeader::new::<OhlcvMsg>(1, 1622471124),
        open: 100000000000,
        high: 200000000000,
        low: 50000000000,
        close: 150000000000,
        volume: 1000,
    };

    let ohlcv_msg2 = OhlcvMsg {
        hd: RecordHeader::new::<OhlcvMsg>(2, 1622471125),
        open: 110000000000,
        high: 210000000000,
        low: 55000000000,
        close: 155000000000,
        volume: 1100,
    };

    let frame1 = ohlcv_msg1.frame_bytes();
    let frame2 = ohlcv_msg2.frame_bytes();
    let record_ref1 = RecordRef::new(&frame1);
    let record_ref2 = RecordRef::new(&frame2);

    // Test
    let mut encoder = RecordEncoder::new(Vec::new());
    encoder
        .encode_records(&[record_ref1, record_ref2])
        .expect("Encoding failed");
    let buffer = encoder.into_inner();

    // Validate
    let mut decoder = RecordDecoder::new(BufferSource::new(buffer));
    let decoded_records = decoder.decode_to_owned().expect("Decoding failed");

    assert_eq!(decoded_records.len(), 2);
    assert_eq!(decoded_records[0], RecordEnum::Ohlcv(ohlcv_msg1));
    assert_eq!(decoded_records[1], RecordEnum::Ohlcv(ohlcv_msg2));
}

#[test]
fn test_encode_metadata() {
    let mut symbol_map = SymbolMap::new();
    symbol_map.add_instrument("AAPL", 1);
    symbol_map.add_instrument("TSLA", 2);

    let metadata = Metadata::new(Schema::Ohlcv1S, 1234567898765, 123456765432, symbol_map);

    // Test
    let mut encoder = MetadataEncoder::new(Vec::new());
    encoder
        .encode_metadata(&metadata)
        .expect("Error metadata encoding.");
    let buffer = encoder.into_inner();

    // Validate
    let decoded = Metadata::deserialize(&buffer).unwrap();
    assert_eq!(decoded.schema, metadata.schema);
    assert_eq!(decoded.start, metadata.start);
    assert_eq!(decoded.end, metadata.end);
    assert_eq!(decoded.mappings, metadata.mappings);
}

#[test]
fn test_encode() {
    // Metadata
    let mut symbol_map = SymbolMap::new();
    symbol_map.add_instrument("AAPL", 1);
    symbol_map.add_instrument("TSLA", 2);

    let metadata = Metadata::new(Schema::Ohlcv1S, 1234567898765, 123456765432, symbol_map);

    // Record
    let ohlcv_msg1 = OhlcvMsg {
        hd: RecordHeader::new::<OhlcvMsg>(1, 1724287878000000000),
        open: 100000000000,
        high: 200000000000,
        low: 50000000000,
        close: 150000000000,
        volume: 1000000000000,
    };

    let ohlcv_msg2 = OhlcvMsg {
        hd: RecordHeader::new::<OhlcvMsg>(2, 1724289878000000000),
        open: 110000000000,
        high: 210000000000,
        low: 55000000000,
        close: 155000000000,
        volume: 1100000000000,
    };

    let frame1 = ohlcv_msg1.frame_bytes();
    let frame2 = ohlcv_msg2.frame_bytes();
    let record_ref1 = RecordRef::new(&frame1);
    let record_ref2 = RecordRef::new(&frame2);
    let records = &[record_ref1, record_ref2];

    // Test
    let mut encoder = CombinedEncoder::new(Vec::new());
    encoder.encode(&metadata, records).expect("Error on encoding");
    let buffer = encoder.into_inner();

    // Validate
    assert!(buffer.len() > 0);
}

#[test]
fn metadata_too_large_for_block_is_rejected() {
    let mut symbol_map = SymbolMap::new();
    let long_ticker: String = std::iter::repeat('X').take(200).collect();
    symbol_map.add_instrument(&long_ticker, 1);

    let metadata = Metadata::new(Schema::Ohlcv1S, 0, 0, symbol_map);

    let mut encoder = MetadataEncoder::new(Vec::new());
    let r = encoder.encode_metadata(&metadata);
    // 1 schema byte + 16 timestamp bytes + 4 count bytes + 8 pair header
    // bytes + 200 ticker bytes.
    assert_eq!(r.unwrap_err(), mbn::error::Error::MetadataOverflow(229));
    assert_eq!(encoder.into_inner().len(), 0);
}
