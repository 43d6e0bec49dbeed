use mbn::decode::{Decoder, MetadataDecoder, RecordDecoder};
use mbn::encode::{CombinedEncoder, MetadataEncoder, RecordEncoder};
use mbn::enums::{RType, Schema};
use mbn::metadata::Metadata;
use mbn::record_enum::RecordEnum;
use mbn::record_ref::RecordRef;
use mbn::records::{HasRType, OhlcvMsg, RecordHeader};
use mbn::source::BufferSource;
use mbn::symbols::SymbolMap;

#[test]
fn test_decode_record() {
    // Create an OhlcvMsg record
    let ohlcv_msg = OhlcvMsg {
        hd: RecordHeader::new::<OhlcvMsg>(1, 1622471124),
        open: 100,
        high: 200,
        low: 50,
        close: 150,
        volume: 1000,
    };

    // Convert the record to its frame bytes
    let data = ohlcv_msg.frame_bytes();

    // Initialize the RecordDecoder over the bytes
    let mut decoder = RecordDecoder::new(BufferSource::new(data));

    // Decode the record
    let result = decoder.decode_to_owned().expect("Error decoding.");

    // Verify the result
    if let Some(RecordEnum::Ohlcv(msg)) = result.get(0) {
        assert_eq!(msg.open, 100);
        assert_eq!(msg.high, 200);
        assert_eq!(msg.low, 50);
        assert_eq!(msg.close, 150);
        assert_eq!(msg.volume, 1000);
    } else {
        panic!("Failed to decode record");
    }
}

#[test]
fn test_decode_record_ref() {
    // Create an OhlcvMsg record
    let ohlcv_msg = OhlcvMsg {
        hd: RecordHeader::new::<OhlcvMsg>(1, 1622471124),
        open: 100,
        high: 200,
        low: 50,
        close: 150,
        volume: 1000,
    };

    // Convert the record to its frame bytes
    let data = ohlcv_msg.frame_bytes();

    // Initialize the RecordDecoder over the bytes
    let mut decoder = RecordDecoder::new(BufferSource::new(data));

    // Decode the record reference
    let result = decoder.decode_ref();

    // Verify the result
    assert!(result.is_ok());
    if let Some(record_ref) = result.unwrap() {
        let header = record_ref.header();
        assert_eq!(header.instrument_id, 1);
        assert_eq!(header.ts_event, 1622471124);
        assert_eq!(header.rtype, RType::Ohlcv.to_u8());
    } else {
        panic!("Failed to decode record reference");
    }
}

#[test]
fn decode_test_encode_decode_records() {
    let ohlcv_msg1 = OhlcvMsg {
        hd: RecordHeader::new::<OhlcvMsg>(1, 1622471124),
        open: 100,
        high: 200,
        low: 50,
        close: 150,
        volume: 1000,
    };

    let ohlcv_msg2 = OhlcvMsg {
        hd: RecordHeader::new::<OhlcvMsg>(2, 1622471125),
        open: 110,
        high: 210,
        low: 55,
        close: 155,
        volume: 1100,
    };

    let frame1 = ohlcv_msg1.frame_bytes();
    let frame2 = ohlcv_msg2.frame_bytes();
    let buffer = {
        let mut encoder = RecordEncoder::new(Vec::new());
        let record_ref1 = RecordRef::new(&frame1);
        let record_ref2 = RecordRef::new(&frame2);
        encoder
            .encode_records(&[record_ref1, record_ref2])
            .expect("Encoding failed");
        encoder.into_inner()
    };

    let mut decoder = RecordDecoder::new(BufferSource::new(buffer));

    let decoded_records: Vec<RecordEnum> = decoder.decode_to_owned().expect("Decoding failed");

    assert_eq!(decoded_records.len(), 2);
    assert_eq!(decoded_records[0], RecordEnum::Ohlcv(ohlcv_msg1));
    assert_eq!(decoded_records[1], RecordEnum::Ohlcv(ohlcv_msg2));
}

#[test]
fn test_decode_metadata() {
    let mut symbol_map = SymbolMap::new();
    symbol_map.add_instrument("AAPL", 1);
    symbol_map.add_instrument("TSLA", 2);

    let metadata = Metadata::new(Schema::Ohlcv1S, 1234567898765, 123456765432, symbol_map);

    let mut encoder = MetadataEncoder::new(Vec::new());
    encoder
        .encode_metadata(&metadata)
        .expect("Error metadata encoding.");
    let buffer = encoder.into_inner();

    // Test
    let mut decoder = MetadataDecoder::new(BufferSource::new(buffer));
    let decoded = decoder.decode().expect("Error decoding metadata.").unwrap();

    // Validate
    assert_eq!(decoded.schema, metadata.schema);
    assert_eq!(decoded.start, metadata.start);
    assert_eq!(decoded.end, metadata.end);
    assert_eq!(decoded.mappings, metadata.mappings);
}

#[test]
fn test_decode() {
    // Metadata
    let mut symbol_map = SymbolMap::new();
    symbol_map.add_instrument("AAPL", 1);
    symbol_map.add_instrument("TSLA", 2);

    let metadata = Metadata::new(Schema::Ohlcv1S, 1234567898765, 123456765432, symbol_map);

    // Record
    let ohlcv_msg1 = OhlcvMsg {
        hd: RecordHeader::new::<OhlcvMsg>(1, 1622471124),
        open: 100,
        high: 200,
        low: 50,
        close: 150,
        volume: 1000,
    };

    let ohlcv_msg2 = OhlcvMsg {
        hd: RecordHeader::new::<OhlcvMsg>(2, 1622471125),
        open: 110,
        high: 210,
        low: 55,
        close: 155,
        volume: 1100,
    };

    let frame1 = ohlcv_msg1.frame_bytes();
    let frame2 = ohlcv_msg2.frame_bytes();
    let record_ref1 = RecordRef::new(&frame1);
    let record_ref2 = RecordRef::new(&frame2);
    let records = &[record_ref1, record_ref2];

    let mut encoder = CombinedEncoder::new(Vec::new());
    encoder.encode(&metadata, records).expect("Error on encoding");
    let buffer = encoder.into_inner();

    // Test
    let mut decoder = Decoder::new(BufferSource::new(buffer)).unwrap();
    let decoded = decoder.decode().expect("Error decoding metadata.");

    // Validate
    assert_eq!(
        decoded,
        [RecordEnum::Ohlcv(ohlcv_msg1), RecordEnum::Ohlcv(ohlcv_msg2)]
    );
}

#[test]
fn test_iter_decode() {
    // Setup
    let ohlcv_msg1 = OhlcvMsg {
        hd: RecordHeader::new::<OhlcvMsg>(1, 1622471124),
        open: 100,
        high: 200,
        low: 50,
        close: 150,
        volume: 1000,
    };

    let ohlcv_msg2 = OhlcvMsg {
        hd: RecordHeader::new::<OhlcvMsg>(2, 1622471125),
        open: 110,
        high: 210,
        low: 55,
        close: 155,
        volume: 1100,
    };

    // Encode
    let frame1 = ohlcv_msg1.frame_bytes();
    let frame2 = ohlcv_msg2.frame_bytes();
    let buffer = {
        let mut encoder = RecordEncoder::new(Vec::new());
        let record_ref1 = RecordRef::new(&frame1);
        let record_ref2 = RecordRef::new(&frame2);
        encoder
            .encode_records(&[record_ref1, record_ref2])
            .expect("Encoding failed");
        encoder.into_inner()
    };

    // Decode
    let decoder = RecordDecoder::new(BufferSource::new(buffer));
    let mut iter = decoder.decode_iterator();

    // Test
    let mut i = 0;
    while let Some(record) = iter.next() {
        match record {
            Ok(record) => {
                // Process the record
                if i == 0 {
                    assert_eq!(record, RecordEnum::Ohlcv(ohlcv_msg1.clone()));
                } else {
                    assert_eq!(record, RecordEnum::Ohlcv(ohlcv_msg2.clone()));
                }
                i = i + 1;
            }
            Err(e) => {
                panic!("Error processing record: {:?}", e);
            }
        }
    }
    assert_eq!(i, 2);
}

#[test]
fn test_encode_decode_records_no_metadata() {
    let ohlcv_msg1 = OhlcvMsg {
        hd: RecordHeader::new::<OhlcvMsg>(1, 1622471124),
        open: 100,
        high: 200,
        low: 50,
        close: 150,
        volume: 1000,
    };

    let ohlcv_msg2 = OhlcvMsg {
        hd: RecordHeader::new::<OhlcvMsg>(2, 1622471125),
        open: 110,
        high: 210,
        low: 55,
        close: 155,
        volume: 1100,
    };

    let frame1 = ohlcv_msg1.frame_bytes();
    let frame2 = ohlcv_msg2.frame_bytes();
    let buffer = {
        let mut encoder = RecordEncoder::new(Vec::new());
        let record_ref1 = RecordRef::new(&frame1);
        let record_ref2 = RecordRef::new(&frame2);
        encoder
            .encode_records(&[record_ref1, record_ref2])
            .expect("Encoding failed");
        encoder.into_inner()
    };

    let mut decoder = Decoder::new(BufferSource::new(buffer)).unwrap();
    assert!(decoder.metadata().is_none());

    let decoded_records: Vec<RecordEnum> = decoder.decode().expect("Decoding failed");
    println!("No Metadata {:?}", decoded_records);

    assert_eq!(decoded_records.len(), 2);
    assert_eq!(decoded_records[0], RecordEnum::Ohlcv(ohlcv_msg1));
    assert_eq!(decoded_records[1], RecordEnum::Ohlcv(ohlcv_msg2));
}

#[test]
fn metadata_equality_ignores_symbol_order() {
    let mut map_a = SymbolMap::new();
    map_a.add_instrument("AAPL", 1);
    map_a.add_instrument("TSLA", 2);
    let mut map_b = SymbolMap::new();
    map_b.add_instrument("TSLA", 2);
    map_b.add_instrument("AAPL", 1);

    let first = Metadata::new(Schema::Ohlcv1S, 10, 20, map_a);
    let second = Metadata::new(Schema::Ohlcv1S, 10, 20, map_b);
    assert_eq!(first, second);
}
