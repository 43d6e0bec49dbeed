use mbn::decode::{Decoder, RecordDecoder};
use mbn::encode::{CombinedEncoder, RecordEncoder};
use mbn::enums::Schema;
use mbn::error::Error;
use mbn::metadata::Metadata;
use mbn::record_enum::RecordEnum;
use mbn::record_ref::RecordRef;
use mbn::records::{BidAskPair, HasRType, Mbp1Msg, OhlcvMsg, RecordHeader};
use mbn::source::BufferSource;
use mbn::symbols::SymbolMap;

fn sample_bar(instrument_id: u32, ts_event: u64) -> OhlcvMsg {
    OhlcvMsg {
        hd: RecordHeader::new::<OhlcvMsg>(instrument_id, ts_event),
        open: 100,
        high: 200,
        low: 50,
        close: 150,
        volume: 1000,
    }
}

#[test]
fn test_integration_test() {
    // Metadata
    let mut symbol_map = SymbolMap::new();
    symbol_map.add_instrument("AAPL", 1);
    symbol_map.add_instrument("TSLA", 2);

    let metadata = Metadata::new(Schema::Mbp1, 1234567898765, 123456765432, symbol_map);

    // Record
    let record1 = Mbp1Msg {
        hd: RecordHeader::new::<Mbp1Msg>(1, 1622471124),
        price: 1000,
        size: 10,
        action: 1,
        side: 1,
        depth: 0,
        flags: 0,
        ts_recv: 123456789098765,
        ts_in_delta: 12345,
        sequence: 123456,
        levels: [BidAskPair {
            bid_px: 1,
            ask_px: 2,
            bid_sz: 2,
            ask_sz: 2,
            bid_ct: 1,
            ask_ct: 3,
        }],
    };

    let record2 = record1.clone();

    let frame1 = record1.frame_bytes();
    let frame2 = record2.frame_bytes();
    let record_ref1 = RecordRef::new(&frame1);
    let record_ref2 = RecordRef::new(&frame2);
    let records = &[record_ref1, record_ref2];

    let mut encoder = CombinedEncoder::new(Vec::new());
    encoder.encode(&metadata, records).expect("Error on encoding");
    let buffer = encoder.into_inner();

    // Test
    let mut decoder = Decoder::new(BufferSource::new(buffer)).unwrap();
    let decoded_metadata = decoder.metadata();
    let decoded = decoder.decode().expect("Error decoding metadata.");

    // Validate
    assert_eq!(decoded_metadata.unwrap(), metadata);
    assert_eq!(
        decoded,
        [RecordEnum::Mbp1(record1), RecordEnum::Mbp1(record2)]
    );
}

#[test]
fn empty_source_decodes_to_no_records() {
    let mut decoder = RecordDecoder::new(BufferSource::new(Vec::new()));
    let records = decoder.decode_to_owned().unwrap();
    assert!(records.is_empty());

    let mut combined = Decoder::new(BufferSource::new(Vec::new())).unwrap();
    assert!(combined.metadata().is_none());
    assert!(combined.decode().unwrap().is_empty());
}

#[test]
fn short_length_byte_is_a_malformed_frame() {
    // 3 maps to 12 bytes, fewer than one header.
    let mut decoder = RecordDecoder::new(BufferSource::new(vec![3, 0, 0, 0]));
    let err = decoder.decode_to_owned().unwrap_err();
    assert_eq!(err, Error::MalformedFrame(3));

    let mut decoder = RecordDecoder::new(BufferSource::new(vec![3, 0, 0, 0]));
    let err = decoder.decode_ref().unwrap_err();
    assert_eq!(err, Error::MalformedFrame(3));
}

#[test]
fn stream_ending_on_frame_boundary_ends_cleanly() {
    let bar = sample_bar(1, 7);
    let buffer = bar.frame_bytes();

    let mut decoder = RecordDecoder::new(BufferSource::new(buffer));
    let records = decoder.decode_to_owned().unwrap();
    assert_eq!(records, vec![RecordEnum::Ohlcv(bar)]);
}

#[test]
fn stream_ending_mid_frame_ends_cleanly() {
    let bar = sample_bar(1, 7);
    let mut buffer = bar.frame_bytes();
    // A second frame starts (length byte 14 maps to 56 bytes) but the
    // stream stops after ten of its bytes.
    buffer.extend_from_slice(&[14, 2, 0, 0, 1, 0, 0, 0, 9, 9]);

    let mut decoder = RecordDecoder::new(BufferSource::new(buffer));
    let records = decoder.decode_to_owned().unwrap();
    assert_eq!(records, vec![RecordEnum::Ohlcv(bar)]);
}

#[test]
fn unsupported_rtype_fails_conversion_but_not_framing() {
    // A well-framed 16-byte record whose type tag is 9.
    let frame: Vec<u8> = vec![4, 9, 0, 0, 1, 0, 0, 0, 0, 0, 0, 0, 0, 0, 0, 0];

    // decode_ref alone succeeds: the view checks no semantic type.
    let mut decoder = RecordDecoder::new(BufferSource::new(frame.clone()));
    let rec_ref = decoder.decode_ref().unwrap().unwrap();
    assert_eq!(rec_ref.header().rtype, 9);
    assert_eq!(RecordEnum::from_ref(rec_ref).unwrap_err(), Error::UnsupportedRType(9));

    // The owned batch decode aborts, naming the byte.
    let mut decoder = RecordDecoder::new(BufferSource::new(frame));
    assert_eq!(decoder.decode_to_owned().unwrap_err(), Error::UnsupportedRType(9));
}

#[test]
fn two_bars_round_trip_without_metadata() {
    let bar1 = sample_bar(1, 1000);
    let bar2 = sample_bar(2, 2000);

    let frame1 = bar1.frame_bytes();
    let frame2 = bar2.frame_bytes();
    let buffer = {
        let mut encoder = RecordEncoder::new(Vec::new());
        encoder
            .encode_records(&[RecordRef::new(&frame1), RecordRef::new(&frame2)])
            .unwrap();
        encoder.into_inner()
    };

    let mut decoder = Decoder::new(BufferSource::new(buffer)).unwrap();
    assert!(decoder.metadata().is_none());
    let records = decoder.decode().unwrap();
    assert_eq!(
        records,
        vec![RecordEnum::Ohlcv(bar1), RecordEnum::Ohlcv(bar2)]
    );
}

#[test]
fn iterator_yields_same_results_as_batch_decode() {
    let bar1 = sample_bar(1, 1000);
    let bar2 = sample_bar(2, 2000);
    let frame1 = bar1.frame_bytes();
    let frame2 = bar2.frame_bytes();

    // A clean stream and a stream ending in an unsupported frame.
    for bad_tail in [false, true] {
        let buffer = {
            let mut encoder = RecordEncoder::new(Vec::new());
            encoder
                .encode_records(&[RecordRef::new(&frame1), RecordRef::new(&frame2)])
                .unwrap();
            let mut b = encoder.into_inner();
            if bad_tail {
                b.extend_from_slice(&[4, 9, 0, 0, 1, 0, 0, 0, 0, 0, 0, 0, 0, 0, 0, 0]);
            }
            b
        };

        let mut batch_decoder = RecordDecoder::new(BufferSource::new(buffer.clone()));
        let batch = batch_decoder.decode_to_owned();

        let decoder = RecordDecoder::new(BufferSource::new(buffer));
        let mut iter = decoder.decode_iterator();
        let mut iter_records: Vec<RecordEnum> = Vec::new();
        let mut iter_error: Option<Error> = None;
        while let Some(item) = iter.next() {
            match item {
                Ok(rec) => iter_records.push(rec),
                Err(e) => iter_error = Some(e),
            }
        }

        match batch {
            Ok(records) => {
                assert_eq!(iter_records, records);
                assert!(iter_error.is_none());
            }
            Err(e) => {
                assert_eq!(iter_error, Some(e));
                assert_eq!(iter_records, vec![
                    RecordEnum::Ohlcv(bar1.clone()),
                    RecordEnum::Ohlcv(bar2.clone()),
                ]);
            }
        }
    }
}

#[test]
fn container_with_metadata_round_trips_exactly() {
    let mut symbol_map = SymbolMap::new();
    symbol_map.add_instrument("AAPL", 1);
    symbol_map.add_instrument("TSLA", 2);
    let metadata = Metadata::new(Schema::Ohlcv1S, 1234567898765, 123456765432, symbol_map);

    let bar1 = sample_bar(1, 1622471124);
    let bar2 = sample_bar(2, 1622471125);
    let frame1 = bar1.frame_bytes();
    let frame2 = bar2.frame_bytes();

    let mut encoder = CombinedEncoder::new(Vec::new());
    encoder
        .encode(&metadata, &[RecordRef::new(&frame1), RecordRef::new(&frame2)])
        .unwrap();
    let buffer = encoder.into_inner();

    let mut decoder = Decoder::new(BufferSource::new(buffer)).unwrap();
    let decoded_metadata = decoder.metadata().unwrap();
    assert_eq!(decoded_metadata.schema, Schema::Ohlcv1S);
    assert_eq!(decoded_metadata.start, 1234567898765);
    assert_eq!(decoded_metadata.end, 123456765432);
    assert_eq!(decoded_metadata.mappings.get_instrument_ticker(1).unwrap(), "AAPL");
    assert_eq!(decoded_metadata.mappings.get_instrument_ticker(2).unwrap(), "TSLA");
    assert_eq!(decoded_metadata, metadata);

    let records = decoder.decode().unwrap();
    assert_eq!(
        records,
        vec![RecordEnum::Ohlcv(bar1), RecordEnum::Ohlcv(bar2)]
    );
}

#[test]
fn decoded_record_sizes_match_their_types() {
    let bar = sample_bar(1, 5);
    let frame = bar.frame_bytes();
    let buffer = {
        let mut encoder = RecordEncoder::new(Vec::new());
        encoder.encode_records(&[RecordRef::new(&frame)]).unwrap();
        encoder.into_inner()
    };
    let mut decoder = RecordDecoder::new(BufferSource::new(buffer));
    for record in decoder.decode_to_owned().unwrap() {
        match record {
            RecordEnum::Ohlcv(msg) => assert_eq!(msg.hd.record_size(), 56),
            RecordEnum::Mbp1(msg) => assert_eq!(msg.hd.record_size(), 80),
        }
    }
}
