use mbn::enums::{Action, RType, Schema, Side};

#[test]
fn test_side_conv() {
    let side = Side::Ask;

    // u8
    let side_int: u8 = side.to_u8();
    assert_eq!(side_int, 65);

    // From u8
    let new_side = Side::try_from(side_int).unwrap();
    assert_eq!(new_side, Side::Ask);

    // char
    let side_char = side.to_char();
    assert_eq!(side_char.to_string(), "A");
}

#[test]
fn test_action_conv() {
    let action = Action::Modify;

    // u8
    let action_int: u8 = action.to_u8();
    assert_eq!(action_int, 77);

    // From u8
    let new_action = Action::try_from(action_int).unwrap();
    assert_eq!(new_action, Action::Modify);

    // char
    let action_char = action.to_char();
    assert_eq!(action_char.to_string(), "M");
}

#[test]
fn test_schema_conv() {
    let schema = Schema::Mbp1;

    // str
    let schema_str = schema.as_str();
    assert_eq!(schema_str, "mbp-1");

    // From str
    let _: Schema = Schema::from_str(schema_str).unwrap();
}

#[test]
fn test_rtype_conv() {
    let schema = Schema::Ohlcv1S;

    // From Schema
    let rtype = RType::from(schema);
    assert_eq!(rtype.as_str(), "ohlcv");

    // From u8
    let rtype = RType::try_from(0x01).unwrap();
    assert_eq!(rtype.as_str(), RType::Mbp1.as_str());

    // str
    let rtype = RType::Ohlcv;
    let rtype_str = rtype.as_str();
    assert_eq!(rtype_str, "ohlcv");

    // From str
    let _: RType = RType::from_str("ohlcv").unwrap();
}

#[test]
fn side_round_trips_every_byte() {
    for side in [Side::Ask, Side::Bid, Side::Unspecified] {
        assert_eq!(Side::try_from(side.to_u8()).unwrap(), side);
        assert_eq!(side.to_i8() as u8, side.to_u8());
    }
    assert_eq!(Side::try_from(0), Err(mbn::error::Error::Conversion));
}

#[test]
fn action_round_trips_every_byte() {
    for action in [
        Action::Modify,
        Action::Trade,
        Action::Fill,
        Action::Cancel,
        Action::Add,
        Action::Clear,
    ] {
        assert_eq!(Action::try_from(action.to_u8()).unwrap(), action);
    }
    assert_eq!(Action::try_from(1), Err(mbn::error::Error::Conversion));
}

#[test]
fn schema_round_trips_every_name() {
    for schema in [
        Schema::Mbp1,
        Schema::Ohlcv1S,
        Schema::Ohlcv1M,
        Schema::Ohlcv1H,
        Schema::Ohlcv1D,
    ] {
        assert_eq!(Schema::from_str(schema.as_str()).unwrap(), schema);
        assert_eq!(Schema::try_from(schema.to_u8()).unwrap(), schema);
    }
    assert_eq!(Schema::try_from(0), Err(mbn::error::Error::Conversion));
    assert_eq!(Schema::from_str("ohlcv-1y"), Err(mbn::error::Error::Conversion));
}
