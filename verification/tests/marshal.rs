//! Value marshaling: timestamps, fixed-point decimals, enumerations.

use session_bridge::decimal::{from_wire_decimal, to_wire_decimal, Decimal};
use session_bridge::errors::MarshalError;
use session_bridge::timestamp::{from_wire_time, to_wire_time, Timestamp};
use session_bridge::trade::{
    order_type_from_wire, order_type_to_wire, side_from_wire, side_to_wire, tif_from_wire,
    tif_to_wire, OrderSide, OrderType, TimeInForceType,
};

#[test]
fn wire_time_truncates_subseconds() {
    // An instant at 12:00:00.999 truncates to 12:00:00.000.
    let t = Timestamp::new(43_200, 999_000_000).unwrap();
    let wire = to_wire_time(&t);
    assert_eq!(wire, 43_200);
    let back = from_wire_time(wire).unwrap();
    assert_eq!(back.seconds, 43_200);
    assert_eq!(back.nanos, 0);
}

#[test]
fn wire_time_round_trip_is_exact_on_whole_seconds() {
    let t = Timestamp::new(1_546_300_800, 0).unwrap();
    assert_eq!(from_wire_time(to_wire_time(&t)).unwrap(), t);
}

#[test]
fn wire_time_range_bounds() {
    assert!(from_wire_time(253_402_300_799).is_ok());
    assert_eq!(
        from_wire_time(253_402_300_800),
        Err(MarshalError::InvalidTimestamp)
    );
    assert!(from_wire_time(-377_705_116_800).is_ok());
    assert_eq!(
        from_wire_time(-377_705_116_801),
        Err(MarshalError::InvalidTimestamp)
    );
}

#[test]
fn wire_time_range_agrees_with_instant_type() {
    // The library's range is exactly the range of the underlying instant type.
    for secs in [
        253_402_300_799i64,
        253_402_300_800,
        -377_705_116_800,
        -377_705_116_801,
        0,
        1_546_300_800,
    ] {
        assert_eq!(
            from_wire_time(secs).is_ok(),
            time::OffsetDateTime::from_unix_timestamp(secs).is_ok(),
            "disagreement at {secs}"
        );
    }
}

#[test]
fn decimal_round_trip_many_fraction_digits() {
    // More than six significant fractional digits survive exactly.
    let d = Decimal {
        negative: false,
        units: 3,
        nanos: 123_456_789,
    };
    let wire = to_wire_decimal(&d);
    assert_eq!(wire, b"3.123456789".to_vec());
    assert_eq!(from_wire_decimal(&wire), Ok(d));
}

#[test]
fn decimal_round_trip_negative_smallest() {
    let d = Decimal {
        negative: true,
        units: 0,
        nanos: 1,
    };
    let wire = to_wire_decimal(&d);
    assert_eq!(wire, b"-0.000000001".to_vec());
    assert_eq!(from_wire_decimal(&wire), Ok(d));
}

#[test]
fn decimal_round_trip_largest_units() {
    let d = Decimal {
        negative: false,
        units: u64::MAX,
        nanos: 999_999_999,
    };
    let wire = to_wire_decimal(&d);
    assert_eq!(wire, b"18446744073709551615.999999999".to_vec());
    assert_eq!(from_wire_decimal(&wire), Ok(d));
}

#[test]
fn decimal_round_trip_zero() {
    let d = Decimal {
        negative: false,
        units: 0,
        nanos: 0,
    };
    let wire = to_wire_decimal(&d);
    assert_eq!(wire, b"0.000000000".to_vec());
    assert_eq!(from_wire_decimal(&wire), Ok(d));
}

#[test]
fn decimal_rejects_malformed_strings() {
    for bad in [
        &b""[..],
        b"1",
        b"1.5",
        b"1.00000000",
        b"1.0000000000",
        b"01.000000000",
        b"-0.000000000",
        b"+1.000000000",
        b".000000000",
        b"-.000000000",
        b"1,000000000",
        b"18446744073709551616.000000000",
        b"1.00000000a",
        b"--1.000000000",
    ] {
        assert_eq!(
            from_wire_decimal(&bad.to_vec()),
            Err(MarshalError::InvalidDecimal),
            "accepted {:?}",
            String::from_utf8_lossy(bad)
        );
    }
}

#[test]
fn decimal_overflow_boundary_is_exact() {
    let max = b"18446744073709551615.000000000".to_vec();
    assert!(from_wire_decimal(&max).is_ok());
    let over = b"18446744073709551616.000000000".to_vec();
    assert_eq!(from_wire_decimal(&over), Err(MarshalError::InvalidDecimal));
}

#[test]
fn enum_codes_round_trip() {
    for side in [OrderSide::Buy, OrderSide::Sell] {
        assert_eq!(side_from_wire(side_to_wire(&side)), Ok(side));
    }
    for ty in [
        OrderType::LO,
        OrderType::ELO,
        OrderType::MO,
        OrderType::AO,
        OrderType::ALO,
    ] {
        assert_eq!(order_type_from_wire(order_type_to_wire(&ty)), Ok(ty));
    }
    for tif in [
        TimeInForceType::Day,
        TimeInForceType::GoodTilCanceled,
        TimeInForceType::GoodTilDate,
    ] {
        assert_eq!(tif_from_wire(tif_to_wire(&tif)), Ok(tif));
    }
}

#[test]
fn unknown_enum_codes_fail() {
    assert_eq!(side_from_wire(0), Err(MarshalError::UnknownEnumValue));
    assert_eq!(side_from_wire(3), Err(MarshalError::UnknownEnumValue));
    assert_eq!(order_type_from_wire(0), Err(MarshalError::UnknownEnumValue));
    assert_eq!(
        order_type_from_wire(99),
        Err(MarshalError::UnknownEnumValue)
    );
    assert_eq!(tif_from_wire(0), Err(MarshalError::UnknownEnumValue));
    assert_eq!(tif_from_wire(4), Err(MarshalError::UnknownEnumValue));
}
