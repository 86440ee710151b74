//! Session lifecycle: handshake, requests, orders, close.

use session_bridge::bridge::EventCategory;
use session_bridge::correlator::{ExpireOutcome, ResolveOutcome};
use session_bridge::decimal::Decimal;
use session_bridge::errors::{ConnectError, MarshalError, RequestError};
use session_bridge::order::{
    decode_orders, marshal_order, unmarshal_order, OrderValidationError, SubmitOrderOptions,
    WireOrder,
};
use session_bridge::session::{
    decode_balance, Config, ConfigError, ConnState, HandshakeReply, PushEvent, Session,
    SubmitError, WireRequest,
};
use session_bridge::timestamp::Timestamp;
use session_bridge::trade::{OrderSide, OrderType, TimeInForceType};

fn open_session() -> Session {
    let config = Config::new(
        b"wss://example.invalid/session".to_vec(),
        b"SECRET-REDACTED".to_vec(),
        b"ACC-1".to_vec(),
    )
    .unwrap();
    let mut s = Session::connect(&config);
    s.handshake_result(Some(HandshakeReply::Accepted)).unwrap();
    s
}

fn sample_options() -> SubmitOrderOptions {
    SubmitOrderOptions {
        symbol: b"700.HK".to_vec(),
        order_type: OrderType::LO,
        side: OrderSide::Buy,
        quantity: Decimal {
            negative: false,
            units: 500,
            nanos: 0,
        },
        submitted_price: Some(Decimal {
            negative: false,
            units: 50,
            nanos: 0,
        }),
        time_in_force: TimeInForceType::Day,
        remark: b"client order".to_vec(),
    }
}

#[test]
fn config_reports_first_missing_field() {
    assert_eq!(
        Config::new(vec![], b"t".to_vec(), b"a".to_vec()),
        Err(ConfigError::MissingEndpoint)
    );
    assert_eq!(
        Config::new(b"e".to_vec(), vec![], b"a".to_vec()),
        Err(ConfigError::MissingToken)
    );
    assert_eq!(
        Config::new(b"e".to_vec(), b"t".to_vec(), vec![]),
        Err(ConfigError::MissingAccountId)
    );
    assert!(Config::new(b"e".to_vec(), b"t".to_vec(), b"a".to_vec()).is_ok());
}

#[test]
fn handshake_failures_map_exactly() {
    let config = Config::new(b"e".to_vec(), b"t".to_vec(), b"a".to_vec()).unwrap();
    let mut s = Session::connect(&config);
    assert_eq!(s.handshake_result(None), Err(ConnectError::NetworkError));

    let mut s = Session::connect(&config);
    assert_eq!(
        s.handshake_result(Some(HandshakeReply::CredentialsRejected)),
        Err(ConnectError::AuthError)
    );

    let mut s = Session::connect(&config);
    assert_eq!(
        s.handshake_result(Some(HandshakeReply::Malformed)),
        Err(ConnectError::ProtocolError)
    );
    assert_eq!(s.state, ConnState::Closed);
}

#[test]
fn submit_order_marshals_one_message() {
    let mut s = open_session();
    let at = Timestamp::new(1_650_000_000, 250_000_000).unwrap();
    let (id, req) = s.submit_order(sample_options(), &at, 2_000).unwrap();
    assert_eq!(id, 0);
    match req {
        WireRequest::SubmitOrder(w) => {
            assert_eq!(w.symbol, b"700.HK".to_vec());
            assert_eq!(w.side_code, 1);
            assert_eq!(w.type_code, 1);
            assert_eq!(w.quantity, b"500.000000000".to_vec());
            assert_eq!(w.price, Some(b"50.000000000".to_vec()));
            assert_eq!(w.tif_code, 1);
            // Sub-seconds are truncated on the wire, never rounded.
            assert_eq!(w.submitted_at, 1_650_000_000);
        }
        _ => panic!("expected an order submission"),
    }
}

#[test]
fn submit_order_rejects_bad_options() {
    let mut s = open_session();
    let at = Timestamp::new(0, 0).unwrap();

    let mut opts = sample_options();
    opts.quantity = Decimal {
        negative: false,
        units: 0,
        nanos: 0,
    };
    assert_eq!(
        s.submit_order(opts, &at, 100),
        Err(SubmitError::Invalid(
            OrderValidationError::QuantityNotPositive
        ))
    );

    let mut opts = sample_options();
    opts.quantity = Decimal {
        negative: false,
        units: 500,
        nanos: 500_000_000,
    };
    assert_eq!(
        s.submit_order(opts, &at, 100),
        Err(SubmitError::Invalid(
            OrderValidationError::QuantityNotIntegral
        ))
    );

    let mut opts = sample_options();
    opts.submitted_price = None;
    assert_eq!(
        s.submit_order(opts, &at, 100),
        Err(SubmitError::Invalid(
            OrderValidationError::MissingSubmittedPrice
        ))
    );

    let mut opts = sample_options();
    opts.symbol = vec![];
    assert_eq!(
        s.submit_order(opts, &at, 100),
        Err(SubmitError::Invalid(OrderValidationError::EmptySymbol))
    );

    let mut opts = sample_options();
    opts.remark = vec![b'x'; 65];
    assert_eq!(
        s.submit_order(opts, &at, 100),
        Err(SubmitError::Invalid(OrderValidationError::RemarkTooLong))
    );

    let mut opts = sample_options();
    opts.submitted_price = Some(Decimal {
        negative: false,
        units: 0,
        nanos: 0,
    });
    assert_eq!(
        s.submit_order(opts, &at, 100),
        Err(SubmitError::Invalid(OrderValidationError::PriceNotPositive))
    );

    // A market order carries no price and needs none.
    let mut opts = sample_options();
    opts.order_type = OrderType::MO;
    opts.submitted_price = None;
    assert!(s.submit_order(opts, &at, 100).is_ok());
}

#[test]
fn timeout_is_recoverable_and_not_fatal_to_the_session() {
    let mut s = open_session();
    let (id, _) = s.account_balance(100).unwrap();
    assert_eq!(s.expire_request(id, 150), ExpireOutcome::TimedOut);
    // The session stays open and keeps serving requests.
    assert_eq!(s.state, ConnState::Open);
    assert!(s.account_balance(500).is_ok());
    // The late reply for the timed-out request is discarded.
    assert_eq!(s.on_reply(id), ResolveOutcome::Stale);
}

#[test]
fn connection_loss_fails_outstanding_and_closes() {
    let mut s = open_session();
    let (id0, _) = s.today_orders(None, 100).unwrap();
    let (id1, _) = s.account_balance(100).unwrap();
    let failed = s.connection_lost();
    assert_eq!(failed, vec![id0, id1]);
    assert_eq!(s.state, ConnState::Closed);
    assert_eq!(s.account_balance(100), Err(RequestError::SessionClosed));
}

#[test]
fn order_marshal_unmarshal_round_trip() {
    let at = Timestamp::new(1_700_000_000, 999_999_999).unwrap();
    let opts = sample_options();
    let wire = marshal_order(opts, &at);
    let order = unmarshal_order(wire).unwrap();
    assert_eq!(order.symbol, b"700.HK".to_vec());
    assert_eq!(order.side, OrderSide::Buy);
    assert_eq!(order.order_type, OrderType::LO);
    assert_eq!(
        order.quantity,
        Decimal {
            negative: false,
            units: 500,
            nanos: 0
        }
    );
    assert_eq!(
        order.submitted_price,
        Some(Decimal {
            negative: false,
            units: 50,
            nanos: 0
        })
    );
    assert_eq!(order.time_in_force, TimeInForceType::Day);
    assert_eq!(order.remark, b"client order".to_vec());
    // Truncated to whole seconds, zero sub-second component.
    assert_eq!(order.submitted_at.seconds, 1_700_000_000);
    assert_eq!(order.submitted_at.nanos, 0);
}

#[test]
fn unmarshal_rejects_unknown_codes_and_bad_fields() {
    let at = Timestamp::new(0, 0).unwrap();
    let mut w: WireOrder = marshal_order(sample_options(), &at);
    w.side_code = 9;
    assert_eq!(unmarshal_order(w), Err(MarshalError::UnknownEnumValue));

    let mut w = marshal_order(sample_options(), &at);
    w.quantity = b"5.5".to_vec();
    assert_eq!(unmarshal_order(w), Err(MarshalError::InvalidDecimal));

    let mut w = marshal_order(sample_options(), &at);
    w.submitted_at = 253_402_300_800;
    assert_eq!(unmarshal_order(w), Err(MarshalError::InvalidTimestamp));
}

#[test]
fn queries_allocate_fresh_ids_and_fail_after_close() {
    let mut s = open_session();
    let (id0, req0) = s.today_orders(Some(b"700.HK".to_vec()), 500).unwrap();
    assert_eq!(id0, 0);
    assert!(matches!(req0, WireRequest::TodayOrders(Some(_))));
    let (id1, req1) = s.account_balance(500).unwrap();
    assert_eq!(id1, 1);
    assert!(matches!(req1, WireRequest::AccountBalance));

    let failed = s.begin_close();
    assert_eq!(failed, vec![0, 1]);
    s.finish_close();
    assert_eq!(s.state, ConnState::Closed);
    assert_eq!(
        s.today_orders(None, 500),
        Err(RequestError::SessionClosed)
    );
    assert_eq!(s.account_balance(500), Err(RequestError::SessionClosed));
    let at = Timestamp::new(0, 0).unwrap();
    assert_eq!(
        s.submit_order(sample_options(), &at, 500),
        Err(SubmitError::SessionClosed)
    );
    // A late reply for a closed-out request is discarded.
    assert_eq!(s.on_reply(0), ResolveOutcome::Stale);
}

#[test]
fn session_push_path_preserves_category_order() {
    let mut s = open_session();
    s.subscribe(EventCategory::Quote, 11);
    s.on_push(PushEvent {
        category: EventCategory::Quote,
        payload: b"q1".to_vec(),
    });
    s.on_push(PushEvent {
        category: EventCategory::OrderStatus,
        payload: b"o1".to_vec(),
    });
    s.on_push(PushEvent {
        category: EventCategory::Quote,
        payload: b"q2".to_vec(),
    });
    let (h, first) = s.next_push_delivery(EventCategory::Quote).unwrap();
    assert_eq!(h, 11);
    assert_eq!(first.payload, b"q1".to_vec());
    let (_, second) = s.next_push_delivery(EventCategory::Quote).unwrap();
    assert_eq!(second.payload, b"q2".to_vec());
    // Nothing registered for order status: nothing delivered there.
    assert!(s.next_push_delivery(EventCategory::OrderStatus).is_none());
}

#[test]
fn decode_orders_preserves_order_and_rejects_bad_elements() {
    let at = Timestamp::new(100, 0).unwrap();
    let mut opts_a = sample_options();
    opts_a.symbol = b"700.HK".to_vec();
    let mut opts_b = sample_options();
    opts_b.symbol = b"9988.HK".to_vec();
    let wires = vec![
        marshal_order(opts_a, &at),
        marshal_order(opts_b, &at),
    ];
    let orders = decode_orders(wires).unwrap();
    assert_eq!(orders.len(), 2);
    assert_eq!(orders[0].symbol, b"700.HK".to_vec());
    assert_eq!(orders[1].symbol, b"9988.HK".to_vec());

    let mut bad = marshal_order(sample_options(), &at);
    bad.tif_code = 77;
    let wires = vec![marshal_order(sample_options(), &at), bad];
    assert!(decode_orders(wires).is_err());
}

#[test]
fn decode_balance_is_exact_and_never_defaults() {
    let reply = vec![
        (b"HKD".to_vec(), b"10000.500000000".to_vec()),
        (b"USD".to_vec(), b"0.123456789".to_vec()),
    ];
    let balances = decode_balance(reply).unwrap();
    assert_eq!(balances[0].0, b"HKD".to_vec());
    assert_eq!(
        balances[0].1,
        Decimal {
            negative: false,
            units: 10_000,
            nanos: 500_000_000
        }
    );
    assert_eq!(
        balances[1].1,
        Decimal {
            negative: false,
            units: 0,
            nanos: 123_456_789
        }
    );

    // A malformed amount propagates; it never becomes zero.
    let reply = vec![(b"HKD".to_vec(), b"1e3".to_vec())];
    assert_eq!(decode_balance(reply), Err(MarshalError::InvalidDecimal));
}
