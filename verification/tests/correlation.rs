//! Request correlation: permuted replies, timeouts, close semantics.

use session_bridge::correlator::{
    Correlator, ExpireOutcome, PendingRequest, RequestKind, ResolveOutcome,
};
use session_bridge::errors::RequestError;

#[test]
fn replies_in_permuted_order_deliver_exactly_once() {
    let mut c = Correlator::new();
    let a = c.send(RequestKind::SubmitOrder, 1_000).unwrap();
    let b = c.send(RequestKind::SubmitOrder, 1_000).unwrap();
    let d = c.send(RequestKind::SubmitOrder, 1_000).unwrap();
    assert_eq!((a, b, d), (0, 1, 2));
    // Replies arrive out of issue order; correlation is by id alone.
    assert_eq!(
        c.resolve(b),
        ResolveOutcome::Delivered(PendingRequest {
            id: b,
            kind: RequestKind::SubmitOrder,
            deadline: 1_000
        })
    );
    assert!(matches!(c.resolve(d), ResolveOutcome::Delivered(_)));
    assert!(matches!(c.resolve(a), ResolveOutcome::Delivered(_)));
    // Duplicates afterwards are stale, never double-delivered.
    assert_eq!(c.resolve(a), ResolveOutcome::Stale);
    assert_eq!(c.resolve(b), ResolveOutcome::Stale);
    assert_eq!(c.resolve(d), ResolveOutcome::Stale);
}

#[test]
fn unknown_reply_is_discarded() {
    let mut c = Correlator::new();
    let a = c.send(RequestKind::TodayOrders, 10).unwrap();
    assert_eq!(c.resolve(77), ResolveOutcome::Stale);
    // The delivered entry carries the expected response shape.
    assert_eq!(
        c.resolve(a),
        ResolveOutcome::Delivered(PendingRequest {
            id: a,
            kind: RequestKind::TodayOrders,
            deadline: 10
        })
    );
}

#[test]
fn timeout_then_late_reply_is_discarded() {
    let mut c = Correlator::new();
    let id = c.send(RequestKind::AccountBalance, 100).unwrap();
    // Before the deadline nothing happens.
    assert_eq!(c.expire(id, 99), ExpireOutcome::NotDue);
    assert_eq!(c.expire(id, 100), ExpireOutcome::TimedOut);
    // A reply arriving after the timeout is stale: no double resolution.
    assert_eq!(c.resolve(id), ResolveOutcome::Stale);
    assert_eq!(c.expire(id, 200), ExpireOutcome::Unknown);
}

#[test]
fn timeout_surfaces_as_recoverable_request_error() {
    let mut c = Correlator::new();
    let id = c.send(RequestKind::AccountBalance, 100).unwrap();
    let due = c.expire(id, 150);
    assert_eq!(due.to_request_error(), Some(RequestError::RequestTimeout));
    assert_eq!(ExpireOutcome::NotDue.to_request_error(), None);
    assert_eq!(ExpireOutcome::Unknown.to_request_error(), None);
    // The timeout is not fatal: the correlator still serves new requests.
    assert!(c.send(RequestKind::AccountBalance, 300).is_ok());
}

#[test]
fn timeout_does_not_touch_other_requests() {
    let mut c = Correlator::new();
    let a = c.send(RequestKind::SubmitOrder, 50).unwrap();
    let b = c.send(RequestKind::AccountBalance, 500).unwrap();
    assert_eq!(c.expire(a, 60), ExpireOutcome::TimedOut);
    assert!(matches!(c.resolve(b), ResolveOutcome::Delivered(_)));
}

#[test]
fn close_fails_all_outstanding_exactly_once() {
    let mut c = Correlator::new();
    let a = c.send(RequestKind::TodayOrders, 10).unwrap();
    let b = c.send(RequestKind::AccountBalance, 20).unwrap();
    let d = c.send(RequestKind::SubmitOrder, 30).unwrap();
    assert!(matches!(c.resolve(b), ResolveOutcome::Delivered(_)));
    let failed = c.close();
    // Each of the two still-outstanding ids appears exactly once.
    assert_eq!(failed, vec![a, d]);
    // No new request can be issued afterwards.
    assert_eq!(c.send(RequestKind::SubmitOrder, 40), Err(RequestError::SessionClosed));
    // Late replies for the closed-out ids are stale.
    assert_eq!(c.resolve(a), ResolveOutcome::Stale);
    assert_eq!(c.resolve(d), ResolveOutcome::Stale);
}

#[test]
fn close_when_empty_returns_nothing() {
    let mut c = Correlator::new();
    let failed = c.close();
    assert!(failed.is_empty());
    assert_eq!(c.send(RequestKind::SubmitOrder, 1), Err(RequestError::SessionClosed));
}
