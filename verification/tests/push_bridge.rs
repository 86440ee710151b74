//! Callback bridge: per-category ordering, unregistration, failures.

use session_bridge::bridge::{CallbackBridge, EventCategory};
use session_bridge::errors::CallbackError;

#[test]
fn events_of_one_category_arrive_in_order() {
    let mut b: CallbackBridge<u32> = CallbackBridge::new();
    b.register(EventCategory::OrderStatus, 7);
    b.push(EventCategory::OrderStatus, 10);
    b.push(EventCategory::OrderStatus, 20);
    b.push(EventCategory::OrderStatus, 30);
    assert_eq!(b.next_delivery(EventCategory::OrderStatus), Some((7, 10)));
    assert_eq!(b.next_delivery(EventCategory::OrderStatus), Some((7, 20)));
    assert_eq!(b.next_delivery(EventCategory::OrderStatus), Some((7, 30)));
    assert_eq!(b.next_delivery(EventCategory::OrderStatus), None);
}

#[test]
fn categories_interleave_independently() {
    let mut b: CallbackBridge<u32> = CallbackBridge::new();
    b.register(EventCategory::OrderStatus, 1);
    b.register(EventCategory::Quote, 2);
    b.push(EventCategory::OrderStatus, 100);
    b.push(EventCategory::Quote, 200);
    b.push(EventCategory::OrderStatus, 101);
    b.push(EventCategory::Quote, 201);
    // Order within each category is kept whatever the interleaving.
    assert_eq!(b.next_delivery(EventCategory::Quote), Some((2, 200)));
    assert_eq!(b.next_delivery(EventCategory::OrderStatus), Some((1, 100)));
    assert_eq!(b.next_delivery(EventCategory::Quote), Some((2, 201)));
    assert_eq!(b.next_delivery(EventCategory::OrderStatus), Some((1, 101)));
}

#[test]
fn no_delivery_without_registration() {
    let mut b: CallbackBridge<u32> = CallbackBridge::new();
    b.push(EventCategory::Depth, 5);
    assert_eq!(b.next_delivery(EventCategory::Depth), None);
    // Events queued before registration are delivered once registered.
    b.register(EventCategory::Depth, 9);
    assert_eq!(b.next_delivery(EventCategory::Depth), Some((9, 5)));
}

#[test]
fn no_delivery_after_unregistration() {
    let mut b: CallbackBridge<u32> = CallbackBridge::new();
    b.register(EventCategory::Quote, 4);
    b.push(EventCategory::Quote, 1);
    b.unregister(EventCategory::Quote);
    assert_eq!(b.next_delivery(EventCategory::Quote), None);
    // A replacement handler receives what stayed queued.
    b.register(EventCategory::Quote, 5);
    assert_eq!(b.next_delivery(EventCategory::Quote), Some((5, 1)));
}

#[test]
fn registering_during_dispatch_is_harmless() {
    let mut b: CallbackBridge<u32> = CallbackBridge::new();
    b.register(EventCategory::OrderStatus, 1);
    b.push(EventCategory::OrderStatus, 10);
    b.push(EventCategory::OrderStatus, 11);
    // Between deliveries the callback registers and unregisters other
    // callbacks; its own category keeps delivering in order.
    assert_eq!(b.next_delivery(EventCategory::OrderStatus), Some((1, 10)));
    b.register(EventCategory::Quote, 2);
    b.unregister(EventCategory::Quote);
    assert_eq!(b.next_delivery(EventCategory::OrderStatus), Some((1, 11)));
}

#[test]
fn callback_failure_does_not_block_next_event() {
    let mut b: CallbackBridge<u32> = CallbackBridge::new();
    b.register(EventCategory::OrderStatus, 3);
    b.push(EventCategory::OrderStatus, 1);
    b.push(EventCategory::OrderStatus, 2);
    // The dispatcher invokes the callback itself; the callee-handled
    // contract hands any failure back to the dispatcher.
    let (_, first) = b.next_delivery(EventCategory::OrderStatus).unwrap();
    let outcome: Result<(), CallbackError> = if first == 1 {
        Err(CallbackError { code: 42 })
    } else {
        Ok(())
    };
    // The failure is observable by the dispatching caller ...
    assert_eq!(outcome, Err(CallbackError { code: 42 }));
    // ... and the next event of the category is still delivered.
    assert_eq!(b.next_delivery(EventCategory::OrderStatus), Some((3, 2)));
}
