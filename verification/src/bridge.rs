//! Delivery of push events to caller-registered callbacks.
//!
//! The bridge holds one registration per event category and one FIFO queue
//! of undelivered events per category.  Delivery preserves arrival order
//! within a category; categories are independent of each other.  A
//! delivery hands out the handler token registered at delivery time, so a
//! callback is never dispatched after its registration is gone.  The
//! outcome a callback reports is returned to the dispatching side and
//! never enters the bridge's state, so a failed callback cannot block the
//! next event of its category.

use vstd::prelude::*;

verus! {

/// Category of a push event.  Ordering is guaranteed within one category
/// only; events of different categories may interleave arbitrarily.
#[derive(Clone, Copy, Debug, PartialEq, Eq, Structural)]
pub enum EventCategory {
    /// Order status changes.
    OrderStatus,
    /// Quote updates.
    Quote,
    /// Order book depth updates.
    Depth,
}

/// The mathematical state of the bridge: the registered handler token and
/// the queue of undelivered events, per category.
pub struct BridgeView<E> {
    /// Handler registered for order status events, if any.
    pub h_order: Option<u64>,
    /// Handler registered for quote events, if any.
    pub h_quote: Option<u64>,
    /// Handler registered for depth events, if any.
    pub h_depth: Option<u64>,
    /// Undelivered order status events, oldest first.
    pub q_order: Seq<E>,
    /// Undelivered quote events, oldest first.
    pub q_quote: Seq<E>,
    /// Undelivered depth events, oldest first.
    pub q_depth: Seq<E>,
}

impl<E> BridgeView<E> {
    /// The handler registered for a category, if any.
    pub open spec fn handler(self, cat: EventCategory) -> Option<u64> {
        match cat {
            EventCategory::OrderStatus => self.h_order,
            EventCategory::Quote => self.h_quote,
            EventCategory::Depth => self.h_depth,
        }
    }

    /// The undelivered events of a category, oldest first.
    pub open spec fn queue(self, cat: EventCategory) -> Seq<E> {
        match cat {
            EventCategory::OrderStatus => self.q_order,
            EventCategory::Quote => self.q_quote,
            EventCategory::Depth => self.q_depth,
        }
    }

    /// The same state with one category's handler replaced.
    pub open spec fn with_handler(self, cat: EventCategory, h: Option<u64>) -> BridgeView<E> {
        match cat {
            EventCategory::OrderStatus => BridgeView { h_order: h, ..self },
            EventCategory::Quote => BridgeView { h_quote: h, ..self },
            EventCategory::Depth => BridgeView { h_depth: h, ..self },
        }
    }

    /// The same state with one category's queue replaced.
    pub open spec fn with_queue(self, cat: EventCategory, q: Seq<E>) -> BridgeView<E> {
        match cat {
            EventCategory::OrderStatus => BridgeView { q_order: q, ..self },
            EventCategory::Quote => BridgeView { q_quote: q, ..self },
            EventCategory::Depth => BridgeView { q_depth: q, ..self },
        }
    }

    /// The state after an event arrives in a category: it joins the back
    /// of that category's queue.
    pub open spec fn pushed(self, cat: EventCategory, ev: E) -> BridgeView<E> {
        self.with_queue(cat, self.queue(cat).push(ev))
    }

    /// The state and result of attempting one delivery in a category: if
    /// a handler is registered and an event is queued, the oldest event
    /// leaves the queue and goes to that handler; otherwise nothing
    /// happens.
    pub open spec fn delivered(self, cat: EventCategory) -> (BridgeView<E>, Option<(u64, E)>) {
        if self.handler(cat) is Some && self.queue(cat).len() > 0 {
            (
                self.with_queue(cat, self.queue(cat).drop_first()),
                Some((self.handler(cat)->0, self.queue(cat)[0])),
            )
        } else {
            (self, None::<(u64, E)>)
        }
    }
}

/// Holds caller registrations and queues push events until the dispatch
/// side delivers them, in arrival order per category.
pub struct CallbackBridge<E> {
    /// Handler registered for order status events, if any.
    pub h_order: Option<u64>,
    /// Handler registered for quote events, if any.
    pub h_quote: Option<u64>,
    /// Handler registered for depth events, if any.
    pub h_depth: Option<u64>,
    /// Undelivered order status events, oldest first.
    pub q_order: Vec<E>,
    /// Undelivered quote events, oldest first.
    pub q_quote: Vec<E>,
    /// Undelivered depth events, oldest first.
    pub q_depth: Vec<E>,
}

impl<E> View for CallbackBridge<E> {
    type V = BridgeView<E>;

    open spec fn view(&self) -> BridgeView<E> {
        BridgeView {
            h_order: self.h_order,
            h_quote: self.h_quote,
            h_depth: self.h_depth,
            q_order: self.q_order@,
            q_quote: self.q_quote@,
            q_depth: self.q_depth@,
        }
    }
}

impl<E> CallbackBridge<E> {
    /// A fresh bridge: nothing registered, nothing queued.
    pub fn new() -> (r: CallbackBridge<E>)
        ensures
            forall|cat: EventCategory| #[trigger] r@.handler(cat) is None,
            forall|cat: EventCategory| (#[trigger] r@.queue(cat)).len() == 0,
    {
        let r = CallbackBridge {
            h_order: None,
            h_quote: None,
            h_depth: None,
            q_order: Vec::new(),
            q_quote: Vec::new(),
            q_depth: Vec::new(),
        };
        proof {
            assert forall|cat: EventCategory| #[trigger] r@.handler(cat) is None by {
                match cat {
                    EventCategory::OrderStatus => {},
                    EventCategory::Quote => {},
                    EventCategory::Depth => {},
                }
            }
            assert forall|cat: EventCategory| (#[trigger] r@.queue(cat)).len() == 0 by {
                match cat {
                    EventCategory::OrderStatus => {},
                    EventCategory::Quote => {},
                    EventCategory::Depth => {},
                }
            }
        }
        r
    }

    /// Registers a handler for a category, replacing any prior one.
    /// Queued events stay; deliveries from now on go to this handler.
    pub fn register(&mut self, cat: EventCategory, handler: u64)
        ensures
            final(self)@ == old(self)@.with_handler(cat, Some(handler)),
    {
        match cat {
            EventCategory::OrderStatus => self.h_order = Some(handler),
            EventCategory::Quote => self.h_quote = Some(handler),
            EventCategory::Depth => self.h_depth = Some(handler),
        }
    }

    /// Removes a category's registration.  No delivery will reach the
    /// removed handler afterwards; events already queued stay queued for
    /// a later registration.
    pub fn unregister(&mut self, cat: EventCategory)
        ensures
            final(self)@ == old(self)@.with_handler(cat, None::<u64>),
            final(self)@.delivered(cat).1 is None,
    {
        match cat {
            EventCategory::OrderStatus => self.h_order = None,
            EventCategory::Quote => self.h_quote = None,
            EventCategory::Depth => self.h_depth = None,
        }
    }

    /// Accepts a push event from the receive path: it joins the back of
    /// its category's queue.  Other categories and all registrations are
    /// untouched.
    pub fn push(&mut self, cat: EventCategory, ev: E)
        ensures
            final(self)@ == old(self)@.pushed(cat, ev),
            forall|c: EventCategory|
                c != cat ==> #[trigger] final(self)@.queue(c) == old(self)@.queue(c),
            forall|c: EventCategory| #[trigger] final(self)@.handler(c) == old(self)@.handler(c),
    {
        match cat {
            EventCategory::OrderStatus => self.q_order.push(ev),
            EventCategory::Quote => self.q_quote.push(ev),
            EventCategory::Depth => self.q_depth.push(ev),
        }
        proof {
            lemma_category_independence(old(self)@, self@, cat);
        }
    }

    /// Takes the next delivery of a category, if one is due: the oldest
    /// queued event together with the handler token registered right now.
    /// Returns nothing when the category has no registration or no queued
    /// event.  Other categories are untouched.
    pub fn next_delivery(&mut self, cat: EventCategory) -> (r: Option<(u64, E)>)
        ensures
            (final(self)@, r) == old(self)@.delivered(cat),
            r is None ==> final(self)@ == old(self)@,
            forall|c: EventCategory|
                c != cat ==> #[trigger] final(self)@.queue(c) == old(self)@.queue(c),
            forall|c: EventCategory| #[trigger] final(self)@.handler(c) == old(self)@.handler(c),
    {
        let handler: u64 = match cat {
            EventCategory::OrderStatus => {
                match self.h_order {
                    Some(h) => h,
                    None => {
                        return None;
                    },
                }
            },
            EventCategory::Quote => {
                match self.h_quote {
                    Some(h) => h,
                    None => {
                        return None;
                    },
                }
            },
            EventCategory::Depth => {
                match self.h_depth {
                    Some(h) => h,
                    None => {
                        return None;
                    },
                }
            },
        };
        let r = match cat {
            EventCategory::OrderStatus => {
                if self.q_order.len() > 0 {
                    Some((handler, self.q_order.remove(0)))
                } else {
                    None
                }
            },
            EventCategory::Quote => {
                if self.q_quote.len() > 0 {
                    Some((handler, self.q_quote.remove(0)))
                } else {
                    None
                }
            },
            EventCategory::Depth => {
                if self.q_depth.len() > 0 {
                    Some((handler, self.q_depth.remove(0)))
                } else {
                    None
                }
            },
        };
        proof {
            if old(self)@.handler(cat) is Some && old(self)@.queue(cat).len() > 0 {
                assert(old(self)@.queue(cat).remove(0) =~= old(self)@.queue(cat).drop_first());
            }
            lemma_category_independence(old(self)@, self@, cat);
        }
        r
    }
}

/// Two bridge states that differ in at most one category's fields agree
/// on every other category's handler and queue.
proof fn lemma_category_independence<E>(v: BridgeView<E>, w: BridgeView<E>, cat: EventCategory)
    requires
        w == v.with_queue(cat, w.queue(cat)) || w == v.with_handler(cat, w.handler(cat)),
    ensures
        forall|c: EventCategory| c != cat ==> #[trigger] w.queue(c) == v.queue(c),
        forall|c: EventCategory| c != cat ==> #[trigger] w.handler(c) == v.handler(c),
        forall|c: EventCategory|
            w == v.with_queue(cat, w.queue(cat)) ==> #[trigger] w.handler(c) == v.handler(c),
{
    assert forall|c: EventCategory| c != cat implies #[trigger] w.queue(c) == v.queue(c) by {
        match c {
            EventCategory::OrderStatus => {},
            EventCategory::Quote => {},
            EventCategory::Depth => {},
        }
    }
    assert forall|c: EventCategory| c != cat implies #[trigger] w.handler(c) == v.handler(c) by {
        match c {
            EventCategory::OrderStatus => {},
            EventCategory::Quote => {},
            EventCategory::Depth => {},
        }
    }
    assert forall|c: EventCategory| w == v.with_queue(cat, w.queue(cat)) implies #[trigger] w.handler(
        c,
    ) == v.handler(c) by {
        match c {
            EventCategory::OrderStatus => {},
            EventCategory::Quote => {},
            EventCategory::Depth => {},
        }
    }
}

/// The state after a number of deliveries in one category.
pub open spec fn delivered_n<E>(v: BridgeView<E>, cat: EventCategory, n: nat) -> BridgeView<E>
    decreases n,
{
    if n == 0 {
        v
    } else {
        delivered_n(v, cat, (n - 1) as nat).delivered(cat).0
    }
}

/// Dispatch preserves arrival order within a category: with a handler
/// registered, the delivery after `k` earlier deliveries hands that
/// handler exactly the `k`-th queued event.
pub proof fn lemma_fifo_delivery_order<E>(v: BridgeView<E>, cat: EventCategory, h: u64, k: int)
    requires
        v.handler(cat) == Some(h),
        0 <= k < v.queue(cat).len(),
    ensures
        delivered_n(v, cat, k as nat).delivered(cat).1 == Some((h, v.queue(cat)[k])),
        delivered_n(v, cat, k as nat).queue(cat) == v.queue(cat).skip(k),
    decreases k,
{
    if k == 0 {
        assert(v.queue(cat).skip(0) =~= v.queue(cat));
    } else {
        lemma_fifo_delivery_order(v, cat, h, k - 1);
        let w = delivered_n(v, cat, (k - 1) as nat);
        lemma_category_independence(w, w.delivered(cat).0, cat);
        assert(w.queue(cat).drop_first() =~= v.queue(cat).skip(k));
        assert(delivered_n(v, cat, k as nat) == w.delivered(cat).0);
        assert(delivered_n(v, cat, k as nat).queue(cat)[0] == v.queue(cat)[k]);
    }
}

/// Push ordering: events submitted to one category are delivered to the
/// handler registered on that category in arrival order.  Starting from
/// an empty queue, three arrivals and three deliveries hand the handler
/// the three events in the order they arrived.
pub proof fn lemma_push_ordering<E>(v: BridgeView<E>, cat: EventCategory, h: u64, a: E, b: E, c: E)
    requires
        v.handler(cat) == Some(h),
        v.queue(cat).len() == 0,
    ensures
        ({
            let after = v.pushed(cat, a).pushed(cat, b).pushed(cat, c);
            let (s1, d1) = after.delivered(cat);
            let (s2, d2) = s1.delivered(cat);
            let (s3, d3) = s2.delivered(cat);
            &&& d1 == Some((h, a))
            &&& d2 == Some((h, b))
            &&& d3 == Some((h, c))
            &&& s3.queue(cat).len() == 0
        }),
{
    let after = v.pushed(cat, a).pushed(cat, b).pushed(cat, c);
    lemma_category_independence(v, v.pushed(cat, a), cat);
    lemma_category_independence(v.pushed(cat, a), v.pushed(cat, a).pushed(cat, b), cat);
    lemma_category_independence(v.pushed(cat, a).pushed(cat, b), after, cat);
    assert(after.queue(cat) =~= seq![a, b, c]);
    assert(after.handler(cat) == Some(h));
    let (s1, d1) = after.delivered(cat);
    lemma_category_independence(after, s1, cat);
    assert(s1.queue(cat) =~= seq![b, c]);
    let (s2, d2) = s1.delivered(cat);
    lemma_category_independence(s1, s2, cat);
    assert(s2.queue(cat) =~= seq![c]);
    let (s3, d3) = s2.delivered(cat);
    assert(s3.queue(cat) =~= Seq::<E>::empty());
}

/// Callback failure does not block a category: the outcome a callback
/// reports is handed back to the dispatching caller and never enters the
/// bridge's state, so after any delivery — failed or not — the next
/// delivery of the same category hands out the following event.
pub proof fn lemma_callback_failure_does_not_block<E>(v: BridgeView<E>, cat: EventCategory, h: u64)
    requires
        v.handler(cat) == Some(h),
        v.queue(cat).len() >= 2,
    ensures
        v.delivered(cat).1 == Some((h, v.queue(cat)[0])),
        v.delivered(cat).0.delivered(cat).1 == Some((h, v.queue(cat)[1])),
{
    let (s1, d1) = v.delivered(cat);
    lemma_category_independence(v, s1, cat);
    assert(s1.queue(cat)[0] == v.queue(cat)[1]);
}

} // verus!
