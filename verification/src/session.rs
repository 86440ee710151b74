//! Session lifecycle: one authenticated connection, its in-flight
//! requests, and its push subscriptions.
//!
//! The session is a state machine; the surrounding runtime performs the
//! I/O and hands outcomes back.  Requests are correlated by identifier
//! through the correlator; push events go through the callback bridge.
//! Closing fails every outstanding request with `SessionClosed` exactly
//! once, and no request can be issued afterwards.

use vstd::prelude::*;
use crate::bridge::{CallbackBridge, EventCategory};
use crate::correlator::{Correlator, ExpireOutcome, RequestKind, ResolveOutcome};
use crate::errors::{ConnectError, RequestError};
use crate::order::{marshal_order, OrderValidationError, SubmitOrderOptions, WireOrder};
use crate::timestamp::{spec_to_wire, Timestamp};
use crate::trade::{spec_order_type_code, spec_side_code, spec_tif_code};

verus! {

/// Why a configuration cannot be used: surfaced before any connection
/// attempt.
#[derive(Clone, Copy, Debug, PartialEq, Eq, Structural)]
pub enum ConfigError {
    /// No endpoint address was supplied.
    MissingEndpoint,
    /// No access token was supplied.
    MissingToken,
    /// No account identifier was supplied.
    MissingAccountId,
}

/// Immutable connection settings: endpoint, credential token, account.
#[derive(Debug, PartialEq, Eq)]
pub struct Config {
    /// Endpoint address of the brokerage backend.
    pub endpoint: Vec<u8>,
    /// Access token presented during the handshake.
    pub token: Vec<u8>,
    /// Account identifier the session acts for.
    pub account_id: Vec<u8>,
}

impl Config {
    /// Builds a configuration; each field must be non-empty, and the
    /// first missing one is reported before any connection attempt.
    pub fn new(endpoint: Vec<u8>, token: Vec<u8>, account_id: Vec<u8>) -> (r: Result<
        Config,
        ConfigError,
    >)
        ensures
            endpoint@.len() == 0 ==> r == Err::<Config, ConfigError>(ConfigError::MissingEndpoint),
            endpoint@.len() > 0 && token@.len() == 0 ==> r == Err::<Config, ConfigError>(
                ConfigError::MissingToken,
            ),
            endpoint@.len() > 0 && token@.len() > 0 && account_id@.len() == 0 ==> r == Err::<
                Config,
                ConfigError,
            >(ConfigError::MissingAccountId),
            endpoint@.len() > 0 && token@.len() > 0 && account_id@.len() > 0 ==> (r matches Ok(c)
                && c.endpoint@ == endpoint@ && c.token@ == token@ && c.account_id@
                == account_id@),
    {
        if endpoint.len() == 0 {
            Err(ConfigError::MissingEndpoint)
        } else if token.len() == 0 {
            Err(ConfigError::MissingToken)
        } else if account_id.len() == 0 {
            Err(ConfigError::MissingAccountId)
        } else {
            Ok(Config { endpoint, token, account_id })
        }
    }
}

/// Connection state of a session.
#[derive(Clone, Copy, Debug, PartialEq, Eq, Structural)]
pub enum ConnState {
    /// Handshake in progress; no requests yet.
    Connecting,
    /// Authenticated and serving requests.
    Open,
    /// Teardown started: requests refused, connection not yet released.
    Closing,
    /// Connection released; requests refused.
    Closed,
}

/// What the backend answered during the handshake.
#[derive(Clone, Copy, Debug, PartialEq, Eq, Structural)]
pub enum HandshakeReply {
    /// Credentials accepted; the session is open.
    Accepted,
    /// Credentials rejected.
    CredentialsRejected,
    /// The reply had an unexpected shape.
    Malformed,
}

/// A push event as received: its category and its decoded payload bytes.
pub struct PushEvent {
    /// Which category the event belongs to.
    pub category: EventCategory,
    /// Event payload.
    pub payload: Vec<u8>,
}

/// Why a submission failed locally, before reaching the backend.
#[derive(Clone, Copy, Debug, PartialEq, Eq, Structural)]
pub enum SubmitError {
    /// The session is not open: issued after close, during teardown, or
    /// before the handshake finished.
    SessionClosed,
    /// The options were rejected by validation.
    Invalid(OrderValidationError),
}

/// A request as it leaves the session, tagged for the transport.
#[derive(Debug, PartialEq, Eq)]
pub enum WireRequest {
    /// Submit one order.
    SubmitOrder(WireOrder),
    /// List the day's orders, optionally filtered by symbol.
    TodayOrders(Option<Vec<u8>>),
    /// Fetch currency-keyed balances.
    AccountBalance,
}

/// One authenticated session: connection state, request correlation,
/// and push subscriptions.
pub struct Session {
    /// Connection state.
    pub state: ConnState,
    /// Pairs outbound requests with inbound replies.
    pub correlator: Correlator,
    /// Holds push registrations and queued events.
    pub bridge: CallbackBridge<PushEvent>,
}

impl Session {
    /// Well-formedness: the correlator is well-formed, and once teardown
    /// has begun the correlator is closed, so nothing can be issued.
    pub open spec fn wf(self) -> bool {
        &&& self.correlator@.wf()
        &&& (self.state == ConnState::Closing || self.state == ConnState::Closed)
            ==> self.correlator@.closed
        &&& self.state == ConnState::Open ==> !self.correlator@.closed
        &&& self.state == ConnState::Connecting ==> self.correlator@.pending.len() == 0
            && !self.correlator@.closed
    }

    /// A fresh session in the middle of its handshake.  The transport
    /// dials and authenticates with the configuration; the session
    /// tracks the outcome through `handshake_result`.
    pub fn connect(_config: &Config) -> (r: Session)
        ensures
            r.wf(),
            r.state == ConnState::Connecting,
            r.correlator@.pending.len() == 0,
            !r.correlator@.closed,
            forall|cat: EventCategory| #[trigger] r.bridge@.handler(cat) is None,
            forall|cat: EventCategory| (#[trigger] r.bridge@.queue(cat)).len() == 0,
    {
        Session {
            state: ConnState::Connecting,
            correlator: Correlator::new(),
            bridge: CallbackBridge::new(),
        }
    }

    /// Applies the handshake outcome.  No reply at all is a network
    /// failure; a rejection is an authentication failure; a malformed
    /// reply is a protocol failure.  Exactly on acceptance the session
    /// opens; on any failure it is closed and unusable.
    pub fn handshake_result(&mut self, reply: Option<HandshakeReply>) -> (r: Result<
        (),
        ConnectError,
    >)
        requires
            old(self).wf(),
            old(self).state == ConnState::Connecting,
        ensures
            final(self).wf(),
            final(self).bridge == old(self).bridge,
            reply == Some(HandshakeReply::Accepted) ==> r == Ok::<(), ConnectError>(())
                && final(self).state == ConnState::Open && final(self).correlator == old(
                self,
            ).correlator,
            reply is None ==> r == Err::<(), ConnectError>(ConnectError::NetworkError),
            reply == Some(HandshakeReply::CredentialsRejected) ==> r == Err::<(), ConnectError>(
                ConnectError::AuthError,
            ),
            reply == Some(HandshakeReply::Malformed) ==> r == Err::<(), ConnectError>(
                ConnectError::ProtocolError,
            ),
            r is Err ==> final(self).state == ConnState::Closed,
    {
        match reply {
            Some(HandshakeReply::Accepted) => {
                self.state = ConnState::Open;
                Ok(())
            },
            Some(HandshakeReply::CredentialsRejected) => {
                self.state = ConnState::Closed;
                let _ = self.correlator.close();
                Err(ConnectError::AuthError)
            },
            Some(HandshakeReply::Malformed) => {
                self.state = ConnState::Closed;
                let _ = self.correlator.close();
                Err(ConnectError::ProtocolError)
            },
            None => {
                self.state = ConnState::Closed;
                let _ = self.correlator.close();
                Err(ConnectError::NetworkError)
            },
        }
    }

    /// Submits an order: validates the options, allocates a fresh
    /// request identifier with the given deadline, and marshals exactly
    /// one wire message.  Fails with `SessionClosed` without side effect
    /// when the session is not open, and with the first validation error
    /// when the options are bad.
    pub fn submit_order(
        &mut self,
        opts: SubmitOrderOptions,
        submitted_at: &Timestamp,
        deadline: i64,
    ) -> (r: Result<(u64, WireRequest), SubmitError>)
        requires
            old(self).wf(),
            old(self).correlator@.next_id < u64::MAX,
            opts.wf(),
        ensures
            final(self).wf(),
            final(self).bridge == old(self).bridge,
            final(self).state == old(self).state,
            old(self).state != ConnState::Open ==> r == Err::<(u64, WireRequest), SubmitError>(
                SubmitError::SessionClosed,
            ) && final(self).correlator == old(self).correlator,
            (old(self).state == ConnState::Open && opts.spec_validate() is Err) ==> (r == Err::<
                (u64, WireRequest),
                SubmitError,
            >(SubmitError::Invalid(opts.spec_validate()->Err_0)) && final(self).correlator == old(
                self,
            ).correlator),
            old(self).state == ConnState::Open && opts.spec_validate() is Ok ==> ({
                &&& r matches Ok((id, req))
                &&& id == old(self).correlator@.next_id
                &&& !old(self).correlator@.is_pending(id)
                &&& final(self).correlator@ == old(self).correlator@.sent(
                    RequestKind::SubmitOrder,
                    deadline,
                )
                &&& final(self).correlator@.is_pending(id)
                &&& req matches WireRequest::SubmitOrder(w)
                &&& w.side_code == spec_side_code(opts.side)
                &&& w.type_code == spec_order_type_code(opts.order_type)
                &&& w.quantity@ == crate::decimal::spec_decimal_str(opts.quantity)
                &&& (opts.submitted_price matches Some(p) ==> w.price matches Some(ps) && ps@
                    == crate::decimal::spec_decimal_str(p))
                &&& (opts.submitted_price is None ==> w.price is None)
                &&& w.tif_code == spec_tif_code(opts.time_in_force)
                &&& w.symbol@ == opts.symbol@
                &&& w.remark@ == opts.remark@
                &&& w.submitted_at == spec_to_wire(*submitted_at)
            }),
    {
        if !matches!(self.state, ConnState::Open) {
            return Err(SubmitError::SessionClosed);
        }
        match opts.validate() {
            Ok(()) => (),
            Err(e) => {
                return Err(SubmitError::Invalid(e));
            },
        }
        let id = match self.correlator.send(RequestKind::SubmitOrder, deadline) {
            Ok(id) => id,
            Err(_) => {
                proof {
                    assert(false);
                }
                return Err(SubmitError::SessionClosed);
            },
        };
        let wire = marshal_order(opts, submitted_at);
        Ok((id, WireRequest::SubmitOrder(wire)))
    }

    /// Issues a query for the day's orders, optionally filtered.
    /// Allocates a fresh identifier like `submit_order`; fails with
    /// `SessionClosed` without side effect when the session is not open.
    pub fn today_orders(&mut self, filter: Option<Vec<u8>>, deadline: i64) -> (r: Result<
        (u64, WireRequest),
        RequestError,
    >)
        requires
            old(self).wf(),
            old(self).correlator@.next_id < u64::MAX,
        ensures
            final(self).wf(),
            final(self).bridge == old(self).bridge,
            final(self).state == old(self).state,
            old(self).state != ConnState::Open ==> r == Err::<(u64, WireRequest), RequestError>(
                RequestError::SessionClosed,
            ) && final(self).correlator == old(self).correlator,
            old(self).state == ConnState::Open ==> ({
                &&& r matches Ok((id, req))
                &&& id == old(self).correlator@.next_id
                &&& final(self).correlator@ == old(self).correlator@.sent(
                    RequestKind::TodayOrders,
                    deadline,
                )
                &&& final(self).correlator@.is_pending(id)
                &&& req matches WireRequest::TodayOrders(f) && (filter matches Some(v) ==> f
                    matches Some(g) && g@ == v@) && (filter is None ==> f is None)
            }),
    {
        if !matches!(self.state, ConnState::Open) {
            return Err(RequestError::SessionClosed);
        }
        let id = match self.correlator.send(RequestKind::TodayOrders, deadline) {
            Ok(id) => id,
            Err(e) => {
                proof {
                    assert(false);
                }
                return Err(e);
            },
        };
        Ok((id, WireRequest::TodayOrders(filter)))
    }

    /// Issues a balance query.  Allocates a fresh identifier; fails with
    /// `SessionClosed` without side effect when the session is not open.
    pub fn account_balance(&mut self, deadline: i64) -> (r: Result<
        (u64, WireRequest),
        RequestError,
    >)
        requires
            old(self).wf(),
            old(self).correlator@.next_id < u64::MAX,
        ensures
            final(self).wf(),
            final(self).bridge == old(self).bridge,
            final(self).state == old(self).state,
            old(self).state != ConnState::Open ==> r == Err::<(u64, WireRequest), RequestError>(
                RequestError::SessionClosed,
            ) && final(self).correlator == old(self).correlator,
            old(self).state == ConnState::Open ==> ({
                &&& r matches Ok((id, req))
                &&& id == old(self).correlator@.next_id
                &&& final(self).correlator@ == old(self).correlator@.sent(
                    RequestKind::AccountBalance,
                    deadline,
                )
                &&& final(self).correlator@.is_pending(id)
                &&& req is AccountBalance
            }),
    {
        if !matches!(self.state, ConnState::Open) {
            return Err(RequestError::SessionClosed);
        }
        let id = match self.correlator.send(RequestKind::AccountBalance, deadline) {
            Ok(id) => id,
            Err(e) => {
                proof {
                    assert(false);
                }
                return Err(e);
            },
        };
        Ok((id, WireRequest::AccountBalance))
    }

    /// Hands the session a reply from the receive path; correlation is
    /// by identifier alone.  A reply for anything not outstanding —
    /// duplicate, timed out, cancelled or never issued — is discarded.
    pub fn on_reply(&mut self, id: u64) -> (r: ResolveOutcome)
        requires
            old(self).wf(),
        ensures
            final(self).wf(),
            final(self).bridge == old(self).bridge,
            final(self).state == old(self).state,
            (final(self).correlator@, r) == old(self).correlator@.resolved(id),
            r is Delivered <==> old(self).correlator@.is_pending(id),
            !final(self).correlator@.is_pending(id),
            forall|other: u64|
                other != id ==> #[trigger] final(self).correlator@.is_pending(other) == old(
                    self,
                ).correlator@.is_pending(other),
    {
        self.correlator.resolve(id)
    }

    /// Checks one outstanding request against the clock; an elapsed
    /// deadline fails it with a timeout and removes it, so a later reply
    /// is discarded.  Timeout is recoverable: the session stays as it is.
    pub fn expire_request(&mut self, id: u64, now: i64) -> (r: ExpireOutcome)
        requires
            old(self).wf(),
        ensures
            final(self).wf(),
            final(self).bridge == old(self).bridge,
            final(self).state == old(self).state,
            (final(self).correlator@, r) == old(self).correlator@.expired(id, now),
            r == ExpireOutcome::TimedOut ==> !final(self).correlator@.is_pending(id),
            r != ExpireOutcome::TimedOut ==> final(self).correlator@ == old(self).correlator@,
    {
        self.correlator.expire(id, now)
    }

    /// Registers the handler for a push category, replacing any prior
    /// one.
    pub fn subscribe(&mut self, cat: EventCategory, handler: u64)
        requires
            old(self).wf(),
        ensures
            final(self).wf(),
            final(self).state == old(self).state,
            final(self).correlator == old(self).correlator,
            final(self).bridge@ == old(self).bridge@.with_handler(cat, Some(handler)),
    {
        self.bridge.register(cat, handler)
    }

    /// Drops the handler of a push category; no delivery will reach it
    /// afterwards.
    pub fn unsubscribe(&mut self, cat: EventCategory)
        requires
            old(self).wf(),
        ensures
            final(self).wf(),
            final(self).state == old(self).state,
            final(self).correlator == old(self).correlator,
            final(self).bridge@ == old(self).bridge@.with_handler(cat, None::<u64>),
            final(self).bridge@.delivered(cat).1 is None,
    {
        self.bridge.unregister(cat)
    }

    /// Accepts a push event from the receive path into its category's
    /// queue; other categories are untouched.
    pub fn on_push(&mut self, ev: PushEvent)
        requires
            old(self).wf(),
        ensures
            final(self).wf(),
            final(self).state == old(self).state,
            final(self).correlator == old(self).correlator,
            final(self).bridge@ == old(self).bridge@.pushed(ev.category, ev),
            forall|c: EventCategory|
                c != ev.category ==> #[trigger] final(self).bridge@.queue(c) == old(
                    self,
                ).bridge@.queue(c),
    {
        let cat = ev.category;
        self.bridge.push(cat, ev)
    }

    /// Takes the next due push delivery of a category: the oldest queued
    /// event with the currently registered handler token, if both exist.
    pub fn next_push_delivery(&mut self, cat: EventCategory) -> (r: Option<(u64, PushEvent)>)
        requires
            old(self).wf(),
        ensures
            final(self).wf(),
            final(self).state == old(self).state,
            final(self).correlator == old(self).correlator,
            (final(self).bridge@, r) == old(self).bridge@.delivered(cat),
            r is None ==> final(self).bridge@ == old(self).bridge@,
    {
        self.bridge.next_delivery(cat)
    }

    /// Begins teardown: every outstanding request is failed with
    /// `SessionClosed` exactly once — the returned identifiers, each
    /// once, in issue order — and no request can be issued from now on.
    /// The caller releases the connection and then confirms with
    /// `finish_close`.
    pub fn begin_close(&mut self) -> (r: Vec<u64>)
        requires
            old(self).wf(),
        ensures
            final(self).wf(),
            final(self).state == ConnState::Closing,
            final(self).bridge == old(self).bridge,
            final(self).correlator@ == old(self).correlator@.shut(),
            r@ == old(self).correlator@.ids(),
            forall|i: int, j: int| 0 <= i < j < r@.len() ==> r@[i] != r@[j],
            forall|id: u64| r@.contains(id) <==> old(self).correlator@.is_pending(id),
    {
        self.state = ConnState::Closing;
        self.correlator.close()
    }

    /// Records that the underlying connection was lost: the session is
    /// immediately closed and every outstanding request is failed with
    /// `SessionClosed` exactly once — the returned identifiers — rather
    /// than left hanging.
    pub fn connection_lost(&mut self) -> (r: Vec<u64>)
        requires
            old(self).wf(),
        ensures
            final(self).wf(),
            final(self).state == ConnState::Closed,
            final(self).bridge == old(self).bridge,
            final(self).correlator@ == old(self).correlator@.shut(),
            r@ == old(self).correlator@.ids(),
            forall|i: int, j: int| 0 <= i < j < r@.len() ==> r@[i] != r@[j],
            forall|id: u64| r@.contains(id) <==> old(self).correlator@.is_pending(id),
    {
        self.state = ConnState::Closed;
        self.correlator.close()
    }

    /// Confirms that the connection has been released on whatever path
    /// teardown took; the session is now fully closed.
    pub fn finish_close(&mut self)
        requires
            old(self).wf(),
            old(self).state == ConnState::Closing || old(self).state == ConnState::Closed,
        ensures
            final(self).wf(),
            final(self).state == ConnState::Closed,
            final(self).bridge == old(self).bridge,
            final(self).correlator == old(self).correlator,
    {
        self.state = ConnState::Closed;
    }
}

/// Decodes a received balance reply: each entry pairs a currency with a
/// wire decimal string.  Succeeds exactly when every amount decodes,
/// preserving entry order; a failed amount is never replaced by zero.
pub fn decode_balance(w: Vec<(Vec<u8>, Vec<u8>)>) -> (r: Result<
    Vec<(Vec<u8>, crate::decimal::Decimal)>,
    crate::errors::MarshalError,
>)
    ensures
        r matches Ok(b) ==> b@.len() == w@.len() && (forall|i: int|
            0 <= i < w@.len() ==> (#[trigger] b@[i]).0@ == w@[i].0@ && b@[i].1.wf() && w@[i].1@
                == crate::decimal::spec_decimal_str(b@[i].1)),
        (forall|i: int|
            0 <= i < w@.len() ==> crate::order::decodes_to_decimal((#[trigger] w@[i]).1@)) ==> r
            is Ok,
        r is Err ==> r == Err::<Vec<(Vec<u8>, crate::decimal::Decimal)>, crate::errors::MarshalError>(
            crate::errors::MarshalError::InvalidDecimal,
        ) && exists|i: int|
            0 <= i < w@.len() && !crate::order::decodes_to_decimal((#[trigger] w@[i]).1@),
{
    let ghost orig = w@;
    let mut rest = w;
    let mut out: Vec<(Vec<u8>, crate::decimal::Decimal)> = Vec::new();
    while rest.len() > 0
        invariant
            orig == w@,
            out@.len() + rest@.len() == orig.len(),
            rest@ =~= orig.subrange(out@.len() as int, orig.len() as int),
            forall|i: int|
                0 <= i < out@.len() ==> (#[trigger] out@[i]).0@ == orig[i].0@ && out@[i].1.wf()
                    && orig[i].1@ == crate::decimal::spec_decimal_str(out@[i].1),
        decreases rest.len(),
    {
        let ghost k = out@.len() as int;
        let (currency, amount) = rest.remove(0);
        proof {
            assert(currency@ == orig[k].0@ && amount@ == orig[k].1@);
        }
        match crate::decimal::from_wire_decimal(&amount) {
            Ok(d) => out.push((currency, d)),
            Err(_) => {
                proof {
                    assert(!crate::order::decodes_to_decimal(orig[k].1@));
                }
                return Err(crate::errors::MarshalError::InvalidDecimal);
            },
        }
    }
    Ok(out)
}

} // verus!
