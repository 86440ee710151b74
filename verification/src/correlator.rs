//! Request/response correlation over one duplex connection.
//!
//! Every outbound request gets a collision-free identifier and a pending
//! entry; the receive path resolves entries solely by identifier, never by
//! arrival order.  Each entry is resolved at most once: a duplicate or
//! late reply is discarded.  Expiry of a per-request deadline fails the
//! entry with a timeout; closing fails every outstanding entry at once and
//! refuses any further request.

use vstd::prelude::*;

verus! {

/// Which shape of response an outstanding request expects, so the
/// receive path knows how to decode the reply it delivers.
#[derive(Clone, Copy, Debug, PartialEq, Eq, Structural)]
pub enum RequestKind {
    /// An order submission awaiting its acknowledgement.
    SubmitOrder,
    /// A query awaiting the day's orders.
    TodayOrders,
    /// A query awaiting currency-keyed balances.
    AccountBalance,
}

/// One outstanding request: its identifier, the response shape it
/// expects, and its deadline.
#[derive(Clone, Copy, Debug, PartialEq, Eq, Structural)]
pub struct PendingRequest {
    /// Correlation identifier, unique among outstanding requests.
    pub id: u64,
    /// Which shape of response is expected.
    pub kind: RequestKind,
    /// Deadline after which the request times out.
    pub deadline: i64,
}

/// What became of a reply handed to the correlator.
#[derive(Clone, Copy, Debug, PartialEq, Eq, Structural)]
pub enum ResolveOutcome {
    /// The reply matched this outstanding request, which is now
    /// resolved; the entry says how to decode the reply.
    Delivered(PendingRequest),
    /// No outstanding request carries this identifier: the reply is a
    /// duplicate, arrived after a timeout, or was never issued.  It is
    /// discarded, never double-delivered.
    Stale,
}

/// What became of a deadline check on one outstanding request.
#[derive(Clone, Copy, Debug, PartialEq, Eq, Structural)]
pub enum ExpireOutcome {
    /// The deadline had elapsed: the entry is removed and the request
    /// fails with a timeout.
    TimedOut,
    /// The deadline has not elapsed yet; the entry stays.
    NotDue,
    /// No outstanding request carries this identifier.
    Unknown,
}

impl ExpireOutcome {
    /// The request error a deadline check surfaces to the waiting
    /// caller: a timeout exactly when the deadline had elapsed, which is
    /// recoverable and not fatal to the session.
    pub fn to_request_error(&self) -> (r: Option<crate::errors::RequestError>)
        ensures
            *self == ExpireOutcome::TimedOut ==> r == Some(
                crate::errors::RequestError::RequestTimeout,
            ),
            *self != ExpireOutcome::TimedOut ==> r is None,
    {
        match self {
            ExpireOutcome::TimedOut => Some(crate::errors::RequestError::RequestTimeout),
            ExpireOutcome::NotDue => None,
            ExpireOutcome::Unknown => None,
        }
    }
}

/// The mathematical state of a correlator: the outstanding entries in
/// issue order, the next identifier to allocate, and whether it is closed.
pub struct CorrelatorView {
    /// Outstanding entries, ordered by issue time (so by ascending id).
    pub pending: Seq<PendingRequest>,
    /// Identifier the next request will receive.
    pub next_id: u64,
    /// Whether the correlator refuses new requests.
    pub closed: bool,
}

impl CorrelatorView {
    /// Well-formedness: identifiers strictly increase along the entries
    /// (so they are collision-free), every identifier is below the next
    /// one to allocate, and a closed correlator holds no entries.
    pub open spec fn wf(self) -> bool {
        &&& forall|i: int, j: int|
            0 <= i < j < self.pending.len()
                ==> (#[trigger] self.pending[i]).id < (#[trigger] self.pending[j]).id
        &&& forall|i: int|
            0 <= i < self.pending.len() ==> (#[trigger] self.pending[i]).id < self.next_id
        &&& self.closed ==> self.pending.len() == 0
    }

    /// Whether an identifier has an outstanding entry.
    pub open spec fn is_pending(self, id: u64) -> bool {
        exists|i: int| 0 <= i < self.pending.len() && (#[trigger] self.pending[i]).id == id
    }

    /// The position of an identifier's entry.
    pub open spec fn index_of(self, id: u64) -> int {
        choose|i: int| 0 <= i < self.pending.len() && (#[trigger] self.pending[i]).id == id
    }

    /// The deadline of an identifier's entry.
    pub open spec fn deadline_of(self, id: u64) -> i64 {
        self.pending[self.index_of(id)].deadline
    }

    /// The outstanding identifiers, in issue order.
    pub open spec fn ids(self) -> Seq<u64> {
        self.pending.map_values(|p: PendingRequest| p.id)
    }

    /// The state after issuing a request with the given shape and
    /// deadline.
    pub open spec fn sent(self, kind: RequestKind, deadline: i64) -> CorrelatorView {
        CorrelatorView {
            pending: self.pending.push(PendingRequest { id: self.next_id, kind, deadline }),
            next_id: (self.next_id + 1) as u64,
            closed: self.closed,
        }
    }

    /// The state and outcome after a reply tagged with the given
    /// identifier arrives: its entry, if any, is removed and delivered.
    pub open spec fn resolved(self, id: u64) -> (CorrelatorView, ResolveOutcome) {
        if self.is_pending(id) {
            (
                CorrelatorView { pending: self.pending.remove(self.index_of(id)), ..self },
                ResolveOutcome::Delivered(self.pending[self.index_of(id)]),
            )
        } else {
            (self, ResolveOutcome::Stale)
        }
    }

    /// The state and outcome after checking the given identifier's
    /// deadline against the current time.
    pub open spec fn expired(self, id: u64, now: i64) -> (CorrelatorView, ExpireOutcome) {
        if self.is_pending(id) {
            if self.deadline_of(id) <= now {
                (
                    CorrelatorView { pending: self.pending.remove(self.index_of(id)), ..self },
                    ExpireOutcome::TimedOut,
                )
            } else {
                (self, ExpireOutcome::NotDue)
            }
        } else {
            (self, ExpireOutcome::Unknown)
        }
    }

    /// The state after closing: no entries, no new requests.
    pub open spec fn shut(self) -> CorrelatorView {
        CorrelatorView { pending: Seq::empty(), next_id: self.next_id, closed: true }
    }
}

/// Pairs outbound requests with inbound replies by identifier.
pub struct Correlator {
    /// Outstanding entries, kept in ascending identifier order.
    pub pending: Vec<PendingRequest>,
    /// Identifier the next request will receive; strictly increasing.
    pub next_id: u64,
    /// Whether the correlator refuses new requests.
    pub closed: bool,
}

impl View for Correlator {
    type V = CorrelatorView;

    open spec fn view(&self) -> CorrelatorView {
        CorrelatorView { pending: self.pending@, next_id: self.next_id, closed: self.closed }
    }
}

/// In a well-formed state an identifier occupies at most one position.
pub proof fn lemma_index_unique(v: CorrelatorView, i: int, j: int)
    requires
        v.wf(),
        0 <= i < v.pending.len(),
        0 <= j < v.pending.len(),
        v.pending[i].id == v.pending[j].id,
    ensures
        i == j,
{
    if i < j {
        assert(v.pending[i].id < v.pending[j].id);
    }
    if j < i {
        assert(v.pending[j].id < v.pending[i].id);
    }
}

/// Resolving one identifier removes exactly its entry: the outcome is
/// `Delivered` just when the identifier was outstanding, afterwards it no
/// longer is, every other identifier is unaffected, and the state stays
/// well-formed with its allocator and closed flag unchanged.
pub proof fn lemma_resolved(v: CorrelatorView, id: u64)
    requires
        v.wf(),
    ensures
        v.resolved(id).0.wf(),
        v.resolved(id).1 is Delivered <==> v.is_pending(id),
        !v.resolved(id).0.is_pending(id),
        forall|other: u64|
            other != id ==> #[trigger] v.resolved(id).0.is_pending(other) == v.is_pending(other),
        v.is_pending(id) ==> v.resolved(id).0.pending.len() == v.pending.len() - 1,
        !v.is_pending(id) ==> v.resolved(id).0 == v,
        v.resolved(id).0.next_id == v.next_id,
        v.resolved(id).0.closed == v.closed,
{
    if v.is_pending(id) {
        let k = v.index_of(id);
        assert(0 <= k < v.pending.len() && v.pending[k].id == id);
        let w = v.resolved(id).0;
        assert(w.pending =~= v.pending.subrange(0, k) + v.pending.subrange(
            k + 1,
            v.pending.len() as int,
        ));
        assert forall|i: int, j: int| 0 <= i < j < w.pending.len() implies (
        #[trigger] w.pending[i]).id < (#[trigger] w.pending[j]).id by {
            let vi: int = if i < k { i } else { i + 1 };
            let vj: int = if j < k { j } else { j + 1 };
            assert(w.pending[i] == v.pending[vi]);
            assert(w.pending[j] == v.pending[vj]);
        }
        assert forall|i: int| 0 <= i < w.pending.len() implies (#[trigger] w.pending[i]).id
            < w.next_id by {
            let vi: int = if i < k { i } else { i + 1 };
            assert(w.pending[i] == v.pending[vi]);
        }
        assert(!w.is_pending(id)) by {
            if w.is_pending(id) {
                let i = choose|i: int|
                    0 <= i < w.pending.len() && (#[trigger] w.pending[i]).id == id;
                let vi: int = if i < k { i } else { i + 1 };
                assert(w.pending[i] == v.pending[vi]);
                lemma_index_unique(v, vi, k);
            }
        }
        assert forall|other: u64| other != id implies #[trigger] w.is_pending(other)
            == v.is_pending(other) by {
            if v.is_pending(other) {
                let i = choose|i: int|
                    0 <= i < v.pending.len() && (#[trigger] v.pending[i]).id == other;
                let wi: int = if i < k { i } else { i - 1 };
                assert(i != k);
                assert(w.pending[wi] == v.pending[i]);
                assert(w.is_pending(other));
            }
            if w.is_pending(other) {
                let i = choose|i: int|
                    0 <= i < w.pending.len() && (#[trigger] w.pending[i]).id == other;
                let vi: int = if i < k { i } else { i + 1 };
                assert(w.pending[i] == v.pending[vi]);
                assert(v.is_pending(other));
            }
        }
    }
}

impl Correlator {
    /// A fresh correlator: open, no outstanding requests, identifiers
    /// starting at zero.
    pub fn new() -> (r: Correlator)
        ensures
            r@.wf(),
            r@.pending == Seq::<PendingRequest>::empty(),
            r@.next_id == 0,
            !r@.closed,
    {
        let r = Correlator { pending: Vec::new(), next_id: 0, closed: false };
        proof {
            assert(r@.pending =~= Seq::<PendingRequest>::empty());
        }
        r
    }

    /// Issues a request: allocates the next identifier and records an
    /// entry with the given response shape and deadline.  Fails
    /// immediately with `SessionClosed`, changing nothing, when the
    /// correlator is closed.
    pub fn send(&mut self, kind: RequestKind, deadline: i64) -> (r: Result<
        u64,
        crate::errors::RequestError,
    >)
        requires
            old(self)@.wf(),
            old(self)@.next_id < u64::MAX,
        ensures
            final(self)@.wf(),
            !old(self)@.closed ==> {
                &&& r == Ok::<u64, crate::errors::RequestError>(old(self)@.next_id)
                &&& final(self)@ == old(self)@.sent(kind, deadline)
                &&& !old(self)@.is_pending(old(self)@.next_id)
                &&& final(self)@.is_pending(old(self)@.next_id)
                &&& final(self)@.deadline_of(old(self)@.next_id) == deadline
            },
            old(self)@.closed ==> {
                &&& r == Err::<u64, crate::errors::RequestError>(
                    crate::errors::RequestError::SessionClosed,
                )
                &&& final(self)@ == old(self)@
            },
    {
        if self.closed {
            return Err(crate::errors::RequestError::SessionClosed);
        }
        let id = self.next_id;
        self.next_id = self.next_id + 1;
        self.pending.push(PendingRequest { id, kind, deadline });
        proof {
            let v = old(self)@;
            let w = self@;
            assert(w.pending == v.pending.push(PendingRequest { id, kind, deadline }));
            assert(!v.is_pending(id)) by {
                if v.is_pending(id) {
                    let i = choose|i: int|
                        0 <= i < v.pending.len() && (#[trigger] v.pending[i]).id == id;
                    assert(v.pending[i].id < v.next_id);
                }
            }
            let n = w.pending.len() as int;
            assert(w.pending[n - 1].id == id);
            assert(w.is_pending(id));
            assert(w.wf());
            lemma_index_unique(w, w.index_of(id), n - 1);
        }
        Ok(id)
    }

    /// Hands the correlator a reply tagged with an identifier.  If the
    /// identifier is outstanding, its entry is resolved (removed) and the
    /// reply is delivered; otherwise the reply is stale and discarded,
    /// leaving the state untouched — an entry is never resolved twice.
    pub fn resolve(&mut self, id: u64) -> (r: ResolveOutcome)
        requires
            old(self)@.wf(),
        ensures
            final(self)@.wf(),
            (final(self)@, r) == old(self)@.resolved(id),
            r is Delivered <==> old(self)@.is_pending(id),
            !final(self)@.is_pending(id),
            forall|other: u64|
                other != id ==> #[trigger] final(self)@.is_pending(other) == old(
                    self,
                )@.is_pending(other),
    {
        let n = self.pending.len();
        let mut i: usize = 0;
        while i < n
            invariant
                n == self.pending.len(),
                0 <= i <= n,
                self == old(self),
                old(self)@.wf(),
                forall|j: int| 0 <= j < i ==> (#[trigger] self.pending@[j]).id != id,
            decreases n - i,
        {
            if self.pending[i].id == id {
                proof {
                    assert(old(self)@.pending[i as int].id == id);
                    assert(old(self)@.is_pending(id));
                    lemma_resolved(old(self)@, id);
                    lemma_index_unique(old(self)@, old(self)@.index_of(id), i as int);
                }
                let entry = self.pending.remove(i);
                proof {
                    assert(self@ == old(self)@.resolved(id).0);
                    assert(entry == old(self)@.pending[old(self)@.index_of(id)]);
                }
                return ResolveOutcome::Delivered(entry);
            }
            i = i + 1;
        }
        proof {
            assert(!self@.is_pending(id));
        }
        ResolveOutcome::Stale
    }

    /// Checks one outstanding request against the clock.  If its deadline
    /// has elapsed the entry is removed and the request fails with a
    /// timeout; a reply arriving later for the same identifier will be
    /// stale.  Otherwise nothing changes.
    pub fn expire(&mut self, id: u64, now: i64) -> (r: ExpireOutcome)
        requires
            old(self)@.wf(),
        ensures
            final(self)@.wf(),
            (final(self)@, r) == old(self)@.expired(id, now),
            r == ExpireOutcome::TimedOut ==> !final(self)@.is_pending(id),
            r != ExpireOutcome::TimedOut ==> final(self)@ == old(self)@,
            forall|other: u64|
                other != id ==> #[trigger] final(self)@.is_pending(other) == old(
                    self,
                )@.is_pending(other),
    {
        let n = self.pending.len();
        let mut i: usize = 0;
        while i < n
            invariant
                n == self.pending.len(),
                0 <= i <= n,
                self == old(self),
                old(self)@.wf(),
                forall|j: int| 0 <= j < i ==> (#[trigger] self.pending@[j]).id != id,
            decreases n - i,
        {
            if self.pending[i].id == id {
                proof {
                    assert(old(self)@.pending[i as int].id == id);
                    assert(old(self)@.is_pending(id));
                    lemma_resolved(old(self)@, id);
                    lemma_index_unique(old(self)@, old(self)@.index_of(id), i as int);
                    assert(old(self)@.deadline_of(id) == old(self)@.pending[i as int].deadline);
                }
                if self.pending[i].deadline <= now {
                    self.pending.remove(i);
                    proof {
                        assert(self@ == old(self)@.resolved(id).0);
                        assert(self@ == old(self)@.expired(id, now).0);
                    }
                    return ExpireOutcome::TimedOut;
                } else {
                    return ExpireOutcome::NotDue;
                }
            }
            i = i + 1;
        }
        proof {
            assert(!self@.is_pending(id));
        }
        ExpireOutcome::Unknown
    }

    /// Closes the correlator: every outstanding entry is removed and its
    /// identifier returned (each exactly once, in issue order) so the
    /// caller can fail it with `SessionClosed`; afterwards no new request
    /// can be issued.
    pub fn close(&mut self) -> (r: Vec<u64>)
        requires
            old(self)@.wf(),
        ensures
            final(self)@.wf(),
            final(self)@ == old(self)@.shut(),
            r@ == old(self)@.ids(),
            forall|i: int, j: int| 0 <= i < j < r@.len() ==> r@[i] != r@[j],
            forall|id: u64| r@.contains(id) <==> old(self)@.is_pending(id),
            final(self)@.closed,
    {
        let n = self.pending.len();
        let mut out: Vec<u64> = Vec::new();
        let mut i: usize = 0;
        while i < n
            invariant
                n == self.pending.len(),
                0 <= i <= n,
                self == old(self),
                out@.len() == i,
                forall|j: int| 0 <= j < i ==> out@[j] == (#[trigger] self.pending@[j]).id,
            decreases n - i,
        {
            let id = self.pending[i].id;
            out.push(id);
            i = i + 1;
        }
        self.pending = Vec::new();
        self.closed = true;
        proof {
            let v = old(self)@;
            assert(out@ =~= v.ids());
            assert(self@.pending =~= Seq::<PendingRequest>::empty());
            assert(self@ == v.shut());
            assert forall|a: int, b: int| 0 <= a < b < out@.len() implies out@[a] != out@[b] by {
                assert(v.pending[a].id < v.pending[b].id);
            }
            assert forall|id: u64| out@.contains(id) implies v.is_pending(id) by {
                let a = choose|a: int| 0 <= a < out@.len() && out@[a] == id;
                assert(v.pending[a].id == id);
            }
            assert forall|id: u64| v.is_pending(id) implies out@.contains(id) by {
                let a = choose|a: int|
                    0 <= a < v.pending.len() && (#[trigger] v.pending[a]).id == id;
                assert(out@[a] == id);
            }
        }
        out
    }
}

/// The state after a batch of replies, resolved first to last.
pub open spec fn resolve_each(v: CorrelatorView, ids: Seq<u64>) -> CorrelatorView
    decreases ids.len(),
{
    if ids.len() == 0 {
        v
    } else {
        resolve_each(v.resolved(ids[0]).0, ids.drop_first())
    }
}

/// Resolving a batch of replies keeps the state well-formed, leaves no
/// identifier of the batch outstanding, and leaves every identifier
/// outside the batch exactly as it was.
pub proof fn lemma_resolve_each(v: CorrelatorView, ids: Seq<u64>)
    requires
        v.wf(),
    ensures
        resolve_each(v, ids).wf(),
        forall|id: u64| ids.contains(id) ==> !resolve_each(v, ids).is_pending(id),
        forall|id: u64|
            !ids.contains(id) ==> #[trigger] resolve_each(v, ids).is_pending(id) == v.is_pending(
                id,
            ),
    decreases ids.len(),
{
    if ids.len() > 0 {
        let first = ids[0];
        let w = v.resolved(first).0;
        lemma_resolved(v, first);
        lemma_resolve_each(w, ids.drop_first());
        assert forall|id: u64| ids.contains(id) implies !resolve_each(v, ids).is_pending(id) by {
            if id == first {
                if ids.drop_first().contains(id) {
                } else {
                    assert(resolve_each(v, ids).is_pending(id) == w.is_pending(id));
                }
            } else {
                let i = choose|i: int| 0 <= i < ids.len() && ids[i] == id;
                assert(ids.drop_first()[i - 1] == id);
                assert(ids.drop_first().contains(id));
            }
        }
        assert forall|id: u64| !ids.contains(id) implies #[trigger] resolve_each(
            v,
            ids,
        ).is_pending(id) == v.is_pending(id) by {
            assert(ids[0] != id);
            if ids.drop_first().contains(id) {
                let i = choose|i: int|
                    0 <= i < ids.drop_first().len() && ids.drop_first()[i] == id;
                assert(ids[i + 1] == id);
            }
        }
    }
}

/// Request correlation delivers each reply to its originating request
/// exactly once, whatever order the replies arrive in: for any set of
/// distinct outstanding identifiers resolved in any order, each reply is
/// delivered at its own step, a repeat of any of them afterwards is
/// stale, and requests outside the set are untouched.
pub proof fn lemma_correlation_exactly_once(v: CorrelatorView, ids: Seq<u64>)
    requires
        v.wf(),
        forall|i: int, j: int| 0 <= i < j < ids.len() ==> ids[i] != ids[j],
        forall|i: int| 0 <= i < ids.len() ==> v.is_pending(#[trigger] ids[i]),
    ensures
        forall|k: int|
            0 <= k < ids.len() ==> resolve_each(v, ids.take(k)).resolved(#[trigger] ids[k]).1
                is Delivered,
        forall|k: int|
            0 <= k < ids.len() ==> resolve_each(v, ids).resolved(#[trigger] ids[k]).1
                is Stale,
        forall|id: u64|
            !ids.contains(id) ==> #[trigger] resolve_each(v, ids).is_pending(id) == v.is_pending(
                id,
            ),
{
    assert forall|k: int| 0 <= k < ids.len() implies resolve_each(v, ids.take(k)).resolved(
        #[trigger] ids[k],
    ).1 is Delivered by {
        lemma_resolve_each(v, ids.take(k));
        assert(!ids.take(k).contains(ids[k])) by {
            if ids.take(k).contains(ids[k]) {
                let i = choose|i: int| 0 <= i < k && ids.take(k)[i] == ids[k];
                assert(ids[i] == ids[k]);
            }
        }
        assert(resolve_each(v, ids.take(k)).is_pending(ids[k]) == v.is_pending(ids[k]));
    }
    lemma_resolve_each(v, ids);
    assert forall|k: int| 0 <= k < ids.len() implies resolve_each(v, ids).resolved(
        #[trigger] ids[k],
    ).1 is Stale by {
        assert(ids.contains(ids[k]));
        assert(!resolve_each(v, ids).is_pending(ids[k]));
    }
}

/// A request whose deadline elapses fails with a timeout, and a reply
/// arriving after the timeout is discarded as stale rather than resolved
/// a second time; other outstanding requests are unaffected by either.
pub proof fn lemma_timeout_then_late_reply(v: CorrelatorView, id: u64, now: i64)
    requires
        v.wf(),
        v.is_pending(id),
        v.deadline_of(id) <= now,
    ensures
        v.expired(id, now).1 == ExpireOutcome::TimedOut,
        v.expired(id, now).0.resolved(id).1 is Stale,
        v.expired(id, now).0.resolved(id).0 == v.expired(id, now).0,
        forall|other: u64|
            other != id ==> #[trigger] v.expired(id, now).0.is_pending(other) == v.is_pending(
                other,
            ),
{
    lemma_resolved(v, id);
    assert(v.expired(id, now).0 == v.resolved(id).0);
}

/// Closing with outstanding requests fails all of them exactly once: the
/// batch handed back contains every outstanding identifier once and
/// nothing else, afterwards nothing is outstanding, and a request issued
/// against the closed state fails immediately with `SessionClosed`.
pub proof fn lemma_close_fails_all_exactly_once(v: CorrelatorView)
    requires
        v.wf(),
    ensures
        forall|i: int, j: int| 0 <= i < j < v.ids().len() ==> v.ids()[i] != v.ids()[j],
        forall|id: u64| v.ids().contains(id) <==> v.is_pending(id),
        v.shut().wf(),
        v.shut().closed,
        forall|id: u64| !v.shut().is_pending(id),
{
    assert forall|i: int, j: int| 0 <= i < j < v.ids().len() implies v.ids()[i] != v.ids()[j] by {
        assert(v.pending[i].id < v.pending[j].id);
    }
    assert forall|id: u64| v.ids().contains(id) implies v.is_pending(id) by {
        let i = choose|i: int| 0 <= i < v.ids().len() && v.ids()[i] == id;
        assert(v.pending[i].id == id);
    }
    assert forall|id: u64| v.is_pending(id) implies v.ids().contains(id) by {
        let i = choose|i: int| 0 <= i < v.pending.len() && (#[trigger] v.pending[i]).id == id;
        assert(v.ids()[i] == id);
    }
}

} // verus!
