//! The table of requests that were sent and have not completed yet.
//!
//! Every request gets an identifier when it is issued, and stays in the table
//! until it completes: with a response, with a failure, or because it was
//! overdue. Completing a request takes its entry, and with it the handle on
//! which the issuer waits, out of the table, so no request completes twice
//! and none is forgotten.

use vstd::prelude::*;

verus! {

/// `libp2p::PeerId`, carried through as an opaque value.
#[verifier::external_type_specification]
#[verifier::external_body]
pub struct ExPeerId(libp2p::PeerId);

/// The protocol that a request belongs to.
#[derive(Debug, Clone, Copy, PartialEq, Eq, Structural)]
pub enum ProtocolTag {
    ArtifactExchange,
    IdleMetric,
}

/// A request in flight: who was asked, under which protocol and when, and the
/// handle on which the issuer waits for the outcome.
#[derive(Debug)]
pub struct PendingRequest<H> {
    pub id: u64,
    pub peer: libp2p::PeerId,
    pub protocol: ProtocolTag,
    pub issued_at: u64,
    pub handle: H,
}

impl<H> PendingRequest<H> {
    /// Whether the request has been in flight for `timeout` or longer at
    /// time `now`.
    pub open spec fn overdue(self, now: u64, timeout: u64) -> bool {
        self.issued_at + timeout <= now
    }

    /// Whether the request has been in flight for `timeout` or longer at
    /// time `now`.
    pub fn is_overdue(&self, now: u64, timeout: u64) -> (overdue: bool)
        ensures
            overdue == self.overdue(now, timeout),
    {
        now >= self.issued_at && now - self.issued_at >= timeout
    }
}

/// The entries that are overdue at time `now`, in their order.
pub open spec fn overdue_entries<H>(entries: Seq<PendingRequest<H>>, now: u64, timeout: u64) -> Seq<
    PendingRequest<H>,
> {
    entries.filter(|request: PendingRequest<H>| request.overdue(now, timeout))
}

/// The entries that are not overdue at time `now`, in their order.
pub open spec fn current_entries<H>(entries: Seq<PendingRequest<H>>, now: u64, timeout: u64) -> Seq<
    PendingRequest<H>,
> {
    entries.filter(|request: PendingRequest<H>| !request.overdue(now, timeout))
}

/// What a [`PendingRequests`] table is: its entries in the order in which
/// they were issued, and the identifier that the next request will get.
pub struct TableModel<H> {
    pub entries: Seq<PendingRequest<H>>,
    pub next_id: nat,
}

impl<H> TableModel<H> {
    /// Whether a request with this identifier is in flight.
    pub open spec fn is_pending(self, id: u64) -> bool {
        exists|i: int| 0 <= i < self.entries.len() && (#[trigger] self.entries[i]).id == id
    }

    /// Where in the table the request with this identifier stands, if it is
    /// in flight.
    pub open spec fn position(self, id: u64) -> int
        recommends
            self.is_pending(id),
    {
        choose|i: int| 0 <= i < self.entries.len() && (#[trigger] self.entries[i]).id == id
    }

    /// The request in flight with this identifier.
    pub open spec fn request(self, id: u64) -> PendingRequest<H>
        recommends
            self.is_pending(id),
    {
        self.entries[self.position(id)]
    }

    /// The table with one more request, which gets the next identifier.
    pub open spec fn with(
        self,
        peer: libp2p::PeerId,
        protocol: ProtocolTag,
        issued_at: u64,
        handle: H,
    ) -> TableModel<H>
        recommends
            self.next_id < u64::MAX,
    {
        TableModel {
            entries: self.entries.push(
                PendingRequest { id: self.next_id as u64, peer, protocol, issued_at, handle },
            ),
            next_id: self.next_id + 1,
        }
    }

    /// The table after the request with this identifier completed: without
    /// its entry if it was in flight, unchanged if it was not.
    pub open spec fn without(self, id: u64) -> TableModel<H> {
        if self.is_pending(id) {
            TableModel { entries: self.entries.remove(self.position(id)), next_id: self.next_id }
        } else {
            self
        }
    }

    /// The table after every request that is overdue at time `now` completed.
    pub open spec fn without_overdue(self, now: u64, timeout: u64) -> TableModel<H> {
        TableModel {
            entries: current_entries(self.entries, now, timeout),
            next_id: self.next_id,
        }
    }

    /// A table is well formed when no two entries share an identifier and the
    /// identifiers in use are below the next one to be issued.
    pub open spec fn well_formed(self) -> bool {
        &&& forall|i: int|
            0 <= i < self.entries.len() ==> (#[trigger] self.entries[i]).id < self.next_id
        &&& forall|i: int, j: int|
            0 <= i < j < self.entries.len() ==> (#[trigger] self.entries[i]).id != (
            #[trigger] self.entries[j]).id
    }
}

/// The requests that are in flight.
pub struct PendingRequests<H> {
    entries: Vec<PendingRequest<H>>,
    next_id: u64,
}

impl<H> View for PendingRequests<H> {
    type V = TableModel<H>;

    closed spec fn view(&self) -> TableModel<H> {
        TableModel { entries: self.entries@, next_id: self.next_id as nat }
    }
}

impl<H> PendingRequests<H> {
    #[verifier::type_invariant]
    spec fn valid(self) -> bool {
        self@.well_formed()
    }

    /// A table with nothing in flight, whose first request will get
    /// identifier 0.
    pub fn new() -> (table: PendingRequests<H>)
        ensures
            table@.entries.len() == 0,
            table@.next_id == 0,
            table@.well_formed(),
    {
        PendingRequests { entries: Vec::new(), next_id: 0 }
    }

    /// A table with nothing in flight, whose first request will get
    /// identifier `first_id`: for a node that goes on where an earlier table
    /// stopped, so that identifiers stay unique.
    pub fn starting_at(first_id: u64) -> (table: PendingRequests<H>)
        ensures
            table@.entries.len() == 0,
            table@.next_id == first_id,
            table@.well_formed(),
    {
        PendingRequests { entries: Vec::new(), next_id: first_id }
    }

    /// Puts a request into the table and gives it the next identifier. When
    /// the identifiers are used up the table stays as it is and the handle
    /// comes back.
    pub fn issue(
        &mut self,
        peer: libp2p::PeerId,
        protocol: ProtocolTag,
        issued_at: u64,
        handle: H,
    ) -> (issued: Result<u64, H>)
        ensures
            final(self)@.well_formed(),
            issued is Ok <==> old(self)@.next_id < u64::MAX,
            match issued {
                Ok(id) => {
                    &&& id == old(self)@.next_id
                    &&& final(self)@ == old(self)@.with(peer, protocol, issued_at, handle)
                },
                Err(returned) => {
                    &&& returned == handle
                    &&& final(self)@ == old(self)@
                },
            },
    {
        proof {
            use_type_invariant(&*self);
        }
        if self.next_id == u64::MAX {
            return Err(handle);
        }
        let id = self.next_id;
        let mut entries: Vec<PendingRequest<H>> = Vec::new();
        core::mem::swap(&mut self.entries, &mut entries);
        entries.push(PendingRequest { id, peer, protocol, issued_at, handle });
        self.next_id = id + 1;
        core::mem::swap(&mut self.entries, &mut entries);
        Ok(id)
    }

    /// Completes the request with this identifier: takes its entry out of the
    /// table and hands it over, handle included. Gives nothing, and changes
    /// nothing, when no such request is in flight.
    pub fn complete(&mut self, id: u64) -> (completed: Option<PendingRequest<H>>)
        ensures
            final(self)@.well_formed(),
            completed == if old(self)@.is_pending(id) {
                Some(old(self)@.request(id))
            } else {
                None
            },
            final(self)@ == old(self)@.without(id),
    {
        proof {
            use_type_invariant(&*self);
        }
        let mut entries: Vec<PendingRequest<H>> = Vec::new();
        core::mem::swap(&mut self.entries, &mut entries);
        let mut completed: Option<PendingRequest<H>> = None;
        let mut i: usize = 0;
        while i < entries.len()
            invariant_except_break
                i <= entries@.len(),
                entries@ == old(self)@.entries,
                completed is None,
                forall|j: int| 0 <= j < i ==> (#[trigger] entries@[j]).id != id,
            ensures
                match completed {
                    Some(request) => {
                        &&& i < old(self)@.entries.len()
                        &&& old(self)@.entries[i as int] == request
                        &&& request.id == id
                        &&& entries@ == old(self)@.entries.remove(i as int)
                    },
                    None => {
                        &&& entries@ == old(self)@.entries
                        &&& forall|j: int|
                            0 <= j < entries@.len() ==> (#[trigger] entries@[j]).id != id
                    },
                },
            decreases entries@.len() - i,
        {
            if entries[i].id == id {
                completed = Some(entries.remove(i));
                break ;
            }
            i += 1;
        }
        proof {
            if completed is Some {
                assert(old(self)@.entries[i as int].id == id);
                assert(old(self)@.position(id) == i);
                assert forall|j: int, k: int| 0 <= j < k < entries@.len() implies (
                #[trigger] entries@[j]).id != (#[trigger] entries@[k]).id by {
                    let from = |n: int| if n < i { n } else { n + 1 };
                    assert(entries@[j] == old(self)@.entries[from(j)]);
                    assert(entries@[k] == old(self)@.entries[from(k)]);
                }
                assert forall|j: int| 0 <= j < entries@.len() implies (#[trigger] entries@[j]).id
                    < self.next_id by {
                    let from = if j < i { j } else { j + 1 };
                    assert(entries@[j] == old(self)@.entries[from]);
                }
            }
        }
        core::mem::swap(&mut self.entries, &mut entries);
        completed
    }

    /// Completes every request that is overdue at time `now`, having been in
    /// flight for `timeout` or longer: takes their entries out of the table
    /// and hands them over in the order in which they were issued. The
    /// other requests stay in flight.
    pub fn expire(&mut self, now: u64, timeout: u64) -> (expired: Vec<PendingRequest<H>>)
        ensures
            final(self)@.well_formed(),
            expired@ == overdue_entries(old(self)@.entries, now, timeout),
            final(self)@ == old(self)@.without_overdue(now, timeout),
    {
        proof {
            use_type_invariant(&*self);
        }
        let mut entries: Vec<PendingRequest<H>> = Vec::new();
        core::mem::swap(&mut self.entries, &mut entries);
        let ghost all = entries@;
        let ghost next_id = self.next_id;
        let ghost mut origin: Seq<int> = Seq::empty();
        let mut kept: Vec<PendingRequest<H>> = Vec::new();
        let mut expired: Vec<PendingRequest<H>> = Vec::new();
        proof {
            reveal(Seq::filter);
            assert(all.take(0) =~= Seq::empty());
        }
        for request in it: entries.into_iter()
            invariant
                it.seq() == all,
                expired@ == overdue_entries(all.take(it.index() as int), now, timeout),
                kept@ == current_entries(all.take(it.index() as int), now, timeout),
                origin.len() == kept@.len(),
                forall|k: int|
                    0 <= k < origin.len() ==> {
                        &&& 0 <= (#[trigger] origin[k]) < it.index()
                        &&& all[origin[k]] == kept@[k]
                    },
                forall|j: int, k: int|
                    0 <= j < k < origin.len() ==> (#[trigger] origin[j]) < (#[trigger] origin[k]),
        {
            let ghost at = it.index() as int;
            proof {
                reveal(Seq::filter);
                assert(all.take(at + 1).drop_last() =~= all.take(at));
                assert(all.take(at + 1).last() == request);
            }
            if request.is_overdue(now, timeout) {
                expired.push(request);
            } else {
                kept.push(request);
                proof {
                    origin = origin.push(at);
                }
            }
        }
        proof {
            assert(all.take(all.len() as int) =~= all);
            assert forall|k: int| 0 <= k < kept@.len() implies (#[trigger] kept@[k]).id
                < next_id by {
                assert(kept@[k] == all[origin[k]]);
            }
            assert forall|j: int, k: int| 0 <= j < k < kept@.len() implies (#[trigger] kept@[j]).id
                != (#[trigger] kept@[k]).id by {
                assert(kept@[j] == all[origin[j]]);
                assert(kept@[k] == all[origin[k]]);
                assert(origin[j] < origin[k]);
            }
        }
        core::mem::swap(&mut self.entries, &mut kept);
        expired
    }

    /// Whether a request with this identifier is in flight.
    pub fn is_pending(&self, id: u64) -> (pending: bool)
        ensures
            pending == self@.is_pending(id),
            self@.well_formed(),
    {
        proof {
            use_type_invariant(self);
        }
        let mut i: usize = 0;
        while i < self.entries.len()
            invariant
                i <= self.entries@.len(),
                self@.well_formed(),
                forall|j: int| 0 <= j < i ==> (#[trigger] self.entries@[j]).id != id,
            decreases self.entries@.len() - i,
        {
            if self.entries[i].id == id {
                return true;
            }
            i += 1;
        }
        false
    }

    /// The number of requests in flight.
    pub fn len(&self) -> (count: usize)
        ensures
            count == self@.entries.len(),
            self@.well_formed(),
    {
        proof {
            use_type_invariant(self);
        }
        self.entries.len()
    }
}

/// In a well-formed table the entry at a position is the request with that
/// entry's identifier.
proof fn lemma_position<H>(table: TableModel<H>, i: int)
    requires
        table.well_formed(),
        0 <= i < table.entries.len(),
    ensures
        table.is_pending(table.entries[i].id),
        table.position(table.entries[i].id) == i,
        table.request(table.entries[i].id) == table.entries[i],
{
    let id = table.entries[i].id;
    let found = table.position(id);
    assert(0 <= found < table.entries.len() && table.entries[found].id == id);
    if found < i {
        assert(table.entries[found].id != table.entries[i].id);
    } else if i < found {
        assert(table.entries[i].id != table.entries[found].id);
    }
}

/// The identifier that the next request will get is not in use.
pub proof fn lemma_next_identifier_is_fresh<H>(table: TableModel<H>)
    requires
        table.well_formed(),
        table.next_id <= u64::MAX,
    ensures
        !table.is_pending(table.next_id as u64),
{
}

/// A request that was issued is in flight with what it was issued with, and
/// completing it leaves in flight exactly what was in flight before the
/// request: the entry is released and nothing else is touched. Only the
/// identifier is used up.
pub proof fn lemma_issued_request_completes<H>(
    table: TableModel<H>,
    peer: libp2p::PeerId,
    protocol: ProtocolTag,
    issued_at: u64,
    handle: H,
)
    requires
        table.well_formed(),
        table.next_id < u64::MAX,
    ensures
        ({
            let id = table.next_id as u64;
            let issued = table.with(peer, protocol, issued_at, handle);
            &&& issued.well_formed()
            &&& issued.entries.len() == table.entries.len() + 1
            &&& issued.is_pending(id)
            &&& issued.request(id) == (PendingRequest { id, peer, protocol, issued_at, handle })
            &&& issued.without(id).entries == table.entries
            &&& issued.without(id).next_id == table.next_id + 1
        }),
{
    let id = table.next_id as u64;
    let issued = table.with(peer, protocol, issued_at, handle);
    let last = table.entries.len() as int;
    assert(issued.entries.len() == last + 1);
    assert forall|i: int| 0 <= i < issued.entries.len() implies (#[trigger] issued.entries[i]).id
        < issued.next_id by {
        if i < last {
            assert(issued.entries[i] == table.entries[i]);
        }
    }
    assert forall|i: int, j: int| 0 <= i < j < issued.entries.len() implies (
    #[trigger] issued.entries[i]).id != (#[trigger] issued.entries[j]).id by {
        assert(issued.entries[i] == table.entries[i]);
        if j < last {
            assert(issued.entries[j] == table.entries[j]);
        }
    }
    assert(issued.entries[last].id == id);
    lemma_position(issued, last);
    assert(issued.entries.remove(last) =~= table.entries);
}

/// A request completes at most once: after it completed it is not in flight
/// any more, so completing it again gives nothing and changes nothing.
pub proof fn lemma_completes_at_most_once<H>(table: TableModel<H>, id: u64)
    requires
        table.well_formed(),
    ensures
        table.without(id).well_formed(),
        !table.without(id).is_pending(id),
        table.without(id).without(id) == table.without(id),
{
    let after = table.without(id);
    if table.is_pending(id) {
        let at = table.position(id);
        assert(0 <= at < table.entries.len() && table.entries[at].id == id);
        let from = |n: int| if n < at { n } else { n + 1 };
        assert forall|i: int| 0 <= i < after.entries.len() implies after.entries[i]
            == table.entries[from(i)] by {}
        assert forall|i: int| 0 <= i < after.entries.len() implies (#[trigger] after.entries[i]).id
            < after.next_id by {
            assert(after.entries[i] == table.entries[from(i)]);
        }
        assert forall|i: int, j: int| 0 <= i < j < after.entries.len() implies (
        #[trigger] after.entries[i]).id != (#[trigger] after.entries[j]).id by {
            assert(after.entries[i] == table.entries[from(i)]);
            assert(after.entries[j] == table.entries[from(j)]);
        }
        assert forall|i: int| 0 <= i < after.entries.len() implies (#[trigger] after.entries[i]).id
            != id by {
            assert(after.entries[i] == table.entries[from(i)]);
            if from(i) < at {
                assert(table.entries[from(i)].id != table.entries[at].id);
            } else {
                assert(table.entries[at].id != table.entries[from(i)].id);
            }
        }
    }
}

/// Completing a request touches no other request: every other request is in
/// flight afterwards exactly if it was before, and is the same request.
pub proof fn lemma_completion_spares_the_others<H>(table: TableModel<H>, id: u64, other: u64)
    requires
        table.well_formed(),
        other != id,
    ensures
        table.without(id).is_pending(other) == table.is_pending(other),
        table.is_pending(other) ==> table.without(id).request(other) == table.request(other),
{
    let after = table.without(id);
    lemma_completes_at_most_once(table, id);
    if table.is_pending(id) {
        let at = table.position(id);
        assert(0 <= at < table.entries.len() && table.entries[at].id == id);
        if table.is_pending(other) {
            let there = table.position(other);
            assert(0 <= there < table.entries.len() && table.entries[there].id == other);
            let moved = if there < at { there } else { there - 1 };
            assert(after.entries[moved] == table.entries[there]);
            lemma_position(after, moved);
        }
        if after.is_pending(other) {
            let there = after.position(other);
            assert(0 <= there < after.entries.len() && after.entries[there].id == other);
            let origin = if there < at { there } else { there + 1 };
            assert(after.entries[there] == table.entries[origin]);
            lemma_position(table, origin);
        }
    }
}

/// What is in flight in a table that was extended by one entry with an
/// unused identifier.
proof fn lemma_extended<H>(rest: TableModel<H>, last: PendingRequest<H>)
    requires
        rest.well_formed(),
        !rest.is_pending(last.id),
        last.id < rest.next_id,
    ensures
        ({
            let table = TableModel { entries: rest.entries.push(last), next_id: rest.next_id };
            &&& table.well_formed()
            &&& table.request(last.id) == last
            &&& forall|id: u64|
                #[trigger] table.is_pending(id) <==> rest.is_pending(id) || id == last.id
            &&& forall|id: u64|
                rest.is_pending(id) ==> #[trigger] table.request(id) == rest.request(id)
        }),
{
    let table = TableModel { entries: rest.entries.push(last), next_id: rest.next_id };
    let n = rest.entries.len() as int;
    assert(table.entries.len() == n + 1);
    assert(table.entries[n] == last);
    assert forall|i: int| 0 <= i < n implies #[trigger] table.entries[i] == rest.entries[i] by {}
    assert forall|i: int, j: int| 0 <= i < j < table.entries.len() implies (
    #[trigger] table.entries[i]).id != (#[trigger] table.entries[j]).id by {
        assert(table.entries[i] == rest.entries[i]);
        if j < n {
            assert(table.entries[j] == rest.entries[j]);
        }
    }
    assert forall|i: int| 0 <= i < table.entries.len() implies (#[trigger] table.entries[i]).id
        < table.next_id by {
        if i < n {
            assert(table.entries[i] == rest.entries[i]);
        }
    }
    lemma_position(table, n);
    assert forall|id: u64| #[trigger]
        table.is_pending(id) <==> rest.is_pending(id) || id == last.id by {
        if rest.is_pending(id) {
            let i = rest.position(id);
            assert(0 <= i < n && rest.entries[i].id == id);
            assert(table.entries[i].id == id);
        }
        if table.is_pending(id) && id != last.id {
            let i = table.position(id);
            assert(0 <= i < n + 1 && table.entries[i].id == id);
            assert(rest.entries[i].id == id);
        }
    }
    assert forall|id: u64| rest.is_pending(id) implies #[trigger] table.request(id) == rest.request(
        id,
    ) by {
        let i = rest.position(id);
        assert(0 <= i < n && rest.entries[i].id == id);
        assert(table.entries[i] == rest.entries[i]);
        lemma_position(table, i);
    }
}

/// A well-formed table with an entry is a well-formed table extended by its
/// last entry.
proof fn lemma_split<H>(table: TableModel<H>)
    requires
        table.well_formed(),
        table.entries.len() > 0,
    ensures
        ({
            let rest = TableModel { entries: table.entries.drop_last(), next_id: table.next_id };
            let last = table.entries.last();
            &&& rest.well_formed()
            &&& !rest.is_pending(last.id)
            &&& last.id < rest.next_id
            &&& table.entries == rest.entries.push(last)
        }),
{
    let rest = TableModel { entries: table.entries.drop_last(), next_id: table.next_id };
    let last = table.entries.last();
    let n = rest.entries.len() as int;
    assert forall|i: int| 0 <= i < n implies #[trigger] rest.entries[i] == table.entries[i] by {}
    assert forall|i: int| 0 <= i < n implies (#[trigger] rest.entries[i]).id < rest.next_id by {
        assert(rest.entries[i] == table.entries[i]);
    }
    assert forall|i: int, j: int| 0 <= i < j < n implies (#[trigger] rest.entries[i]).id != (
    #[trigger] rest.entries[j]).id by {
        assert(rest.entries[i] == table.entries[i]);
        assert(rest.entries[j] == table.entries[j]);
    }
    assert forall|i: int| 0 <= i < n implies (#[trigger] rest.entries[i]).id != last.id by {
        assert(rest.entries[i] == table.entries[i]);
        assert(table.entries[i].id != table.entries[n].id);
    }
    assert(table.entries =~= rest.entries.push(last));
}

/// The requests of a well-formed table that a predicate keeps form a
/// well-formed table, in which exactly the kept requests are in flight,
/// each as it was.
proof fn lemma_kept<H>(table: TableModel<H>, keep: spec_fn(PendingRequest<H>) -> bool)
    requires
        table.well_formed(),
    ensures
        ({
            let kept = TableModel { entries: table.entries.filter(keep), next_id: table.next_id };
            &&& kept.well_formed()
            &&& forall|id: u64|
                #[trigger] kept.is_pending(id) <==> table.is_pending(id) && keep(
                    table.request(id),
                )
            &&& forall|id: u64|
                #[trigger] kept.is_pending(id) ==> kept.request(id) == table.request(id)
        }),
    decreases table.entries.len(),
{
    reveal(Seq::filter);
    let kept = TableModel { entries: table.entries.filter(keep), next_id: table.next_id };
    if table.entries.len() > 0 {
        let rest = TableModel { entries: table.entries.drop_last(), next_id: table.next_id };
        let last = table.entries.last();
        let rest_kept = TableModel { entries: rest.entries.filter(keep), next_id: rest.next_id };
        lemma_split(table);
        lemma_kept(rest, keep);
        lemma_extended(rest, last);
        if keep(last) {
            assert(kept.entries == rest_kept.entries.push(last));
            lemma_extended(rest_kept, last);
        } else {
            assert(kept.entries == rest_kept.entries);
        }
        assert forall|id: u64| #[trigger]
            kept.is_pending(id) <==> table.is_pending(id) && keep(table.request(id)) by {
            assert(table.is_pending(id) <==> rest.is_pending(id) || id == last.id);
            if rest.is_pending(id) {
                assert(table.request(id) == rest.request(id));
            }
        }
        assert forall|id: u64| #[trigger] kept.is_pending(id) implies kept.request(id)
            == table.request(id) by {
            assert(table.is_pending(id) <==> rest.is_pending(id) || id == last.id);
            if rest.is_pending(id) {
                assert(table.request(id) == rest.request(id));
                assert(rest_kept.is_pending(id));
                assert(rest_kept.request(id) == rest.request(id));
                if keep(last) {
                    assert(kept.request(id) == rest_kept.request(id));
                }
            }
        }
    }
}

/// A request that is overdue completes exactly once: expiry hands it over,
/// as it was, and takes it out of the table. A request that is not overdue
/// stays in flight, as it was, and is not handed over. In what is handed
/// over no request occurs twice.
pub proof fn lemma_overdue_requests_complete_once<H>(
    table: TableModel<H>,
    now: u64,
    timeout: u64,
    id: u64,
)
    requires
        table.well_formed(),
        table.is_pending(id),
    ensures
        ({
            let after = table.without_overdue(now, timeout);
            let handed = TableModel {
                entries: overdue_entries(table.entries, now, timeout),
                next_id: table.next_id,
            };
            &&& after.well_formed()
            &&& handed.well_formed()
            &&& if table.request(id).overdue(now, timeout) {
                &&& handed.is_pending(id)
                &&& handed.request(id) == table.request(id)
                &&& !after.is_pending(id)
            } else {
                &&& after.is_pending(id)
                &&& after.request(id) == table.request(id)
                &&& !handed.is_pending(id)
            }
        }),
{
    lemma_kept(table, |request: PendingRequest<H>| request.overdue(now, timeout));
    lemma_kept(table, |request: PendingRequest<H>| !request.overdue(now, timeout));
}

} // verus!
