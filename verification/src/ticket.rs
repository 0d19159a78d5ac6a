//! The ticket contract's storage: ticket records by identifier, the
//! tickets of an owner or an event, and the storage version.

use vstd::prelude::*;

use crate::errors::TicketError;
use crate::table::Table;
use crate::types::{AccountId, EventId, Ticket};
use crate::versioning::{
    migration_step, migration_target, read_version, stored_version, version_supported,
    CURRENT_VERSION,
};

verus! {

/// The state of the ticket store.
pub struct TicketStoreView {
    /// Ticket records in the order they were first stored.
    pub tickets: Seq<Ticket>,
    /// The stored list of ticket identifiers of each owner.
    pub owner_tickets: Map<AccountId, Seq<u64>>,
    /// The stored list of ticket identifiers of each event.
    pub event_tickets: Map<EventId, Seq<u64>>,
    pub version: Option<u32>,
}

/// Where the record of ticket `id` is stored, or -1.
pub open spec fn ticket_index(ts: Seq<Ticket>, id: u64) -> int
    decreases ts.len(),
{
    if ts.len() == 0 {
        -1
    } else if ts.last().ticket_id == id {
        ts.len() - 1
    } else {
        ticket_index(ts.drop_last(), id)
    }
}

/// The records after storing `t`: it replaces the record with its
/// identifier, or is added after the others.
pub open spec fn store_ticket(ts: Seq<Ticket>, t: Ticket) -> Seq<Ticket> {
    if ticket_index(ts, t.ticket_id) >= 0 {
        ts.update(ticket_index(ts, t.ticket_id), t)
    } else {
        ts.push(t)
    }
}

/// What a read of ticket `id` gives.
pub open spec fn ticket_lookup(ts: Seq<Ticket>, id: u64) -> Result<Ticket, TicketError> {
    if ticket_index(ts, id) >= 0 {
        Ok(ts[ticket_index(ts, id)])
    } else {
        Err(TicketError::TicketNotFound)
    }
}

/// The list stored under `k`; empty where none is stored.
pub open spec fn list_or_empty(m: Map<u64, Seq<u64>>, k: u64) -> Seq<u64> {
    if m.dom().contains(k) {
        m[k]
    } else {
        Seq::empty()
    }
}

/// The storage of the ticket contract.
pub struct TicketStore {
    tickets: Vec<Ticket>,
    owner_lists: Table<u64, Vec<u64>>,
    event_lists: Table<u64, Vec<u64>>,
    version: Option<u32>,
}

impl View for TicketStore {
    type V = TicketStoreView;

    closed spec fn view(&self) -> TicketStoreView {
        TicketStoreView {
            tickets: self.tickets@,
            owner_tickets: self.owner_lists@.map_values(|ids: Vec<u64>| ids@),
            event_tickets: self.event_lists@.map_values(|ids: Vec<u64>| ids@),
            version: self.version,
        }
    }
}

proof fn lemma_ticket_index(ts: Seq<Ticket>, id: u64)
    ensures
        -1 <= ticket_index(ts, id) < ts.len(),
        ticket_index(ts, id) >= 0 ==> ts[ticket_index(ts, id)].ticket_id == id,
        ticket_index(ts, id) < 0 ==> forall|i: int| 0 <= i < ts.len() ==> (#[trigger] ts[i]).ticket_id != id,
    decreases ts.len(),
{
    if ts.len() > 0 {
        lemma_ticket_index(ts.drop_last(), id);
        assert forall|i: int| 0 <= i < ts.len() - 1 implies ts.drop_last()[i] == ts[i] by {}
    }
}

/// A copy of a list of identifiers.
fn copy_ids(ids: &Vec<u64>) -> (r: Vec<u64>)
    ensures
        r@ == ids@,
{
    let mut r: Vec<u64> = Vec::new();
    let mut i: usize = 0;
    while i < ids.len()
        invariant
            i <= ids@.len(),
            r@ == ids@.take(i as int),
        decreases ids@.len() - i,
    {
        r.push(ids[i]);
        i = i + 1;
        assert(r@ =~= ids@.take(i as int));
    }
    assert(ids@.take(i as int) =~= ids@);
    r
}

impl TicketStore {
    /// Fresh storage of a ticket contract.
    pub fn new() -> (s: Self)
        ensures
            s@ == (TicketStoreView {
                tickets: Seq::empty(),
                owner_tickets: Map::empty(),
                event_tickets: Map::empty(),
                version: None,
            }),
    {
        let s = TicketStore {
            tickets: Vec::new(),
            owner_lists: Table::new(),
            event_lists: Table::new(),
            version: None,
        };
        assert(s@.owner_tickets =~= Map::<u64, Seq<u64>>::empty());
        assert(s@.event_tickets =~= Map::<u64, Seq<u64>>::empty());
        s
    }

    fn find(&self, ticket_id: u64) -> (r: Option<usize>)
        ensures
            match r {
                Some(i) => i < self@.tickets.len() && i as int == ticket_index(self@.tickets, ticket_id),
                None => ticket_index(self@.tickets, ticket_id) < 0,
            },
    {
        let mut i: usize = self.tickets.len();
        assert(self@.tickets.take(i as int) =~= self@.tickets);
        while i > 0
            invariant
                i <= self@.tickets.len(),
                ticket_index(self@.tickets, ticket_id) == ticket_index(
                    self@.tickets.take(i as int),
                    ticket_id,
                ),
            decreases i,
        {
            assert(self@.tickets.take(i as int).drop_last() =~= self@.tickets.take(i - 1));
            if self.tickets[i - 1].ticket_id == ticket_id {
                return Some(i - 1);
            }
            i = i - 1;
        }
        None
    }

    /// The record of a ticket.
    pub fn get_ticket(&self, ticket_id: u64) -> (r: Result<Ticket, TicketError>)
        ensures
            r == ticket_lookup(self@.tickets, ticket_id),
    {
        match self.find(ticket_id) {
            Some(i) => Ok(self.tickets[i]),
            None => Err(TicketError::TicketNotFound),
        }
    }

    /// Stores a ticket's record under its identifier.
    pub fn update_ticket(&mut self, ticket: Ticket)
        ensures
            final(self)@ == (TicketStoreView {
                tickets: store_ticket(old(self)@.tickets, ticket),
                ..old(self)@
            }),
    {
        proof {
            lemma_ticket_index(self@.tickets, ticket.ticket_id);
        }
        match self.find(ticket.ticket_id) {
            Some(i) => self.tickets.set(i, ticket),
            None => self.tickets.push(ticket),
        }
    }

    /// The ticket identifiers stored for an owner; empty when none are.
    pub fn get_tickets_by_owner(&self, owner: AccountId) -> (r: Vec<u64>)
        ensures
            r@ == list_or_empty(self@.owner_tickets, owner),
    {
        match self.owner_lists.get_ref(&owner) {
            Some(ids) => copy_ids(ids),
            None => Vec::new(),
        }
    }

    /// The ticket identifiers stored for an event; empty when none are.
    pub fn get_tickets_by_event(&self, event_id: EventId) -> (r: Vec<u64>)
        ensures
            r@ == list_or_empty(self@.event_tickets, event_id),
    {
        match self.event_lists.get_ref(&event_id) {
            Some(ids) => copy_ids(ids),
            None => Vec::new(),
        }
    }

    /// Stores the list of ticket identifiers of an owner.
    pub fn set_tickets_by_owner(&mut self, owner: AccountId, ids: Vec<u64>)
        ensures
            final(self)@ == (TicketStoreView {
                owner_tickets: old(self)@.owner_tickets.insert(owner, ids@),
                ..old(self)@
            }),
    {
        let ghost expected = self@.owner_tickets.insert(owner, ids@);
        self.owner_lists.set(owner, ids);
        assert(self@.owner_tickets =~= expected);
    }

    /// Stores the list of ticket identifiers of an event.
    pub fn set_tickets_by_event(&mut self, event_id: EventId, ids: Vec<u64>)
        ensures
            final(self)@ == (TicketStoreView {
                event_tickets: old(self)@.event_tickets.insert(event_id, ids@),
                ..old(self)@
            }),
    {
        let ghost expected = self@.event_tickets.insert(event_id, ids@);
        self.event_lists.set(event_id, ids);
        assert(self@.event_tickets =~= expected);
    }

    /// The stored version; 1 when none is stored.
    pub fn get_contract_version(&self) -> (r: u32)
        ensures
            r == stored_version(self@.version),
    {
        read_version(self.version)
    }

    pub fn set_contract_version(&mut self, version: u32)
        ensures
            final(self)@ == (TicketStoreView { version: Some(version), ..old(self)@ }),
    {
        self.version = Some(version);
    }

    /// Whether the stored version is one this code supports.
    pub fn verify_version(&self) -> (r: Result<(), TicketError>)
        ensures
            r == if version_supported(stored_version(self@.version)) {
                Ok::<(), TicketError>(())
            } else {
                Err(TicketError::UnsupportedVersion)
            },
    {
        if read_version(self.version) > CURRENT_VERSION {
            Err(TicketError::UnsupportedVersion)
        } else {
            Ok(())
        }
    }

    /// The ticket contract's version.
    pub fn contract_version(&self) -> (r: u32)
        ensures
            r == stored_version(self@.version),
    {
        self.get_contract_version()
    }

    /// Migrates the storage one version forward, as authorized by `caller`.
    /// Returns the new version.
    pub fn migrate(&mut self, caller: AccountId) -> (r: Result<u32, TicketError>)
        ensures
            match r {
                Ok(v) => migration_target(stored_version(old(self)@.version)) == Some(v) && v
                    == stored_version(old(self)@.version) + 1 && final(self)@ == (TicketStoreView {
                    version: Some(v),
                    ..old(self)@
                }),
                Err(err) => migration_target(stored_version(old(self)@.version)) is None && err
                    == TicketError::UnsupportedVersion && final(self)@ == old(self)@,
            },
    {
        match migration_step(read_version(self.version)) {
            Some(next) => {
                self.version = Some(next);
                Ok(next)
            },
            None => Err(TicketError::UnsupportedVersion),
        }
    }
}


/// Two sequences of records with the same identifier at each position are
/// searched alike.
proof fn lemma_index_same_ids(a: Seq<Ticket>, b: Seq<Ticket>, id: u64)
    requires
        a.len() == b.len(),
        forall|i: int| 0 <= i < a.len() ==> (#[trigger] a[i]).ticket_id == b[i].ticket_id,
    ensures
        ticket_index(a, id) == ticket_index(b, id),
    decreases a.len(),
{
    if a.len() > 0 {
        assert(a.last().ticket_id == b.last().ticket_id);
        lemma_index_same_ids(a.drop_last(), b.drop_last(), id);
    }
}

/// What a store writes, a read gives back: after storing a ticket, reading
/// its identifier gives that ticket, and every other identifier reads as
/// before.
pub proof fn law_stored_ticket_is_read_back(ts: Seq<Ticket>, t: Ticket, id: u64)
    ensures
        ticket_lookup(store_ticket(ts, t), t.ticket_id) == Ok::<Ticket, TicketError>(t),
        id != t.ticket_id ==> ticket_lookup(store_ticket(ts, t), id) == ticket_lookup(ts, id),
{
    let s = store_ticket(ts, t);
    lemma_ticket_index(ts, t.ticket_id);
    lemma_ticket_index(ts, id);
    if ticket_index(ts, t.ticket_id) >= 0 {
        lemma_index_same_ids(s, ts, t.ticket_id);
        lemma_index_same_ids(s, ts, id);
    } else {
        assert(s.drop_last() == ts);
    }
}

} // verus!
