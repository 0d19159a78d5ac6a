//! The event factory's registry: its configuration and the events it has
//! deployed, in deployment order, each at most once.

use vstd::prelude::*;

use crate::errors::FactoryError;
use crate::types::{AccountId, EventId};
use crate::versioning::{
    migration_step, migration_target, read_version, stored_version, version_supported,
    CURRENT_VERSION,
};

verus! {

/// An event contract deployed by the factory.
#[derive(Copy, Clone, Debug, PartialEq, Eq, Structural)]
pub struct DeployedEvent {
    pub event_id: EventId,
    pub contract_address: AccountId,
    pub organizer: AccountId,
}

/// A notification published by the factory.
#[derive(Copy, Clone, Debug, PartialEq, Eq, Structural)]
pub enum FactoryNotice {
    EventDeployed { event_id: EventId, contract_address: AccountId, organizer: AccountId },
}

/// The state of the factory registry.
pub struct FactoryView {
    pub admin: Option<AccountId>,
    pub event_wasm: Option<[u8; 32]>,
    pub ticket_contract: Option<AccountId>,
    pub payments_contract: Option<AccountId>,
    pub version: Option<u32>,
    /// Deployed events, in deployment order.
    pub deployed: Seq<DeployedEvent>,
    pub notices: Seq<FactoryNotice>,
}

/// The deployed event with identifier `id`, if any.
pub open spec fn find_deployed(ds: Seq<DeployedEvent>, id: EventId) -> Option<DeployedEvent>
    decreases ds.len(),
{
    if ds.len() == 0 {
        None
    } else if ds.last().event_id == id {
        Some(ds.last())
    } else {
        find_deployed(ds.drop_last(), id)
    }
}

/// The identifiers of the deployed events, in deployment order.
pub open spec fn event_ids(ds: Seq<DeployedEvent>) -> Seq<EventId> {
    ds.map_values(|d: DeployedEvent| d.event_id)
}

/// The identifiers of the events an organizer deployed, in deployment order.
pub open spec fn organizer_event_ids(ds: Seq<DeployedEvent>, organizer: AccountId) -> Seq<EventId>
    decreases ds.len(),
{
    if ds.len() == 0 {
        Seq::empty()
    } else if ds.last().organizer == organizer {
        organizer_event_ids(ds.drop_last(), organizer).push(ds.last().event_id)
    } else {
        organizer_event_ids(ds.drop_last(), organizer)
    }
}

/// No event is registered twice.
pub open spec fn registry_consistent(v: FactoryView) -> bool {
    forall|i: int, j: int|
        0 <= i < j < v.deployed.len() ==> (#[trigger] v.deployed[i]).event_id
            != (#[trigger] v.deployed[j]).event_id
}

/// Why `caller` may not act as administrator; `None` when it may.
pub open spec fn factory_admin_error(v: FactoryView, caller: AccountId) -> Option<FactoryError> {
    match v.admin {
        None => Some(FactoryError::NotInitialized),
        Some(a) => if a == caller {
            None
        } else {
            Some(FactoryError::Unauthorized)
        },
    }
}

/// The storage of the factory.
pub struct FactoryRegistry {
    admin: Option<AccountId>,
    event_wasm: Option<[u8; 32]>,
    ticket_contract: Option<AccountId>,
    payments_contract: Option<AccountId>,
    version: Option<u32>,
    deployed: Vec<DeployedEvent>,
    notices: Vec<FactoryNotice>,
}

impl View for FactoryRegistry {
    type V = FactoryView;

    closed spec fn view(&self) -> FactoryView {
        FactoryView {
            admin: self.admin,
            event_wasm: self.event_wasm,
            ticket_contract: self.ticket_contract,
            payments_contract: self.payments_contract,
            version: self.version,
            deployed: self.deployed@,
            notices: self.notices@,
        }
    }
}

impl FactoryRegistry {
    /// Fresh storage of a factory.
    pub fn new() -> (f: Self)
        ensures
            f@ == (FactoryView {
                admin: None,
                event_wasm: None,
                ticket_contract: None,
                payments_contract: None,
                version: None,
                deployed: Seq::empty(),
                notices: Seq::empty(),
            }),
            registry_consistent(f@),
    {
        FactoryRegistry {
            admin: None,
            event_wasm: None,
            ticket_contract: None,
            payments_contract: None,
            version: None,
            deployed: Vec::new(),
            notices: Vec::new(),
        }
    }

    /// Hands the queued notifications to the host, oldest first.
    pub fn take_notices(&mut self) -> (r: Vec<FactoryNotice>)
        ensures
            r@ == old(self)@.notices,
            final(self)@ == (FactoryView { notices: Seq::empty(), ..old(self)@ }),
    {
        let mut r = Vec::new();
        std::mem::swap(&mut r, &mut self.notices);
        r
    }

    /// Whether both the administrator and the event contract code are set.
    pub fn is_initialized(&self) -> (r: bool)
        ensures
            r == (self@.admin is Some && self@.event_wasm is Some),
    {
        self.admin.is_some() && self.event_wasm.is_some()
    }

    pub fn get_admin(&self) -> (r: Result<AccountId, FactoryError>)
        ensures
            r == match self@.admin {
                Some(a) => Ok::<AccountId, FactoryError>(a),
                None => Err(FactoryError::NotInitialized),
            },
    {
        match self.admin {
            Some(a) => Ok(a),
            None => Err(FactoryError::NotInitialized),
        }
    }

    pub fn set_admin(&mut self, admin: AccountId)
        ensures
            final(self)@ == (FactoryView { admin: Some(admin), ..old(self)@ }),
    {
        self.admin = Some(admin);
    }

    /// The hash of the event contract code the factory deploys.
    pub fn get_event_wasm_hash(&self) -> (r: Result<[u8; 32], FactoryError>)
        ensures
            r == match self@.event_wasm {
                Some(h) => Ok::<[u8; 32], FactoryError>(h),
                None => Err(FactoryError::NotInitialized),
            },
    {
        match self.event_wasm {
            Some(h) => Ok(h),
            None => Err(FactoryError::NotInitialized),
        }
    }

    pub fn set_event_wasm_hash(&mut self, hash: [u8; 32])
        ensures
            final(self)@ == (FactoryView { event_wasm: Some(hash), ..old(self)@ }),
    {
        self.event_wasm = Some(hash);
    }

    pub fn get_ticket_contract(&self) -> (r: Result<AccountId, FactoryError>)
        ensures
            r == match self@.ticket_contract {
                Some(a) => Ok::<AccountId, FactoryError>(a),
                None => Err(FactoryError::NotInitialized),
            },
    {
        match self.ticket_contract {
            Some(a) => Ok(a),
            None => Err(FactoryError::NotInitialized),
        }
    }

    pub fn set_ticket_contract(&mut self, address: AccountId)
        ensures
            final(self)@ == (FactoryView { ticket_contract: Some(address), ..old(self)@ }),
    {
        self.ticket_contract = Some(address);
    }

    pub fn get_payments_contract(&self) -> (r: Result<AccountId, FactoryError>)
        ensures
            r == match self@.payments_contract {
                Some(a) => Ok::<AccountId, FactoryError>(a),
                None => Err(FactoryError::NotInitialized),
            },
    {
        match self.payments_contract {
            Some(a) => Ok(a),
            None => Err(FactoryError::NotInitialized),
        }
    }

    pub fn set_payments_contract(&mut self, address: AccountId)
        ensures
            final(self)@ == (FactoryView { payments_contract: Some(address), ..old(self)@ }),
    {
        self.payments_contract = Some(address);
    }

    fn position_of(&self, event_id: EventId) -> (r: Option<usize>)
        ensures
            match r {
                Some(i) => i < self@.deployed.len() && find_deployed(self@.deployed, event_id) == Some(
                    self@.deployed[i as int],
                ),
                None => find_deployed(self@.deployed, event_id) is None,
            },
    {
        let mut i: usize = self.deployed.len();
        assert(self@.deployed.take(i as int) =~= self@.deployed);
        while i > 0
            invariant
                i <= self@.deployed.len(),
                find_deployed(self@.deployed, event_id) == find_deployed(
                    self@.deployed.take(i as int),
                    event_id,
                ),
            decreases i,
        {
            assert(self@.deployed.take(i as int).drop_last() =~= self@.deployed.take(i - 1));
            if self.deployed[i - 1].event_id == event_id {
                return Some(i - 1);
            }
            i = i - 1;
        }
        assert(self@.deployed.take(0) =~= Seq::<DeployedEvent>::empty());
        None
    }

    /// Registers a deployed event; an event is registered at most once.
    pub fn save_deployed_event(&mut self, event: DeployedEvent) -> (r: Result<(), FactoryError>)
        requires
            registry_consistent(old(self)@),
        ensures
            registry_consistent(final(self)@),
            match r {
                Ok(()) => find_deployed(old(self)@.deployed, event.event_id) is None && final(self)@
                    == (FactoryView { deployed: old(self)@.deployed.push(event), ..old(self)@ }),
                Err(err) => find_deployed(old(self)@.deployed, event.event_id) is Some && err
                    == FactoryError::EventAlreadyDeployed && final(self)@ == old(self)@,
            },
    {
        if self.position_of(event.event_id).is_some() {
            return Err(FactoryError::EventAlreadyDeployed);
        }
        proof {
            lemma_find_deployed_none(self@.deployed, event.event_id);
        }
        self.deployed.push(event);
        Ok(())
    }

    /// The registration of an event.
    pub fn get_deployed_event(&self, event_id: EventId) -> (r: Result<DeployedEvent, FactoryError>)
        ensures
            r == match find_deployed(self@.deployed, event_id) {
                Some(d) => Ok::<DeployedEvent, FactoryError>(d),
                None => Err(FactoryError::EventNotFoundInRegistry),
            },
    {
        match self.position_of(event_id) {
            Some(i) => Ok(self.deployed[i]),
            None => Err(FactoryError::EventNotFoundInRegistry),
        }
    }

    /// The identifiers of all deployed events, in deployment order.
    pub fn get_all_event_ids(&self) -> (r: Vec<EventId>)
        ensures
            r@ == event_ids(self@.deployed),
    {
        let mut r: Vec<EventId> = Vec::new();
        let mut i: usize = 0;
        while i < self.deployed.len()
            invariant
                i <= self@.deployed.len(),
                r@ == event_ids(self@.deployed.take(i as int)),
            decreases self@.deployed.len() - i,
        {
            r.push(self.deployed[i].event_id);
            assert(event_ids(self@.deployed.take(i + 1)) =~= event_ids(
                self@.deployed.take(i as int),
            ).push(self@.deployed[i as int].event_id));
            i = i + 1;
        }
        assert(self@.deployed.take(i as int) =~= self@.deployed);
        r
    }

    /// The identifiers of the events an organizer deployed, in deployment order.
    pub fn get_organizer_events(&self, organizer: AccountId) -> (r: Vec<EventId>)
        ensures
            r@ == organizer_event_ids(self@.deployed, organizer),
    {
        let mut r: Vec<EventId> = Vec::new();
        let mut i: usize = 0;
        while i < self.deployed.len()
            invariant
                i <= self@.deployed.len(),
                r@ == organizer_event_ids(self@.deployed.take(i as int), organizer),
            decreases self@.deployed.len() - i,
        {
            assert(self@.deployed.take(i + 1).drop_last() =~= self@.deployed.take(i as int));
            let d = self.deployed[i];
            if d.organizer == organizer {
                r.push(d.event_id);
            }
            i = i + 1;
        }
        assert(self@.deployed.take(i as int) =~= self@.deployed);
        r
    }

    /// Publishes that an event contract was deployed.
    pub fn emit_event_deployed(
        &mut self,
        event_id: EventId,
        contract_address: AccountId,
        organizer: AccountId,
    )
        ensures
            final(self)@ == (FactoryView {
                notices: old(self)@.notices.push(
                    FactoryNotice::EventDeployed { event_id, contract_address, organizer },
                ),
                ..old(self)@
            }),
    {
        self.notices.push(FactoryNotice::EventDeployed { event_id, contract_address, organizer });
    }

    /// The stored version; 1 when none is stored.
    pub fn get_contract_version(&self) -> (r: u32)
        ensures
            r == stored_version(self@.version),
    {
        read_version(self.version)
    }

    pub fn set_contract_version(&mut self, version: u32)
        ensures
            final(self)@ == (FactoryView { version: Some(version), ..old(self)@ }),
    {
        self.version = Some(version);
    }

    /// Whether the stored version is one this code supports.
    pub fn verify_version(&self) -> (r: Result<(), FactoryError>)
        ensures
            r == if version_supported(stored_version(self@.version)) {
                Ok::<(), FactoryError>(())
            } else {
                Err(FactoryError::UnsupportedVersion)
            },
    {
        if read_version(self.version) > CURRENT_VERSION {
            Err(FactoryError::UnsupportedVersion)
        } else {
            Ok(())
        }
    }

    /// The factory's version.
    pub fn contract_version(&self) -> (r: u32)
        ensures
            r == stored_version(self@.version),
    {
        self.get_contract_version()
    }

    /// Migrates the storage one version forward. Administrator only.
    /// Returns the new version.
    pub fn migrate(&mut self, admin: AccountId) -> (r: Result<u32, FactoryError>)
        ensures
            match r {
                Ok(v) => factory_admin_error(old(self)@, admin) is None && migration_target(
                    stored_version(old(self)@.version),
                ) == Some(v) && v == stored_version(old(self)@.version) + 1 && final(self)@ == (
                FactoryView { version: Some(v), ..old(self)@ }),
                Err(err) => final(self)@ == old(self)@ && if factory_admin_error(old(self)@, admin) is Some {
                    factory_admin_error(old(self)@, admin) == Some(err)
                } else {
                    migration_target(stored_version(old(self)@.version)) is None && err
                        == FactoryError::UnsupportedVersion
                },
            },
    {
        match self.admin {
            None => {
                return Err(FactoryError::NotInitialized);
            },
            Some(a) => if a != admin {
                return Err(FactoryError::Unauthorized);
            },
        }
        match migration_step(read_version(self.version)) {
            Some(next) => {
                self.version = Some(next);
                Ok(next)
            },
            None => Err(FactoryError::UnsupportedVersion),
        }
    }
}

/// An identifier that is not registered differs from every registered one.
proof fn lemma_find_deployed_none(ds: Seq<DeployedEvent>, id: EventId)
    requires
        find_deployed(ds, id) is None,
    ensures
        forall|i: int| 0 <= i < ds.len() ==> (#[trigger] ds[i]).event_id != id,
    decreases ds.len(),
{
    if ds.len() > 0 {
        lemma_find_deployed_none(ds.drop_last(), id);
        assert forall|i: int| 0 <= i < ds.len() implies (#[trigger] ds[i]).event_id != id by {
            if i < ds.len() - 1 {
                assert(ds.drop_last()[i] == ds[i]);
            }
        }
    }
}

/// An event is registered at most once: after it is saved, saving an event
/// with the same identifier is refused, and looking it up finds the first
/// registration.
pub proof fn law_event_registered_once(v: FactoryView, first: DeployedEvent, again: DeployedEvent)
    requires
        find_deployed(v.deployed, first.event_id) is None,
        again.event_id == first.event_id,
    ensures
        find_deployed(v.deployed.push(first), again.event_id) == Some(first),
{
    assert(v.deployed.push(first).last() == first);
}

} // verus!
