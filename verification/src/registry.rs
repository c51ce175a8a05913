//! The registry of contract event listeners: at most one listener for each
//! contract address, with the progress that each one reports.

use vstd::prelude::*;
use crate::error::NodeError;

verus! {

/// What a listener for the events of one contract is started with.
#[derive(Debug, Clone, PartialEq, Eq)]
pub struct EventProcessorConfig {
    pub evm_node_url: String,
    pub db_addr: String,
    pub abi: String,
    pub target_events: Vec<String>,
    pub contract_addr: String,
    pub start_block: u64,
}

/// The mathematical value of an [`EventProcessorConfig`].
pub ghost struct EventProcessorConfigView {
    pub evm_node_url: Seq<char>,
    pub db_addr: Seq<char>,
    pub abi: Seq<char>,
    pub target_events: Seq<Seq<char>>,
    pub contract_addr: Seq<char>,
    pub start_block: u64,
}

/// The texts of a sequence of strings.
pub open spec fn texts(names: Seq<String>) -> Seq<Seq<char>> {
    Seq::new(names.len(), |i: int| names[i]@)
}

impl View for EventProcessorConfig {
    type V = EventProcessorConfigView;

    open spec fn view(&self) -> EventProcessorConfigView {
        EventProcessorConfigView {
            evm_node_url: self.evm_node_url@,
            db_addr: self.db_addr@,
            abi: self.abi@,
            target_events: texts(self.target_events@),
            contract_addr: self.contract_addr@,
            start_block: self.start_block,
        }
    }
}

/// A copy of `names` with the same texts.
pub fn duplicate_names(names: &Vec<String>) -> (copy: Vec<String>)
    ensures
        texts(copy@) == texts(names@),
{
    let mut copy: Vec<String> = Vec::new();
    let mut i: usize = 0;
    while i < names.len()
        invariant
            i <= names.len(),
            copy@.len() == i,
            forall|k: int| 0 <= k < i ==> (#[trigger] copy@[k])@ == names@[k]@,
        decreases names.len() - i,
    {
        copy.push(names[i].clone());
        i = i + 1;
    }
    assert(texts(copy@) =~= texts(names@));
    copy
}

impl EventProcessorConfig {
    /// A copy with the same value.
    pub fn duplicate(&self) -> (copy: EventProcessorConfig)
        ensures
            copy@ == self@,
    {
        EventProcessorConfig {
            evm_node_url: self.evm_node_url.clone(),
            db_addr: self.db_addr.clone(),
            abi: self.abi.clone(),
            target_events: duplicate_names(&self.target_events),
            contract_addr: self.contract_addr.clone(),
            start_block: self.start_block,
        }
    }
}

/// A registered listener: what it was started with and how far it has come.
#[derive(Debug, Clone, PartialEq, Eq)]
pub struct ProcessorHandle {
    pub config: EventProcessorConfig,
    pub block_number: u64,
    pub event_number: u64,
}

/// The mathematical value of a [`ProcessorHandle`].
pub ghost struct ProcessorHandleView {
    pub config: EventProcessorConfigView,
    pub block_number: u64,
    pub event_number: u64,
}

impl View for ProcessorHandle {
    type V = ProcessorHandleView;

    open spec fn view(&self) -> ProcessorHandleView {
        ProcessorHandleView {
            config: self.config@,
            block_number: self.block_number,
            event_number: self.event_number,
        }
    }
}

/// The progress of one listener, as it is reported to observers.
#[derive(Debug, Clone, PartialEq, Eq)]
pub struct ContractSyncStatus {
    pub addr: String,
    pub evm_node_url: String,
    pub block_number: u64,
    pub event_number: u64,
}

/// The mathematical value of a [`ContractSyncStatus`].
pub ghost struct ContractSyncStatusView {
    pub addr: Seq<char>,
    pub evm_node_url: Seq<char>,
    pub block_number: u64,
    pub event_number: u64,
}

impl View for ContractSyncStatus {
    type V = ContractSyncStatusView;

    open spec fn view(&self) -> ContractSyncStatusView {
        ContractSyncStatusView {
            addr: self.addr@,
            evm_node_url: self.evm_node_url@,
            block_number: self.block_number,
            event_number: self.event_number,
        }
    }
}

/// The values of a sequence of handles.
pub open spec fn handle_views(handles: Seq<ProcessorHandle>) -> Seq<ProcessorHandleView> {
    Seq::new(handles.len(), |i: int| handles[i]@)
}

/// The values of a sequence of status reports.
pub open spec fn status_views(reports: Seq<ContractSyncStatus>) -> Seq<ContractSyncStatusView> {
    Seq::new(reports.len(), |i: int| reports[i]@)
}

/// What is reported of a listener.
pub open spec fn status_of(handle: ProcessorHandleView) -> ContractSyncStatusView {
    ContractSyncStatusView {
        addr: handle.config.contract_addr,
        evm_node_url: handle.config.evm_node_url,
        block_number: handle.block_number,
        event_number: handle.event_number,
    }
}

/// What is reported of each of the listeners, in their order.
pub open spec fn reported(entries: Seq<ProcessorHandleView>) -> Seq<ContractSyncStatusView> {
    Seq::new(entries.len(), |i: int| status_of(entries[i]))
}

/// Whether a listener is registered under the contract address `addr`.
pub open spec fn has_address(entries: Seq<ProcessorHandleView>, addr: Seq<char>) -> bool {
    exists|i: int| 0 <= i < entries.len() && (#[trigger] entries[i]).config.contract_addr == addr
}

/// No two listeners are registered under the same contract address.
pub open spec fn addresses_distinct(entries: Seq<ProcessorHandleView>) -> bool {
    forall|i: int, j: int|
        0 <= i < j < entries.len() ==> (#[trigger] entries[i]).config.contract_addr != (
        #[trigger] entries[j]).config.contract_addr
}

/// The entries with the progress of entry `at` replaced.
pub open spec fn with_progress(
    entries: Seq<ProcessorHandleView>,
    at: int,
    block_number: u64,
    event_number: u64,
) -> Seq<ProcessorHandleView> {
    entries.update(
        at,
        ProcessorHandleView { block_number, event_number, config: entries[at].config },
    )
}

/// A listener under a contract address that is not registered yet keeps the
/// registered addresses distinct.
pub proof fn lemma_register_keeps_distinct(
    entries: Seq<ProcessorHandleView>,
    handle: ProcessorHandleView,
)
    requires
        addresses_distinct(entries),
        !has_address(entries, handle.config.contract_addr),
    ensures
        addresses_distinct(entries.push(handle)),
{
    let after = entries.push(handle);
    assert forall|i: int, j: int| 0 <= i < j < after.len() implies (
    #[trigger] after[i]).config.contract_addr != (#[trigger] after[j]).config.contract_addr by {
        assert(after[i] == entries[i]);
        if j < entries.len() {
            assert(after[j] == entries[j]);
        }
    }
}

/// The listeners by contract address, in the order in which they were
/// registered.
pub struct ProcessorRegistry {
    entries: Vec<ProcessorHandle>,
}

impl View for ProcessorRegistry {
    type V = Seq<ProcessorHandleView>;

    closed spec fn view(&self) -> Seq<ProcessorHandleView> {
        handle_views(self.entries@)
    }
}

impl ProcessorRegistry {
    /// The invariant of the registry: no contract address occurs twice.
    pub open spec fn wf(&self) -> bool {
        addresses_distinct(self@)
    }

    /// A registry without listeners.
    pub fn new() -> (registry: ProcessorRegistry)
        ensures
            registry@ == Seq::<ProcessorHandleView>::empty(),
            registry.wf(),
    {
        let registry = ProcessorRegistry { entries: Vec::new() };
        assert(registry@ =~= Seq::empty());
        registry
    }

    /// How many listeners are registered.
    pub fn len(&self) -> (count: usize)
        ensures
            count == self@.len(),
    {
        self.entries.len()
    }

    /// The place of the listener under the contract address `addr`, if one is
    /// registered.
    pub fn position(&self, addr: &String) -> (found: Option<usize>)
        ensures
            found is None <==> !has_address(self@, addr@),
            found is Some ==> found->0 < self@.len() && self@[found->0 as int].config.contract_addr
                == addr@,
    {
        let mut i: usize = 0;
        while i < self.entries.len()
            invariant
                i <= self.entries.len(),
                forall|k: int| 0 <= k < i ==> (#[trigger] self@[k]).config.contract_addr != addr@,
            decreases self.entries.len() - i,
        {
            if self.entries[i].config.contract_addr == *addr {
                assert(self@[i as int].config.contract_addr == addr@);
                return Some(i);
            }
            i = i + 1;
        }
        None
    }

    /// Whether a listener is registered under the contract address `addr`.
    pub fn contains(&self, addr: &String) -> (found: bool)
        ensures
            found == has_address(self@, addr@),
    {
        self.position(addr).is_some()
    }

    /// Registers a listener under the contract address of `config`, with no
    /// progress yet. Fails with `AlreadyRegistered`, changing nothing, when a
    /// listener is registered under that address: an entry is never replaced.
    pub fn register(&mut self, config: EventProcessorConfig) -> (res: Result<(), NodeError>)
        requires
            old(self).wf(),
        ensures
            final(self).wf(),
            has_address(old(self)@, config@.contract_addr) ==> res == Err::<(), NodeError>(
                NodeError::AlreadyRegistered,
            ) && final(self)@ == old(self)@,
            !has_address(old(self)@, config@.contract_addr) ==> res is Ok
                && final(self)@ == old(self)@.push(
                ProcessorHandleView { config: config@, block_number: 0, event_number: 0 },
            ),
    {
        if self.contains(&config.contract_addr) {
            return Err(NodeError::AlreadyRegistered);
        }
        let ghost before = self@;
        let handle = ProcessorHandle { config, block_number: 0, event_number: 0 };
        proof {
            lemma_register_keeps_distinct(before, handle@);
        }
        self.entries.push(handle);
        assert(self@ =~= before.push(handle@));
        Ok(())
    }

    /// Notes how far the listener under the contract address `addr` has come.
    /// Returns whether such a listener is registered; without one nothing
    /// changes.
    pub fn record_progress(
        &mut self,
        addr: &String,
        block_number: u64,
        event_number: u64,
    ) -> (found: bool)
        requires
            old(self).wf(),
        ensures
            final(self).wf(),
            found == has_address(old(self)@, addr@),
            !found ==> final(self)@ == old(self)@,
            found ==> exists|at: int|
                0 <= at < old(self)@.len() && (#[trigger] old(self)@[at]).config.contract_addr
                    == addr@ && final(self)@ == with_progress(
                    old(self)@,
                    at,
                    block_number,
                    event_number,
                ),
    {
        match self.position(addr) {
            None => false,
            Some(at) => {
                let ghost before = self@;
                let handle = ProcessorHandle {
                    config: self.entries[at].config.duplicate(),
                    block_number,
                    event_number,
                };
                self.entries.set(at, handle);
                proof {
                    assert(self@ =~= with_progress(before, at as int, block_number, event_number));
                    assert forall|i: int, j: int| 0 <= i < j < self@.len() implies (
                    #[trigger] self@[i]).config.contract_addr != (
                    #[trigger] self@[j]).config.contract_addr by {
                        assert(self@[i].config.contract_addr == before[i].config.contract_addr);
                        assert(self@[j].config.contract_addr == before[j].config.contract_addr);
                    }
                    assert(before[at as int].config.contract_addr == addr@);
                }
                true
            },
        }
    }

    /// The progress of every listener, in the order of registration.
    pub fn snapshot_status(&self) -> (reports: Vec<ContractSyncStatus>)
        ensures
            status_views(reports@) == reported(self@),
    {
        let mut reports: Vec<ContractSyncStatus> = Vec::new();
        let mut i: usize = 0;
        while i < self.entries.len()
            invariant
                i <= self.entries.len(),
                reports@.len() == i,
                forall|k: int| 0 <= k < i ==> (#[trigger] reports@[k])@ == status_of(self@[k]),
            decreases self.entries.len() - i,
        {
            let handle = &self.entries[i];
            reports.push(
                ContractSyncStatus {
                    addr: handle.config.contract_addr.clone(),
                    evm_node_url: handle.config.evm_node_url.clone(),
                    block_number: handle.block_number,
                    event_number: handle.event_number,
                },
            );
            i = i + 1;
        }
        assert(status_views(reports@) =~= reported(self@));
        reports
    }
}

} // verus!
