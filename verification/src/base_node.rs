//! The base-node synchronization state machine.
//!
//! The node drives synchronization as a finite state machine:
//! `Starting -> InitialSync -> (FetchingHorizonState | BlockSync | Listening)
//! -> Shutdown`. Each state performs its protocol against the network
//! collaborator and produces a [`StateEvent`]; [`BaseNodeStateMachine::transition`]
//! maps the current state and that event to the next state. Every state-event
//! pair outside the transition table leaves the state unchanged.

use vstd::prelude::*;

verus! {

/// Status of the local chain relative to what peers report.
#[derive(Clone, Debug, PartialEq, Eq, Structural)]
pub enum SyncStatus {
    /// The local tip matches the network tip.
    UpToDate,
    /// The local tip is the given number of blocks behind, within the pruning horizon.
    Lagging(u64),
    /// The local tip is behind the pruning horizon; a horizon state sync is needed first.
    BehindHorizon(u64),
}

/// Why the node reached the terminal `Shutdown` state.
#[derive(Clone, Debug, PartialEq, Eq)]
pub enum ShutdownReason {
    /// The user asked the node to stop.
    UserInitiated,
    /// A state handler failed in a way the node cannot recover from.
    Fatal(String),
}

/// The target height a horizon state sync is working towards.
#[derive(Clone, Copy, Debug, PartialEq, Eq, Structural)]
pub struct HorizonInfo {
    pub horizon_height: u64,
}

impl HorizonInfo {
    pub fn new(horizon_height: u64) -> (r: HorizonInfo)
        ensures
            r.horizon_height == horizon_height,
    {
        HorizonInfo { horizon_height }
    }
}

/// State data for the listening state. The listening handler keeps no
/// chain-specific data; the type exists so that the state carries the same
/// shape as the richer states.
#[derive(Clone, Copy, Debug, PartialEq, Eq, Structural)]
pub struct ListeningInfo;

/// The states of the base-node state machine. `Shutdown` is terminal.
#[derive(Clone, Debug, PartialEq, Eq)]
pub enum BaseNodeState {
    Starting,
    InitialSync,
    FetchingHorizonState(HorizonInfo),
    BlockSync,
    Listening(ListeningInfo),
    Shutdown(ShutdownReason),
}

/// Events produced by the state handlers and consumed by `transition`.
#[derive(Clone, Debug, PartialEq, Eq)]
pub enum StateEvent {
    /// Startup work is done.
    Initialized,
    /// Initial metadata sync finished with the given verdict about the local chain.
    MetadataSynced(SyncStatus),
    /// Horizon headers and state snapshots have been fetched and verified.
    HorizonStateFetched,
    /// The block sync caught up with the network tip.
    BlocksSynchronized,
    /// While listening, the periodic metadata probe found the chain behind.
    FallenBehind(SyncStatus),
    /// A state handler hit an unrecoverable error.
    FatalError(String),
    /// The user asked the node to stop.
    UserQuit,
}

/// The transition table as a function: the next state for every state-event
/// pair. Pairs outside the table map to the unchanged state.
pub open spec fn transition_spec(state: BaseNodeState, event: StateEvent) -> BaseNodeState {
    match (state, event) {
        (BaseNodeState::Starting, StateEvent::Initialized) => BaseNodeState::InitialSync,
        (
            BaseNodeState::InitialSync,
            StateEvent::MetadataSynced(SyncStatus::BehindHorizon(h)),
        ) => BaseNodeState::FetchingHorizonState(HorizonInfo { horizon_height: h }),
        (BaseNodeState::InitialSync, StateEvent::MetadataSynced(SyncStatus::Lagging(_))) =>
            BaseNodeState::BlockSync,
        (BaseNodeState::InitialSync, StateEvent::MetadataSynced(SyncStatus::UpToDate)) =>
            BaseNodeState::Listening(ListeningInfo),
        (BaseNodeState::FetchingHorizonState(_), StateEvent::HorizonStateFetched) =>
            BaseNodeState::BlockSync,
        (BaseNodeState::BlockSync, StateEvent::BlocksSynchronized) =>
            BaseNodeState::Listening(ListeningInfo),
        (BaseNodeState::Listening(_), StateEvent::FallenBehind(SyncStatus::BehindHorizon(h))) =>
            BaseNodeState::FetchingHorizonState(HorizonInfo { horizon_height: h }),
        (BaseNodeState::Listening(_), StateEvent::FallenBehind(SyncStatus::Lagging(_))) =>
            BaseNodeState::BlockSync,
        (_, StateEvent::FatalError(reason)) => BaseNodeState::Shutdown(
            ShutdownReason::Fatal(reason),
        ),
        (_, StateEvent::UserQuit) => BaseNodeState::Shutdown(ShutdownReason::UserInitiated),
        (s, _) => s,
    }
}

/// The state-event pairs that the transition table names explicitly.
pub open spec fn in_transition_table(state: BaseNodeState, event: StateEvent) -> bool {
    ||| (state matches BaseNodeState::Starting && event matches StateEvent::Initialized)
    ||| (state matches BaseNodeState::InitialSync && event matches StateEvent::MetadataSynced(_))
    ||| (state matches BaseNodeState::FetchingHorizonState(_)
        && event matches StateEvent::HorizonStateFetched)
    ||| (state matches BaseNodeState::BlockSync && event matches StateEvent::BlocksSynchronized)
    ||| (state matches BaseNodeState::Listening(_) && event matches StateEvent::FallenBehind(_))
    ||| (event matches StateEvent::FatalError(_))
    ||| (event matches StateEvent::UserQuit)
}

/// Every state-event pair outside the transition table is a no-op: the
/// machine stays in its current state.
pub proof fn lemma_unlisted_pair_preserves_state(state: BaseNodeState, event: StateEvent)
    requires
        !in_transition_table(state, event),
    ensures
        transition_spec(state, event) == state,
{
}

/// Configuration for the horizon-state sync: how many headers to request per
/// round trip and how often a failed request is retried.
#[derive(Clone, Copy, Debug, PartialEq, Eq, Structural)]
pub struct HorizonSyncConfig {
    pub header_request_size: u64,
    pub max_header_request_retries: u64,
}

impl Default for HorizonSyncConfig {
    fn default() -> (r: Self)
        ensures
            r.header_request_size == 100,
            r.max_header_request_retries == 5,
    {
        HorizonSyncConfig { header_request_size: 100, max_header_request_retries: 5 }
    }
}

/// Configuration for the block sync: how many blocks to request per round
/// trip and how often a failed request is retried.
#[derive(Clone, Copy, Debug, PartialEq, Eq, Structural)]
pub struct BlockSyncConfig {
    pub block_request_size: u64,
    pub max_block_request_retries: u64,
}

impl Default for BlockSyncConfig {
    fn default() -> (r: Self)
        ensures
            r.block_request_size == 20,
            r.max_block_request_retries == 5,
    {
        BlockSyncConfig { block_request_size: 20, max_block_request_retries: 5 }
    }
}

/// Configuration for the base-node state machine.
#[derive(Clone, Copy, Debug, PartialEq, Eq, Structural)]
pub struct BaseNodeStateMachineConfig {
    pub horizon_sync_config: HorizonSyncConfig,
    pub block_sync_config: BlockSyncConfig,
}

impl Default for BaseNodeStateMachineConfig {
    fn default() -> (r: Self)
        ensures
            r.horizon_sync_config == (HorizonSyncConfig {
                header_request_size: 100,
                max_header_request_retries: 5,
            }),
            r.block_sync_config == (BlockSyncConfig {
                block_request_size: 20,
                max_block_request_retries: 5,
            }),
    {
        BaseNodeStateMachineConfig {
            horizon_sync_config: HorizonSyncConfig::default(),
            block_sync_config: BlockSyncConfig::default(),
        }
    }
}

/// The base-node state machine. It owns the chain state that the state
/// handlers consult; the handlers themselves live with the network runtime,
/// which feeds their events through [`BaseNodeStateMachine::transition`].
pub struct BaseNodeStateMachine {
    pub config: BaseNodeStateMachineConfig,
    /// Set when the user asks the node to stop; polled at every suspension
    /// point of the running state handlers.
    pub user_stopped: bool,
}

impl BaseNodeStateMachine {
    /// Instantiate a new base node state machine.
    pub fn new(config: BaseNodeStateMachineConfig) -> (r: Self)
        ensures
            r.config == config,
            !r.user_stopped,
    {
        BaseNodeStateMachine { config, user_stopped: false }
    }

    /// The finite state machine of the base node: every possible state
    /// transition for the node given its current state and a triggered event.
    pub fn transition(state: BaseNodeState, event: StateEvent) -> (r: BaseNodeState)
        ensures
            r == transition_spec(state, event),
    {
        match (state, event) {
            (BaseNodeState::Starting, StateEvent::Initialized) => BaseNodeState::InitialSync,
            (
                BaseNodeState::InitialSync,
                StateEvent::MetadataSynced(SyncStatus::BehindHorizon(h)),
            ) => BaseNodeState::FetchingHorizonState(HorizonInfo::new(h)),
            (BaseNodeState::InitialSync, StateEvent::MetadataSynced(SyncStatus::Lagging(_))) => {
                BaseNodeState::BlockSync
            },
            (BaseNodeState::InitialSync, StateEvent::MetadataSynced(SyncStatus::UpToDate)) => {
                BaseNodeState::Listening(ListeningInfo)
            },
            (BaseNodeState::FetchingHorizonState(_), StateEvent::HorizonStateFetched) => {
                BaseNodeState::BlockSync
            },
            (BaseNodeState::BlockSync, StateEvent::BlocksSynchronized) => {
                BaseNodeState::Listening(ListeningInfo)
            },
            (
                BaseNodeState::Listening(_),
                StateEvent::FallenBehind(SyncStatus::BehindHorizon(h)),
            ) => BaseNodeState::FetchingHorizonState(HorizonInfo::new(h)),
            (BaseNodeState::Listening(_), StateEvent::FallenBehind(SyncStatus::Lagging(_))) => {
                BaseNodeState::BlockSync
            },
            (_, StateEvent::FatalError(reason)) => {
                BaseNodeState::Shutdown(ShutdownReason::Fatal(reason))
            },
            (_, StateEvent::UserQuit) => BaseNodeState::Shutdown(ShutdownReason::UserInitiated),
            (s, _) => s,
        }
    }

    /// Checks the interrupt flag, as read at a suspension point, and returns
    /// a fatal-error event when it is set; otherwise the `default` event.
    pub fn check_interrupt(flag: bool, default: StateEvent) -> (r: StateEvent)
        ensures
            flag ==> (r matches StateEvent::FatalError(m) && m@ == "User interrupted"@),
            !flag ==> r == default,
    {
        if flag {
            StateEvent::FatalError("User interrupted".to_string())
        } else {
            default
        }
    }
}

} // verus!
