//! State machine transitions: the table rows and the no-op default.

use base_node_core::base_node::{
    BaseNodeState, BaseNodeStateMachine, BaseNodeStateMachineConfig, HorizonInfo, ListeningInfo,
    ShutdownReason, StateEvent, SyncStatus,
};

#[test]
fn listening_falls_behind_horizon() {
    let next = BaseNodeStateMachine::transition(
        BaseNodeState::Listening(ListeningInfo),
        StateEvent::FallenBehind(SyncStatus::BehindHorizon(12345)),
    );
    assert_eq!(
        next,
        BaseNodeState::FetchingHorizonState(HorizonInfo {
            horizon_height: 12345
        })
    );
}

#[test]
fn user_quit_from_any_state() {
    let states = vec![
        BaseNodeState::Starting,
        BaseNodeState::InitialSync,
        BaseNodeState::FetchingHorizonState(HorizonInfo { horizon_height: 7 }),
        BaseNodeState::BlockSync,
        BaseNodeState::Listening(ListeningInfo),
    ];
    for state in states {
        let next = BaseNodeStateMachine::transition(state, StateEvent::UserQuit);
        assert_eq!(
            next,
            BaseNodeState::Shutdown(ShutdownReason::UserInitiated)
        );
    }
}

#[test]
fn table_rows() {
    assert_eq!(
        BaseNodeStateMachine::transition(BaseNodeState::Starting, StateEvent::Initialized),
        BaseNodeState::InitialSync
    );
    assert_eq!(
        BaseNodeStateMachine::transition(
            BaseNodeState::InitialSync,
            StateEvent::MetadataSynced(SyncStatus::BehindHorizon(42)),
        ),
        BaseNodeState::FetchingHorizonState(HorizonInfo { horizon_height: 42 })
    );
    assert_eq!(
        BaseNodeStateMachine::transition(
            BaseNodeState::InitialSync,
            StateEvent::MetadataSynced(SyncStatus::Lagging(3)),
        ),
        BaseNodeState::BlockSync
    );
    assert_eq!(
        BaseNodeStateMachine::transition(
            BaseNodeState::InitialSync,
            StateEvent::MetadataSynced(SyncStatus::UpToDate),
        ),
        BaseNodeState::Listening(ListeningInfo)
    );
    assert_eq!(
        BaseNodeStateMachine::transition(
            BaseNodeState::FetchingHorizonState(HorizonInfo { horizon_height: 42 }),
            StateEvent::HorizonStateFetched,
        ),
        BaseNodeState::BlockSync
    );
    assert_eq!(
        BaseNodeStateMachine::transition(BaseNodeState::BlockSync, StateEvent::BlocksSynchronized),
        BaseNodeState::Listening(ListeningInfo)
    );
    assert_eq!(
        BaseNodeStateMachine::transition(
            BaseNodeState::Listening(ListeningInfo),
            StateEvent::FallenBehind(SyncStatus::Lagging(9)),
        ),
        BaseNodeState::BlockSync
    );
    assert_eq!(
        BaseNodeStateMachine::transition(
            BaseNodeState::BlockSync,
            StateEvent::FatalError("io failed".to_string()),
        ),
        BaseNodeState::Shutdown(ShutdownReason::Fatal("io failed".to_string()))
    );
}

#[test]
fn unlisted_pairs_are_no_ops() {
    // Events that have no row for the given state leave it unchanged.
    assert_eq!(
        BaseNodeStateMachine::transition(BaseNodeState::Starting, StateEvent::BlocksSynchronized),
        BaseNodeState::Starting
    );
    assert_eq!(
        BaseNodeStateMachine::transition(
            BaseNodeState::BlockSync,
            StateEvent::MetadataSynced(SyncStatus::UpToDate),
        ),
        BaseNodeState::BlockSync
    );
    assert_eq!(
        BaseNodeStateMachine::transition(
            BaseNodeState::Listening(ListeningInfo),
            StateEvent::Initialized,
        ),
        BaseNodeState::Listening(ListeningInfo)
    );
    let shut = BaseNodeStateMachine::transition(
        BaseNodeState::Shutdown(ShutdownReason::UserInitiated),
        StateEvent::Initialized,
    );
    assert_eq!(shut, BaseNodeState::Shutdown(ShutdownReason::UserInitiated));
}

#[test]
fn interrupt_flag_forces_fatal_error() {
    let quiet = BaseNodeStateMachine::check_interrupt(false, StateEvent::Initialized);
    assert_eq!(quiet, StateEvent::Initialized);
    let interrupted = BaseNodeStateMachine::check_interrupt(true, StateEvent::Initialized);
    match interrupted {
        StateEvent::FatalError(msg) => assert_eq!(msg, "User interrupted"),
        other => panic!("expected a fatal error, got {:?}", other),
    }
}

#[test]
fn machine_starts_unstopped() {
    let machine = BaseNodeStateMachine::new(BaseNodeStateMachineConfig::default());
    assert!(!machine.user_stopped);
}
