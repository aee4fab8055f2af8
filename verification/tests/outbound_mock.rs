//! The outbound service mock: recorded calls and canned responses.

use base_node_core::outbound_mock::{
    FinalSendMessageParams, OutboundServiceMockState, SendMessageResponse,
};

fn params(destination: u64) -> FinalSendMessageParams {
    FinalSendMessageParams {
        destination,
        broadcast: false,
    }
}

#[test]
fn calls_are_recorded_in_order() {
    let mut state = OutboundServiceMockState::new();
    assert_eq!(state.call_count(), 0);
    state.add_call((params(1), vec![1, 2]));
    state.add_call((params(2), vec![3]));
    assert_eq!(state.call_count(), 2);

    let popped = state.pop_call().unwrap();
    assert_eq!(popped.0, params(2));
    assert_eq!(popped.1, vec![3]);
    assert_eq!(state.call_count(), 1);

    let rest = state.take_calls();
    assert_eq!(rest.len(), 1);
    assert_eq!(rest[0].0, params(1));
    assert_eq!(state.call_count(), 0);
    assert!(state.pop_call().is_none());
}

#[test]
fn canned_response_is_taken_once() {
    let mut state = OutboundServiceMockState::new();
    assert!(state.take_next_response().is_none());
    state.set_next_response(SendMessageResponse::Queued(4));
    assert_eq!(
        state.take_next_response(),
        Some(SendMessageResponse::Queued(4))
    );
    assert!(state.take_next_response().is_none());
}

#[test]
fn send_requests_get_the_canned_or_default_response() {
    let mut state = OutboundServiceMockState::new();
    state.set_next_response(SendMessageResponse::Failed);
    let first = state.handle_send_request(params(9), vec![7]);
    assert_eq!(first, SendMessageResponse::Failed);
    // the canned response is consumed; the default takes over
    let second = state.handle_send_request(params(9), vec![8]);
    assert_eq!(second, SendMessageResponse::Queued(0));
    assert_eq!(state.call_count(), 2);
}
