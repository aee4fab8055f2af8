//! A test double for the outbound messaging service.
//!
//! The real service sends messages into the peer-to-peer network. The mock
//! records every send request and answers each with a canned response, so
//! higher layers can be exercised without a network. The channel plumbing and
//! the blocking waits live with the runtime; the state here is the recorded
//! calls and the next canned response, with every operation exact.

use vstd::prelude::*;

verus! {

/// The resolved parameters of a send request: where the message goes.
#[derive(Clone, Copy, Debug, PartialEq, Eq, Structural)]
pub struct FinalSendMessageParams {
    /// The node the message is addressed to.
    pub destination: u64,
    /// Whether the message fans out to the neighbourhood instead.
    pub broadcast: bool,
}

/// The service's answer to a send request.
#[derive(Clone, Copy, Debug, PartialEq, Eq, Structural)]
pub enum SendMessageResponse {
    /// The message was queued to this many peers.
    Queued(u64),
    /// The message could not be queued.
    Failed,
}

/// The recorded state of the mock: every send request seen, and the response
/// the next request will receive.
pub struct OutboundServiceMockState {
    calls: Vec<(FinalSendMessageParams, Vec<u8>)>,
    next_response: Option<SendMessageResponse>,
}

impl OutboundServiceMockState {
    /// The recorded send requests, oldest first.
    pub closed spec fn spec_calls(self) -> Seq<(FinalSendMessageParams, Vec<u8>)> {
        self.calls@
    }

    /// The canned response the next request will receive.
    pub closed spec fn spec_next_response(self) -> Option<SendMessageResponse> {
        self.next_response
    }

    /// A fresh state: no calls recorded, no canned response.
    pub fn new() -> (r: Self)
        ensures
            r.spec_calls() == Seq::<(FinalSendMessageParams, Vec<u8>)>::empty(),
            r.spec_next_response() is None,
    {
        OutboundServiceMockState { calls: Vec::new(), next_response: None }
    }

    /// How many send requests have been recorded.
    pub fn call_count(&self) -> (r: usize)
        ensures
            r == self.spec_calls().len(),
    {
        self.calls.len()
    }

    /// Set the canned response for the next request.
    pub fn set_next_response(&mut self, response: SendMessageResponse)
        ensures
            final(self).spec_calls() == old(self).spec_calls(),
            final(self).spec_next_response() == Some(response),
    {
        self.next_response = Some(response);
    }

    /// Take the canned response, leaving none.
    pub fn take_next_response(&mut self) -> (r: Option<SendMessageResponse>)
        ensures
            r == old(self).spec_next_response(),
            final(self).spec_next_response() is None,
            final(self).spec_calls() == old(self).spec_calls(),
    {
        self.next_response.take()
    }

    /// Record a send request.
    pub fn add_call(&mut self, req: (FinalSendMessageParams, Vec<u8>))
        ensures
            final(self).spec_calls() == old(self).spec_calls().push(req),
            final(self).spec_next_response() == old(self).spec_next_response(),
    {
        self.calls.push(req);
    }

    /// Take every recorded call, leaving none.
    pub fn take_calls(&mut self) -> (r: Vec<(FinalSendMessageParams, Vec<u8>)>)
        ensures
            r@ == old(self).spec_calls(),
            final(self).spec_calls() == Seq::<(FinalSendMessageParams, Vec<u8>)>::empty(),
            final(self).spec_next_response() == old(self).spec_next_response(),
    {
        let mut out: Vec<(FinalSendMessageParams, Vec<u8>)> = Vec::new();
        std::mem::swap(&mut out, &mut self.calls);
        out
    }

    /// Remove and return the most recent recorded call, if any.
    pub fn pop_call(&mut self) -> (r: Option<(FinalSendMessageParams, Vec<u8>)>)
        ensures
            old(self).spec_calls().len() == 0 ==> r is None && final(self).spec_calls() == old(
                self,
            ).spec_calls(),
            old(self).spec_calls().len() > 0 ==> (r == Some(
                old(self).spec_calls()[old(self).spec_calls().len() - 1],
            ) && final(self).spec_calls() == old(self).spec_calls().take(
                old(self).spec_calls().len() - 1,
            )),
            final(self).spec_next_response() == old(self).spec_next_response(),
    {
        let r = self.calls.pop();
        proof {
            if old(self).calls@.len() > 0 {
                assert(self.calls@ =~= old(self).calls@.take(old(self).calls@.len() - 1));
            }
        }
        r
    }

    /// Answer one send request as the running mock does: record the call and
    /// reply with the canned response, or with an empty queued response when
    /// none is set.
    pub fn handle_send_request(
        &mut self,
        params: FinalSendMessageParams,
        body: Vec<u8>,
    ) -> (r: SendMessageResponse)
        ensures
            final(self).spec_calls() == old(self).spec_calls().push((params, body)),
            final(self).spec_next_response() is None,
            r == (if old(self).spec_next_response() is Some {
                old(self).spec_next_response()->0
            } else {
                SendMessageResponse::Queued(0)
            }),
    {
        self.add_call((params, body));
        match self.take_next_response() {
            Some(response) => response,
            None => SendMessageResponse::Queued(0),
        }
    }
}

} // verus!
