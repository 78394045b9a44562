//! Subscriptions: the chain that opens one upstream, and the relay that
//! pushes its items to the client's sink until either side ends it.

use vstd::prelude::*;
use crate::cache::{Key, key_of, copy_params};
use crate::error::RpcError;

verus! {

/// A client's subscription request.
pub struct SubscriptionRequest {
    pub subscribe: String,
    pub unsubscribe: String,
    pub params: Vec<String>,
}

impl SubscriptionRequest {
    pub open spec fn view(&self) -> (Seq<char>, Seq<char>, Key) {
        (self.subscribe@, self.unsubscribe@, key_of(self.params@))
    }
}

/// A stage of a subscription chain.
#[derive(Clone, Copy, Debug, PartialEq, Eq, Structural)]
pub enum SubscriptionStage {
    /// Opens the subscription upstream and relays its items.
    Forward,
}

/// The stages of one subscription.
pub struct SubscriptionChain {
    pub stages: Vec<SubscriptionStage>,
}

impl SubscriptionChain {
    /// The chain that forwards upstream.
    pub fn forwarding() -> (r: SubscriptionChain)
        ensures
            r.stages@ == seq![SubscriptionStage::Forward],
    {
        SubscriptionChain { stages: vec![SubscriptionStage::Forward] }
    }

    /// What to open upstream for `request`; a chain that reaches its end
    /// without forwarding fails with `BadConfiguration`.
    pub fn open(&self, request: &SubscriptionRequest) -> (r: Result<SubscriptionRequest, RpcError>)
        ensures
            self.stages@.len() > 0 ==> r is Ok && r->Ok_0@ == request@,
            self.stages@.len() == 0 ==> r == Err::<SubscriptionRequest, RpcError>(RpcError::BadConfiguration),
    {
        if self.stages.len() == 0 {
            return Err(RpcError::BadConfiguration);
        }
        match self.stages[0] {
            SubscriptionStage::Forward => Ok(
                SubscriptionRequest {
                    subscribe: request.subscribe.clone(),
                    unsubscribe: request.unsubscribe.clone(),
                    params: copy_params(&request.params),
                },
            ),
        }
    }
}

/// Where a relay stands.
#[derive(Clone, Copy, Debug, PartialEq, Eq, Structural)]
pub enum RelayState {
    /// The upstream subscription has been asked for.
    Requested,
    /// Items are being relayed.
    Streaming,
    /// Ended by either side; nothing more is relayed.
    Closed,
    /// Ended by an upstream failure; nothing more is relayed.
    Failed,
}

/// What happened to a relay.
#[derive(Debug)]
pub enum RelayEvent {
    /// The upstream confirmed the subscription.
    Opened,
    /// The upstream refused the subscription.
    OpenFailed(RpcError),
    /// The upstream sent an item.
    Item(String),
    /// The upstream stream ended.
    UpstreamEnded,
    /// The upstream stream failed.
    UpstreamFailed(String),
    /// The client unsubscribed or its sink closed.
    SinkClosed,
}

/// What the relay asks of its runner.
#[derive(Debug, PartialEq, Eq)]
pub enum RelayAction {
    /// Accept the client's subscribe call.
    Accept,
    /// Fail the client's subscribe call.
    Reject(RpcError),
    /// Push an item to the client's sink.
    Push(String),
    /// Close the client's sink.
    CloseSink,
    /// Log the failure and close the client's sink.
    FailSink(String),
    /// Tear down the upstream subscription.
    CancelUpstream,
    /// Do nothing.
    Ignore,
}

/// The relay's transition on one event.
pub open spec fn relay(state: RelayState, event: RelayEvent) -> (RelayState, RelayAction) {
    match (state, event) {
        (RelayState::Requested, RelayEvent::Opened) => (RelayState::Streaming, RelayAction::Accept),
        (RelayState::Requested, RelayEvent::OpenFailed(e)) => (RelayState::Failed, RelayAction::Reject(e)),
        (RelayState::Requested, RelayEvent::SinkClosed) => (RelayState::Closed, RelayAction::CancelUpstream),
        (RelayState::Streaming, RelayEvent::Item(v)) => (RelayState::Streaming, RelayAction::Push(v)),
        (RelayState::Streaming, RelayEvent::UpstreamEnded) => (RelayState::Closed, RelayAction::CloseSink),
        (RelayState::Streaming, RelayEvent::UpstreamFailed(e)) => (RelayState::Failed, RelayAction::FailSink(e)),
        (RelayState::Streaming, RelayEvent::SinkClosed) => (RelayState::Closed, RelayAction::CancelUpstream),
        (s, _) => (s, RelayAction::Ignore),
    }
}

/// Steps a relay: items are pushed only while streaming, and a closed or
/// failed relay ignores everything.
pub fn relay_step(state: RelayState, event: RelayEvent) -> (r: (RelayState, RelayAction))
    ensures
        r == relay(state, event),
        (state is Closed || state is Failed) ==> r.0 == state && r.1 is Ignore,
        r.1 is Push ==> state is Streaming && r.0 is Streaming,
{
    match (state, event) {
        (RelayState::Requested, RelayEvent::Opened) => (RelayState::Streaming, RelayAction::Accept),
        (RelayState::Requested, RelayEvent::OpenFailed(e)) => (RelayState::Failed, RelayAction::Reject(e)),
        (RelayState::Requested, RelayEvent::SinkClosed) => (RelayState::Closed, RelayAction::CancelUpstream),
        (RelayState::Streaming, RelayEvent::Item(v)) => (RelayState::Streaming, RelayAction::Push(v)),
        (RelayState::Streaming, RelayEvent::UpstreamEnded) => (RelayState::Closed, RelayAction::CloseSink),
        (RelayState::Streaming, RelayEvent::UpstreamFailed(e)) => (RelayState::Failed, RelayAction::FailSink(e)),
        (RelayState::Streaming, RelayEvent::SinkClosed) => (RelayState::Closed, RelayAction::CancelUpstream),
        (s, _) => (s, RelayAction::Ignore),
    }
}

/// The relay's state and actions after each of `events` in turn.
pub open spec fn relay_all(state: RelayState, events: Seq<RelayEvent>) -> (RelayState, Seq<RelayAction>)
    decreases events.len(),
{
    if events.len() == 0 {
        (state, Seq::empty())
    } else {
        let (next, action) = relay(state, events[0]);
        let (last, rest) = relay_all(next, events.subrange(1, events.len() as int));
        (last, seq![action] + rest)
    }
}

/// While streaming, each upstream item is pushed at once, so items reach
/// the sink in the order they arrived.
pub proof fn lemma_items_relayed_in_order(events: Seq<RelayEvent>)
    requires
        forall|i: int| 0 <= i < events.len() ==> #[trigger] events[i] is Item,
    ensures
        relay_all(RelayState::Streaming, events).0 == RelayState::Streaming,
        relay_all(RelayState::Streaming, events).1.len() == events.len(),
        forall|i: int|
            0 <= i < events.len() ==> #[trigger] relay_all(RelayState::Streaming, events).1[i]
                == RelayAction::Push(events[i]->Item_0),
    decreases events.len(),
{
    if events.len() > 0 {
        let rest = events.subrange(1, events.len() as int);
        assert forall|i: int| 0 <= i < rest.len() implies #[trigger] rest[i] is Item by {
            assert(rest[i] == events[i + 1]);
        }
        lemma_items_relayed_in_order(rest);
        let acts = relay_all(RelayState::Streaming, events).1;
        assert forall|i: int| 0 <= i < events.len() implies #[trigger] acts[i]
            == RelayAction::Push(events[i]->Item_0) by {
            if i > 0 {
                assert(rest[i - 1] == events[i]);
            }
        }
    }
}

/// A closed or failed relay stays so and ignores every later event: after
/// an unsubscribe nothing more is pushed.
pub proof fn lemma_nothing_after_close(state: RelayState, events: Seq<RelayEvent>)
    requires
        state is Closed || state is Failed,
    ensures
        relay_all(state, events).0 == state,
        relay_all(state, events).1.len() == events.len(),
        forall|i: int| 0 <= i < events.len() ==> #[trigger] relay_all(state, events).1[i] is Ignore,
    decreases events.len(),
{
    if events.len() > 0 {
        let rest = events.subrange(1, events.len() as int);
        lemma_nothing_after_close(state, rest);
        let acts = relay_all(state, events).1;
        assert forall|i: int| 0 <= i < events.len() implies #[trigger] acts[i] is Ignore by {
            if i > 0 {
                assert(acts[i] == relay_all(state, rest).1[i - 1]);
            }
        }
    }
}

} // verus!
