//! What holds of every run of a dispatcher.

use vstd::prelude::*;

use super::load_balanced_group::{DispatcherAction, DispatcherState, DispatcherStep};
use crate::broker_core::transport::channel::RequestToken;
use crate::protocol::Message;

verus! {

/// Something that comes in at a dispatcher.
pub enum DispatcherEvent {
    /// A request, or `None` if there are no consumers any more.
    Request(Option<RequestToken>),
    /// A message, or `None` if the queue of the group is closed.
    Message(Option<Message>),
}

/// An attempt to answer a request.
pub struct Attempt {
    /// The request.
    pub token: RequestToken,
    /// The message that it is answered with.
    pub message: Message,
    /// Whether the consumer was still there to take it.
    pub accepted: bool,
}

/// A run of a dispatcher: where it stands, what it has taken in and what it has sent.
pub struct DispatcherRun {
    pub state: DispatcherState,
    pub requests: Seq<RequestToken>,
    pub received: Seq<Message>,
    pub attempts: Seq<Attempt>,
}

impl DispatcherRun {
    /// A run that has just begun.
    pub open spec fn start() -> DispatcherRun {
        DispatcherRun {
            state: DispatcherState::AwaitRequest,
            requests: Seq::empty(),
            received: Seq::empty(),
            attempts: Seq::empty(),
        }
    }

    /// What the dispatcher does about an event.
    pub open spec fn step(self, event: DispatcherEvent) -> DispatcherStep {
        match event {
            DispatcherEvent::Request(request) => self.state.request_step(request),
            DispatcherEvent::Message(message) => self.state.message_step(message),
        }
    }

    /// The requests that are taken in, with this event.
    pub open spec fn requests_with(self, event: DispatcherEvent) -> Seq<RequestToken> {
        match event {
            DispatcherEvent::Request(Some(token)) => if self.state is AwaitRequest
                || self.state is AwaitRetry {
                self.requests.push(token)
            } else {
                self.requests
            },
            _ => self.requests,
        }
    }

    /// The messages that are taken in, with this event.
    pub open spec fn received_with(self, event: DispatcherEvent) -> Seq<Message> {
        match event {
            DispatcherEvent::Message(Some(message)) => if self.state is AwaitMessage {
                self.received.push(message)
            } else {
                self.received
            },
            _ => self.received,
        }
    }

    /// The run after one more event. If it leads to a delivery, `accepted` says whether the
    /// consumer was still there; otherwise it does not matter.
    pub open spec fn next(self, event: DispatcherEvent, accepted: bool) -> DispatcherRun {
        let requests = self.requests_with(event);
        let received = self.received_with(event);
        match self.step(event) {
            DispatcherStep::Wait(state) => DispatcherRun {
                state,
                requests,
                received,
                attempts: self.attempts,
            },
            DispatcherStep::Deliver(token, message) => DispatcherRun {
                state: DispatcherState::after(
                    if accepted {
                        Ok(())
                    } else {
                        Err(message)
                    },
                ),
                requests,
                received,
                attempts: self.attempts.push(Attempt { token, message, accepted }),
            },
        }
    }

    /// Whether the event takes the last consumer away from a message that is held.
    pub open spec fn loses(self, event: DispatcherEvent) -> bool {
        self.state is AwaitRetry && event == DispatcherEvent::Request(None)
    }
}

/// The run after these events, each with whether a delivery that it leads to is accepted.
pub open spec fn run_of(events: Seq<(DispatcherEvent, bool)>) -> DispatcherRun
    decreases events.len(),
{
    if events.len() == 0 {
        DispatcherRun::start()
    } else {
        run_of(events.drop_last()).next(events.last().0, events.last().1)
    }
}

/// The attempts that were accepted, in order.
pub open spec fn accepted(attempts: Seq<Attempt>) -> Seq<Attempt> {
    attempts.filter(|a: Attempt| a.accepted)
}

/// What holds of requests and attempts after every event.
spec fn orderly(run: DispatcherRun) -> bool {
    &&& run.attempts.len() <= run.requests.len() <= run.attempts.len() + 1
    &&& forall|i: int|
        #![trigger run.attempts[i]]
        0 <= i < run.attempts.len() ==> run.attempts[i].token == run.requests[i]
    &&& match run.state {
        DispatcherState::AwaitMessage(token) => run.requests.len() == run.attempts.len() + 1
            && run.requests.last() == token,
        DispatcherState::Stopped => true,
        _ => run.requests.len() == run.attempts.len(),
    }
    &&& run.received.len() <= run.attempts.len()
}

proof fn lemma_orderly(events: Seq<(DispatcherEvent, bool)>)
    ensures
        orderly(run_of(events)),
    decreases events.len(),
{
    if events.len() > 0 {
        let before = run_of(events.drop_last());
        lemma_orderly(events.drop_last());
        let after = run_of(events);
        assert forall|i: int|
            #![trigger after.attempts[i]]
            0 <= i < after.attempts.len() implies after.attempts[i].token == after.requests[i] by {
            if i < before.attempts.len() {
                assert(after.attempts[i] == before.attempts[i]);
            }
        }
    }
}

/// Requests are answered one by one in the order in which they come in, each with one attempt
/// at most, and no message is taken from the queue before a request has come in for it.
pub proof fn law_requests_are_answered_in_order(events: Seq<(DispatcherEvent, bool)>)
    ensures
        ({
            let run = run_of(events);
            &&& run.attempts.len() <= run.requests.len() <= run.attempts.len() + 1
            &&& forall|i: int|
                #![trigger run.attempts[i]]
                0 <= i < run.attempts.len() ==> run.attempts[i].token == run.requests[i]
            &&& run.received.len() <= run.requests.len()
        }),
{
    lemma_orderly(events);
}

/// Whether the messages that were accepted are those that were received, in their order and
/// each once, up to the one that is held.
pub open spec fn delivered_in_order(run: DispatcherRun) -> bool {
    let sent = accepted(run.attempts);
    &&& forall|i: int|
        #![trigger sent[i]]
        0 <= i < sent.len() ==> sent[i].message == run.received[i]
    &&& match run.state.held() {
        Some(message) => run.received.len() == sent.len() + 1 && run.received.last() == message,
        None => run.received.len() == sent.len(),
    }
}

proof fn lemma_accepted_push(attempts: Seq<Attempt>, attempt: Attempt)
    ensures
        accepted(attempts.push(attempt)) == (if attempt.accepted {
            accepted(attempts).push(attempt)
        } else {
            accepted(attempts)
        }),
{
    reveal(Seq::filter);
    assert(attempts.push(attempt).drop_last() =~= attempts);
}

proof fn lemma_step_in_order(run: DispatcherRun, event: DispatcherEvent, taken: bool)
    requires
        delivered_in_order(run),
        !run.loses(event),
    ensures
        delivered_in_order(run.next(event, taken)),
{
    let after = run.next(event, taken);
    let sent = accepted(run.attempts);
    if let DispatcherStep::Deliver(token, message) = run.step(event) {
        let attempt = Attempt { token, message, accepted: taken };
        lemma_accepted_push(run.attempts, attempt);
        let now = accepted(after.attempts);
        assert forall|i: int| #![trigger now[i]] 0 <= i < now.len() implies now[i].message
            == after.received[i] by {
            if i < sent.len() {
                assert(now[i] == sent[i]);
            }
        }
    }
}

/// The i-th request whose consumer is still there gets the i-th message: the messages that are
/// accepted are those that were received, in their order and each once, up to the one that is
/// held for the next request. An attempt that fails loses, repeats and reorders nothing. This
/// holds as long as the consumers do not all go away from a message that is held.
pub proof fn law_messages_are_delivered_in_order(events: Seq<(DispatcherEvent, bool)>)
    requires
        forall|i: int|
            #![trigger events[i]]
            0 <= i < events.len() ==> !run_of(events.take(i)).loses(events[i].0),
    ensures
        delivered_in_order(run_of(events)),
    decreases events.len(),
{
    if events.len() > 0 {
        let earlier = events.drop_last();
        assert forall|i: int|
            #![trigger earlier[i]]
            0 <= i < earlier.len() implies !run_of(earlier.take(i)).loses(earlier[i].0) by {
            assert(earlier[i] == events[i]);
            assert(earlier.take(i) =~= events.take(i));
        }
        law_messages_are_delivered_in_order(earlier);
        let (event, taken) = events[events.len() - 1];
        assert(events.take(events.len() - 1) =~= earlier);
        lemma_step_in_order(run_of(earlier), event, taken);
    }
}

/// The message that a dispatcher holds, or takes in with this event.
pub open spec fn in_hand(run: DispatcherRun, event: DispatcherEvent) -> Option<Message> {
    match (run.state, event) {
        (DispatcherState::AwaitRetry(message), _) => Some(message),
        (DispatcherState::AwaitMessage(_), DispatcherEvent::Message(message)) => message,
        _ => None,
    }
}

/// A message that a dispatcher has in hand is delivered with the event or held after it,
/// unless there are no consumers any more.
pub proof fn law_message_is_lost_only_without_consumers(
    run: DispatcherRun,
    event: DispatcherEvent,
    taken: bool,
)
    ensures
        match in_hand(run, event) {
            Some(message) => !run.loses(event) ==> {
                let after = run.next(event, taken);
                ||| after.state.held() == Some(message)
                ||| after.attempts == run.attempts.push(after.attempts.last())
                    && after.attempts.last().message == message && after.attempts.last().accepted
            },
            None => true,
        },
{
}

// ---------------------------------------------------------------------------------------
// Steps
// ---------------------------------------------------------------------------------------

/// A dispatcher that has stopped does nothing any more. Any other stops exactly if it is told
/// that there are no consumers while it waits for a request and holds no message, or that the
/// queue is closed while it waits for a message. Told that there are no consumers while it
/// holds a message, it holds none after that and waits for a request.
pub proof fn law_when_a_dispatcher_stops(
    state: DispatcherState,
    request: Option<RequestToken>,
    message: Option<Message>,
    on_request: DispatcherStep,
    on_message: (DispatcherStep, Option<Message>),
)
    requires
        call_ensures(DispatcherState::on_request, (state, request), on_request),
        call_ensures(DispatcherState::on_message, (state, message), on_message),
    ensures
        state is Stopped ==> on_request == DispatcherStep::Wait(state) && on_message.0
            == DispatcherStep::Wait(state),
        !(state is Stopped) ==> {
            &&& on_request == DispatcherStep::Wait(DispatcherState::Stopped)
                <==> state is AwaitRequest && request is None
            &&& on_message.0 == DispatcherStep::Wait(DispatcherState::Stopped)
                <==> state is AwaitMessage && message is None
        },
        state is AwaitRetry && request is None ==> on_request == DispatcherStep::Wait(
            DispatcherState::AwaitRequest,
        ),
{
}

/// A request that is waited for is answered with the message that is held, or is the one that
/// the next message is for. A message that is waited for answers the request that waits. What
/// is not waited for changes nothing, and a message is handed back then.
pub proof fn law_what_a_dispatcher_answers(
    state: DispatcherState,
    token: RequestToken,
    message: Message,
    on_request: DispatcherStep,
    on_message: (DispatcherStep, Option<Message>),
)
    requires
        call_ensures(DispatcherState::on_request, (state, Some(token)), on_request),
        call_ensures(DispatcherState::on_message, (state, Some(message)), on_message),
    ensures
        match state {
            DispatcherState::AwaitRequest => on_request == DispatcherStep::Wait(
                DispatcherState::AwaitMessage(token),
            ),
            DispatcherState::AwaitRetry(held) => on_request == DispatcherStep::Deliver(token, held),
            _ => on_request == DispatcherStep::Wait(state),
        },
        match state {
            DispatcherState::AwaitMessage(waiting) => on_message == (
                DispatcherStep::Deliver(waiting, message),
                None::<Message>,
            ),
            _ => on_message == (DispatcherStep::Wait(state), Some(message)),
        },
{
}

/// After a delivery the dispatcher waits for a request; if the message came back, it holds it
/// meanwhile.
pub proof fn law_after_a_delivery(outcome: Result<(), Message>, r: DispatcherState)
    requires
        call_ensures(DispatcherState::after_delivery, (outcome,), r),
    ensures
        match outcome {
            Ok(_) => r is AwaitRequest,
            Err(message) => r == DispatcherState::AwaitRetry(message),
        },
{
}

/// A dispatcher waits for a message exactly while a request waits for one, and for nothing once
/// it has stopped.
pub proof fn law_what_a_dispatcher_waits_for(state: &DispatcherState, r: DispatcherAction)
    requires
        call_ensures(DispatcherState::next_action, (state,), r),
    ensures
        r == DispatcherAction::ReceiveMessage <==> *state is AwaitMessage,
        r == DispatcherAction::Stop <==> *state is Stopped,
        r == DispatcherAction::ReceiveRequest <==> *state is AwaitRequest || *state is AwaitRetry,
{
}

} // verus!
