//! Groups of consumers and their dispatcher.

use arcella_broker::broker_core::registry::load_balanced_group::{
    DispatcherAction, DispatcherState, DispatcherStep, LoadBalancedGroup,
};
use arcella_broker::broker_core::registry::routing::RouteTarget;
use arcella_broker::broker_core::registry::slot::SubscriptionSlot;
use arcella_broker::broker_core::registry::LocalRegistry;
use arcella_broker::broker_core::transport::channel::{
    create_channel, new_request, request_outcome, MessageSender, RequestSender, TryRecvError,
};
use arcella_broker::protocol::{Message, TransferMode};
use bytes::Bytes;
use std::sync::Arc;
use tokio::sync::oneshot;

fn message(payload: &'static [u8]) -> Message {
    Message::new(
        TransferMode::InOnly,
        [0u8; 32],
        [1u8; 16],
        [0u8; 4],
        64,
        "test".to_string(),
        "many".to_string(),
        Bytes::from_static(payload),
    )
    .unwrap()
}

/// A registry with a group for the address "many": the slot, the target and the dispatcher.
fn group() -> (
    LocalRegistry,
    u64,
    RouteTarget,
    arcella_broker::broker_core::registry::load_balanced_group::Dispatcher,
) {
    let mut registry = LocalRegistry::new();
    let (tx, rx) = create_channel(4);
    let slot = registry.store.add_slot(SubscriptionSlot::new(tx));
    let (target, dispatcher) =
        RouteTarget::new_load_balanced(&mut registry.store, slot, rx, 3, "many".to_string());
    registry.register("many".to_string(), target).unwrap();
    (registry, slot, target, dispatcher)
}

fn consumer(registry: &mut LocalRegistry, target: RouteTarget) -> Arc<RequestSender> {
    target.request_sender(&mut registry.store).unwrap()
}

fn channel<'a>(registry: &'a LocalRegistry, target: RouteTarget) -> &'a MessageSender {
    target.delivery(&registry.store).unwrap()
}

/// Queues a request, and returns where the message will come.
fn request(requests: &RequestSender) -> oneshot::Receiver<Message> {
    let (token, reply) = new_request();
    request_outcome(reply, Some(requests.try_send(token))).unwrap()
}

/// Does what a step asks for, and returns the state that follows.
fn perform(step: DispatcherStep) -> DispatcherState {
    match step {
        DispatcherStep::Wait(state) => state,
        DispatcherStep::Deliver(token, message) => {
            DispatcherState::after_delivery(token.send(message))
        }
    }
}

#[test]
fn consumers_join_and_leave() {
    let (mut registry, slot, target, dispatcher) = group();
    let id = target.load_balanced_group().unwrap();
    assert_eq!(dispatcher.slot, slot);
    assert_eq!(dispatcher.address, "many");
    assert!(target.is_closed(&registry.store));
    assert!(!target.closed_when(&registry.store, false));
    let one = consumer(&mut registry, target);
    let two = consumer(&mut registry, target);
    assert_eq!(one.load().max_capacity, 3);
    assert!(!target.is_closed(&registry.store));
    assert_eq!(registry.store.groups[&id].consumer_count(), 2);
    assert!(!registry.store.remove_consumer(id));
    drop(one);
    assert!(!target.is_closed(&registry.store));
    assert_eq!(target.version(&registry.store), 1);
    assert!(registry.store.remove_consumer(id));
    drop(two);
    assert!(target.is_closed(&registry.store));
    assert_eq!(target.version(&registry.store), 2);
    assert!(target.delivery(&registry.store).is_err());
    assert!(!registry.store.remove_consumer(id));
    assert_eq!(registry.store.groups[&id].consumer_count(), usize::MAX);
    assert!(!registry.store.shutdown_group(id));
    assert!(!registry.store.remove_consumer(id + 1));
}

#[test]
fn exclusive_targets_have_no_group() {
    let (mut registry, slot, _target, _dispatcher) = group();
    let single = RouteTarget::new_exclusive(slot);
    assert_eq!(single.load_balanced_group(), None);
    assert!(single.request_sender(&mut registry.store).is_none());
}

#[test]
fn unregistering_shuts_a_group_down() {
    let (mut registry, slot, target, _dispatcher) = group();
    let id = target.load_balanced_group().unwrap();
    registry.unregister("many", slot + 10).unwrap();
    assert!(registry.has_route("many"));
    registry.unregister("many", slot).unwrap();
    assert!(!registry.has_route("many"));
    assert_eq!(registry.store.groups[&id].version(), 2);
    assert!(!registry.store.groups[&id].dispatcher_running);
    assert!(registry.store.slots[&slot].is_closed());
    assert!(!registry.store.release_group(id));
    assert_eq!(target.version(&registry.store), 0);
    assert!(target.closed_when(&registry.store, false));
}

#[test]
fn unregistering_one_of_several_consumers_leaves_the_others() {
    let (mut registry, slot, target, _dispatcher) = group();
    let id = target.load_balanced_group().unwrap();
    let _one = consumer(&mut registry, target);
    let _two = consumer(&mut registry, target);
    assert!(registry.unregister("many", slot).is_ok());
    assert!(registry.has_route("many"));
    assert_eq!(registry.store.groups[&id].consumer_count(), 1);
    assert_eq!(target.version(&registry.store), 1);
    assert!(registry.store.groups[&id].dispatcher_running);
    assert!(channel(&registry, target).try_send(message(b"x")).is_ok());
    assert!(registry.unregister("many", slot).is_ok());
    assert!(!registry.has_route("many"));
    assert_eq!(target.version(&registry.store), 2);
    assert!(target.delivery(&registry.store).is_err());
}

#[test]
fn giving_an_address_free_ends_all_its_consumers() {
    let (mut registry, _slot, target, _dispatcher) = group();
    let _one = consumer(&mut registry, target);
    let _two = consumer(&mut registry, target);
    assert!(registry.unregister_address("many").is_ok());
    assert!(!registry.has_route("many"));
    assert!(target.delivery(&registry.store).is_err());
}

#[test]
fn a_stopped_dispatcher_frees_the_address() {
    let (mut registry, slot, target, dispatcher) = group();
    let _one = consumer(&mut registry, target);
    let _two = consumer(&mut registry, target);
    registry.dispatcher_stopped(&dispatcher.address, dispatcher.slot);
    assert!(!registry.has_route("many"));
    assert_eq!(registry.store.slots[&slot].version, 3);
    assert_eq!(target.version(&registry.store), 2);
}

#[test]
fn groups_are_empty_when_only_their_own_handle_is_left() {
    let (_tx, rx) = create_channel(1);
    let (mut group, _dispatcher) = LoadBalancedGroup::new(5, rx, 2, "many".to_string());
    assert!(group.is_empty());
    assert!(group.is_empty_when(1));
    assert!(!group.is_empty_when(2));
    let handle = group.subscribe();
    assert!(!group.is_empty());
    drop(handle);
    assert!(group.is_empty());
}

#[test]
fn dispatchers_hand_messages_to_those_who_ask() {
    let (mut registry, _slot, target, mut dispatcher) = group();
    let one = consumer(&mut registry, target);
    let two = consumer(&mut registry, target);
    channel(&registry, target).try_send(message(b"1")).unwrap();
    channel(&registry, target).try_send(message(b"2")).unwrap();
    let mut two_reply = request(&two);
    let mut one_reply = request(&one);

    let mut state = DispatcherState::AwaitRequest;
    for _ in 0..2 {
        assert_eq!(state.next_action(), DispatcherAction::ReceiveRequest);
        state = perform(state.on_request(dispatcher.requests.try_recv().ok()));
        assert_eq!(state.next_action(), DispatcherAction::ReceiveMessage);
        let (step, left) = state.on_message(dispatcher.messages.try_recv().ok());
        assert!(matches!(step, DispatcherStep::Deliver(_, _)));
        assert!(left.is_none());
        state = perform(step);
    }
    assert_eq!(two_reply.try_recv().unwrap(), message(b"1"));
    assert_eq!(one_reply.try_recv().unwrap(), message(b"2"));
    assert_eq!(dispatcher.requests.try_recv().err(), Some(TryRecvError::Empty));
}

#[test]
fn messages_are_kept_for_the_next_consumer() {
    let (mut registry, _slot, target, mut dispatcher) = group();
    let handle = consumer(&mut registry, target);
    let gone = request(&handle);
    let mut reply = request(&handle);
    drop(gone);

    let step = DispatcherState::AwaitRequest.on_request(dispatcher.requests.try_recv().ok());
    let (step, _) = perform(step).on_message(Some(message(b"kept")));
    let state = perform(step);
    assert_eq!(state.next_action(), DispatcherAction::ReceiveRequest);
    assert!(matches!(&state, DispatcherState::AwaitRetry(m) if *m == message(b"kept")));
    let step = state.on_request(dispatcher.requests.try_recv().ok());
    assert!(matches!(&step, DispatcherStep::Deliver(_, m) if *m == message(b"kept")));
    assert!(matches!(perform(step), DispatcherState::AwaitRequest));
    assert_eq!(reply.try_recv().unwrap(), message(b"kept"));
}

#[test]
fn consumers_that_are_gone_cost_no_message_and_no_order() {
    let (mut registry, _slot, target, mut dispatcher) = group();
    let handle = consumer(&mut registry, target);
    for payload in [b"1", b"2", b"3"] {
        channel(&registry, target).try_send(message(payload)).unwrap();
    }
    let mut state = DispatcherState::AwaitRequest;
    let mut received = Vec::new();
    // Every other consumer is gone before it is served.
    for turn in 0..6 {
        let mut reply = request(&handle);
        if turn % 2 == 0 {
            reply.close();
        }
        state = perform(state.on_request(dispatcher.requests.try_recv().ok()));
        if state.next_action() == DispatcherAction::ReceiveMessage {
            let (step, _) = state.on_message(dispatcher.messages.try_recv().ok());
            state = perform(step);
        }
        if let Ok(m) = reply.try_recv() {
            received.push(m);
        }
    }
    assert_eq!(received, vec![message(b"1"), message(b"2"), message(b"3")]);
    assert!(matches!(state, DispatcherState::AwaitRequest));
}

#[test]
fn dispatchers_stop_without_consumers_or_messages() {
    let state = perform(DispatcherState::AwaitRequest.on_request(None));
    assert_eq!(state.next_action(), DispatcherAction::Stop);

    let (token, _reply) = oneshot::channel();
    let (step, left) = DispatcherState::AwaitMessage(token).on_message(None);
    assert_eq!(perform(step).next_action(), DispatcherAction::Stop);
    assert_eq!(left, None);

    let state = perform(DispatcherState::AwaitRetry(message(b"lost")).on_request(None));
    assert!(matches!(state, DispatcherState::AwaitRequest));

    let (step, left) = DispatcherState::AwaitRequest.on_message(Some(message(b"x")));
    assert!(matches!(step, DispatcherStep::Wait(DispatcherState::AwaitRequest)));
    assert_eq!(left, Some(message(b"x")));

    let (token, _reply) = oneshot::channel();
    let step = DispatcherState::Stopped.on_request(Some(token));
    assert!(matches!(step, DispatcherStep::Wait(DispatcherState::Stopped)));

    assert!(matches!(
        DispatcherState::after_delivery(Err(message(b"x"))),
        DispatcherState::AwaitRetry(m) if m == message(b"x")
    ));
    assert!(matches!(
        DispatcherState::after_delivery(Ok(())),
        DispatcherState::AwaitRequest
    ));
}
