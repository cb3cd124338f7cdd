//! Channels.

use arcella_broker::broker_core::registry::routing::send_outcome;
use arcella_broker::broker_core::transport::channel::{
    create_channel, create_request_channel, new_request, recv_outcome, request_outcome,
    ChannelLoad, RecvTimeoutError, SendError, TryRecvError, TryRequestError, TrySendError, Wait,
};
use arcella_broker::broker_core::transport::TransportError;
use arcella_broker::error::BrokerError;
use arcella_broker::protocol::{Message, ProtocolError, TransferMode};
use bytes::Bytes;

fn message(payload: &'static [u8]) -> Message {
    Message::new(
        TransferMode::InOnly,
        [0u8; 32],
        [1u8; 16],
        [0u8; 4],
        64,
        "test".to_string(),
        "arcella:test".to_string(),
        Bytes::from_static(payload),
    )
    .unwrap()
}

#[test]
fn messages_arrive_in_order() {
    let (tx, mut rx) = create_channel(2);
    assert_eq!(rx.try_recv().unwrap_err(), TryRecvError::Empty);
    assert!(tx.try_send(message(b"1")).is_ok());
    assert!(tx.try_send(message(b"2")).is_ok());
    assert_eq!(rx.try_recv().unwrap(), message(b"1"));
    assert_eq!(rx.try_recv().unwrap(), message(b"2"));
    drop(tx);
    assert_eq!(rx.try_recv().unwrap_err(), TryRecvError::Disconnected);
}

#[test]
fn messages_that_are_not_sent_come_back() {
    let (tx, rx) = create_channel(1);
    assert!(tx.try_send(message(b"1")).is_ok());
    match tx.try_send(message(b"2")) {
        Err(TrySendError::Full(m)) => assert_eq!(m, message(b"2")),
        _ => panic!("the channel is full"),
    }
    assert!(!tx.is_closed());
    drop(rx);
    assert!(tx.is_closed());
    match tx.try_send(message(b"3")) {
        Err(TrySendError::Disconnected(m)) => assert_eq!(m, message(b"3")),
        _ => panic!("the channel is closed"),
    }
}

#[test]
fn load_counts_places() {
    let (tx, mut rx) = create_channel(5);
    assert_eq!(tx.load(), ChannelLoad { capacity: 5, max_capacity: 5 });
    assert!(tx.try_send(message(b"1")).is_ok());
    assert!(tx.try_send(message(b"2")).is_ok());
    assert_eq!(tx.load(), ChannelLoad { capacity: 3, max_capacity: 5 });
    assert_eq!(tx.load().pending_messages(), 2);
    rx.try_recv().unwrap();
    assert_eq!(tx.load().pending_messages(), 1);
    assert_eq!(ChannelLoad { capacity: 7, max_capacity: 5 }.pending_messages(), 0);
}

#[test]
fn requests_are_queued_and_answered() {
    let (tx, mut rx) = create_request_channel(1);
    let (token, reply) = new_request();
    let mut reply = request_outcome(reply, Some(tx.try_send(token))).unwrap();
    assert_eq!(tx.load(), ChannelLoad { capacity: 0, max_capacity: 1 });
    let (token, other) = new_request();
    assert_eq!(
        request_outcome(other, Some(tx.try_send(token))).unwrap_err(),
        TryRequestError::Full
    );
    let token = rx.try_recv().unwrap();
    assert!(token.send(message(b"1")).is_ok());
    assert_eq!(reply.try_recv().unwrap(), message(b"1"));
    drop(rx);
    let (token, other) = new_request();
    assert_eq!(
        request_outcome(other, Some(tx.try_send(token))).unwrap_err(),
        TryRequestError::Disconnected
    );
}

#[test]
fn requests_are_tried_at_once() {
    let (tx, mut rx) = create_request_channel(1);
    let mut reply = tx.try_request().unwrap();
    assert_eq!(tx.load(), ChannelLoad { capacity: 0, max_capacity: 1 });
    assert_eq!(tx.try_request().unwrap_err(), TryRequestError::Full);
    assert!(rx.try_recv().unwrap().send(message(b"1")).is_ok());
    assert_eq!(reply.try_recv().unwrap(), message(b"1"));
    drop(rx);
    assert_eq!(tx.try_request().unwrap_err(), TryRequestError::Disconnected);
}

#[test]
fn outcomes_of_waiting() {
    assert_eq!(recv_outcome(Wait::Done(Some(3))), Ok(3));
    assert_eq!(recv_outcome::<u8>(Wait::Done(None)), Err(RecvTimeoutError::Disconnected));
    assert_eq!(recv_outcome::<u8>(Wait::Elapsed), Err(RecvTimeoutError::Timeout));
}

#[test]
fn outcomes_of_requests() {
    let (token, _reply) = tokio::sync::oneshot::channel();
    assert_eq!(request_outcome(1, Some(Ok(()))), Ok(1));
    assert_eq!(
        request_outcome(1, Some(Err(TrySendError::Full(token)))),
        Err(TryRequestError::Full)
    );
    assert_eq!(request_outcome(1, None), Err(TryRequestError::Disconnected));
    let (token, _reply) = tokio::sync::oneshot::channel();
    assert_eq!(
        request_outcome(1, Some(Err(TrySendError::Disconnected(token)))),
        Err(TryRequestError::Disconnected)
    );
}

#[test]
fn outcomes_of_sending() {
    assert_eq!(send_outcome(Ok(())), Ok(()));
    assert_eq!(
        send_outcome(Err(SendError(message(b"1")))),
        Err(TransportError::ConnectionClosed)
    );
}

#[test]
fn errors_carry_what_was_refused() {
    assert_eq!(
        BrokerError::from(TrySendError::Full(message(b"1"))),
        BrokerError::ChannelFull(message(b"1"))
    );
    assert_eq!(
        BrokerError::from(TrySendError::Disconnected(message(b"1"))),
        BrokerError::ChannelClosed(message(b"1"))
    );
    assert_eq!(
        BrokerError::from(SendError(message(b"1"))),
        BrokerError::ChannelClosed(message(b"1"))
    );
    assert_eq!(
        BrokerError::from(ProtocolError::EmptyAddressLevel),
        BrokerError::ProtocolError(ProtocolError::EmptyAddressLevel)
    );
    assert_eq!(
        TransportError::from(ProtocolError::EmptyAddressLevel),
        TransportError::Protocol(ProtocolError::EmptyAddressLevel)
    );
}
