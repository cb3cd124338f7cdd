//! Replies: which request a response belongs to.

use std::collections::HashMap;
use tokio::sync::oneshot;
use vstd::bytes::{
    lemma_auto_spec_u128_to_from_le_bytes, spec_u128_from_le_bytes, spec_u128_to_le_bytes,
    u128_from_le_bytes,
};
use vstd::prelude::*;

use crate::broker_core::registry::error::RegistryError;
use crate::broker_core::transport::raw::{reply_channel, reply_receiver};
use crate::protocol::{Message, MESSAGE_ID_LEN};

verus! {

broadcast use vstd::std_specs::hash::group_hash_axioms;

/// The number that stands for a message identifier.
pub open spec fn waiter_key(message_id: Seq<u8>) -> u128 {
    spec_u128_from_le_bytes(message_id)
}

/// Different message identifiers have different numbers.
pub proof fn lemma_waiter_key(a: Seq<u8>, b: Seq<u8>)
    requires
        a.len() == MESSAGE_ID_LEN,
        b.len() == MESSAGE_ID_LEN,
        waiter_key(a) == waiter_key(b),
    ensures
        a == b,
{
    lemma_auto_spec_u128_to_from_le_bytes();
    assert(spec_u128_to_le_bytes(spec_u128_from_le_bytes(a)) == a);
    assert(spec_u128_to_le_bytes(spec_u128_from_le_bytes(b)) == b);
}

/// The number that stands for a message identifier.
fn key_of(message_id: &[u8; MESSAGE_ID_LEN]) -> (r: u128)
    ensures
        r == waiter_key(message_id@),
{
    u128_from_le_bytes(message_id.as_slice())
}

/// The requests that wait for a reply, by the identifier of their message.
pub struct ReplyDispatcher {
    /// Where the reply to each of them is to be sent.
    pub waiters: HashMap<u128, oneshot::Sender<Message>>,
}

/// What keeps a request waiting.
#[derive(Debug, Clone, Copy, PartialEq, Eq)]
pub struct WaiterGuard {
    /// The identifier of the message that awaits a reply.
    pub message_id: [u8; MESSAGE_ID_LEN],
}

impl WaiterGuard {
    /// Makes a request wait for its reply, and returns where the reply will come. A second
    /// request with the same identifier is refused.
    pub fn new(dispatcher: &mut ReplyDispatcher, message_id: [u8; MESSAGE_ID_LEN]) -> (r: Result<
        (Self, oneshot::Receiver<Message>),
        RegistryError,
    >)
        ensures
            old(dispatcher).awaits(message_id@) ==> {
                &&& r == Err::<(Self, oneshot::Receiver<Message>), RegistryError>(
                    RegistryError::WaiterAlreadyExists,
                )
                &&& final(dispatcher).waiters@ == old(dispatcher).waiters@
            },
            !old(dispatcher).awaits(message_id@) ==> {
                &&& r matches Ok((guard, receiver))
                &&& guard.message_id == message_id
                &&& final(dispatcher).waiters@ == old(dispatcher).waiters@.insert(
                    waiter_key(message_id@),
                    final(dispatcher).waiter(message_id@),
                )
                &&& receiver == reply_receiver(final(dispatcher).waiter(message_id@))
            },
    {
        let (tx, rx) = reply_channel();
        let key: u128 = key_of(&message_id);
        if dispatcher.waiters.contains_key(&key) {
            return Err(RegistryError::WaiterAlreadyExists);
        }
        dispatcher.waiters.insert(key, tx);
        Ok((WaiterGuard { message_id }, rx))
    }

    /// Ends the wait.
    pub fn release(self, dispatcher: &mut ReplyDispatcher)
        ensures
            final(dispatcher).waiters@ == old(dispatcher).waiters@.remove(
                waiter_key(self.message_id@),
            ),
            !final(dispatcher).awaits(self.message_id@),
    {
        dispatcher.remove_waiter(&self.message_id);
    }
}

impl ReplyDispatcher {
    /// Whether a request with this identifier waits for a reply.
    pub open spec fn awaits(self, message_id: Seq<u8>) -> bool {
        self.waiters@.contains_key(waiter_key(message_id))
    }

    /// Where the reply to the request with this identifier is to be sent.
    pub open spec fn waiter(self, message_id: Seq<u8>) -> oneshot::Sender<Message> {
        self.waiters@[waiter_key(message_id)]
    }

    /// No request waits.
    pub fn new() -> (r: Self)
        ensures
            (r.waiters@ == Map::<u128, oneshot::Sender<Message>>::empty()),
    {
        ReplyDispatcher { waiters: HashMap::new() }
    }

    /// Makes a request wait for its reply, and returns where the reply will come. A second
    /// request with the same identifier is refused.
    pub fn register_waiter(&mut self, message_id: [u8; MESSAGE_ID_LEN]) -> (r: Result<
        (WaiterGuard, oneshot::Receiver<Message>),
        RegistryError,
    >)
        ensures
            old(self).awaits(message_id@) ==> {
                &&& r == Err::<(WaiterGuard, oneshot::Receiver<Message>), RegistryError>(
                    RegistryError::WaiterAlreadyExists,
                )
                &&& final(self).waiters@ == old(self).waiters@
            },
            !old(self).awaits(message_id@) ==> {
                &&& r matches Ok((guard, receiver))
                &&& guard.message_id == message_id
                &&& final(self).waiters@ == old(self).waiters@.insert(
                    waiter_key(message_id@),
                    final(self).waiter(message_id@),
                )
                &&& receiver == reply_receiver(final(self).waiter(message_id@))
            },
    {
        WaiterGuard::new(self, message_id)
    }

    /// Ends the wait of the request with this identifier.
    pub fn remove_waiter(&mut self, message_id: &[u8; MESSAGE_ID_LEN])
        ensures
            final(self).waiters@ == old(self).waiters@.remove(waiter_key(message_id@)),
            !final(self).awaits(message_id@),
    {
        let key: u128 = key_of(message_id);
        self.waiters.remove(&key);
    }

    /// Takes out where a response is to be sent: to the request that waits for it, if one
    /// does. It waits no more then.
    pub fn take_waiter(&mut self, response: &Message) -> (r: Option<oneshot::Sender<Message>>)
        ensures
            match r {
                Some(waiter) => old(self).awaits(response@.header.message_id) && waiter == old(
                    self,
                ).waiter(response@.header.message_id),
                None => !old(self).awaits(response@.header.message_id),
            },
            final(self).waiters@ == old(self).waiters@.remove(
                waiter_key(response@.header.message_id),
            ),
    {
        let key: u128 = key_of(&response.header.message_id);
        self.waiters.remove(&key)
    }

    /// Where a response is to be sent, with the response itself: to the request that waits
    /// for it, if one does. It waits no more then. A response that no request waits for is
    /// dropped.
    pub fn dispatch(&mut self, response: Message) -> (r: Option<
        (oneshot::Sender<Message>, Message),
    >)
        ensures
            match r {
                Some((waiter, message)) => {
                    &&& old(self).awaits(response@.header.message_id)
                    &&& waiter == old(self).waiter(response@.header.message_id)
                    &&& message == response
                },
                None => !old(self).awaits(response@.header.message_id),
            },
            final(self).waiters@ == old(self).waiters@.remove(
                waiter_key(response@.header.message_id),
            ),
    {
        match self.take_waiter(&response) {
            Some(waiter) => Some((waiter, response)),
            None => None,
        }
    }

    /// Ends all waits: every request that still waits learns that there will be no reply.
    pub fn clear(&mut self)
        ensures
            (final(self).waiters@ == Map::<u128, oneshot::Sender<Message>>::empty()),
    {
        self.waiters.clear();
    }
}

} // verus!
