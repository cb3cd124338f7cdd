//! Subscriptions: where messages come in, and what keeps the address occupied.

use std::sync::Arc;
use vstd::prelude::*;
use vstd::utf8::encode_utf8;

use crate::broker_core::registry::{LocalRegistry, RegistryView};
use crate::broker_core::transport::channel::{MessageReceiver, RequestSender, TryRecvError};
use crate::protocol::Message;

verus! {

broadcast use vstd::std_specs::hash::group_hash_axioms;

/// What ending a subscription takes.
#[derive(Debug, Clone, Copy, PartialEq, Eq, Structural)]
pub enum CleanupStrategy {
    /// The slot is taken from its address.
    Exclusive {
        /// The slot.
        slot: u64,
    },
    /// The consumer leaves its group.
    LoadBalanced {
        /// The group.
        group: u64,
    },
}

/// What keeps a subscription alive.
#[derive(Debug)]
pub struct SubscriptionHandle {
    /// The address of the subscription.
    pub address: String,
    /// What ending it takes.
    pub cleanup: CleanupStrategy,
}

impl SubscriptionHandle {
    /// The handle of an exclusive subscription.
    pub fn new_exclusive(address: String, slot: u64) -> (r: Self)
        ensures
            r.address == address,
            r.cleanup == (CleanupStrategy::Exclusive { slot }),
    {
        SubscriptionHandle { address, cleanup: CleanupStrategy::Exclusive { slot } }
    }

    /// The handle of a consumer in a group.
    pub fn new_load_balanced(address: String, group: u64) -> (r: Self)
        ensures
            r.address == address,
            r.cleanup == (CleanupStrategy::LoadBalanced { group }),
    {
        SubscriptionHandle { address, cleanup: CleanupStrategy::LoadBalanced { group } }
    }

    /// The address of the subscription.
    pub fn address(&self) -> (r: &str)
        ensures
            r@ == self.address@,
    {
        self.address.as_str()
    }

    /// The registry after the subscription has ended.
    pub open spec fn ended(self, registry: RegistryView) -> RegistryView {
        match self.cleanup {
            CleanupStrategy::Exclusive { slot } => registry.unregistered(
                encode_utf8(self.address@),
                slot,
            ),
            CleanupStrategy::LoadBalanced { group } => {
                let left = RegistryView { store: registry.store.consumer_left(group), ..registry };
                if registry.store.last_consumer(group) {
                    left.group_unbound(encode_utf8(self.address@), group)
                } else {
                    left
                }
            },
        }
    }

    /// Ends the subscription. An exclusive one gives its address free. A consumer leaves its
    /// group; the last one shuts the group down and gives its address free. Returns whether a
    /// dispatcher is to be stopped.
    pub fn close(self, registry: &mut LocalRegistry) -> (r: bool)
        requires
            old(registry)@.inv(),
        ensures
            final(registry)@ == self.ended(old(registry)@),
            final(registry)@.inv(),
            r == match self.cleanup {
                CleanupStrategy::Exclusive { slot } => false,
                CleanupStrategy::LoadBalanced { group } => old(registry)@.store.dispatcher_runs(
                    group,
                ) && old(registry)@.store.last_consumer(group),
            },
    {
        match self.cleanup {
            CleanupStrategy::Exclusive { slot } => {
                let _ = registry.unregister(self.address.as_str(), slot);
                false
            },
            CleanupStrategy::LoadBalanced { group } => {
                let last = match registry.store.groups.get(&group) {
                    Some(found) => found.consumer_count() == 1,
                    None => false,
                };
                let stop = registry.store.remove_consumer(group);
                if last {
                    registry.unbind_group(self.address.as_str(), group);
                }
                stop
            },
        }
    }
}

/// How a subscriber gets its messages.
pub enum SubscriberMode {
    /// They are put into its channel.
    Push(MessageReceiver),
    /// It asks for each one.
    Pull(Arc<RequestSender>),
}

/// Where the messages of a subscription come in.
pub struct Subscriber {
    /// How they do.
    pub mode: SubscriberMode,
    /// The address of the subscription.
    pub address: String,
}

impl Subscriber {
    /// A subscriber with a channel of its own.
    pub fn new_push(rx: MessageReceiver, address: String) -> (r: Self)
        ensures
            r.mode == SubscriberMode::Push(rx),
            r.address == address,
    {
        Subscriber { mode: SubscriberMode::Push(rx), address }
    }

    /// A subscriber that shares the messages of a group.
    pub fn new_pull(req_sender: Arc<RequestSender>, address: String) -> (r: Self)
        ensures
            r.mode == SubscriberMode::Pull(req_sender),
            r.address == address,
    {
        Subscriber { mode: SubscriberMode::Pull(req_sender), address }
    }

    /// Takes the next message without waiting. A subscriber that has to ask for its messages
    /// has none at hand.
    pub fn try_recv(&mut self) -> (r: Result<Message, TryRecvError>)
        ensures
            old(self).mode is Pull ==> {
                &&& r == Err::<Message, TryRecvError>(TryRecvError::Empty)
                &&& *final(self) == *old(self)
            },
            old(self).mode is Push ==> final(self).mode is Push,
            final(self).address == old(self).address,
            old(self).mode is Push ==> exists|rx: &mut MessageReceiver|
                old(self).mode == SubscriberMode::Push(*rx) && final(self).mode
                    == SubscriberMode::Push(*final(rx)) && #[trigger] call_ensures(
                    MessageReceiver::try_recv,
                    (rx,),
                    r,
                ),
    {
        match &mut self.mode {
            SubscriberMode::Push(rx) => rx.try_recv(),
            SubscriberMode::Pull(_) => Err(TryRecvError::Empty),
        }
    }

    /// The address of the subscription.
    pub fn address(&self) -> (r: &str)
        ensures
            r@ == self.address@,
    {
        self.address.as_str()
    }
}

} // verus!
