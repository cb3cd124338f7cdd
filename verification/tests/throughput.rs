//! Many senders and receivers at once.

use arcella_broker::broker::Broker;
use arcella_broker::client::subscriber::SubscriberMode;
use arcella_broker::config::{ClientConfig, SubscriberConfig};
use arcella_broker::protocol::{Message, TransferMode};
use bytes::Bytes;

const NUM_RECEIVERS: usize = 10;
const NUM_SENDERS: usize = 10;
const MESSAGES_PER_SENDER: usize = 2_000;

#[test]
fn all_messages_are_delivered_without_loss() {
    let runtime = tokio::runtime::Builder::new_multi_thread().build().unwrap();
    let mut broker = Broker::new(Broker::default_config());
    let (client, _replies) =
        broker.client(ClientConfig::default(), "load:test".to_string()).unwrap();
    let config = SubscriberConfig::default()
        .with_channel_capacity(4096)
        .expect("Channel capacity 4096 should be valid");

    let mut receivers = Vec::new();
    let mut handles = Vec::new();
    for i in 0..NUM_RECEIVERS {
        let address = format!("arcella:{}:perf:recv", i);
        let subscription = client.subscribe(&mut broker.registry, address, config).unwrap();
        handles.push(subscription.handle);
        let mut rx = match subscription.subscriber.mode {
            SubscriberMode::Push(rx) => rx,
            SubscriberMode::Pull(_) => panic!("an exclusive subscription has its own channel"),
        };
        receivers.push(runtime.spawn(async move {
            let mut count = 0;
            while rx.inner.recv().await.is_some() {
                count += 1;
            }
            count
        }));
    }

    let mut senders = Vec::new();
    for i in 0..NUM_SENDERS {
        let address = format!("arcella:{}:perf:recv", (i + 5) % NUM_RECEIVERS);
        let mut publisher = client.publisher(address.clone());
        let endpoint = publisher.get_or_resolve_endpoint(&broker.registry).unwrap();
        let channel = endpoint.delivery(&broker.registry.store).unwrap().inner.clone();
        let message = Message::new(
            TransferMode::InOnly,
            [0u8; 32],
            [0u8; 16],
            [0u8; 4],
            64,
            "perf:test".to_string(),
            address,
            Bytes::from_static(b"performance test payload data"),
        )
        .unwrap();
        senders.push(runtime.spawn(async move {
            for seq in 0..MESSAGES_PER_SENDER {
                let mut m = message.clone();
                m.header.message_id[0] = i as u8;
                m.header.message_id[1] = (seq >> 8) as u8;
                m.header.message_id[2] = (seq & 0xff) as u8;
                channel.send(m).await.unwrap();
            }
        }));
    }
    for sender in senders {
        runtime.block_on(sender).unwrap();
    }

    // Ending the subscriptions closes the channels once they are drained.
    for handle in handles {
        handle.close(&mut broker.registry);
    }
    let mut total = 0;
    for receiver in receivers {
        total += runtime.block_on(receiver).unwrap();
    }
    assert_eq!(total, NUM_SENDERS * MESSAGES_PER_SENDER);
}
