//! The registry of local recipients.

use std::sync::atomic::{AtomicUsize, Ordering};
use std::sync::{Arc, Mutex};

use arcella_broker::broker_core::registry::error::RegistryError;
use arcella_broker::broker_core::registry::routing::RouteTarget;
use arcella_broker::broker_core::registry::slot::SubscriptionSlot;
use arcella_broker::broker_core::registry::{LocalRegistry, RegisterResult};
use arcella_broker::broker_core::transport::channel::{create_channel, MessageSender};

fn create_dummy_sender() -> MessageSender {
    let (tx, _rx) = create_channel(10);
    tx
}

fn dummy_slot(registry: &mut LocalRegistry) -> u64 {
    registry.store.add_slot(SubscriptionSlot::new(create_dummy_sender()))
}

#[test]
fn test_register_lookup_and_unregister() {
    let mut registry = LocalRegistry::new();
    let address = "arcella:core:users".to_string();

    // 1. Registration
    let slot = dummy_slot(&mut registry);
    let target = RouteTarget::new_exclusive(slot);

    assert!(registry.register(address.clone(), target).is_ok());

    // 2. Successful lookup
    assert!(registry.lookup(&address).is_some());
    assert!(registry.has_route(&address));
    assert!(registry.has_local(&address));

    // 3. Removal
    assert!(registry.unregister(&address, slot).is_ok());

    // 4. Verification after removal
    assert!(registry.lookup(&address).is_none());
    assert!(!registry.has_route(&address));
}

#[test]
fn test_conflict_exact_vs_wildcard() {
    let mut registry = LocalRegistry::new();
    let exact_addr = "arcella:core:users".to_string();
    let wildcard_addr = "arcella:core:*".to_string();

    // Register the exact address
    let slot = dummy_slot(&mut registry);
    registry.register(exact_addr.clone(), RouteTarget::new_exclusive(slot)).unwrap();

    // Attempting to register an overlapping wildcard must fail
    let slot = dummy_slot(&mut registry);
    let err = registry
        .register(wildcard_addr.clone(), RouteTarget::new_exclusive(slot))
        .unwrap_err();
    assert!(matches!(err, RegistryError::WildcardConflict(_, _)));

    // And vice versa: first wildcard, then exact address
    let mut registry2 = LocalRegistry::new();
    let slot = dummy_slot(&mut registry2);
    registry2.register(wildcard_addr.clone(), RouteTarget::new_exclusive(slot)).unwrap();

    let slot = dummy_slot(&mut registry2);
    let err2 = registry2
        .register(exact_addr.clone(), RouteTarget::new_exclusive(slot))
        .unwrap_err();
    assert!(matches!(err2, RegistryError::ConflictsWithWildcard(_, _)));
}

#[test]
fn test_lookup_priority_exact_over_wildcard() {
    let mut registry = LocalRegistry::new();
    let exact_addr = "arcella:core:users".to_string();
    let wildcard_addr = "arcella:core:*".to_string();

    let target1 = RouteTarget::new_exclusive(dummy_slot(&mut registry));
    let target2 = RouteTarget::new_exclusive(dummy_slot(&mut registry));

    // 1. Register the wildcard first
    registry.register(wildcard_addr.clone(), target1).unwrap();

    // 2. Attempting to register an exact address that falls under the wildcard MUST fail
    let err = registry.register(exact_addr.clone(), target2).unwrap_err();
    assert!(
        matches!(err, RegistryError::ConflictsWithWildcard(_, _)),
        "Expected ConflictsWithWildcard error, got: {:?}",
        err
    );

    // 3. The reverse situation: register the exact address first
    let mut registry2 = LocalRegistry::new();
    registry2.register(exact_addr.clone(), target2).unwrap();

    // 4. Attempting to register a wildcard that covers the exact address MUST fail
    let err2 = registry2.register(wildcard_addr.clone(), target1).unwrap_err();
    assert!(
        matches!(err2, RegistryError::WildcardConflict(_, _)),
        "Expected WildcardConflict error, got: {:?}",
        err2
    );
}

#[test]
fn test_get_existing_or_register_atomic() {
    let mut registry = LocalRegistry::new();
    let address = "arcella:lb:group".to_string();
    let mut factory_call_count = 0;
    let slot = dummy_slot(&mut registry);

    // 1. First call: the address is free, the factory must be invoked
    let result1 = registry
        .get_existing_or_register(address.clone(), || {
            factory_call_count += 1;
            Ok(RouteTarget::new_exclusive(slot))
        })
        .unwrap();

    assert!(matches!(result1, RegisterResult::Registered(_)));
    assert_eq!(factory_call_count, 1);

    // 2. Second call: the address is taken, the factory must NOT be invoked
    let result2 = registry
        .get_existing_or_register(address.clone(), || {
            factory_call_count += 1;
            Ok(RouteTarget::new_exclusive(slot))
        })
        .unwrap();

    assert!(matches!(result2, RegisterResult::AlreadyExists(_)));
    assert_eq!(factory_call_count, 1);
}

#[test]
fn test_unregister_with_wrong_slot_is_noop() {
    let mut registry = LocalRegistry::new();
    let address = "arcella:test".to_string();

    let slot1 = dummy_slot(&mut registry);
    let target1 = RouteTarget::new_exclusive(slot1);
    let slot2 = dummy_slot(&mut registry);

    registry.register(address.clone(), target1).unwrap();

    // Attempting to remove the address by passing the WRONG slot
    let result = registry.unregister(&address, slot2);
    assert!(result.is_ok());

    // The address must still be in the registry, since the slot did not match
    assert!(registry.lookup(&address).is_some());
    assert_eq!(registry.lookup(&address).unwrap(), target1);
}

#[test]
fn test_get_existing_or_register_concurrent_race() {
    let registry = Arc::new(Mutex::new(LocalRegistry::new()));
    let address = "arcella:lb:race_test".to_string();
    let factory_calls = Arc::new(AtomicUsize::new(0));
    let runtime = tokio::runtime::Builder::new_multi_thread().build().unwrap();

    // Start 100 blocking tasks that simultaneously try to register the same address
    let mut handles = vec![];
    for _ in 0..100 {
        let registry_clone = registry.clone();
        let addr = address.clone();
        let calls = factory_calls.clone();
        handles.push(runtime.spawn_blocking(move || {
            let mut guard = registry_clone.lock().unwrap();
            let slot = dummy_slot(&mut guard);
            guard.get_existing_or_register(addr, || {
                calls.fetch_add(1, Ordering::SeqCst);
                Ok(RouteTarget::new_exclusive(slot))
            })
        }));
    }

    // Collect results from all tasks
    let results: Vec<_> =
        handles.into_iter().map(|h| runtime.block_on(h).unwrap()).collect();

    // 1. The factory must be called EXACTLY once
    assert_eq!(
        factory_calls.load(Ordering::SeqCst),
        1,
        "Factory must be called exactly once under concurrent access"
    );

    // 2. Verify the distribution of results
    let registered_count =
        results.iter().filter(|r| matches!(r, Ok(RegisterResult::Registered(_)))).count();
    let already_exists_count =
        results.iter().filter(|r| matches!(r, Ok(RegisterResult::AlreadyExists(_)))).count();
    assert_eq!(registered_count, 1, "Exactly one thread should succeed in registering");
    assert_eq!(
        already_exists_count, 99,
        "The remaining 99 threads should receive AlreadyExists"
    );

    // 3. Ensure no errors occurred
    assert!(
        results.iter().all(|r| r.is_ok()),
        "All threads should complete without RegistryError"
    );
}

fn registry_with(addresses: &[&str]) -> LocalRegistry {
    let mut registry = LocalRegistry::new();
    for (i, address) in addresses.iter().enumerate() {
        registry.register(address.to_string(), RouteTarget::Single(i as u64)).unwrap();
    }
    registry
}

fn refused(registry: &mut LocalRegistry, address: &str) -> RegistryError {
    registry.register(address.to_string(), RouteTarget::Single(99)).unwrap_err()
}

#[test]
fn prefix_wildcards_lead_to_their_recipient() {
    let registry = registry_with(&["arcella:core:**", "arcella:web:*", "arcella:batch"]);
    assert_eq!(registry.lookup("arcella:core"), Some(RouteTarget::Single(0)));
    assert_eq!(registry.lookup("arcella:core:users"), Some(RouteTarget::Single(0)));
    assert_eq!(registry.lookup("arcella:core:users:a:b"), Some(RouteTarget::Single(0)));
    assert_eq!(registry.lookup("arcella:corex"), None);
    assert_eq!(registry.lookup("arcella"), None);
    assert_eq!(registry.lookup("arcella:web:api"), Some(RouteTarget::Single(1)));
    assert_eq!(registry.lookup("arcella:web:api:x"), None);
    assert_eq!(registry.lookup("arcella:batch"), Some(RouteTarget::Single(2)));
    assert!(registry.has_local("arcella:batch"));
    assert!(!registry.has_local("arcella:core:users"));
    assert!(registry.has_route("arcella:core:users"));
    assert!(!registry.has_route("arcella:other"));
}

#[test]
fn wildcards_within_a_prefix_wildcard_lead_to_their_recipient() {
    let registry = registry_with(&["a:*:c:**"]);
    assert_eq!(registry.lookup("a:b:c"), Some(RouteTarget::Single(0)));
    assert_eq!(registry.lookup("a:x:c:d"), Some(RouteTarget::Single(0)));
    assert_eq!(registry.lookup("a:x:d"), None);
}

#[test]
fn no_address_gets_a_second_recipient() {
    let mut registry = registry_with(&["a:**", "b:*:c", "d"]);
    assert_eq!(
        refused(&mut registry, "a"),
        RegistryError::ConflictsWithWildcard("a".to_string(), "a:**".to_string())
    );
    assert_eq!(
        refused(&mut registry, "a:x:y"),
        RegistryError::ConflictsWithWildcard("a:x:y".to_string(), "a:**".to_string())
    );
    assert_eq!(
        refused(&mut registry, "a:*:y"),
        RegistryError::WildcardConflict("a:*:y".to_string(), "a:**".to_string())
    );
    assert_eq!(
        refused(&mut registry, "a:b:**"),
        RegistryError::WildcardConflict("a:b:**".to_string(), "a:**".to_string())
    );
    assert_eq!(
        refused(&mut registry, "b:x:c"),
        RegistryError::ConflictsWithWildcard("b:x:c".to_string(), "b:*:c".to_string())
    );
    assert_eq!(
        refused(&mut registry, "b:x:*"),
        RegistryError::WildcardConflict("b:x:*".to_string(), "b:*:c".to_string())
    );
    assert_eq!(
        refused(&mut registry, "d:**"),
        RegistryError::WildcardConflict("d:**".to_string(), "d".to_string())
    );
    assert_eq!(
        refused(&mut registry, "d"),
        RegistryError::AddressAlreadyOccupied("d".to_string())
    );
    assert_eq!(
        refused(&mut registry, "a:**"),
        RegistryError::AddressAlreadyOccupied("a:**".to_string())
    );
    assert_eq!(
        refused(&mut registry, "b:*:c"),
        RegistryError::AddressAlreadyOccupied("b:*:c".to_string())
    );
    assert!(registry.register("b:x:d".to_string(), RouteTarget::Single(9)).is_ok());
    assert!(registry.register("b:*:*:c".to_string(), RouteTarget::Single(10)).is_ok());
}

#[test]
fn stars_in_a_looked_up_address_are_plain_text() {
    let registry = registry_with(&["a:b", "c:*", "d:*:x:**"]);
    assert_eq!(registry.lookup("a:*"), None);
    assert!(!registry.has_route("*"));
    assert_eq!(registry.lookup("c:*"), Some(RouteTarget::Single(1)));
    assert_eq!(registry.lookup("d:*:x:y"), Some(RouteTarget::Single(2)));
    assert_eq!(registry.lookup("d:y:*:x"), None);
}

#[test]
fn conflicts_are_first_sought_where_the_pattern_begins() {
    let mut registry = registry_with(&["a:*:c:**", "a:b:d:**"]);
    assert_eq!(
        refused(&mut registry, "a:b:*:x"),
        RegistryError::WildcardConflict("a:b:*:x".to_string(), "a:b:d:**".to_string())
    );
    assert_eq!(
        refused(&mut registry, "a:b:c:*"),
        RegistryError::WildcardConflict("a:b:c:*".to_string(), "a:*:c:**".to_string())
    );
}

#[test]
fn conflicts_with_addresses_are_first_sought_where_the_pattern_begins() {
    let mut registry = registry_with(&["a", "a:b", "a:c"]);
    assert_eq!(
        refused(&mut registry, "a:**"),
        RegistryError::WildcardConflict("a:**".to_string(), "a:b".to_string())
    );
    assert_eq!(
        refused(&mut registry, "a:*"),
        RegistryError::WildcardConflict("a:*".to_string(), "a:b".to_string())
    );
    let mut registry = registry_with(&["a", "ab", "b:c"]);
    assert_eq!(
        refused(&mut registry, "a:**"),
        RegistryError::WildcardConflict("a:**".to_string(), "a".to_string())
    );
    assert!(registry.register("a:*".to_string(), RouteTarget::Single(9)).is_ok());
}

#[test]
fn conflicts_with_patterns_that_begin_alike_are_found() {
    let mut registry = registry_with(&["a:*:**"]);
    assert!(matches!(
        refused(&mut registry, "a:b:c:*"),
        RegistryError::WildcardConflict(_, _)
    ));
    let mut registry = registry_with(&["a:b:c:*"]);
    assert!(matches!(refused(&mut registry, "a:*:**"), RegistryError::WildcardConflict(_, _)));
}

#[test]
fn malformed_patterns_are_not_registered() {
    let mut registry = LocalRegistry::new();
    for pattern in ["*", "**", "a:**:b", "a:b*", "a::*"] {
        assert!(matches!(
            refused(&mut registry, pattern),
            RegistryError::InvalidWildcardFormat(_)
        ));
    }
    assert!(!registry.has_route("a:b"));
}

#[test]
fn unregistering_gives_the_address_free() {
    for address in ["a:b", "a:*", "a:**"] {
        let mut registry = registry_with(&[address]);
        assert!(registry.has_route("a:b"));
        assert!(registry.unregister(address, 0).is_ok());
        assert!(!registry.has_route("a:b"));
        assert!(registry.register(address.to_string(), RouteTarget::Single(1)).is_ok());
        assert_eq!(registry.lookup("a:b"), Some(RouteTarget::Single(1)));
        assert!(registry.unregister_address(address).is_ok());
        assert!(!registry.has_route("a:b"));
        assert!(registry.unregister_address(address).is_ok());
    }
}

#[test]
fn unregistering_leaves_other_routes() {
    let mut registry = registry_with(&["a:*:x", "b:*:x", "c:*:x"]);
    assert!(registry.unregister("b:*:x", 1).is_ok());
    assert_eq!(registry.lookup("a:1:x"), Some(RouteTarget::Single(0)));
    assert_eq!(registry.lookup("b:1:x"), None);
    assert_eq!(registry.lookup("c:1:x"), Some(RouteTarget::Single(2)));
}

#[test]
fn factory_errors_are_passed_on() {
    let mut registry = LocalRegistry::new();
    let made = registry.get_existing_or_register("a".to_string(), || {
        Err(RegistryError::PolicyMismatch("a".to_string()))
    });
    assert_eq!(made.unwrap_err(), RegistryError::PolicyMismatch("a".to_string()));
    assert!(!registry.has_route("a"));
    registry.register("b:**".to_string(), RouteTarget::Single(0)).unwrap();
    let made = registry.get_existing_or_register("b:c".to_string(), || {
        panic!("the address is not free")
    });
    assert_eq!(
        made.unwrap_err(),
        RegistryError::ConflictsWithWildcard("b:c".to_string(), "b:**".to_string())
    );
}

#[test]
fn snapshots_do_not_change() {
    let mut registry = registry_with(&["a", "b:**", "c:*"]);
    let snapshot = registry.inner.clone();
    registry.unregister_address("a").unwrap();
    registry.unregister_address("b:**").unwrap();
    registry.unregister_address("c:*").unwrap();
    assert_eq!(snapshot.lookup(b"a"), Some(RouteTarget::Single(0)));
    assert_eq!(snapshot.lookup(b"b:x"), Some(RouteTarget::Single(1)));
    assert_eq!(snapshot.lookup(b"c:x"), Some(RouteTarget::Single(2)));
    assert_eq!(registry.inner.lookup(b"a"), None);
}

#[test]
fn slots_change_version_with_every_change() {
    let mut slot = SubscriptionSlot::new(create_dummy_sender());
    assert_eq!(slot.load().1, 1);
    assert!(slot.load().0.is_some());
    slot.update(create_dummy_sender());
    assert_eq!(slot.load().1, 2);
    assert!(!slot.closed_when(false));
    assert!(slot.closed_when(true));
    slot.mark_removed();
    assert_eq!(slot.load().1, 3);
    assert!(slot.load().0.is_none());
    assert!(slot.is_closed());
    slot.version = u64::MAX;
    slot.mark_removed();
    assert_eq!(slot.version, 0);
}

#[test]
fn slots_whose_receiver_is_gone_are_closed() {
    let (tx, rx) = create_channel(1);
    let slot = SubscriptionSlot::new(tx);
    assert!(!slot.is_closed());
    drop(rx);
    assert!(slot.is_closed());
}

#[test]
fn channels_are_registered_with_a_slot_of_their_own() {
    let mut registry = LocalRegistry::new();
    let (tx, _rx) = create_channel(3);
    let slot = registry.register_channel("a".to_string(), tx).unwrap();
    assert_eq!(registry.lookup("a"), Some(RouteTarget::Single(slot)));
    let (tx, _rx2) = create_channel(3);
    assert_eq!(
        registry.register_channel("a".to_string(), tx).unwrap_err(),
        RegistryError::AddressAlreadyOccupied("a".to_string())
    );
    registry.store.update_slot(slot, create_dummy_sender());
    assert_eq!(RouteTarget::Single(slot).version(&registry.store), 2);
    registry.store.release_slot(slot);
    assert_eq!(RouteTarget::Single(slot).version(&registry.store), 0);
    assert!(RouteTarget::Single(slot).is_closed(&registry.store));
}
