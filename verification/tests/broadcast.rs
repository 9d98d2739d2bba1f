use esp32serial::broadcast::{copy_bytes, Broadcast, Delivery, PublishError};

#[test]
fn publish_without_subscriber_is_refused() {
    let mut bus = Broadcast::new(8);
    assert!(!bus.has_subscriber());
    assert_eq!(bus.publish(vec![1, 2, 3]), Err(PublishError::NoSubscribers));
    // The refused chunk is not kept for whoever subscribes next.
    let id = bus.subscribe();
    assert_eq!(bus.recv(id), Delivery::Empty);
}

#[test]
fn subscriber_receives_in_publish_order() {
    let mut bus = Broadcast::new(8);
    let id = bus.subscribe();
    assert_eq!(bus.publish(vec![10]), Ok(()));
    assert_eq!(bus.publish(vec![20, 21]), Ok(()));
    assert_eq!(bus.publish(vec![30]), Ok(()));
    assert_eq!(bus.recv(id), Delivery::Chunk(vec![10]));
    assert_eq!(bus.recv(id), Delivery::Chunk(vec![20, 21]));
    assert_eq!(bus.recv(id), Delivery::Chunk(vec![30]));
    assert_eq!(bus.recv(id), Delivery::Empty);
    assert_eq!(bus.recv(id), Delivery::Empty);
}

#[test]
fn subscription_starts_at_the_end_of_the_history() {
    let mut bus = Broadcast::new(8);
    let early = bus.subscribe();
    bus.publish(vec![10]).unwrap();
    let late = bus.subscribe();
    bus.publish(vec![20]).unwrap();
    assert_eq!(bus.recv(late), Delivery::Chunk(vec![20]));
    assert_eq!(bus.recv(late), Delivery::Empty);
    assert_eq!(bus.recv(early), Delivery::Chunk(vec![10]));
    assert_eq!(bus.recv(early), Delivery::Chunk(vec![20]));
    assert_eq!(bus.recv(early), Delivery::Empty);
}

#[test]
fn every_subscriber_gets_every_chunk_once() {
    let mut bus = Broadcast::new(4);
    let a = bus.subscribe();
    let b = bus.subscribe();
    let c = bus.subscribe();
    for round in 0..10u8 {
        bus.publish(vec![round, round]).unwrap();
        for id in [a, b, c] {
            assert_eq!(bus.recv(id), Delivery::Chunk(vec![round, round]));
            assert_eq!(bus.recv(id), Delivery::Empty);
        }
    }
}

#[test]
fn slow_subscriber_is_told_what_it_lost() {
    let mut bus = Broadcast::new(2);
    let id = bus.subscribe();
    bus.publish(vec![10]).unwrap();
    bus.publish(vec![20]).unwrap();
    bus.publish(vec![30]).unwrap();
    assert_eq!(bus.recv(id), Delivery::Lagged(1));
    assert_eq!(bus.recv(id), Delivery::Chunk(vec![20]));
    assert_eq!(bus.recv(id), Delivery::Chunk(vec![30]));
    assert_eq!(bus.recv(id), Delivery::Empty);
}

#[test]
fn backlog_of_exactly_the_capacity_loses_nothing() {
    let mut bus = Broadcast::new(8);
    let id = bus.subscribe();
    for n in 0..8u8 {
        bus.publish(vec![n]).unwrap();
    }
    for n in 0..8u8 {
        assert_eq!(bus.recv(id), Delivery::Chunk(vec![n]));
    }
    assert_eq!(bus.recv(id), Delivery::Empty);
}

#[test]
fn loss_is_counted_exactly() {
    let mut bus = Broadcast::new(8);
    let slow = bus.subscribe();
    let fast = bus.subscribe();
    for n in 0..20u8 {
        bus.publish(vec![n]).unwrap();
        assert_eq!(bus.recv(fast), Delivery::Chunk(vec![n]));
    }
    assert_eq!(bus.recv(slow), Delivery::Lagged(12));
    for n in 12..20u8 {
        assert_eq!(bus.recv(slow), Delivery::Chunk(vec![n]));
    }
    assert_eq!(bus.recv(slow), Delivery::Empty);
    assert_eq!(bus.recv(fast), Delivery::Empty);
}

#[test]
fn lag_twice_in_a_row() {
    let mut bus = Broadcast::new(2);
    let id = bus.subscribe();
    for n in 0..5u8 {
        bus.publish(vec![n]).unwrap();
    }
    assert_eq!(bus.recv(id), Delivery::Lagged(3));
    // Falling behind again before reading on is reported again.
    bus.publish(vec![5]).unwrap();
    assert_eq!(bus.recv(id), Delivery::Lagged(1));
    assert_eq!(bus.recv(id), Delivery::Chunk(vec![4]));
    assert_eq!(bus.recv(id), Delivery::Chunk(vec![5]));
    assert_eq!(bus.recv(id), Delivery::Empty);
}

#[test]
fn slots_are_handed_out_lowest_first_and_reused() {
    let mut bus = Broadcast::new(8);
    assert_eq!(bus.subscribe(), 0);
    assert_eq!(bus.subscribe(), 1);
    assert_eq!(bus.subscribe(), 2);
    bus.unsubscribe(1);
    assert!(bus.is_subscribed(0));
    assert!(!bus.is_subscribed(1));
    assert!(bus.is_subscribed(2));
    assert_eq!(bus.subscribe(), 1);
    assert_eq!(bus.subscribe(), 3);
}

#[test]
fn reused_slot_starts_afresh() {
    let mut bus = Broadcast::new(2);
    let keep = bus.subscribe();
    let old = bus.subscribe();
    for n in 0..5u8 {
        bus.publish(vec![n]).unwrap();
    }
    bus.unsubscribe(old);
    let new = bus.subscribe();
    assert_eq!(new, old);
    assert_eq!(bus.recv(new), Delivery::Empty);
    bus.publish(vec![9]).unwrap();
    assert_eq!(bus.recv(new), Delivery::Chunk(vec![9]));
    assert_eq!(bus.recv(keep), Delivery::Lagged(4));
}

#[test]
fn unknown_or_closed_slot_receives_nothing() {
    let mut bus = Broadcast::new(8);
    assert_eq!(bus.recv(0), Delivery::Closed);
    let id = bus.subscribe();
    bus.publish(vec![1]).unwrap();
    bus.unsubscribe(id);
    assert_eq!(bus.recv(id), Delivery::Closed);
    assert_eq!(bus.recv(17), Delivery::Closed);
    bus.unsubscribe(17);
    assert!(!bus.has_subscriber());
}

#[test]
fn last_unsubscribe_makes_publish_fail_again() {
    let mut bus = Broadcast::new(8);
    let id = bus.subscribe();
    assert_eq!(bus.publish(vec![1]), Ok(()));
    bus.unsubscribe(id);
    assert_eq!(bus.publish(vec![2]), Err(PublishError::NoSubscribers));
}

#[test]
fn capacity_is_reported() {
    assert_eq!(Broadcast::new(8).capacity(), 8);
    assert_eq!(Broadcast::new(1).capacity(), 1);
}

#[test]
fn capacity_one_keeps_only_the_newest() {
    let mut bus = Broadcast::new(1);
    let id = bus.subscribe();
    bus.publish(vec![1]).unwrap();
    bus.publish(vec![2]).unwrap();
    bus.publish(vec![3]).unwrap();
    assert_eq!(bus.recv(id), Delivery::Lagged(2));
    assert_eq!(bus.recv(id), Delivery::Chunk(vec![3]));
    assert_eq!(bus.recv(id), Delivery::Empty);
}

#[test]
fn copy_bytes_copies() {
    assert_eq!(copy_bytes(&[]), Vec::<u8>::new());
    assert_eq!(copy_bytes(&[1, 2, 3]), vec![1, 2, 3]);
    let long: Vec<u8> = (0..=255u8).collect();
    assert_eq!(copy_bytes(&long), long);
}
