use chat_client::bus::EventBus;
use chat_client::channel::{Channel, SendFailure};

#[test]
fn new_channel_is_open_and_empty() {
    let mut channel = Channel::new();
    assert!(channel.is_open());
    assert_eq!(channel.queued(), 0);
    assert_eq!(channel.next_outbound(), None);
}

#[test]
fn send_queues_in_order() {
    let mut channel = Channel::new();
    assert_eq!(channel.send("a".to_string()), Ok(()));
    assert_eq!(channel.send("b".to_string()), Ok(()));
    assert_eq!(channel.queued(), 2);
    assert_eq!(channel.next_outbound(), Some("a".to_string()));
    assert_eq!(channel.send("c".to_string()), Ok(()));
    assert_eq!(channel.next_outbound(), Some("b".to_string()));
    assert_eq!(channel.next_outbound(), Some("c".to_string()));
    assert_eq!(channel.next_outbound(), None);
}

#[test]
fn send_on_closed_channel_fails_and_queues_nothing() {
    let mut channel = Channel::new();
    channel.close();
    assert!(!channel.is_open());
    assert_eq!(channel.send("a".to_string()), Err(SendFailure::Closed));
    assert_eq!(channel.queued(), 0);
}

#[test]
fn close_keeps_what_was_queued() {
    let mut channel = Channel::new();
    assert_eq!(channel.send("a".to_string()), Ok(()));
    channel.close();
    channel.close();
    assert_eq!(channel.queued(), 1);
    assert_eq!(channel.send("b".to_string()), Err(SendFailure::Closed));
    assert_eq!(channel.next_outbound(), Some("a".to_string()));
    assert_eq!(channel.next_outbound(), None);
}

#[test]
fn relay_publishes_verbatim() {
    let channel = Channel::new();
    let mut bus = EventBus::new();
    let a = bus.subscribe();
    assert!(channel.relay("{not a frame", &mut bus));
    assert_eq!(bus.receive(a), Some("{not a frame".to_string()));
}

#[test]
fn relay_all_keeps_arrival_order_for_each_subscriber() {
    let channel = Channel::new();
    let mut bus = EventBus::new();
    let a = bus.subscribe();
    bus.publish("0");
    let b = bus.subscribe();
    channel.relay_all(&vec!["1".to_string(), "2".to_string(), "3".to_string()], &mut bus);
    for expected in ["0", "1", "2", "3"] {
        assert_eq!(bus.receive(a), Some(expected.to_string()));
    }
    for expected in ["1", "2", "3"] {
        assert_eq!(bus.receive(b), Some(expected.to_string()));
    }
    assert_eq!(bus.receive(a), None);
    assert_eq!(bus.receive(b), None);
}

#[test]
fn relay_all_of_nothing_changes_nothing() {
    let channel = Channel::new();
    let mut bus = EventBus::new();
    let a = bus.subscribe();
    channel.relay_all(&Vec::new(), &mut bus);
    assert_eq!(bus.pending(a), 0);
}

#[test]
fn closed_channel_relays_nothing() {
    let mut channel = Channel::new();
    let mut bus = EventBus::new();
    let a = bus.subscribe();
    channel.close();
    assert!(!channel.relay("late", &mut bus));
    channel.relay_all(&vec!["later".to_string()], &mut bus);
    assert_eq!(bus.pending(a), 0);
    assert!(bus.is_subscribed(a));
}
