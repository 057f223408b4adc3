use chat_client::bus::{EventBus, SubscriptionId};

#[test]
fn new_bus_has_no_subscription() {
    let bus = EventBus::new();
    assert!(!bus.is_subscribed(SubscriptionId(0)));
    assert_eq!(bus.pending(SubscriptionId(0)), 0);
    assert!(bus.can_subscribe());
}

#[test]
fn subscribe_hands_out_fresh_numbers() {
    let mut bus = EventBus::new();
    let a = bus.subscribe();
    let b = bus.subscribe();
    let c = bus.subscribe();
    assert_eq!(a, SubscriptionId(0));
    assert_eq!(b, SubscriptionId(1));
    assert_eq!(c, SubscriptionId(2));
    assert!(bus.is_subscribed(a) && bus.is_subscribed(b) && bus.is_subscribed(c));
}

#[test]
fn numbers_are_not_used_again_after_unsubscribe() {
    let mut bus = EventBus::new();
    let a = bus.subscribe();
    bus.unsubscribe(a);
    let b = bus.subscribe();
    assert_ne!(a, b);
    assert!(!bus.is_subscribed(a));
    assert!(bus.is_subscribed(b));
}

#[test]
fn publish_reaches_every_live_subscription() {
    let mut bus = EventBus::new();
    let a = bus.subscribe();
    let b = bus.subscribe();
    bus.publish("one");
    assert_eq!(bus.pending(a), 1);
    assert_eq!(bus.pending(b), 1);
    assert_eq!(bus.receive(a), Some("one".to_string()));
    assert_eq!(bus.receive(b), Some("one".to_string()));
}

#[test]
fn each_subscriber_receives_in_publish_order() {
    let mut bus = EventBus::new();
    let a = bus.subscribe();
    let b = bus.subscribe();
    for text in ["1", "2", "3"] {
        bus.publish(text);
    }
    assert_eq!(bus.receive(a), Some("1".to_string()));
    assert_eq!(bus.receive(a), Some("2".to_string()));
    assert_eq!(bus.receive(b), Some("1".to_string()));
    bus.publish("4");
    assert_eq!(bus.receive(a), Some("3".to_string()));
    assert_eq!(bus.receive(a), Some("4".to_string()));
    assert_eq!(bus.receive(a), None);
    assert_eq!(bus.receive(b), Some("2".to_string()));
    assert_eq!(bus.receive(b), Some("3".to_string()));
    assert_eq!(bus.receive(b), Some("4".to_string()));
    assert_eq!(bus.receive(b), None);
}

#[test]
fn nothing_published_before_subscribing_is_replayed() {
    let mut bus = EventBus::new();
    bus.publish("early");
    let a = bus.subscribe();
    bus.publish("while a");
    let b = bus.subscribe();
    assert_eq!(bus.pending(b), 0);
    assert_eq!(bus.receive(b), None);
    assert_eq!(bus.receive(a), Some("while a".to_string()));
    assert_eq!(bus.receive(a), None);
}

#[test]
fn publish_without_subscribers_is_lost() {
    let mut bus = EventBus::new();
    bus.publish("nobody");
    let a = bus.subscribe();
    assert_eq!(bus.receive(a), None);
}

#[test]
fn unsubscribe_drops_the_feed_and_stops_delivery() {
    let mut bus = EventBus::new();
    let a = bus.subscribe();
    let b = bus.subscribe();
    bus.publish("x");
    bus.unsubscribe(a);
    assert!(!bus.is_subscribed(a));
    assert_eq!(bus.pending(a), 0);
    assert_eq!(bus.receive(a), None);
    bus.publish("y");
    assert_eq!(bus.receive(a), None);
    assert_eq!(bus.receive(b), Some("x".to_string()));
    assert_eq!(bus.receive(b), Some("y".to_string()));
}

#[test]
fn unsubscribe_in_the_middle_keeps_the_others() {
    let mut bus = EventBus::new();
    let a = bus.subscribe();
    let b = bus.subscribe();
    let c = bus.subscribe();
    bus.publish("p");
    bus.unsubscribe(b);
    bus.publish("q");
    for id in [a, c] {
        assert_eq!(bus.receive(id), Some("p".to_string()));
        assert_eq!(bus.receive(id), Some("q".to_string()));
        assert_eq!(bus.receive(id), None);
    }
}

#[test]
fn unsubscribe_of_what_is_not_live_changes_nothing() {
    let mut bus = EventBus::new();
    let a = bus.subscribe();
    bus.publish("x");
    bus.unsubscribe(SubscriptionId(77));
    bus.unsubscribe(SubscriptionId(77));
    assert_eq!(bus.pending(a), 1);
    assert_eq!(bus.receive(a), Some("x".to_string()));
}

#[test]
fn receive_on_empty_or_unknown_feed_is_none() {
    let mut bus = EventBus::new();
    assert_eq!(bus.receive(SubscriptionId(0)), None);
    let a = bus.subscribe();
    assert_eq!(bus.receive(a), None);
    assert!(bus.is_subscribed(a));
}

#[test]
fn the_bus_relays_text_untouched() {
    let mut bus = EventBus::new();
    let a = bus.subscribe();
    let odd = "not json {\"\u{0} \u{1F600}";
    bus.publish(odd);
    bus.publish("");
    assert_eq!(bus.receive(a), Some(odd.to_string()));
    assert_eq!(bus.receive(a), Some(String::new()));
}
