use chat_core::router::{ChannelLayer, Command, DeliveryOutcome};

fn alice() -> String {
    String::from("alice@example.com")
}

fn bob() -> String {
    String::from("bob@example.com")
}

#[test]
fn subscribe_then_publish_delivers() {
    let mut router: ChannelLayer<String> = ChannelLayer::new(128);
    router.subscribe(alice(), 10);
    let outcome = router.publish(&alice(), String::from("hello"));
    assert_eq!(outcome, DeliveryOutcome::Delivered);
    assert_eq!(router.take_next(&alice()), Some(String::from("hello")));
    assert_eq!(router.take_next(&alice()), None);
}

#[test]
fn publish_order_preserved() {
    let mut router: ChannelLayer<String> = ChannelLayer::new(128);
    router.subscribe(alice(), 10);
    for text in ["one", "two", "three"] {
        let outcome = router.publish(&alice(), String::from(text));
        assert_eq!(outcome, DeliveryOutcome::Delivered);
    }
    assert_eq!(router.take_next(&alice()), Some(String::from("one")));
    assert_eq!(router.take_next(&alice()), Some(String::from("two")));
    assert_eq!(router.take_next(&alice()), Some(String::from("three")));
    assert_eq!(router.take_next(&alice()), None);
}

#[test]
fn resubscribe_makes_only_second_live() {
    let mut router: ChannelLayer<String> = ChannelLayer::new(128);
    router.subscribe(alice(), 10);
    let outcome = router.publish(&alice(), String::from("to the first"));
    assert_eq!(outcome, DeliveryOutcome::Delivered);
    // Re-registering replaces the first outbound and its undrained buffer.
    router.subscribe(alice(), 20);
    let outcome = router.publish(&alice(), String::from("to the second"));
    assert_eq!(outcome, DeliveryOutcome::Delivered);
    assert_eq!(router.take_next(&alice()), Some(String::from("to the second")));
    assert_eq!(router.take_next(&alice()), None);
}

#[test]
fn publish_without_subscriber() {
    let mut router: ChannelLayer<String> = ChannelLayer::new(128);
    router.subscribe(bob(), 5);
    let outcome = router.publish(&alice(), String::from("lost"));
    assert_eq!(outcome, DeliveryOutcome::NoSubscriber);
    // No state was touched: nothing for alice, nothing leaked to bob.
    assert_eq!(router.take_next(&alice()), None);
    assert_eq!(router.take_next(&bob()), None);
}

#[test]
fn full_buffer_does_not_stall_others() {
    let mut router: ChannelLayer<u64> = ChannelLayer::new(2);
    router.subscribe(alice(), 1);
    router.subscribe(bob(), 2);
    assert_eq!(router.publish(&alice(), 1), DeliveryOutcome::Delivered);
    assert_eq!(router.publish(&alice(), 2), DeliveryOutcome::Delivered);
    // Alice's buffer is saturated now.
    assert_eq!(router.publish(&alice(), 3), DeliveryOutcome::SubscriberUnresponsive);
    // Bob is isolated from alice's backlog.
    assert_eq!(router.publish(&bob(), 4), DeliveryOutcome::Delivered);
    assert_eq!(router.take_next(&bob()), Some(4));
    // Alice kept exactly the two that fit, in order.
    assert_eq!(router.take_next(&alice()), Some(1));
    assert_eq!(router.take_next(&alice()), Some(2));
    assert_eq!(router.take_next(&alice()), None);
}

#[test]
fn closed_outbound_is_no_subscriber() {
    let mut router: ChannelLayer<String> = ChannelLayer::new(8);
    router.subscribe(alice(), 10);
    assert!(router.close(&alice()));
    let outcome = router.publish(&alice(), String::from("late"));
    assert_eq!(outcome, DeliveryOutcome::NoSubscriber);
    assert!(!router.close(&bob()));
}

#[test]
fn handle_command_matches_direct_calls() {
    let mut router: ChannelLayer<String> = ChannelLayer::new(8);
    assert_eq!(router.handle_command(Command::Subscribe(alice(), 10)), None);
    assert_eq!(
        router.handle_command(Command::Message(alice(), String::from("hi"))),
        Some(DeliveryOutcome::Delivered)
    );
    assert_eq!(
        router.handle_command(Command::Message(bob(), String::from("hi"))),
        Some(DeliveryOutcome::NoSubscriber)
    );
    assert_eq!(router.take_next(&alice()), Some(String::from("hi")));
}

#[test]
fn shutdown_closes_every_outbound() {
    let mut router: ChannelLayer<String> = ChannelLayer::new(8);
    router.subscribe(alice(), 10);
    router.subscribe(bob(), 11);
    router.shutdown();
    assert_eq!(router.publish(&alice(), String::from("x")), DeliveryOutcome::NoSubscriber);
    assert_eq!(router.publish(&bob(), String::from("y")), DeliveryOutcome::NoSubscriber);
}
