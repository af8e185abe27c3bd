use rustirc::broadcast::{Broadcaster, Delivery, Published, EVENT_QUEUE_BOUND};
use rustirc::connection::Event;

fn drain(subscription: &mut rustirc::broadcast::Subscription) -> Vec<String> {
    let mut seen = Vec::new();
    loop {
        match subscription.poll() {
            Delivery::Event(event) => seen.push(event),
            Delivery::Gap(lost) => seen.push(format!("<{} lost>", lost)),
            Delivery::Idle | Delivery::Ended => return seen,
        }
    }
}

#[test]
fn capacity_must_be_usable() {
    assert!(Broadcaster::new(0).is_none());
    assert!(Broadcaster::new(usize::MAX).is_none());
    assert!(Broadcaster::new(usize::MAX / 2 + 1).is_none());
    assert!(Broadcaster::new(1).is_some());
    assert!(Broadcaster::new(EVENT_QUEUE_BOUND).is_some());
    assert_eq!(EVENT_QUEUE_BOUND, 10);
}

#[test]
fn publish_without_subscribers_is_no_fault() {
    let broadcaster = Broadcaster::new(4).unwrap();
    assert_eq!(
        broadcaster.publish(String::from("lost")),
        Published::NoSubscribers
    );
    let mut late = broadcaster.subscribe();
    assert_eq!(broadcaster.publish(String::from("kept")), Published::Delivered(1));
    assert_eq!(drain(&mut late), vec![String::from("kept")]);
}

#[test]
fn fan_out_reaches_every_subscriber_in_order() {
    let broadcaster = Broadcaster::new(EVENT_QUEUE_BOUND).unwrap();
    let publisher = broadcaster.share();
    let mut own = publisher.subscribe();
    let mut other = broadcaster.subscribe();

    assert_eq!(publisher.publish(String::from("a: one")), Published::Delivered(2));
    assert_eq!(broadcaster.publish(String::from("b: two")), Published::Delivered(2));
    let mut late = broadcaster.subscribe();
    assert_eq!(publisher.publish(String::from("a: three")), Published::Delivered(3));

    let all = vec![
        String::from("a: one"),
        String::from("b: two"),
        String::from("a: three"),
    ];
    assert_eq!(drain(&mut own), all);
    assert_eq!(drain(&mut other), all);
    assert_eq!(drain(&mut late), vec![String::from("a: three")]);
    assert!(matches!(late.poll(), Delivery::Idle));
}

#[test]
fn slow_subscriber_sees_a_gap() {
    let broadcaster = Broadcaster::new(2).unwrap();
    let mut slow = broadcaster.subscribe();
    for n in 0..5 {
        assert_eq!(broadcaster.publish(format!("e{}", n)), Published::Delivered(1));
    }
    assert_eq!(
        drain(&mut slow),
        vec![
            String::from("<3 lost>"),
            String::from("e3"),
            String::from("e4"),
        ]
    );
}

#[test]
fn subscription_ends_with_the_last_publish_side() {
    let broadcaster = Broadcaster::new(2).unwrap();
    let mut subscription = broadcaster.subscribe();
    broadcaster.publish(String::from("last"));
    drop(broadcaster);
    assert!(matches!(subscription.poll(), Delivery::Event(event) if event == "last"));
    assert!(matches!(subscription.poll(), Delivery::Ended));
}

#[test]
fn deliveries_become_events() {
    assert!(matches!(
        Delivery::Event(String::from("x")).into_event(),
        Some(Event::Broadcast(event)) if event == "x"
    ));
    assert!(matches!(
        Delivery::Gap(7).into_event(),
        Some(Event::BroadcastGap(7))
    ));
    assert!(Delivery::Idle.into_event().is_none());
    assert!(Delivery::Ended.into_event().is_none());
}

#[test]
fn channel_holds_the_capacity_rounded_up_to_a_power_of_two() {
    for (capacity, bound) in [(1usize, 1usize), (2, 2), (3, 4), (5, 8), (EVENT_QUEUE_BOUND, 16)] {
        let broadcaster = Broadcaster::new(capacity).unwrap();
        let mut held = broadcaster.share().subscribe();
        let mut behind = broadcaster.subscribe();
        let mut sent = Vec::new();
        for n in 0..bound {
            broadcaster.publish(format!("e{}", n));
            sent.push(format!("e{}", n));
        }
        assert_eq!(drain(&mut held), sent, "capacity {}", capacity);

        broadcaster.publish(String::from("one more"));
        let mut expected = vec![String::from("<1 lost>")];
        expected.extend(sent.iter().skip(1).cloned());
        expected.push(String::from("one more"));
        assert_eq!(drain(&mut behind), expected, "capacity {}", capacity);
    }
}

#[test]
fn shared_handles_and_their_subscriptions_are_on_one_channel() {
    let first = Broadcaster::new(4).unwrap();
    let second = first.share();
    let third = second.share();
    let other = Broadcaster::new(4).unwrap();
    assert!(first.sender.same_channel(&second.sender));
    assert!(first.sender.same_channel(&third.sender));
    assert!(!first.sender.same_channel(&other.sender));

    let mut own = third.subscribe();
    let mut apart = other.subscribe();
    first.publish(String::from("a"));
    second.publish(String::from("b"));
    assert!(matches!(own.poll(), Delivery::Event(event) if event == "a"));
    assert!(own.receiver.same_channel(&first.subscribe().receiver));
    assert!(!own.receiver.same_channel(&apart.receiver));
    assert_eq!(drain(&mut own), vec![String::from("b")]);
    assert!(drain(&mut apart).is_empty());
}
