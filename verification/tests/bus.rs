use esp_sensor::bus::{Topic, WaitOutcome};
use esp_sensor::decimal::Decimal;
use esp_sensor::reading::Reading;

fn reading(n: i32) -> Reading {
    Reading { temperature: Decimal::from_tenths(n), humidity: Decimal::from_tenths(500 + n) }
}

#[test]
fn readings_come_in_order() {
    let mut topic = Topic::new(4);
    let sub = topic.subscribe();
    let (a, b, c) = (reading(1), reading(2), reading(3));
    topic.publish(a);
    topic.publish(b);
    topic.publish(c);
    assert_eq!(topic.next(&sub), Some(WaitOutcome::Delivered(a)));
    assert_eq!(topic.next(&sub), Some(WaitOutcome::Delivered(b)));
    assert_eq!(topic.next(&sub), Some(WaitOutcome::Delivered(c)));
    assert_eq!(topic.next(&sub), None);
}

#[test]
fn reading_and_publishing_interleaved() {
    let mut topic = Topic::new(2);
    let sub = topic.subscribe();
    for n in 0..20 {
        topic.publish(reading(n));
        assert_eq!(topic.next(&sub), Some(WaitOutcome::Delivered(reading(n))));
        assert_eq!(topic.next(&sub), None);
    }
}

#[test]
fn overflow_is_reported_once() {
    let mut topic = Topic::new(4);
    let sub = topic.subscribe();
    for n in 1..=6 {
        topic.publish(reading(n));
    }
    assert_eq!(topic.next(&sub), Some(WaitOutcome::Lagged(2)));
    assert_eq!(topic.next(&sub), Some(WaitOutcome::Delivered(reading(3))));
    assert_eq!(topic.next(&sub), Some(WaitOutcome::Delivered(reading(4))));
    assert_eq!(topic.next(&sub), Some(WaitOutcome::Delivered(reading(5))));
    assert_eq!(topic.next(&sub), Some(WaitOutcome::Delivered(reading(6))));
    assert_eq!(topic.next(&sub), None);
}

#[test]
fn overflow_of_a_single_place() {
    let mut topic = Topic::new(1);
    let sub = topic.subscribe();
    topic.publish(reading(1));
    topic.publish(reading(2));
    topic.publish(reading(3));
    assert_eq!(topic.next(&sub), Some(WaitOutcome::Lagged(2)));
    assert_eq!(topic.next(&sub), Some(WaitOutcome::Delivered(reading(3))));
    assert_eq!(topic.next(&sub), None);
}

#[test]
fn lag_is_counted_anew_after_a_report() {
    let mut topic = Topic::new(2);
    let sub = topic.subscribe();
    for n in 1..=3 {
        topic.publish(reading(n));
    }
    assert_eq!(topic.next(&sub), Some(WaitOutcome::Lagged(1)));
    for n in 4..=6 {
        topic.publish(reading(n));
    }
    assert_eq!(topic.next(&sub), Some(WaitOutcome::Lagged(3)));
    assert_eq!(topic.next(&sub), Some(WaitOutcome::Delivered(reading(5))));
    assert_eq!(topic.next(&sub), Some(WaitOutcome::Delivered(reading(6))));
    assert_eq!(topic.next(&sub), None);
}

#[test]
fn a_lagging_subscriber_does_not_disturb_another() {
    let mut topic = Topic::new(4);
    let prompt = topic.subscribe();
    let slow = topic.subscribe();
    for n in 1..=10 {
        topic.publish(reading(n));
        assert_eq!(topic.next(&prompt), Some(WaitOutcome::Delivered(reading(n))));
        assert_eq!(topic.next(&prompt), None);
    }
    assert_eq!(topic.next(&slow), Some(WaitOutcome::Lagged(6)));
    for n in 7..=10 {
        assert_eq!(topic.next(&slow), Some(WaitOutcome::Delivered(reading(n))));
    }
    assert_eq!(topic.next(&slow), None);
    assert_eq!(topic.next(&prompt), None);
}

#[test]
fn a_late_subscriber_gets_later_readings_only() {
    let mut topic = Topic::new(4);
    let early = topic.subscribe();
    topic.publish(reading(1));
    let late = topic.subscribe();
    topic.publish(reading(2));
    assert_eq!(topic.subscribers(), 2);
    assert_eq!(early.position(), 0);
    assert_eq!(late.position(), 1);
    assert_eq!(topic.next(&late), Some(WaitOutcome::Delivered(reading(2))));
    assert_eq!(topic.next(&late), None);
    assert_eq!(topic.next(&early), Some(WaitOutcome::Delivered(reading(1))));
    assert_eq!(topic.next(&early), Some(WaitOutcome::Delivered(reading(2))));
}

#[test]
fn publishing_without_subscribers() {
    let mut topic = Topic::new(4);
    topic.publish(reading(1));
    assert_eq!(topic.subscribers(), 0);
    assert_eq!(topic.capacity(), 4);
    let sub = topic.subscribe();
    assert_eq!(topic.next(&sub), None);
}

#[test]
fn a_foreign_handle_gets_nothing() {
    let mut one = Topic::new(4);
    let mut other = Topic::new(4);
    let _first = other.subscribe();
    let second = other.subscribe();
    let own = one.subscribe();
    one.publish(reading(1));
    assert_eq!(one.next(&second), None);
    assert_eq!(one.next(&own), Some(WaitOutcome::Delivered(reading(1))));
}

#[test]
fn queues_without_places_lose_everything() {
    let mut topic = Topic::new(0);
    let sub = topic.subscribe();
    topic.publish(reading(1));
    topic.publish(reading(2));
    assert_eq!(topic.next(&sub), Some(WaitOutcome::Lagged(2)));
    assert_eq!(topic.next(&sub), None);
}

#[test]
fn agrees_with_the_bus_crate_while_nothing_overflows() {
    let mut theirs = bus::Bus::new(4);
    let mut their_a = theirs.add_rx();
    let mut ours = Topic::new(4);
    let our_a = ours.subscribe();
    theirs.broadcast(reading(1));
    ours.publish(reading(1));
    let mut their_b = theirs.add_rx();
    let our_b = ours.subscribe();
    for n in 2..=4 {
        theirs.broadcast(reading(n));
        ours.publish(reading(n));
    }
    for _ in 0..4 {
        let expected = their_a.try_recv().ok().map(WaitOutcome::Delivered);
        assert_eq!(ours.next(&our_a), expected);
        assert!(expected.is_some());
    }
    assert_eq!(ours.next(&our_a), their_a.try_recv().ok().map(WaitOutcome::Delivered));
    for _ in 0..4 {
        assert_eq!(ours.next(&our_b), their_b.try_recv().ok().map(WaitOutcome::Delivered));
    }
}
