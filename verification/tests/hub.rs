use chat_relay::hub::Hub;

fn drain(hub: &mut Hub, id: u64) -> Vec<String> {
    let mut seen = Vec::new();
    while let Some(message) = hub.receive(id) {
        seen.push(message);
    }
    seen
}

#[test]
fn new_hub_has_no_subscriber() {
    let hub = Hub::new(32);
    assert_eq!(hub.subscriber_count(), 0);
    assert_eq!(hub.capacity(), 32);
}

#[test]
fn identifiers_are_issued_in_order() {
    let mut hub = Hub::new(4);
    assert_eq!(hub.subscribe(), Some(0));
    assert_eq!(hub.subscribe(), Some(1));
    assert_eq!(hub.subscribe(), Some(2));
    assert_eq!(hub.subscriber_count(), 3);
}

#[test]
fn publish_reports_number_of_subscribers() {
    let mut hub = Hub::new(4);
    assert_eq!(hub.publish("nobody listens"), 0);
    let _ = hub.subscribe();
    let _ = hub.subscribe();
    assert_eq!(hub.publish("two listen"), 2);
}

#[test]
fn every_subscriber_receives_in_publication_order() {
    let mut hub = Hub::new(32);
    let a = hub.subscribe().unwrap();
    let b = hub.subscribe().unwrap();
    hub.publish("one");
    hub.publish("two");
    hub.publish("three");
    let expected = vec!["one".to_string(), "two".to_string(), "three".to_string()];
    assert_eq!(drain(&mut hub, a), expected);
    assert_eq!(drain(&mut hub, b), expected);
}

#[test]
fn interleaved_reading_keeps_the_order() {
    let mut hub = Hub::new(32);
    let a = hub.subscribe().unwrap();
    let b = hub.subscribe().unwrap();
    hub.publish("one");
    assert_eq!(hub.receive(a), Some("one".to_string()));
    hub.publish("two");
    assert_eq!(hub.receive(b), Some("one".to_string()));
    assert_eq!(hub.receive(a), Some("two".to_string()));
    assert_eq!(hub.receive(b), Some("two".to_string()));
    assert_eq!(hub.receive(a), None);
    assert_eq!(hub.receive(b), None);
}

#[test]
fn late_subscriber_sees_no_history() {
    let mut hub = Hub::new(32);
    let early = hub.subscribe().unwrap();
    hub.publish("before");
    let late = hub.subscribe().unwrap();
    assert_eq!(hub.pending_count(late), 0);
    assert_eq!(hub.receive(late), None);
    hub.publish("after");
    assert_eq!(drain(&mut hub, late), vec!["after".to_string()]);
    assert_eq!(
        drain(&mut hub, early),
        vec!["before".to_string(), "after".to_string()]
    );
}

#[test]
fn full_queue_drops_its_oldest_message() {
    let mut hub = Hub::new(2);
    let slow = hub.subscribe().unwrap();
    hub.publish("one");
    hub.publish("two");
    hub.publish("three");
    assert_eq!(hub.pending_count(slow), 2);
    assert_eq!(
        drain(&mut hub, slow),
        vec!["two".to_string(), "three".to_string()]
    );
}

#[test]
fn capacity_one_keeps_only_the_newest() {
    let mut hub = Hub::new(1);
    let id = hub.subscribe().unwrap();
    hub.publish("one");
    hub.publish("two");
    assert_eq!(drain(&mut hub, id), vec!["two".to_string()]);
}

#[test]
fn slow_subscriber_does_not_hold_back_a_fast_one() {
    let mut hub = Hub::new(2);
    let slow = hub.subscribe().unwrap();
    let fast = hub.subscribe().unwrap();
    let mut fast_seen = Vec::new();
    for text in ["a", "b", "c", "d"] {
        hub.publish(text);
        fast_seen.push(hub.receive(fast).unwrap());
    }
    assert_eq!(fast_seen, vec!["a", "b", "c", "d"]);
    assert_eq!(drain(&mut hub, slow), vec!["c".to_string(), "d".to_string()]);
}

#[test]
fn publish_all_sends_each_message_in_order() {
    let mut hub = Hub::new(8);
    let id = hub.subscribe().unwrap();
    let messages = vec!["x".to_string(), "y".to_string(), "z".to_string()];
    assert_eq!(hub.publish_all(&messages), 1);
    assert_eq!(drain(&mut hub, id), messages);
}

#[test]
fn publish_all_of_nothing_changes_nothing() {
    let mut hub = Hub::new(8);
    let id = hub.subscribe().unwrap();
    assert_eq!(hub.publish_all(&Vec::new()), 1);
    assert_eq!(hub.pending_count(id), 0);
}

#[test]
fn unsubscribe_removes_only_that_subscriber() {
    let mut hub = Hub::new(8);
    let a = hub.subscribe().unwrap();
    let b = hub.subscribe().unwrap();
    hub.publish("kept");
    assert!(hub.unsubscribe(a));
    assert!(!hub.is_subscribed(a));
    assert!(hub.is_subscribed(b));
    assert_eq!(hub.subscriber_count(), 1);
    assert_eq!(hub.receive(a), None);
    assert_eq!(drain(&mut hub, b), vec!["kept".to_string()]);
}

#[test]
fn unsubscribe_of_unknown_identifier_is_refused() {
    let mut hub = Hub::new(8);
    let a = hub.subscribe().unwrap();
    assert!(!hub.unsubscribe(a + 1));
    assert!(hub.unsubscribe(a));
    assert!(!hub.unsubscribe(a));
    assert_eq!(hub.subscriber_count(), 0);
}

#[test]
fn identifiers_are_not_reused() {
    let mut hub = Hub::new(8);
    let a = hub.subscribe().unwrap();
    assert!(hub.unsubscribe(a));
    let b = hub.subscribe().unwrap();
    assert_ne!(a, b);
    assert_eq!(b, 1);
}

#[test]
fn receive_for_unknown_identifier_gives_nothing() {
    let mut hub = Hub::new(8);
    hub.publish("lost");
    assert_eq!(hub.receive(7), None);
    assert_eq!(hub.pending_count(7), 0);
    assert!(!hub.is_subscribed(7));
}

#[test]
fn hub_agrees_with_a_plain_model() {
    let capacity = 3;
    let mut hub = Hub::new(capacity);
    let mut model: Vec<(u64, Vec<String>)> = Vec::new();
    let mut issued = 0u64;
    let mut state: u64 = 0x9E37_79B9_7F4A_7C15;
    for round in 0..2000u32 {
        state = state
            .wrapping_mul(6364136223846793005)
            .wrapping_add(1442695040888963407);
        let choice = (state >> 33) % 10;
        let id = (state >> 40) % (issued + 1);
        match choice {
            0 => {
                assert_eq!(hub.subscribe(), Some(issued));
                model.push((issued, Vec::new()));
                issued += 1;
            }
            1 => {
                let known = model.iter().any(|entry| entry.0 == id);
                assert_eq!(hub.unsubscribe(id), known);
                model.retain(|entry| entry.0 != id);
            }
            2..=5 => {
                let message = format!("m{round}");
                assert_eq!(hub.publish(&message), model.len());
                for entry in model.iter_mut() {
                    entry.1.push(message.clone());
                    if entry.1.len() > capacity {
                        entry.1.remove(0);
                    }
                }
            }
            _ => {
                let expected = match model.iter_mut().find(|entry| entry.0 == id) {
                    Some(entry) if !entry.1.is_empty() => Some(entry.1.remove(0)),
                    _ => None,
                };
                assert_eq!(hub.receive(id), expected);
            }
        }
        assert_eq!(hub.subscriber_count(), model.len());
        for entry in model.iter() {
            assert!(hub.is_subscribed(entry.0));
            assert_eq!(hub.pending_count(entry.0), entry.1.len());
        }
    }
}
