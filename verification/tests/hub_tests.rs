use chat_bridge::multi_recv::{Hub, MultiRecv, Received};

fn next(hub: &mut Hub<String>, subscription: &MultiRecv) -> Option<String> {
    match hub.recv(subscription) {
        Received::Event(event) => Some((*event).clone()),
        _ => None,
    }
}

fn is_empty(hub: &mut Hub<String>, subscription: &MultiRecv) -> bool {
    matches!(hub.recv(subscription), Received::Empty)
}

fn is_end(hub: &mut Hub<String>, subscription: &MultiRecv) -> bool {
    matches!(hub.recv(subscription), Received::End)
}

#[test]
fn first_subscription_sees_every_event_in_order() {
    let (mut hub, first) = MultiRecv::new::<String>();
    for name in ["a", "b", "c", "d"] {
        assert!(hub.publish(name.to_owned()));
    }
    assert_eq!(next(&mut hub, &first), Some("a".to_owned()));
    assert_eq!(next(&mut hub, &first), Some("b".to_owned()));
    assert_eq!(next(&mut hub, &first), Some("c".to_owned()));
    assert_eq!(next(&mut hub, &first), Some("d".to_owned()));
    assert!(is_empty(&mut hub, &first));
}

#[test]
fn each_event_is_seen_once() {
    let (mut hub, first) = MultiRecv::new::<String>();
    hub.publish("only".to_owned());
    assert_eq!(next(&mut hub, &first), Some("only".to_owned()));
    assert!(is_empty(&mut hub, &first));
    assert!(is_empty(&mut hub, &first));
}

#[test]
fn later_subscription_sees_only_later_events() {
    let (mut hub, first) = MultiRecv::new::<String>();
    hub.publish("one".to_owned());
    hub.publish("two".to_owned());
    let second = hub.subscribe();
    assert!(is_empty(&mut hub, &second));
    hub.publish("three".to_owned());
    hub.publish("four".to_owned());
    assert_eq!(next(&mut hub, &second), Some("three".to_owned()));
    assert_eq!(next(&mut hub, &second), Some("four".to_owned()));
    assert!(is_empty(&mut hub, &second));
    assert_eq!(next(&mut hub, &first), Some("one".to_owned()));
    assert_eq!(next(&mut hub, &first), Some("two".to_owned()));
    assert_eq!(next(&mut hub, &first), Some("three".to_owned()));
    assert_eq!(next(&mut hub, &first), Some("four".to_owned()));
}

#[test]
fn stalled_subscriber_does_not_block_others() {
    let (mut hub, stalled) = MultiRecv::new::<String>();
    let reader = hub.subscribe();
    for round in 0..1000 {
        assert!(hub.publish(format!("event {}", round)));
        assert_eq!(next(&mut hub, &reader), Some(format!("event {}", round)));
        assert!(is_empty(&mut hub, &reader));
    }
    assert_eq!(next(&mut hub, &stalled), Some("event 0".to_owned()));
}

#[test]
fn subscriptions_are_numbered_in_order() {
    let (mut hub, first) = MultiRecv::new::<String>();
    let second = hub.subscribe();
    let third = hub.subscribe();
    assert_eq!(first.id, 0);
    assert_eq!(second.id, 1);
    assert_eq!(third.id, 2);
    assert_eq!(hub.issued, 3);
}

#[test]
fn gone_reader_is_dropped_at_next_publish() {
    let (mut hub, first) = MultiRecv::new::<String>();
    let second = hub.subscribe();
    hub.publish("before".to_owned());
    hub.unsubscribe(first);
    assert_eq!(hub.subscribers.len(), 2);
    hub.publish("after".to_owned());
    assert_eq!(hub.subscribers.len(), 1);
    assert_eq!(hub.subscribers[0].id, second.id);
    assert_eq!(next(&mut hub, &second), Some("before".to_owned()));
    assert_eq!(next(&mut hub, &second), Some("after".to_owned()));
}

#[test]
fn dropped_subscription_is_at_its_end() {
    let (mut hub, first) = MultiRecv::new::<String>();
    let gone = MultiRecv { id: first.id };
    hub.unsubscribe(first);
    hub.publish("x".to_owned());
    assert!(is_end(&mut hub, &gone));
}

#[test]
fn closed_hub_drains_and_then_ends() {
    let (mut hub, first) = MultiRecv::new::<String>();
    hub.publish("last words".to_owned());
    hub.close();
    assert_eq!(next(&mut hub, &first), Some("last words".to_owned()));
    assert!(is_end(&mut hub, &first));
    assert!(is_end(&mut hub, &first));
}

#[test]
fn closed_hub_takes_no_event() {
    let (mut hub, first) = MultiRecv::new::<String>();
    hub.close();
    assert!(!hub.publish("late".to_owned()));
    assert!(is_end(&mut hub, &first));
}

#[test]
fn subscription_to_closed_hub_ends_at_once() {
    let (mut hub, _first) = MultiRecv::new::<String>();
    hub.publish("early".to_owned());
    hub.close();
    let late = hub.subscribe();
    assert_eq!(late.id, 1);
    assert!(is_end(&mut hub, &late));
    assert_eq!(hub.subscribers.len(), 1);
}

#[test]
fn find_gives_position_of_registered_subscription() {
    let (mut hub, first) = MultiRecv::new::<String>();
    let second = hub.subscribe();
    assert_eq!(hub.find(first.id), Some(0));
    assert_eq!(hub.find(second.id), Some(1));
    assert_eq!(hub.find(7), None);
}
