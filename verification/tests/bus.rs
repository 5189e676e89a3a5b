//! End-to-end behaviour of the registry and the member handles.

use busline::{BusName, Error, EventId, Message, MessagePayload, Registry};

fn name(s: &str) -> BusName {
    BusName::try_new(s.to_string()).unwrap()
}

fn id(s: &str) -> EventId {
    EventId::new(s.to_string())
}

fn typed_data(m: &Message) -> Vec<u8> {
    match m.payload() {
        MessagePayload::Typed(_, d) => d.clone(),
        MessagePayload::Raw(_) => panic!("expected a typed payload"),
    }
}

fn raw_data(m: &Message) -> Vec<u8> {
    match m.payload() {
        MessagePayload::Raw(d) => d.clone(),
        MessagePayload::Typed(_, _) => panic!("expected a raw payload"),
    }
}

#[test]
fn empty_name_is_invalid() {
    assert_eq!(BusName::try_new(String::new()).unwrap_err(), Error::InvalidName);
    assert!(BusName::try_new("ingest-1".to_string()).is_ok());
}

#[test]
fn event_id_conversion_is_infallible() {
    let _ = EventId::new(String::new());
    let _ = EventId::new("segment-ready".to_string());
}

#[test]
fn register_rejects_name_in_use() {
    let mut reg = Registry::new();
    let first = reg.register(name("ingest-1")).unwrap();
    let second = reg.register(name("ingest-1"));
    assert_eq!(second.unwrap_err(), Error::NameInUse);
    // once the first connection is gone the name is free again
    first.close(&mut reg);
    assert!(reg.register(name("ingest-1")).is_ok());
}

#[test]
fn unregister_of_absent_name_is_unknown_member() {
    let mut reg = Registry::new();
    assert_eq!(reg.unregister(&name("nobody")).unwrap_err(), Error::UnknownMember);
}

#[test]
fn send_to_absent_name_is_unknown_recipient() {
    let mut reg = Registry::new();
    let c = reg.register(name("a")).unwrap();
    let r = c.send(&mut reg, "ghost".to_string(), "k".to_string(), vec![1]);
    assert_eq!(r.unwrap_err(), Error::UnknownRecipient);
}

#[test]
fn send_to_empty_name_is_invalid_name() {
    let mut reg = Registry::new();
    let c = reg.register(name("a")).unwrap();
    let r = c.send(&mut reg, String::new(), "k".to_string(), vec![1]);
    assert_eq!(r.unwrap_err(), Error::InvalidName);
}

#[test]
fn point_to_point_preserves_sender_order() {
    let mut reg = Registry::new();
    let tx = reg.register(name("tx")).unwrap();
    let rx = reg.register(name("rx")).unwrap();
    tx.send(&mut reg, "rx".to_string(), "k".to_string(), vec![1]).unwrap();
    tx.send(&mut reg, "rx".to_string(), "k".to_string(), vec![2]).unwrap();
    let m1 = rx.next_message(&mut reg).unwrap();
    let m2 = rx.next_message(&mut reg).unwrap();
    assert_eq!(typed_data(&m1), vec![1]);
    assert_eq!(typed_data(&m2), vec![2]);
    assert!(rx.next_message(&mut reg).is_none());
}

#[test]
fn send_raw_carries_bytes_unencoded() {
    let mut reg = Registry::new();
    let tx = reg.register(name("tx")).unwrap();
    let rx = reg.register(name("rx")).unwrap();
    tx.send_raw(&mut reg, "rx".to_string(), vec![9, 8, 7]).unwrap();
    let m = rx.next_message(&mut reg).unwrap();
    assert_eq!(raw_data(&m), vec![9, 8, 7]);
    assert_eq!(m.destination().as_ref().unwrap(), &name("rx"));
}

#[test]
fn next_message_is_none_when_nothing_pends() {
    let mut reg = Registry::new();
    let c = reg.register(name("a")).unwrap();
    assert!(c.next_message(&mut reg).is_none());
}

#[test]
fn broadcast_fans_out_to_all_current_subscribers() {
    let mut reg = Registry::new();
    let publisher = reg.register(name("pub")).unwrap();
    let a = reg.register(name("a")).unwrap();
    let b = reg.register(name("b")).unwrap();
    let c = reg.register(name("c")).unwrap();
    publisher.register_event(&mut reg, id("tick")).unwrap();
    a.subscribe(&mut reg, "pub".to_string(), id("tick")).unwrap();
    b.subscribe(&mut reg, "pub".to_string(), id("tick")).unwrap();
    c.subscribe(&mut reg, "pub".to_string(), id("tick")).unwrap();
    publisher.broadcast(&mut reg, id("tick"), "k".to_string(), vec![42]).unwrap();
    // each subscriber drains its own copy, in any order and at any pace
    let mc = c.next_message(&mut reg).unwrap();
    let ma = a.next_message(&mut reg).unwrap();
    let mb = b.next_message(&mut reg).unwrap();
    for m in [&ma, &mb, &mc] {
        assert!(m.destination().is_none());
        assert_eq!(typed_data(m), vec![42]);
    }
    // the publisher itself did not subscribe, so it gets nothing
    assert!(publisher.next_message(&mut reg).is_none());
}

#[test]
fn broadcast_with_no_subscribers_succeeds() {
    let mut reg = Registry::new();
    let publisher = reg.register(name("pub")).unwrap();
    assert!(publisher.broadcast(&mut reg, id("tick"), "k".to_string(), vec![]).is_ok());
}

#[test]
fn subscription_is_idempotent() {
    let mut reg = Registry::new();
    let publisher = reg.register(name("pub")).unwrap();
    let sub = reg.register(name("sub")).unwrap();
    sub.subscribe(&mut reg, "pub".to_string(), id("tick")).unwrap();
    sub.subscribe(&mut reg, "pub".to_string(), id("tick")).unwrap();
    publisher.broadcast(&mut reg, id("tick"), "k".to_string(), vec![5]).unwrap();
    // subscribed exactly once: exactly one copy arrives
    assert!(sub.next_message(&mut reg).is_some());
    assert!(sub.next_message(&mut reg).is_none());
}

#[test]
fn register_event_is_idempotent_and_needs_a_live_publisher() {
    let mut reg = Registry::new();
    let publisher = reg.register(name("pub")).unwrap();
    publisher.register_event(&mut reg, id("tick")).unwrap();
    publisher.register_event(&mut reg, id("tick")).unwrap();
    // a connection whose name has been unregistered cannot declare
    reg.unregister(&name("pub")).unwrap();
    let r = publisher.register_event(&mut reg, id("tock"));
    assert_eq!(r.unwrap_err(), Error::UnknownMember);
}

#[test]
fn subscribe_may_precede_the_publisher() {
    let mut reg = Registry::new();
    let sub = reg.register(name("sub")).unwrap();
    sub.subscribe(&mut reg, "pub".to_string(), id("tick")).unwrap();
    // the publisher arrives later and broadcasts; the subscriber hears it
    let publisher = reg.register(name("pub")).unwrap();
    publisher.broadcast(&mut reg, id("tick"), "k".to_string(), vec![7]).unwrap();
    assert_eq!(typed_data(&sub.next_message(&mut reg).unwrap()), vec![7]);
}

#[test]
fn events_are_scoped_to_their_publisher() {
    let mut reg = Registry::new();
    let p1 = reg.register(name("p1")).unwrap();
    let p2 = reg.register(name("p2")).unwrap();
    let sub = reg.register(name("sub")).unwrap();
    sub.subscribe(&mut reg, "p1".to_string(), id("tick")).unwrap();
    // the same id under another publisher is a different event
    p2.broadcast(&mut reg, id("tick"), "k".to_string(), vec![1]).unwrap();
    assert!(sub.next_message(&mut reg).is_none());
    p1.broadcast(&mut reg, id("tick"), "k".to_string(), vec![2]).unwrap();
    assert_eq!(typed_data(&sub.next_message(&mut reg).unwrap()), vec![2]);
}

#[test]
fn close_clears_directory_and_subscriptions() {
    let mut reg = Registry::new();
    let publisher = reg.register(name("pub")).unwrap();
    let sub = reg.register(name("sub")).unwrap();
    let sub_name = name("sub");
    let event = busline::Event::new(name("pub"), id("tick"));
    sub.subscribe(&mut reg, "pub".to_string(), id("tick")).unwrap();
    assert!(reg.is_subscribed(&event, &sub_name));
    sub.close(&mut reg);
    assert!(!reg.is_registered(&sub_name));
    assert!(!reg.is_subscribed(&event, &sub_name));
    // a later send to the gone name fails fast
    let r = publisher.send(&mut reg, "sub".to_string(), "k".to_string(), vec![1]);
    assert_eq!(r.unwrap_err(), Error::UnknownRecipient);
}

#[test]
fn scenario_segment_ready_roundtrip() {
    let mut reg = Registry::new();
    let ingest = reg.register(name("ingest-1")).unwrap();
    let packager = reg.register(name("packager-1")).unwrap();
    packager.register_event(&mut reg, id("segment-ready")).unwrap();
    ingest.subscribe(&mut reg, "packager-1".to_string(), id("segment-ready")).unwrap();
    let payload = b"segment-0001.ts".to_vec();
    packager
        .broadcast(&mut reg, id("segment-ready"), "segment".to_string(), payload.clone())
        .unwrap();
    let m = ingest.next_message(&mut reg).unwrap();
    assert!(m.destination().is_none());
    assert_eq!(typed_data(&m), payload);
    packager.close(&mut reg);
    let r = ingest.send(&mut reg, "packager-1".to_string(), "k".to_string(), vec![0]);
    assert_eq!(r.unwrap_err(), Error::UnknownRecipient);
}

#[test]
fn error_labels_are_stable() {
    assert_eq!(Error::InvalidName.describe(), "invalid name");
    assert_eq!(Error::NameInUse.describe(), "name already in use");
    assert_eq!(Error::UnknownMember.describe(), "unknown member");
    assert_eq!(Error::UnknownRecipient.describe(), "unknown recipient");
    assert_eq!(Error::DeliveryFailed.describe(), "delivery failed");
}

#[test]
fn registry_send_requires_a_destination() {
    let mut reg = Registry::new();
    let _rx = reg.register(name("rx")).unwrap();
    // a broadcast-shaped message has no destination to look up
    let r = reg.send(Message::new(None, "k".to_string(), vec![1]));
    assert_eq!(r.unwrap_err(), Error::UnknownRecipient);
    let ok = reg.send(Message::new(Some(name("rx")), "k".to_string(), vec![1]));
    assert!(ok.is_ok());
}

#[test]
fn registry_subscribe_requires_a_registered_member() {
    let mut reg = Registry::new();
    let event = busline::Event::new(name("pub"), id("tick"));
    let r = reg.subscribe(&name("ghost"), event);
    assert_eq!(r.unwrap_err(), Error::UnknownMember);
}
