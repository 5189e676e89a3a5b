//! The send-only `Addr` handle and its staleness behaviour.

use busline::{BusName, Error, Message, MessagePayload, Registry};

fn name(s: &str) -> BusName {
    BusName::try_new(s.to_string()).unwrap()
}

fn raw_data(m: &Message) -> Vec<u8> {
    match m.payload() {
        MessagePayload::Raw(d) => d.clone(),
        MessagePayload::Typed(_, _) => panic!("expected a raw payload"),
    }
}

#[test]
fn addr_pushes_raw_bytes_to_its_target() {
    let mut reg = Registry::new();
    let rx = reg.register(name("rx")).unwrap();
    let addr = reg.addr_of(&name("rx")).unwrap();
    addr.send(&mut reg, vec![1, 2, 3]).unwrap();
    let m = rx.next_message(&mut reg).unwrap();
    assert_eq!(raw_data(&m), vec![1, 2, 3]);
    assert_eq!(m.destination().as_ref().unwrap(), &name("rx"));
}

#[test]
fn addr_of_absent_name_fails() {
    let reg = Registry::new();
    assert_eq!(reg.addr_of(&name("ghost")).unwrap_err(), Error::UnknownRecipient);
}

#[test]
fn stale_addr_fails_instead_of_vanishing() {
    let mut reg = Registry::new();
    let rx = reg.register(name("rx")).unwrap();
    let addr = reg.addr_of(&name("rx")).unwrap();
    rx.close(&mut reg);
    // the target is gone: the cached channel reports failure
    assert_eq!(addr.send(&mut reg, vec![1]).unwrap_err(), Error::DeliveryFailed);
    // a new member reuses the name on a fresh channel: the old handle
    // stays stale and never reaches the newcomer's queue
    let rx2 = reg.register(name("rx")).unwrap();
    assert_eq!(addr.send(&mut reg, vec![2]).unwrap_err(), Error::DeliveryFailed);
    assert!(rx2.next_message(&mut reg).is_none());
    // re-resolving yields a working handle
    let fresh = reg.addr_of(&name("rx")).unwrap();
    fresh.send(&mut reg, vec![3]).unwrap();
    assert_eq!(raw_data(&rx2.next_message(&mut reg).unwrap()), vec![3]);
}

#[test]
fn stale_connection_sees_end_of_stream() {
    let mut reg = Registry::new();
    let tx = reg.register(name("tx")).unwrap();
    let rx = reg.register(name("rx")).unwrap();
    tx.send_raw(&mut reg, "rx".to_string(), vec![1]).unwrap();
    // the registration is torn down with a message still pending:
    // the channel closes and the stream ends
    reg.unregister(&name("rx")).unwrap();
    assert!(rx.next_message(&mut reg).is_none());
    // a new member under the same name gets a fresh channel; the old
    // handle still reads end-of-stream and never drains the newcomer
    let rx2 = reg.register(name("rx")).unwrap();
    tx.send_raw(&mut reg, "rx".to_string(), vec![2]).unwrap();
    assert!(rx.next_message(&mut reg).is_none());
    assert!(rx2.next_message(&mut reg).is_some());
}

#[test]
fn message_duplicate_is_deep() {
    let source = Message::new_raw(Some(name("rx")), vec![4, 5]);
    let copy = source.duplicate();
    assert_eq!(raw_data(&copy), vec![4, 5]);
    assert_eq!(copy.destination().as_ref().unwrap(), &name("rx"));
    drop(source);
    assert_eq!(raw_data(&copy), vec![4, 5]);
}
