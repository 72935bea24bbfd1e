use serial_tcp_bridge::coordinator::{Action, Coordinator, Event};

#[test]
fn membership_add_and_count() {
    let mut c = Coordinator::new();
    assert_eq!(c.client_count(), 0);
    assert!(c.step(Event::Added(7)).is_empty());
    assert!(c.step(Event::Added(9)).is_empty());
    assert_eq!(c.client_count(), 2);
    assert!(c.is_registered(7));
    assert!(c.is_registered(9));
    assert!(!c.is_registered(8));
}

#[test]
fn membership_duplicate_add_is_kept_once() {
    let mut c = Coordinator::new();
    c.step(Event::Added(3));
    c.step(Event::Added(3));
    assert_eq!(c.client_count(), 1);
    assert!(c.is_registered(3));
}

#[test]
fn duplicate_join_still_delivers_once() {
    let mut c = Coordinator::new();
    c.step(Event::Added(1));
    c.step(Event::Added(1));
    let actions = c.step(Event::SerialChunk(vec![5]));
    assert_eq!(actions, vec![Action::ToClient(1, vec![5])]);
}

#[test]
fn membership_remove() {
    let mut c = Coordinator::new();
    c.step(Event::Added(1));
    c.step(Event::Added(2));
    assert!(c.step(Event::Removed(1)).is_empty());
    assert_eq!(c.client_count(), 1);
    assert!(!c.is_registered(1));
    assert!(c.is_registered(2));
}

#[test]
fn membership_remove_absent_is_noop() {
    let mut c = Coordinator::new();
    c.step(Event::Added(5));
    assert!(c.step(Event::Removed(42)).is_empty());
    assert_eq!(c.client_count(), 1);
    assert!(c.is_registered(5));
}

#[test]
fn broadcast_reaches_every_client_in_join_order() {
    let mut c = Coordinator::new();
    c.step(Event::Added(10));
    c.step(Event::Added(11));
    c.step(Event::Added(12));
    let actions = c.step(Event::SerialChunk(vec![0xde, 0xad]));
    assert_eq!(
        actions,
        vec![
            Action::ToClient(10, vec![0xde, 0xad]),
            Action::ToClient(11, vec![0xde, 0xad]),
            Action::ToClient(12, vec![0xde, 0xad]),
        ]
    );
}

#[test]
fn no_listener_drop() {
    let mut c = Coordinator::new();
    let actions = c.step(Event::SerialChunk(vec![1, 2, 3]));
    assert!(actions.is_empty());
    // The bytes were not buffered for a later connection.
    c.step(Event::Added(1));
    let actions = c.step(Event::SerialChunk(vec![9]));
    assert_eq!(actions, vec![Action::ToClient(1, vec![9])]);
}

#[test]
fn client_chunk_goes_only_to_serial() {
    let mut c = Coordinator::new();
    c.step(Event::Added(1));
    c.step(Event::Added(2));
    let actions = c.step(Event::ClientChunk(1, vec![b'h', b'i']));
    assert_eq!(actions, vec![Action::ToSerial(vec![b'h', b'i'])]);
    for a in &actions {
        assert!(!matches!(a, Action::ToClient(_, _)));
    }
}

#[test]
fn client_chunk_from_unregistered_client_is_dropped() {
    let mut c = Coordinator::new();
    c.step(Event::Added(1));
    c.step(Event::Removed(1));
    let actions = c.step(Event::ClientChunk(1, vec![1, 2, 3]));
    assert!(actions.is_empty());
}

#[test]
fn merge_keeps_order_per_source() {
    let mut c = Coordinator::new();
    c.step(Event::Added(4));
    let first = c.step(Event::ClientChunk(4, vec![b'C', b'1']));
    let second = c.step(Event::ClientChunk(4, vec![b'C', b'2']));
    assert_eq!(first, vec![Action::ToSerial(vec![b'C', b'1'])]);
    assert_eq!(second, vec![Action::ToSerial(vec![b'C', b'2'])]);
}

#[test]
fn relay_scenario_two_clients() {
    // Two clients join, serial data is broadcast to both, their writes are
    // merged in per-source order, and after one leaves only the other is
    // served.
    let mut c = Coordinator::new();
    let a: u64 = 0;
    let b: u64 = 1;
    c.step(Event::Added(a));
    c.step(Event::Added(b));

    let ping = c.step(Event::SerialChunk(b"PING".to_vec()));
    assert_eq!(
        ping,
        vec![
            Action::ToClient(a, b"PING".to_vec()),
            Action::ToClient(b, b"PING".to_vec()),
        ]
    );

    // A and B write concurrently; their chunks reach the coordinator in
    // some interleaved order. Whatever the interleaving, each source's own
    // bytes reach the serial line in its own order.
    let mut serial_out: Vec<u8> = Vec::new();
    for ev in [
        Event::ClientChunk(a, b"A".to_vec()),
        Event::ClientChunk(b, b"B".to_vec()),
        Event::ClientChunk(b, b"BB".to_vec()),
        Event::ClientChunk(a, b"AA".to_vec()),
    ] {
        for action in c.step(ev) {
            match action {
                Action::ToSerial(bytes) => serial_out.extend_from_slice(&bytes),
                Action::ToClient(_, _) => panic!("client data must never reach a client"),
            }
        }
    }
    let from_a: Vec<u8> = serial_out.iter().copied().filter(|&x| x == b'A').collect();
    let from_b: Vec<u8> = serial_out.iter().copied().filter(|&x| x == b'B').collect();
    assert_eq!(serial_out.len(), 6);
    assert_eq!(from_a, b"AAA".to_vec());
    assert_eq!(from_b, b"BBB".to_vec());

    // A disconnects; a further serial chunk reaches only B.
    c.step(Event::Removed(a));
    let pong = c.step(Event::SerialChunk(b"PONG".to_vec()));
    assert_eq!(pong, vec![Action::ToClient(b, b"PONG".to_vec())]);
}
