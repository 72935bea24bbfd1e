use serial_tcp_bridge::ids::IdAllocator;
use serial_tcp_bridge::opts::{Opts, BAUD_RATE, DEFAULT_PORT};
use serial_tcp_bridge::workers::{
    chunk_prefix, client_read_decision, serial_read_decision, ClientRead, SerialRead,
};

#[test]
fn chunk_prefix_takes_exactly_the_read_bytes() {
    let buf = vec![1, 2, 3, 4, 5];
    assert_eq!(chunk_prefix(&buf, 0), Vec::<u8>::new());
    assert_eq!(chunk_prefix(&buf, 3), vec![1, 2, 3]);
    assert_eq!(chunk_prefix(&buf, 5), vec![1, 2, 3, 4, 5]);
}

#[test]
fn serial_read_forwards_nonzero_reads() {
    let buf = vec![9, 8, 7, 0, 0];
    match serial_read_decision(Some(2), &buf) {
        SerialRead::Forward(c) => assert_eq!(c, vec![9, 8]),
        SerialRead::Retry => panic!("a nonzero read must be forwarded"),
    }
}

#[test]
fn serial_read_retries_on_empty_read_and_on_error() {
    let buf = vec![0; 8];
    assert!(matches!(serial_read_decision(Some(0), &buf), SerialRead::Retry));
    assert!(matches!(serial_read_decision(None, &buf), SerialRead::Retry));
}

#[test]
fn client_read_zero_is_disconnect() {
    let buf = vec![0; 4];
    assert!(matches!(client_read_decision(Some(0), &buf), ClientRead::Disconnect));
}

#[test]
fn client_read_forwards_nonzero_reads() {
    let buf = vec![b'x', b'y', b'z'];
    match client_read_decision(Some(2), &buf) {
        ClientRead::Forward(c) => assert_eq!(c, vec![b'x', b'y']),
        _ => panic!("a nonzero read must be forwarded"),
    }
}

#[test]
fn client_read_error_is_skipped_without_teardown() {
    let buf = vec![0; 4];
    assert!(matches!(client_read_decision(None, &buf), ClientRead::Skip));
}

#[test]
fn id_allocator_is_strictly_increasing() {
    let mut ids = IdAllocator::new();
    let a = ids.fresh();
    let b = ids.fresh();
    let c = ids.fresh();
    assert_eq!(a, 0);
    assert_eq!(b, 1);
    assert_eq!(c, 2);
    assert!(a != b && b != c && a != c);
}

#[test]
fn opts_carry_the_startup_inputs() {
    let o = Opts::new(String::from("127.0.0.1"), DEFAULT_PORT, String::from("/dev/ttyUSB0"));
    assert_eq!(o.host, "127.0.0.1");
    assert_eq!(o.port, 41800);
    assert_eq!(o.device, "/dev/ttyUSB0");
    assert_eq!(BAUD_RATE, 9600);
}
