use exchanger::bridge::{poll_read_cursor, poll_read_sized, BridgePoll, ReadBuffer, ReadPoll};
use exchanger::tunnel::TunnelSession;

#[test]
fn cursor_read_appends_and_reports_the_chunk_length() {
    let mut buf = ReadBuffer::new(8);
    let r = poll_read_cursor(&mut buf, ReadPoll::Ready(b"abc".to_vec()));
    assert!(matches!(r, BridgePoll::Filled(3)));
    assert_eq!(buf.data, b"abc".to_vec());
    assert_eq!(buf.initialized, 3);
    let r = poll_read_cursor(&mut buf, ReadPoll::Ready(b"de".to_vec()));
    assert!(matches!(r, BridgePoll::Filled(2)));
    assert_eq!(buf.data, b"abcde".to_vec());
}

#[test]
fn sized_read_appends_and_reports_the_chunk_length() {
    let mut buf = ReadBuffer::new(8);
    let r = poll_read_sized(&mut buf, ReadPoll::Ready(b"wxyz".to_vec()));
    assert!(matches!(r, BridgePoll::Filled(4)));
    assert_eq!(buf.data, b"wxyz".to_vec());
    assert_eq!(buf.initialized, 4);
}

#[test]
fn pending_is_not_end_of_stream() {
    let mut buf = ReadBuffer::new(4);
    let pending = poll_read_cursor(&mut buf, ReadPoll::Pending);
    assert!(matches!(pending, BridgePoll::Pending));
    assert_eq!(buf.data.len(), 0);
    let eof = poll_read_cursor(&mut buf, ReadPoll::Ready(Vec::new()));
    assert!(matches!(eof, BridgePoll::Filled(0)));
}

#[test]
fn fill_never_exceeds_the_declared_capacity() {
    let mut buf = ReadBuffer::new(4);
    poll_read_cursor(&mut buf, ReadPoll::Ready(b"abc".to_vec()));
    assert_eq!(buf.remaining(), 1);
    poll_read_sized(&mut buf, ReadPoll::Ready(b"d".to_vec()));
    assert_eq!(buf.remaining(), 0);
    assert!(buf.data.len() <= buf.capacity);
    assert!(buf.initialized <= buf.capacity);
}

#[test]
fn tunnel_counts_bytes_per_direction() {
    let mut s = TunnelSession::new();
    assert!(!s.response_sent);
    assert_eq!(s.client_to_upstream, 0);
    s.mark_response_sent();
    s.relay_client_to_upstream(b"hello ");
    s.relay_client_to_upstream(b"world");
    s.relay_upstream_to_client(b"ok");
    assert_eq!(s.client_to_upstream, 11);
    assert_eq!(s.upstream_to_client, 2);
}

#[test]
fn tunnel_relays_chunk_streams_in_order() {
    let mut s = TunnelSession::new();
    s.mark_response_sent();
    let chunks = vec![b"he".to_vec(), b"l".to_vec(), Vec::new(), b"lo".to_vec()];
    s.relay_all_client_to_upstream(&chunks);
    assert_eq!(s.client_to_upstream, 5);
    assert_eq!(s.upstream_to_client, 0);
    s.relay_all_upstream_to_client(&vec![b"HTTP/1.1".to_vec(), b" 200".to_vec()]);
    assert_eq!(s.upstream_to_client, 12);
    assert_eq!(s.client_to_upstream, 5);
}
