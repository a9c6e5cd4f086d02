use messaging::cache::DeliveryCache;
use messaging::peer::{
    format_log_line, handle_ack, handle_buddies, handle_connection, handle_ip_retrieval,
    handle_main_server_connection, handle_update, render_log_line, LogRecord, PeerAction,
};

fn record(partner: &str, label: &str, body: &str) -> LogRecord {
    LogRecord { partner: partner.as_bytes().to_vec(), label: label.as_bytes().to_vec(), body: body.as_bytes().to_vec() }
}

#[test]
fn direct_send_is_logged_and_acknowledged() {
    let mut c = DeliveryCache::new();
    let out = handle_connection(b"SEND alice;hello", b"bob", &mut c);
    assert_eq!(
        out,
        PeerAction::Reply { reply: b"ACK bob;hello".to_vec(), records: vec![record("alice", "alice", "hello")] }
    );
}

#[test]
fn ack_is_logged_as_sent_by_this_node() {
    let mut c = DeliveryCache::new();
    let out = handle_connection(b"ACK bob;hello", b"alice", &mut c);
    assert_eq!(out, PeerAction::Record(vec![record("bob", "You", "hello")]));
    assert_eq!(handle_ack(b"ACK bob;hello"), Some(record("bob", "You", "hello")));
    assert_eq!(handle_ack(b"404 bob"), None);
}

#[test]
fn buddy_keeps_copies_and_hands_them_out_on_init() {
    let mut c = DeliveryCache::new();
    assert_eq!(handle_connection(b"CACHE bob;alice;hello", b"carol", &mut c), PeerAction::Stored);
    assert_eq!(handle_connection(b"CACHE bob;dave;hey", b"carol", &mut c), PeerAction::Stored);
    let out = handle_connection(b"INIT bob;10.0.0.2:9000", b"carol", &mut c);
    assert_eq!(out, PeerAction::Reply { reply: b"UPDATE alice;hello&&dave;hey".to_vec(), records: vec![] });
    assert_eq!(c.len(), 0);
}

#[test]
fn update_entries_become_records() {
    let mut c = DeliveryCache::new();
    let out = handle_connection(b"UPDATE alice;hi&&junk&&dave;a;b", b"bob", &mut c);
    assert_eq!(out, PeerAction::Record(vec![record("alice", "alice", "hi"), record("dave", "dave", "a;b")]));
    assert_eq!(handle_connection(b"UPDATE ", b"bob", &mut c), PeerAction::Record(vec![]));
}

#[test]
fn other_frames_pass_up() {
    let mut c = DeliveryCache::new();
    assert_eq!(handle_connection(b"IP_RETRIEVAL 1.2.3.4:5", b"bob", &mut c), PeerAction::PassUp(b"1.2.3.4:5".to_vec()));
    assert_eq!(handle_connection(b"404 bob not found", b"me", &mut c), PeerAction::PassUp(b"404 bob not found".to_vec()));
    assert_eq!(handle_connection(b"BOGUS x", b"me", &mut c), PeerAction::PassUp(b"404 x".to_vec()));
    assert_eq!(handle_connection(b"nospace", b"me", &mut c), PeerAction::Close);
    assert_eq!(handle_connection(b"CACHE bob", b"me", &mut c), PeerAction::Close);
}

#[test]
fn gateway_link_handles_ack_and_send_only() {
    assert_eq!(
        handle_main_server_connection(b"SEND alice;yo", b"bob"),
        PeerAction::Reply { reply: b"ACK bob;yo".to_vec(), records: vec![record("alice", "alice", "yo")] }
    );
    assert_eq!(handle_main_server_connection(b"UPDATE a;b", b"bob"), PeerAction::PassUp(b"404 a;b".to_vec()));
}

#[test]
fn replies_from_gateway_are_read() {
    assert_eq!(handle_ip_retrieval(b"IP_RETRIEVAL 10.0.0.2:9000"), Some(b"10.0.0.2:9000".to_vec()));
    assert_eq!(handle_ip_retrieval(b"IP_RETRIEVAL "), None);
    assert_eq!(handle_ip_retrieval(b"404 not found"), None);
    assert_eq!(handle_buddies(b"BUDDIES a&&b"), Some(b"a&&b".to_vec()));
    assert_eq!(handle_buddies(b"404 User Not Found"), None);
}

#[test]
fn update_merges_into_pending_set() {
    let mut pending = vec![b"alice;hi".to_vec()];
    let records = handle_update(b"UPDATE alice;hi&&carol;yo&&carol;yo&&bad", &mut pending);
    assert_eq!(pending, vec![b"alice;hi".to_vec(), b"carol;yo".to_vec()]);
    assert_eq!(records.len(), 3);
    assert!(handle_update(b"SEND x;y", &mut pending).is_empty());
    assert_eq!(pending.len(), 2);
}

#[test]
fn log_lines_are_written_and_shown() {
    let line = format_log_line(b"Sun, 18 Oct 2026 10:00:00", &record("bob", "You", "hello;there"));
    assert_eq!(line, b"Sun, 18 Oct 2026 10:00:00;You;hello;there".to_vec());
    assert_eq!(render_log_line(&line), Some(b"Sun, 18 Oct 2026 10:00:00 You -> hello;there".to_vec()));
    assert_eq!(render_log_line(b"only;one"), None);
}
