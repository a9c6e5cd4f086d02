use messaging::peer::{format_log_line, render_log_line, LogRecord};
use messaging::sender::{init_frame, ip_fetch, SendAction, SendEvent, SendOutcome, SendSession, SendState};

fn start() -> SendSession {
    let (s, first) = SendSession::start(b"bob".to_vec(), b"alice".to_vec(), b"hello".to_vec());
    assert_eq!(first, SendAction::AskGateway(b"IP_FETCH bob".to_vec()));
    s
}

fn sent_record() -> LogRecord {
    LogRecord { partner: b"bob".to_vec(), label: b"You".to_vec(), body: b"hello".to_vec() }
}

#[test]
fn unknown_recipient_ends_the_send() {
    let mut s = start();
    let a = s.step(SendEvent::Frame(b"404 not found".to_vec()));
    assert_eq!(a, SendAction::Finish { outcome: SendOutcome::RecipientNotFound, record: None });
    assert_eq!(s.state, SendState::Finished(SendOutcome::RecipientNotFound));
    assert_eq!(s.step(SendEvent::Connected), SendAction::Ignore);
}

#[test]
fn direct_delivery_is_logged() {
    let mut s = start();
    assert_eq!(s.step(SendEvent::Frame(b"IP_RETRIEVAL 10.0.0.2:9000".to_vec())), SendAction::Connect(b"10.0.0.2:9000".to_vec()));
    assert_eq!(s.step(SendEvent::Connected), SendAction::SendDirect(b"SEND alice;hello".to_vec()));
    let a = s.step(SendEvent::Frame(b"ACK bob;hello".to_vec()));
    assert_eq!(a, SendAction::Finish { outcome: SendOutcome::Delivered, record: Some(sent_record()) });
}

#[test]
fn unreachable_recipient_falls_back_to_buddies() {
    let mut s = start();
    s.step(SendEvent::Frame(b"IP_RETRIEVAL 10.0.0.2:9000".to_vec()));
    assert_eq!(s.step(SendEvent::ConnectFailed), SendAction::AskGateway(b"BUDDIES bob".to_vec()));
    let list: Vec<String> = (0..10).map(|i| format!("10.0.1.{}:9000", i)).collect();
    let reply = format!("BUDDIES {}", list.join("&&"));
    let a = s.step(SendEvent::Frame(reply.into_bytes()));
    let buddies: Vec<Vec<u8>> = list.iter().map(|l| l.as_bytes().to_vec()).collect();
    assert_eq!(a, SendAction::PushCopies { buddies, frame: b"CACHE bob;alice;hello".to_vec() });
    let done = s.step(SendEvent::Pushed(2));
    assert_eq!(done, SendAction::Finish { outcome: SendOutcome::Cached { replicas: 2 }, record: Some(sent_record()) });
    let line = format_log_line(b"T", &sent_record());
    assert_eq!(render_log_line(&line), Some(b"T You -> hello".to_vec()));
}

#[test]
fn no_buddies_still_records_the_message() {
    let mut s = start();
    s.step(SendEvent::Frame(b"IP_RETRIEVAL 10.0.0.2:9000".to_vec()));
    s.step(SendEvent::ConnectFailed);
    let a = s.step(SendEvent::Frame(b"404 User Not Found".to_vec()));
    assert_eq!(a, SendAction::Finish { outcome: SendOutcome::Cached { replicas: 0 }, record: Some(sent_record()) });
}

#[test]
fn a_reply_other_than_ack_falls_back() {
    let mut s = start();
    s.step(SendEvent::Frame(b"IP_RETRIEVAL 10.0.0.2:9000".to_vec()));
    s.step(SendEvent::Connected);
    assert_eq!(s.step(SendEvent::Frame(b"404 what".to_vec())), SendAction::AskGateway(b"BUDDIES bob".to_vec()));
    assert_eq!(s.state, SendState::AwaitBuddies);
}

#[test]
fn frames_for_the_gateway() {
    assert_eq!(ip_fetch(b"bob"), b"IP_FETCH bob".to_vec());
    assert_eq!(init_frame(b"alice", b"10.0.0.1:9000"), b"INIT alice;10.0.0.1:9000".to_vec());
}
