use messaging::cache::{update_body, CacheEntry, DeliveryCache};

fn entry(r: &str, s: &str, p: &str) -> CacheEntry {
    CacheEntry { recipient: r.as_bytes().to_vec(), sender: s.as_bytes().to_vec(), payload: p.as_bytes().to_vec() }
}

fn enqueue(c: &mut DeliveryCache, r: &str, s: &str, p: &str) {
    c.enqueue(r.as_bytes().to_vec(), s.as_bytes().to_vec(), p.as_bytes().to_vec());
}

#[test]
fn acknowledge_removes_exactly_once() {
    let mut c = DeliveryCache::new();
    enqueue(&mut c, "bob", "alice", "hello");
    enqueue(&mut c, "bob", "carol", "other");
    assert!(c.acknowledge(b"bob", b"alice", b"hello"));
    assert!(!c.acknowledge(b"bob", b"alice", b"hello"));
    assert_eq!(c.entries, vec![entry("bob", "carol", "other")]);
}

#[test]
fn acknowledge_takes_the_oldest_of_duplicates() {
    let mut c = DeliveryCache::new();
    enqueue(&mut c, "bob", "alice", "hi");
    enqueue(&mut c, "bob", "dave", "x");
    enqueue(&mut c, "bob", "alice", "hi");
    assert!(c.acknowledge(b"bob", b"alice", b"hi"));
    assert_eq!(c.entries, vec![entry("bob", "dave", "x"), entry("bob", "alice", "hi")]);
}

#[test]
fn acknowledge_matches_sender_and_recipient() {
    let mut c = DeliveryCache::new();
    enqueue(&mut c, "bob", "alice", "hi");
    assert!(!c.acknowledge(b"bob", b"carol", b"hi"));
    assert!(!c.acknowledge(b"eve", b"alice", b"hi"));
    assert_eq!(c.len(), 1);
}

#[test]
fn acknowledge_payload_ignores_sender() {
    let mut c = DeliveryCache::new();
    enqueue(&mut c, "bob", "alice", "hi");
    enqueue(&mut c, "bob", "carol", "hi");
    assert!(c.acknowledge_payload(b"bob", b"hi"));
    assert_eq!(c.entries, vec![entry("bob", "carol", "hi")]);
    assert!(!c.acknowledge_payload(b"bob", b"nope"));
}

#[test]
fn drain_returns_all_and_only_in_order() {
    let mut c = DeliveryCache::new();
    enqueue(&mut c, "bob", "alice", "1");
    enqueue(&mut c, "eve", "alice", "2");
    enqueue(&mut c, "bob", "carol", "3");
    let taken = c.drain_and_clear(b"bob");
    assert_eq!(taken, vec![entry("bob", "alice", "1"), entry("bob", "carol", "3")]);
    assert_eq!(c.entries, vec![entry("eve", "alice", "2")]);
    assert!(c.drain_and_clear(b"bob").is_empty());
    enqueue(&mut c, "bob", "dave", "4");
    assert_eq!(c.drain_and_clear(b"bob"), vec![entry("bob", "dave", "4")]);
}

#[test]
fn drain_of_unknown_recipient_is_empty() {
    let mut c = DeliveryCache::new();
    assert!(c.drain_and_clear(b"nobody").is_empty());
    assert_eq!(c.len(), 0);
}

#[test]
fn update_body_joins_entries() {
    let list = vec![entry("bob", "alice", "hi"), entry("bob", "carol", "yo")];
    assert_eq!(update_body(&list), b"alice;hi&&carol;yo".to_vec());
    assert_eq!(update_body(&Vec::new()), Vec::<u8>::new());
}
