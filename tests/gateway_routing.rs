use std::hash::{BuildHasher, BuildHasherDefault};
use messaging::cache::CacheEntry;
use messaging::gateway::{handle_ack, handle_error, handle_send, Gateway, Outcome};
use messaging::registry::{BuddyError, Registry};

fn reply(text: &str) -> Outcome {
    Outcome::Reply(text.as_bytes().to_vec())
}

fn entries_for(g: &Gateway, who: &str) -> Vec<(Vec<u8>, Vec<u8>)> {
    g.cache
        .entries
        .iter()
        .filter(|e| e.recipient == who.as_bytes())
        .map(|e| (e.sender.clone(), e.payload.clone()))
        .collect()
}

#[test]
fn init_on_empty_registry_replies_empty_update() {
    let mut g = Gateway::new();
    let out = g.handle_frame(1, b"INIT alice;10.0.0.1:9000");
    assert_eq!(out, reply("UPDATE "));
    assert_eq!(g.registry.lookup_address(b"alice"), Some(b"10.0.0.1:9000".to_vec()));
    assert_eq!(g.registry.handle_of(b"alice"), Some(1));
    assert_eq!(g.registry.population(), 1);
}

#[test]
fn send_to_unknown_recipient_is_not_found() {
    let mut g = Gateway::new();
    g.handle_frame(1, b"INIT alice;10.0.0.1:9000");
    let out = g.handle_frame(1, b"SEND bob;alice;hello");
    assert_eq!(out, reply("404 bob not found"));
    assert_eq!(g.cache.len(), 0);
}

fn connected_pair() -> Gateway {
    let mut g = Gateway::new();
    g.handle_frame(1, b"INIT alice;10.0.0.1:9000");
    g.handle_frame(2, b"INIT bob;10.0.0.2:9000");
    g
}

#[test]
fn send_to_connected_recipient_forwards_and_acks() {
    let mut g = connected_pair();
    let out = g.handle_frame(1, b"SEND bob;alice;hello");
    assert_eq!(
        out,
        Outcome::ForwardAndReply {
            to: 2,
            forward: b"SEND alice;hello".to_vec(),
            reply: b"ACK bob;hello".to_vec(),
        }
    );
    assert_eq!(entries_for(&g, "bob"), vec![(b"alice".to_vec(), b"hello".to_vec())]);
}

#[test]
fn ack_after_send_clears_the_copy() {
    let mut g = connected_pair();
    g.handle_frame(1, b"SEND bob;alice;hello");
    let out = g.handle_frame(2, b"ACK bob;hello");
    assert_eq!(out, Outcome::NoReply);
    assert!(entries_for(&g, "bob").is_empty());
    // A late second acknowledgement changes nothing.
    assert_eq!(g.handle_frame(2, b"ACK bob;hello"), Outcome::NoReply);
    assert_eq!(g.cache.len(), 0);
}

#[test]
fn send_to_offline_recipient_is_kept_and_flushed_on_init() {
    let mut g = connected_pair();
    g.connection_closed(2);
    assert_eq!(g.registry.handle_of(b"bob"), None);
    assert_eq!(g.handle_frame(1, b"SEND bob;alice;hello"), reply("ACK bob;hello"));
    assert_eq!(g.handle_frame(1, b"SEND bob;alice;again"), reply("ACK bob;again"));
    let out = g.handle_frame(7, b"INIT bob;10.0.0.3:9000");
    assert_eq!(out, reply("UPDATE alice;hello&&alice;again"));
    assert_eq!(g.cache.len(), 0);
    assert_eq!(g.registry.handle_of(b"bob"), Some(7));
    assert_eq!(g.registry.lookup_address(b"bob"), Some(b"10.0.0.3:9000".to_vec()));
    assert_eq!(g.registry.population(), 2);
}

#[test]
fn reregistering_on_a_connection_unbinds_its_old_user() {
    let mut g = connected_pair();
    g.handle_frame(2, b"INIT carol;10.0.0.4:9000");
    assert_eq!(g.registry.handle_of(b"bob"), None);
    assert_eq!(g.registry.handle_of(b"carol"), Some(2));
}

#[test]
fn ip_fetch_and_retrieval_look_up_addresses() {
    let mut g = connected_pair();
    assert_eq!(g.handle_frame(1, b"IP_FETCH bob"), reply("IP_RETRIEVAL 10.0.0.2:9000"));
    assert_eq!(g.handle_frame(1, b"IP_RETRIEVAL alice"), reply("IP_RETRIEVAL 10.0.0.1:9000"));
    assert_eq!(g.handle_frame(1, b"IP_FETCH zed"), reply("404 not found"));
}

#[test]
fn buddies_with_small_population_is_not_found() {
    let mut g = connected_pair();
    assert_eq!(g.handle_frame(1, b"BUDDIES alice"), reply("404 User Not Found"));
    assert_eq!(g.registry.compute_buddy_group(b"alice"), Err(BuddyError::InsufficientPopulation));
    assert_eq!(g.registry.compute_buddy_group(b"zed"), Err(BuddyError::UnknownUser));
}

fn populated(n: usize) -> Gateway {
    let mut g = Gateway::new();
    for i in 0..n {
        let frame = format!("INIT user{};10.0.0.{}:9000", i, i);
        g.handle_frame(i as u64, frame.as_bytes());
    }
    g
}

#[test]
fn buddies_with_full_group_lists_ten_addresses() {
    let mut g = populated(10);
    let out = g.handle_frame(0, b"BUDDIES user3");
    let expected: Vec<String> = (0..10).map(|i| format!("10.0.0.{}:9000", i)).collect();
    assert_eq!(out, reply(&format!("BUDDIES {}", expected.join("&&"))));
}

#[test]
fn buddy_group_is_deterministic() {
    let g = populated(25);
    let first = g.registry.compute_buddy_group(b"user7").unwrap();
    let second = g.registry.compute_buddy_group(b"user7").unwrap();
    assert_eq!(first, second);
    assert_eq!(first.len(), 10);
    // Two groups of ten fit in 25 users; the window starts at 0 or 1.
    let starts: Vec<Vec<Vec<u8>>> = (0..2)
        .map(|o| (0..10).map(|n| format!("10.0.0.{}:9000", (o + n) % 25).into_bytes()).collect())
        .collect();
    assert!(starts.contains(&first));
}

#[test]
fn buddy_group_ignores_which_connections_are_live() {
    let mut g = populated(12);
    let before = g.registry.compute_buddy_group(b"user5").unwrap();
    g.connection_closed(3);
    g.connection_closed(5);
    assert_eq!(g.registry.compute_buddy_group(b"user5").unwrap(), before);
}

#[test]
fn group_seed_is_the_stable_hash_of_the_name() {
    let mut r = Registry::new();
    let g = r.register(b"alice".to_vec(), b"10.0.0.1:9000".to_vec(), 4);
    let expected = BuildHasherDefault::<std::collections::hash_map::DefaultHasher>::default().hash_one(&b"alice"[..]);
    assert_eq!(g.group_seed, expected);
    assert_eq!(g.population, 1);
    let again = r.register(b"alice".to_vec(), b"10.0.0.9:9000".to_vec(), 5);
    assert_eq!(again.group_seed, expected);
    assert_eq!(again.population, 1);
}

#[test]
fn cache_frame_is_kept_without_reply() {
    let mut g = Gateway::new();
    assert_eq!(g.handle_frame(1, b"CACHE bob;alice;hi;there"), Outcome::NoReply);
    assert_eq!(
        g.cache.entries,
        vec![CacheEntry { recipient: b"bob".to_vec(), sender: b"alice".to_vec(), payload: b"hi;there".to_vec() }]
    );
}

#[test]
fn unrecognized_codes_get_not_found() {
    let mut g = Gateway::new();
    assert_eq!(g.handle_frame(1, b"HELLO there"), reply("404 there"));
    assert_eq!(g.handle_frame(1, b"UPDATE a;b"), reply("404 a;b"));
    assert_eq!(handle_error(b"x y"), reply("404 x y"));
}

#[test]
fn shutdown_ends_the_process() {
    let mut g = Gateway::new();
    assert_eq!(g.handle_frame(1, b"SHUTDOWN now"), Outcome::Shutdown);
}

#[test]
fn malformed_frames_close_the_connection() {
    let mut g = Gateway::new();
    assert_eq!(g.handle_frame(1, b"INIT"), Outcome::Close);
    assert_eq!(g.handle_frame(1, b"INIT alice"), Outcome::Close);
    assert_eq!(g.handle_frame(1, b"SEND bob;alice"), Outcome::Close);
    assert_eq!(g.handle_frame(1, b"CACHE bob"), Outcome::Close);
    let mut cache = messaging::cache::DeliveryCache::new();
    assert_eq!(handle_ack(b"bob", &mut cache), Outcome::Close);
    assert_eq!(handle_send(b"bob", &Registry::new(), &mut cache), Outcome::Close);
    assert_eq!(g.registry.population(), 0);
}

#[test]
fn group_for_seed_picks_the_window() {
    let g = populated(25);
    let window = |start: usize| -> Vec<Vec<u8>> {
        (0..10).map(|n| format!("10.0.0.{}:9000", start + n).into_bytes()).collect()
    };
    assert_eq!(g.registry.group_for_seed(3), Ok(window(1)));
    assert_eq!(g.registry.group_for_seed(4), Ok(window(0)));
    assert_eq!(g.registry.group_for_seed(u64::MAX), Ok(window(1)));
    assert_eq!(populated(9).registry.group_for_seed(0), Err(BuddyError::InsufficientPopulation));
}

#[test]
fn registering_twice_changes_nothing() {
    let mut r = Registry::new();
    r.register(b"bob".to_vec(), b"10.0.0.2:9000".to_vec(), 3);
    let first = r.register(b"alice".to_vec(), b"10.0.0.1:9000".to_vec(), 4);
    let snapshot: Vec<(Vec<u8>, Vec<u8>, Option<u64>)> =
        r.users.iter().map(|u| (u.username.clone(), u.address.clone(), u.handle)).collect();
    let second = r.register(b"alice".to_vec(), b"10.0.0.1:9000".to_vec(), 4);
    let after: Vec<(Vec<u8>, Vec<u8>, Option<u64>)> =
        r.users.iter().map(|u| (u.username.clone(), u.address.clone(), u.handle)).collect();
    assert_eq!(first, second);
    assert_eq!(snapshot, after);
    assert_eq!(r.population(), 2);
}
