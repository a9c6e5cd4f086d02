use messaging::wire::{join, make_frame, parse_code, parse_frame, split_list, split_once, Code};

#[test]
fn split_once_takes_the_first_separator() {
    assert_eq!(split_once(b"a;b;c", b';'), Some((b"a".to_vec(), b"b;c".to_vec())));
    assert_eq!(split_once(b";", b';'), Some((Vec::new(), Vec::new())));
    assert_eq!(split_once(b"abc", b';'), None);
}

#[test]
fn split_list_matches_str_split() {
    for text in ["", "a", "a&&b", "a&&&b", "&&", "a&&b&&", "x&y&&z"] {
        let expected: Vec<Vec<u8>> = text.split("&&").map(|p| p.as_bytes().to_vec()).collect();
        assert_eq!(split_list(text.as_bytes()), expected, "{}", text);
    }
}

#[test]
fn join_puts_separator_between_parts() {
    let parts = vec![b"a".to_vec(), b"b".to_vec(), b"c".to_vec()];
    assert_eq!(join(&parts, b"&&"), b"a&&b&&c".to_vec());
    assert_eq!(join(&Vec::new(), b"&&"), Vec::<u8>::new());
}

#[test]
fn frames_parse_into_code_and_body() {
    assert_eq!(parse_frame(b"SEND bob;alice;hi there"), Some((Code::Send, b"bob;alice;hi there".to_vec())));
    assert_eq!(parse_frame(b"UPDATE "), Some((Code::Update, Vec::new())));
    assert_eq!(parse_frame(b"WHAT x"), Some((Code::Unrecognized, b"x".to_vec())));
    assert_eq!(parse_frame(b"INIT"), None);
    assert_eq!(parse_code(b"IP_FETCH"), Code::IpFetch);
    assert_eq!(parse_code(b"404"), Code::NotFound);
    assert_eq!(parse_code(b"init"), Code::Unrecognized);
}

#[test]
fn make_frame_writes_code_space_body() {
    assert_eq!(make_frame(Code::Buddies, b"a&&b"), b"BUDDIES a&&b".to_vec());
    assert_eq!(make_frame(Code::IpRetrieval, b""), b"IP_RETRIEVAL ".to_vec());
}
