use bubble::presence::{presence_reply, PresenceSet};

fn payloads(items: &[&[u8]]) -> Vec<Vec<u8>> {
    items.iter().map(|p| p.to_vec()).collect()
}

#[test]
fn collect_of_no_replies_is_empty() {
    let found = PresenceSet::collect(&Vec::new());
    assert_eq!(found.len(), 0);
    assert!(found.rooms().is_empty());
    assert!(!found.contains("lobby"));
}

#[test]
fn collect_keeps_each_room_once() {
    let found = PresenceSet::collect(&payloads(&[b"lobby", b"den", b"lobby", b"lobby", b"den"]));
    assert_eq!(found.rooms(), &vec!["lobby".to_string(), "den".to_string()]);
    assert_eq!(found.len(), 2);
    assert!(found.contains("lobby"));
    assert!(found.contains("den"));
    assert!(!found.contains("attic"));
}

#[test]
fn collect_passes_over_replies_that_are_not_utf8() {
    let found = PresenceSet::collect(&payloads(&[&[0xff, 0xfe], b"lobby", &[0xc3, 0x28]]));
    assert_eq!(found.rooms(), &vec!["lobby".to_string()]);
}

#[test]
fn collect_tells_rooms_apart_by_every_character() {
    let found = PresenceSet::collect(&payloads(&[b"a", b"A", b"a ", b"", "ä".as_bytes()]));
    assert_eq!(found.len(), 5);
    assert!(found.contains(""));
}

#[test]
fn two_rooms_are_both_found() {
    let replies = vec![
        presence_reply("a", "bubble/rooms").payload,
        presence_reply("b", "bubble/rooms").payload,
    ];
    let found = PresenceSet::collect(&replies);
    assert_eq!(found.len(), 2);
    assert!(found.contains("a"));
    assert!(found.contains("b"));
}

#[test]
fn a_second_round_finds_the_same_rooms() {
    let first = PresenceSet::collect(&payloads(&[b"a", b"b", b"c"]));
    let again = PresenceSet::collect(&payloads(&[b"a", b"b", b"c"]));
    assert_eq!(first, again);
    let shuffled = PresenceSet::collect(&payloads(&[b"c", b"a", b"c", b"b", b"a"]));
    assert_eq!(shuffled.len(), first.len());
    for room in first.rooms() {
        assert!(shuffled.contains(room));
    }
}

#[test]
fn a_reply_goes_where_the_query_came_from() {
    let reply = presence_reply("lobby", "bubble/rooms");
    assert_eq!(reply.key, "bubble/rooms");
    assert_eq!(reply.payload, b"lobby".to_vec());
    let reply = presence_reply("日本", "bubble/*");
    assert_eq!(reply.key, "bubble/*");
    assert_eq!(reply.payload, "日本".as_bytes().to_vec());
}
