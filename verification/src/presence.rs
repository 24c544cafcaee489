//! Who is in which room: the answer one member gives, and the directory
//! that a client builds from all the answers it gets.
//!
//! There is no central list of rooms. Every member of a room answers a
//! presence query with the room's identifier as UTF-8 text; a client that
//! asks gathers whatever answers arrive and keeps each room once.

use crate::message::text_of_bytes;
use vstd::prelude::*;
use vstd::slice::*;
use vstd::string::*;
use vstd::utf8::*;

verus! {

/// The payload with which a member of `room` answers a presence query.
pub open spec fn reply_payload(room: Seq<char>) -> Seq<u8> {
    encode_utf8(room)
}

/// The rooms that `replies` announce, each once, in the order in which they
/// are first announced. A reply that is not UTF-8 announces nothing.
pub open spec fn room_listing(replies: Seq<Seq<u8>>) -> Seq<Seq<char>>
    decreases replies.len(),
{
    if replies.len() == 0 {
        seq![]
    } else {
        let before = room_listing(replies.drop_last());
        let last = replies.last();
        if valid_utf8(last) && !before.contains(decode_utf8(last)) {
            before.push(decode_utf8(last))
        } else {
            before
        }
    }
}

/// The set of rooms that `replies` announce: those that some reply spells.
pub open spec fn announced_rooms(replies: Seq<Seq<u8>>) -> Set<Seq<char>> {
    Set::new(
        |room: Seq<char>|
            exists|i: int|
                0 <= i < replies.len() && valid_utf8(#[trigger] replies[i]) && decode_utf8(
                    replies[i],
                ) == room,
    )
}

/// An answer to a presence query.
#[derive(Debug, PartialEq, Eq)]
pub struct PresenceReply {
    /// The topic the answer goes to: the one the query came on.
    pub key: String,
    /// The room's identifier, as UTF-8.
    pub payload: Vec<u8>,
}

/// The answer that a member of `room_id` gives to a query that came on
/// `query_key`.
pub fn presence_reply(room_id: &str, query_key: &str) -> (r: PresenceReply)
    ensures
        r.key@ == query_key@,
        r.payload@ == reply_payload(room_id@),
{
    PresenceReply { key: query_key.to_owned(), payload: slice_to_vec(room_id.as_bytes()) }
}

/// The rooms found by one round of discovery. No room occurs twice.
#[derive(Debug, PartialEq, Eq)]
pub struct PresenceSet {
    rooms: Vec<String>,
}

impl View for PresenceSet {
    type V = Set<Seq<char>>;

    open spec fn view(&self) -> Set<Seq<char>> {
        self.listing().to_set()
    }
}

impl PresenceSet {
    /// The rooms in the order in which they were first announced.
    pub closed spec fn listing(&self) -> Seq<Seq<char>> {
        self.rooms.deep_view()
    }

    #[verifier::type_invariant]
    spec fn inv(self) -> bool {
        self.rooms.deep_view().no_duplicates()
    }

    /// Builds the directory from the payloads of all replies that arrived.
    pub fn collect(replies: &Vec<Vec<u8>>) -> (r: PresenceSet)
        ensures
            r.listing() == room_listing(replies.deep_view()),
            r@ == announced_rooms(replies.deep_view()),
            r.listing().no_duplicates(),
    {
        let mut rooms: Vec<String> = Vec::new();
        let mut i: usize = 0;
        while i < replies.len()
            invariant
                i <= replies.len(),
                rooms.deep_view() == room_listing(replies.deep_view().take(i as int)),
            decreases replies.len() - i,
        {
            let ghost all = replies.deep_view();
            let ghost before = rooms.deep_view();
            assert(all.take(i + 1).drop_last() =~= all.take(i as int));
            assert(all.take(i + 1).last() == replies[i as int]@);
            match text_of_bytes(replies[i].as_slice()) {
                Some(room) => {
                    if !listed(&rooms, &room) {
                        rooms.push(room);
                        assert(rooms.deep_view() =~= before.push(room@));
                    }
                },
                None => {},
            }
            i = i + 1;
        }
        assert(replies.deep_view().take(i as int) =~= replies.deep_view());
        proof {
            lemma_listing_is_the_set(replies.deep_view());
        }
        PresenceSet { rooms }
    }

    /// The rooms, each once, in the order in which they were first announced.
    pub fn rooms(&self) -> (r: &Vec<String>)
        ensures
            r.deep_view() == self.listing(),
            r.deep_view().no_duplicates(),
    {
        proof {
            use_type_invariant(self);
        }
        &self.rooms
    }

    /// Whether `room_id` was announced.
    pub fn contains(&self, room_id: &str) -> (r: bool)
        ensures
            r == self@.contains(room_id@),
    {
        let wanted: String = room_id.to_owned();
        listed(&self.rooms, &wanted)
    }

    /// How many rooms were announced.
    pub fn len(&self) -> (r: usize)
        ensures
            r == self@.len(),
    {
        proof {
            use_type_invariant(self);
            self.rooms.deep_view().unique_seq_to_set();
        }
        self.rooms.len()
    }
}

fn listed(rooms: &Vec<String>, room: &String) -> (r: bool)
    ensures
        r == rooms.deep_view().contains(room@),
{
    let mut i: usize = 0;
    while i < rooms.len()
        invariant
            i <= rooms.len(),
            forall|j: int| 0 <= j < i ==> rooms.deep_view()[j] != room@,
        decreases rooms.len() - i,
    {
        if rooms[i] == *room {
            assert(rooms.deep_view()[i as int] == room@);
            return true;
        }
        i = i + 1;
    }
    false
}

/// The listing holds each announced room, and nothing else, once.
pub proof fn lemma_listing_is_the_set(replies: Seq<Seq<u8>>)
    ensures
        room_listing(replies).to_set() == announced_rooms(replies),
        room_listing(replies).no_duplicates(),
    decreases replies.len(),
{
    let listing = room_listing(replies);
    if replies.len() == 0 {
        assert(listing.to_set() =~= announced_rooms(replies));
    } else {
        let init = replies.drop_last();
        let last = replies.last();
        let before = room_listing(init);
        lemma_listing_is_the_set(init);
        assert forall|room: Seq<char>| listing.to_set().contains(room) implies announced_rooms(
            replies,
        ).contains(room) by {
            assert(listing.contains(room));
            if before.contains(room) {
                assert(before.to_set().contains(room));
                let i = choose|i: int|
                    0 <= i < init.len() && valid_utf8(#[trigger] init[i]) && decode_utf8(init[i])
                        == room;
                assert(replies[i] == init[i]);
            } else {
                assert(replies[replies.len() - 1] == last);
            }
        }
        assert forall|room: Seq<char>| announced_rooms(replies).contains(room) implies listing.to_set().contains(
            room,
        ) by {
            let i = choose|i: int|
                0 <= i < replies.len() && valid_utf8(#[trigger] replies[i]) && decode_utf8(
                    replies[i],
                ) == room;
            if i < init.len() {
                assert(init[i] == replies[i]);
                assert(announced_rooms(init).contains(room));
                assert(before.to_set().contains(room));
                let j = choose|j: int| 0 <= j < before.len() && before[j] == room;
                assert(listing[j] == room);
            } else if !before.contains(room) {
                assert(listing[listing.len() - 1] == room);
            } else {
                let j = choose|j: int| 0 <= j < before.len() && before[j] == room;
                assert(listing[j] == room);
            }
        }
        assert(listing.to_set() =~= announced_rooms(replies));
    }
}

/// A second round of discovery finds the same rooms as the first when the
/// same replies arrive, in whatever order and however often each arrives.
pub proof fn lemma_discovery_is_stable(first: Seq<Seq<u8>>, second: Seq<Seq<u8>>)
    requires
        first.to_set() == second.to_set(),
    ensures
        announced_rooms(first) == announced_rooms(second),
{
    lemma_announced_grows_with_replies(first, second);
    lemma_announced_grows_with_replies(second, first);
    assert(announced_rooms(first) =~= announced_rooms(second));
}

/// Replies that all occur among `more` announce only rooms that `more`
/// announces too.
pub proof fn lemma_announced_grows_with_replies(fewer: Seq<Seq<u8>>, more: Seq<Seq<u8>>)
    requires
        fewer.to_set().subset_of(more.to_set()),
    ensures
        announced_rooms(fewer).subset_of(announced_rooms(more)),
{
    assert forall|room: Seq<char>| announced_rooms(fewer).contains(room) implies announced_rooms(
        more,
    ).contains(room) by {
        let i = choose|i: int|
            0 <= i < fewer.len() && valid_utf8(#[trigger] fewer[i]) && decode_utf8(fewer[i])
                == room;
        assert(fewer.contains(fewer[i]));
        assert(more.to_set().contains(fewer[i]));
        let j = choose|j: int| 0 <= j < more.len() && more[j] == fewer[i];
        assert(valid_utf8(more[j]));
    }
}

/// When one member of each of `rooms` answers, discovery finds exactly
/// those rooms.
pub proof fn lemma_discovery_finds_the_rooms(rooms: Seq<Seq<char>>)
    ensures
        announced_rooms(rooms.map_values(|room: Seq<char>| reply_payload(room)))
            == rooms.to_set(),
{
    let replies = rooms.map_values(|room: Seq<char>| reply_payload(room));
    assert forall|room: Seq<char>| announced_rooms(replies).contains(room) implies rooms.to_set().contains(
        room,
    ) by {
        let i = choose|i: int|
            0 <= i < replies.len() && valid_utf8(#[trigger] replies[i]) && decode_utf8(replies[i])
                == room;
        encode_utf8_decode_utf8(rooms[i]);
        assert(rooms[i] == room);
    }
    assert forall|room: Seq<char>| rooms.to_set().contains(room) implies announced_rooms(
        replies,
    ).contains(room) by {
        let i = choose|i: int| 0 <= i < rooms.len() && rooms[i] == room;
        encode_utf8_valid_utf8(room);
        encode_utf8_decode_utf8(room);
        assert(replies[i] == reply_payload(room));
    }
    assert(announced_rooms(replies) =~= rooms.to_set());
}

} // verus!
