//! Names of the topics that rooms and presence live on.

use vstd::prelude::*;
use vstd::string::*;

verus! {

/// The topic on which the messages of `room` travel.
pub open spec fn message_topic_of(room: Seq<char>) -> Seq<char> {
    "bubble/message/"@ + room
}

/// The one topic on which every room answers presence queries.
pub open spec fn presence_topic_text() -> Seq<char> {
    "bubble/rooms"@
}

/// The message topic of the room `room_id`.
pub fn message_topic(room_id: &str) -> (r: String)
    ensures
        r@ == message_topic_of(room_id@),
{
    let mut topic: String = "bubble/message/".to_owned();
    topic.append(room_id);
    topic
}

/// The presence topic.
pub fn presence_topic() -> (r: String)
    ensures
        r@ == presence_topic_text(),
{
    "bubble/rooms".to_owned()
}

/// Two rooms share a message topic only if they are the same room.
pub proof fn lemma_rooms_have_their_own_topic(a: Seq<char>, b: Seq<char>)
    ensures
        message_topic_of(a) == message_topic_of(b) <==> a == b,
{
    let prefix = "bubble/message/"@;
    if message_topic_of(a) == message_topic_of(b) {
        assert(a =~= (prefix + a).skip(prefix.len() as int));
        assert(b =~= (prefix + b).skip(prefix.len() as int));
    }
}

/// No room's message topic is the presence topic.
pub proof fn lemma_presence_topic_is_no_room(room: Seq<char>)
    ensures
        message_topic_of(room) != presence_topic_text(),
{
    reveal_strlit("bubble/message/");
    reveal_strlit("bubble/rooms");
    assert(message_topic_of(room)[7] == 'm');
    assert(presence_topic_text()[7] == 'r');
}

} // verus!
