//! Chat messages and their wire form.
//!
//! A message travels as a MessagePack map of two string items, keyed `name`
//! and `message`. The encoder always writes the shortest header and puts
//! `name` first; the decoder takes the two entries in either order and any
//! of the four string headers.

use vstd::prelude::*;
use vstd::slice::*;
use vstd::string::*;
use vstd::utf8::*;

verus! {

/// What a [`Message`] stands for: the sender's name and the body.
pub struct MessageView {
    pub name: Seq<char>,
    pub message: Seq<char>,
}

/// The key under which the sender's name travels.
pub open spec fn name_key() -> Seq<char> {
    "name"@
}

/// The key under which the body travels.
pub open spec fn message_key() -> Seq<char> {
    "message"@
}

/// A text can travel as one string item when its UTF-8 form has at most
/// `u32::MAX` bytes.
pub open spec fn fits_on_wire(text: Seq<char>) -> bool {
    encode_utf8(text).len() <= 0xFFFF_FFFF
}

/// The shortest string header that announces `len` payload bytes.
pub open spec fn str_header(len: nat) -> Seq<u8>
    recommends
        len <= 0xFFFF_FFFF,
{
    if len < 32 {
        seq![(0xa0 + len) as u8]
    } else if len < 0x100 {
        seq![0xd9u8, len as u8]
    } else if len < 0x1_0000 {
        seq![0xdau8, (len / 0x100) as u8, (len % 0x100) as u8]
    } else {
        seq![
            0xdbu8,
            (len / 0x100_0000) as u8,
            (len / 0x1_0000 % 0x100) as u8,
            (len / 0x100 % 0x100) as u8,
            (len % 0x100) as u8,
        ]
    }
}

/// One string item: header, then payload.
pub open spec fn str_item(payload: Seq<u8>) -> Seq<u8>
    recommends
        payload.len() <= 0xFFFF_FFFF,
{
    str_header(payload.len()) + payload
}

/// The wire form of a message.
pub open spec fn spec_encode(m: MessageView) -> Seq<u8>
    recommends
        fits_on_wire(m.name),
        fits_on_wire(m.message),
{
    seq![0x82u8] + str_item(encode_utf8(name_key())) + str_item(encode_utf8(m.name)) + str_item(
        encode_utf8(message_key()),
    ) + str_item(encode_utf8(m.message))
}

/// Reads a string header at the front of `bytes`: the payload length it
/// announces and the number of bytes the header itself takes.
pub open spec fn read_str_header(bytes: Seq<u8>) -> Option<(nat, nat)> {
    if bytes.len() == 0 {
        None
    } else if 0xa0 <= bytes[0] <= 0xbf {
        Some(((bytes[0] - 0xa0) as nat, 1))
    } else if bytes[0] == 0xd9 && bytes.len() >= 2 {
        Some((bytes[1] as nat, 2))
    } else if bytes[0] == 0xda && bytes.len() >= 3 {
        Some(((bytes[1] * 0x100 + bytes[2]) as nat, 3))
    } else if bytes[0] == 0xdb && bytes.len() >= 5 {
        Some(
            (
                (bytes[1] * 0x100_0000 + bytes[2] * 0x1_0000 + bytes[3] * 0x100 + bytes[4]) as nat,
                5,
            ),
        )
    } else {
        None
    }
}

/// Reads one string item at the front of `bytes`: its payload and what
/// follows it.
pub open spec fn read_str_item(bytes: Seq<u8>) -> Option<(Seq<u8>, Seq<u8>)> {
    match read_str_header(bytes) {
        Some((len, header)) => if header + len <= bytes.len() {
            Some(
                (
                    bytes.subrange(header as int, (header + len) as int),
                    bytes.skip((header + len) as int),
                ),
            )
        } else {
            None
        },
        None => None,
    }
}

/// The message that two map entries spell, if their keys are `name` and
/// `message`, one each, and both values are UTF-8.
pub open spec fn message_of_entries(
    first_key: Seq<u8>,
    first_value: Seq<u8>,
    second_key: Seq<u8>,
    second_value: Seq<u8>,
) -> Option<MessageView> {
    if !valid_utf8(first_value) || !valid_utf8(second_value) {
        None
    } else if first_key == encode_utf8(name_key()) && second_key == encode_utf8(message_key()) {
        Some(MessageView { name: decode_utf8(first_value), message: decode_utf8(second_value) })
    } else if first_key == encode_utf8(message_key()) && second_key == encode_utf8(name_key()) {
        Some(MessageView { name: decode_utf8(second_value), message: decode_utf8(first_value) })
    } else {
        None
    }
}

/// The message that `bytes` carry, or `None` where they are not the wire
/// form of any message: a two-entry map header, four string items, and
/// nothing after them.
pub open spec fn spec_decode(bytes: Seq<u8>) -> Option<MessageView> {
    if bytes.len() == 0 || bytes[0] != 0x82 {
        None
    } else {
        match read_str_item(bytes.skip(1)) {
            Some((first_key, after_first_key)) => match read_str_item(after_first_key) {
                Some((first_value, after_first)) => match read_str_item(after_first) {
                    Some((second_key, after_second_key)) => match read_str_item(after_second_key) {
                        Some((second_value, rest)) => if rest.len() == 0 {
                            message_of_entries(first_key, first_value, second_key, second_value)
                        } else {
                            None
                        },
                        None => None,
                    },
                    None => None,
                },
                None => None,
            },
            None => None,
        }
    }
}

/// A chat message: who sent it and what it says. Both texts fit on the wire.
#[derive(Debug, PartialEq, Eq)]
pub struct Message {
    name: String,
    message: String,
}

impl View for Message {
    type V = MessageView;

    closed spec fn view(&self) -> MessageView {
        MessageView { name: self.name@, message: self.message@ }
    }
}

impl DeepView for Message {
    type V = MessageView;

    open spec fn deep_view(&self) -> MessageView {
        self@
    }
}

/// Why a payload is not a message.
#[derive(Debug, PartialEq, Eq, Clone, Copy)]
pub struct DecodeError;

impl Message {
    #[verifier::type_invariant]
    spec fn inv(self) -> bool {
        fits_on_wire(self.name@) && fits_on_wire(self.message@)
    }

    /// Makes a message; `None` where a text is too long for one string item.
    pub fn new(name: &str, message: &str) -> (r: Option<Message>)
        ensures
            r is Some <==> fits_on_wire(name@) && fits_on_wire(message@),
            r matches Some(m) ==> m@ == (MessageView { name: name@, message: message@ }),
    {
        if name.as_bytes().len() <= 0xFFFF_FFFF && message.as_bytes().len() <= 0xFFFF_FFFF {
            Some(Message { name: name.to_owned(), message: message.to_owned() })
        } else {
            None
        }
    }

    /// The sender's name.
    pub fn name(&self) -> (r: &str)
        ensures
            r@ == self@.name,
            fits_on_wire(r@),
    {
        proof {
            use_type_invariant(self);
        }
        self.name.as_str()
    }

    /// The body.
    pub fn message(&self) -> (r: &str)
        ensures
            r@ == self@.message,
            fits_on_wire(r@),
    {
        proof {
            use_type_invariant(self);
        }
        self.message.as_str()
    }

    /// The wire form of this message.
    pub fn encode(&self) -> (out: Vec<u8>)
        ensures
            out@ == spec_encode(self@),
    {
        proof {
            use_type_invariant(self);
            lemma_keys_differ();
        }
        let mut out: Vec<u8> = Vec::new();
        out.push(0x82u8);
        push_str_item(&mut out, "name".as_bytes());
        push_str_item(&mut out, self.name.as_str().as_bytes());
        push_str_item(&mut out, "message".as_bytes());
        push_str_item(&mut out, self.message.as_str().as_bytes());
        out
    }

    /// Reads a message from its wire form.
    pub fn decode(bytes: &[u8]) -> (r: Result<Message, DecodeError>)
        ensures
            r is Ok <==> spec_decode(bytes@) is Some,
            r matches Ok(m) ==> spec_decode(bytes@) == Some(m@),
    {
        if bytes.len() == 0 || bytes[0] != 0x82u8 {
            return Err(DecodeError);
        }
        let first_key = match take_str_item(bytes, 1) {
            Some(span) => span,
            None => { return Err(DecodeError); },
        };
        let first_value = match take_str_item(bytes, first_key.1) {
            Some(span) => span,
            None => { return Err(DecodeError); },
        };
        let second_key = match take_str_item(bytes, first_value.1) {
            Some(span) => span,
            None => { return Err(DecodeError); },
        };
        let second_value = match take_str_item(bytes, second_key.1) {
            Some(span) => span,
            None => { return Err(DecodeError); },
        };
        if second_value.1 != bytes.len() {
            return Err(DecodeError);
        }
        let first_key_bytes = slice_subrange(bytes, first_key.0, first_key.1);
        let second_key_bytes = slice_subrange(bytes, second_key.0, second_key.1);
        let first_text = text_of_bytes(slice_subrange(bytes, first_value.0, first_value.1));
        let second_text = text_of_bytes(slice_subrange(bytes, second_value.0, second_value.1));
        match (first_text, second_text) {
            (Some(first), Some(second)) => {
                proof {
                    lemma_decoded_text_fits(bytes@.subrange(first_value.0 as int, first_value.1 as int));
                    lemma_decoded_text_fits(bytes@.subrange(second_value.0 as int, second_value.1 as int));
                }
                if same_bytes(first_key_bytes, "name".as_bytes()) && same_bytes(
                    second_key_bytes,
                    "message".as_bytes(),
                ) {
                    Ok(Message { name: first, message: second })
                } else if same_bytes(first_key_bytes, "message".as_bytes()) && same_bytes(
                    second_key_bytes,
                    "name".as_bytes(),
                ) {
                    Ok(Message { name: second, message: first })
                } else {
                    Err(DecodeError)
                }
            },
            _ => Err(DecodeError),
        }
    }
}

/// The messages that a listener hands on when `payloads` arrive in this
/// order: the message of each payload that carries one. The others leave no
/// trace.
pub open spec fn delivered(payloads: Seq<Seq<u8>>) -> Seq<MessageView>
    decreases payloads.len(),
{
    if payloads.len() == 0 {
        seq![]
    } else {
        let before = delivered(payloads.drop_last());
        match spec_decode(payloads.last()) {
            Some(m) => before.push(m),
            None => before,
        }
    }
}

/// What a listener does with one payload: it hands on the message, or
/// passes over a payload that carries none.
pub fn inbound(payload: &[u8]) -> (r: Option<Message>)
    ensures
        r.deep_view() == spec_decode(payload@),
{
    match Message::decode(payload) {
        Ok(m) => Some(m),
        Err(_) => None,
    }
}

/// What a listener hands on for a backlog of payloads.
pub fn deliver_all(payloads: &Vec<Vec<u8>>) -> (r: Vec<Message>)
    ensures
        r.deep_view() == delivered(payloads.deep_view()),
{
    let mut out: Vec<Message> = Vec::new();
    let mut i: usize = 0;
    while i < payloads.len()
        invariant
            i <= payloads.len(),
            out.deep_view() == delivered(payloads.deep_view().take(i as int)),
        decreases payloads.len() - i,
    {
        let ghost all = payloads.deep_view();
        let ghost before = out.deep_view();
        assert(all.take(i + 1).drop_last() =~= all.take(i as int));
        assert(all.take(i + 1).last() == payloads[i as int]@);
        match inbound(payloads[i].as_slice()) {
            Some(m) => {
                out.push(m);
                assert(out.deep_view() =~= before.push(m@));
            },
            None => {},
        }
        i = i + 1;
    }
    assert(payloads.deep_view().take(i as int) =~= payloads.deep_view());
    out
}

/// Calls `String::from_utf8`, which hands the bytes back as a string where
/// they are UTF-8 and refuses them where they are not.
#[verifier::external_body]
fn string_from_utf8(bytes: Vec<u8>) -> (r: Option<String>)
    ensures
        r is Some <==> valid_utf8(bytes@),
        r matches Some(text) ==> text@ == decode_utf8(bytes@),
{
    String::from_utf8(bytes).ok()
}

/// The text that `bytes` spell in UTF-8, if any.
pub fn text_of_bytes(bytes: &[u8]) -> (r: Option<String>)
    ensures
        r is Some <==> valid_utf8(bytes@),
        r matches Some(text) ==> text@ == decode_utf8(bytes@),
{
    string_from_utf8(slice_to_vec(bytes))
}

/// Text decoded from at most `u32::MAX` bytes fits on the wire again.
proof fn lemma_decoded_text_fits(bytes: Seq<u8>)
    requires
        valid_utf8(bytes),
        bytes.len() <= 0xFFFF_FFFF,
    ensures
        fits_on_wire(decode_utf8(bytes)),
{
    decode_utf8_encode_utf8(bytes);
}

fn same_bytes(a: &[u8], b: &[u8]) -> (r: bool)
    ensures
        r == (a@ == b@),
{
    if a.len() != b.len() {
        return false;
    }
    let mut i: usize = 0;
    while i < a.len()
        invariant
            a@.len() == b@.len(),
            i <= a@.len(),
            forall|j: int| 0 <= j < i ==> a@[j] == b@[j],
        decreases a@.len() - i,
    {
        if a[i] != b[i] {
            return false;
        }
        i = i + 1;
    }
    assert(a@ =~= b@);
    true
}

fn push_str_header(out: &mut Vec<u8>, len: usize)
    requires
        len <= 0xFFFF_FFFF,
    ensures
        final(out)@ == old(out)@ + str_header(len as nat),
{
    if len < 32 {
        out.push((0xa0 + len) as u8);
        assert(out@ =~= old(out)@ + str_header(len as nat));
    } else if len < 0x100 {
        out.push(0xd9u8);
        out.push(len as u8);
        assert(out@ =~= old(out)@ + str_header(len as nat));
    } else if len < 0x1_0000 {
        out.push(0xdau8);
        out.push((len / 0x100) as u8);
        out.push((len % 0x100) as u8);
        assert(out@ =~= old(out)@ + str_header(len as nat));
    } else {
        out.push(0xdbu8);
        out.push((len / 0x100_0000) as u8);
        out.push((len / 0x1_0000 % 0x100) as u8);
        out.push((len / 0x100 % 0x100) as u8);
        out.push((len % 0x100) as u8);
        assert(out@ =~= old(out)@ + str_header(len as nat));
    }
}

fn push_str_item(out: &mut Vec<u8>, payload: &[u8])
    requires
        payload@.len() <= 0xFFFF_FFFF,
    ensures
        final(out)@ == old(out)@ + str_item(payload@),
{
    push_str_header(out, payload.len());
    let ghost with_header = out@;
    out.extend_from_slice(payload);
    assert(out@ =~= with_header + payload@);
    assert(out@ =~= old(out)@ + str_item(payload@));
}

/// Reads the string item that starts at `at`: where its payload starts and
/// where it ends.
fn take_str_item(bytes: &[u8], at: usize) -> (r: Option<(usize, usize)>)
    requires
        at <= bytes@.len(),
    ensures
        r is Some <==> read_str_item(bytes@.skip(at as int)) is Some,
        r matches Some((start, end)) ==> at < start <= end <= bytes@.len() && end - start
            <= 0xFFFF_FFFF && read_str_item(bytes@.skip(at as int)) == Some(
            (bytes@.subrange(start as int, end as int), bytes@.skip(end as int)),
        ),
{
    let total: usize = bytes.len();
    let ghost tail = bytes@.skip(at as int);
    if at >= total {
        return None;
    }
    let left: usize = total - at;
    let lead: u8 = bytes[at];
    assert(tail[0] == lead);
    let mut len: u64 = 0;
    let mut header: usize = 1;
    if 0xa0 <= lead && lead <= 0xbf {
        len = (lead - 0xa0) as u64;
    } else if lead == 0xd9 && left >= 2 {
        assert(tail[1] == bytes@[at + 1]);
        len = bytes[at + 1] as u64;
        header = 2;
    } else if lead == 0xda && left >= 3 {
        assert(tail[1] == bytes@[at + 1] && tail[2] == bytes@[at + 2]);
        len = bytes[at + 1] as u64 * 0x100 + bytes[at + 2] as u64;
        header = 3;
    } else if lead == 0xdb && left >= 5 {
        assert(tail[1] == bytes@[at + 1] && tail[2] == bytes@[at + 2] && tail[3] == bytes@[at + 3]
            && tail[4] == bytes@[at + 4]);
        len = bytes[at + 1] as u64 * 0x100_0000 + bytes[at + 2] as u64 * 0x1_0000 + bytes[at
            + 3] as u64 * 0x100 + bytes[at + 4] as u64;
        header = 5;
    } else {
        return None;
    }
    assert(read_str_header(tail) == Some((len as nat, header as nat)));
    if len > (left - header) as u64 {
        return None;
    }
    let start: usize = at + header;
    let end: usize = start + len as usize;
    assert(tail.subrange(header as int, header + len) =~= bytes@.subrange(start as int, end as int));
    assert(tail.skip(header + len) =~= bytes@.skip(end as int));
    Some((start, end))
}

/// Reading back a freshly written string item yields its payload and
/// leaves what followed it.
pub proof fn lemma_read_written_item(payload: Seq<u8>, rest: Seq<u8>)
    requires
        payload.len() <= 0xFFFF_FFFF,
    ensures
        read_str_item(str_item(payload) + rest) == Some((payload, rest)),
{
    let len = payload.len();
    let header = str_header(len);
    let all = str_item(payload) + rest;
    assert(all =~= header + (payload + rest));
    assert(read_str_header(all) == Some((len, header.len())));
    assert(all.subrange(header.len() as int, (header.len() + len) as int) =~= payload);
    assert(all.skip((header.len() + len) as int) =~= rest);
}

/// The two keys differ, also as bytes.
proof fn lemma_keys_differ()
    ensures
        encode_utf8(name_key()) != encode_utf8(message_key()),
        fits_on_wire(name_key()),
        fits_on_wire(message_key()),
{
    reveal_strlit("name");
    reveal_strlit("message");
    encode_utf8_decode_utf8(name_key());
    encode_utf8_decode_utf8(message_key());
    is_ascii_chars_encode_utf8(name_key());
    is_ascii_chars_encode_utf8(message_key());
}

/// Decoding undoes encoding: every message whose texts fit on the wire
/// comes back from its wire form unchanged.
pub proof fn lemma_round_trip(m: MessageView)
    requires
        fits_on_wire(m.name),
        fits_on_wire(m.message),
    ensures
        spec_decode(spec_encode(m)) == Some(m),
{
    lemma_keys_differ();
    let k1 = encode_utf8(name_key());
    let v1 = encode_utf8(m.name);
    let k2 = encode_utf8(message_key());
    let v2 = encode_utf8(m.message);
    let empty = Seq::<u8>::empty();
    let r3 = str_item(v2) + empty;
    let r2 = str_item(k2) + r3;
    let r1 = str_item(v1) + r2;
    let r0 = str_item(k1) + r1;
    let wire = spec_encode(m);
    assert(wire =~= seq![0x82u8] + r0);
    assert(wire.skip(1) =~= r0);
    lemma_read_written_item(k1, r1);
    lemma_read_written_item(v1, r2);
    lemma_read_written_item(k2, r3);
    lemma_read_written_item(v2, empty);
    encode_utf8_valid_utf8(m.name);
    encode_utf8_valid_utf8(m.message);
    encode_utf8_decode_utf8(m.name);
    encode_utf8_decode_utf8(m.message);
}

/// What is handed on for two runs of payloads, one after the other, is
/// what is handed on for the first, then what is handed on for the second.
pub proof fn lemma_delivered_in_order(first: Seq<Seq<u8>>, second: Seq<Seq<u8>>)
    ensures
        delivered(first + second) == delivered(first) + delivered(second),
    decreases second.len(),
{
    if second.len() == 0 {
        assert(first + second =~= first);
        assert(delivered(first) + delivered(second) =~= delivered(first));
    } else {
        let init = second.drop_last();
        lemma_delivered_in_order(first, init);
        assert((first + second).drop_last() =~= first + init);
        assert((first + second).last() == second.last());
        assert(delivered(first + second) =~= delivered(first) + delivered(second));
    }
}

/// A payload that carries no message does not disturb the delivery of the
/// payloads around it: with it or without it, the same messages are handed
/// on.
pub proof fn lemma_malformed_payload_is_skipped(
    before: Seq<Seq<u8>>,
    bad: Seq<u8>,
    after: Seq<Seq<u8>>,
)
    requires
        spec_decode(bad) is None,
    ensures
        delivered(before + seq![bad] + after) == delivered(before + after),
{
    lemma_delivered_in_order(before, seq![bad]);
    lemma_delivered_in_order(before + seq![bad], after);
    lemma_delivered_in_order(before, after);
    assert(seq![bad].drop_last() =~= Seq::<Seq<u8>>::empty());
    assert(delivered(Seq::<Seq<u8>>::empty()) =~= Seq::<MessageView>::empty());
    assert(seq![bad].last() == bad);
    assert(delivered(seq![bad]) =~= Seq::<MessageView>::empty());
    assert(delivered(before) + delivered(seq![bad]) =~= delivered(before));
}

/// What one member publishes, a listener hands on once and unchanged.
pub proof fn lemma_published_is_delivered(m: MessageView)
    requires
        fits_on_wire(m.name),
        fits_on_wire(m.message),
    ensures
        delivered(seq![spec_encode(m)]) == seq![m],
{
    lemma_round_trip(m);
    let one = seq![spec_encode(m)];
    assert(one.drop_last() =~= Seq::<Seq<u8>>::empty());
    assert(delivered(Seq::<Seq<u8>>::empty()) =~= Seq::<MessageView>::empty());
    assert(one.last() == spec_encode(m));
    assert(delivered(one) =~= seq![m]);
}

} // verus!
