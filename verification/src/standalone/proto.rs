//! The packets that client and server exchange on the control websocket.
//!
//! A packet is one byte that tells its type, followed by its fields. Text is
//! UTF-8. Connection ids take exactly 36 bytes; the last field of a packet takes
//! all bytes that are left.

use crate::proto;
use crate::proto::ID_LEN;
use crate::text;
use vstd::prelude::*;
use vstd::slice::*;
use vstd::string::*;
use vstd::utf8::*;

verus! {

pub const RESERVE_SUBDOMAIN: u8 = 1;

pub const PROMPT_TOKEN: u8 = 2;

pub const REPLY_TOKEN: u8 = 3;

pub const LETS_GO: u8 = 4;

pub const AUTH_FAILED: u8 = 5;

pub const DATA: u8 = 6;

pub const CLOSED: u8 = 7;

/// A packet exchanged between client and server on the control websocket.
#[derive(Debug)]
pub enum Event<'a> {
    /// Client wants a subdomain.
    ReserveSubdomain { subdomain: &'a str },
    /// Server has the token told in the game, by `sender`, and waits for it.
    PromptToken { sender: &'a str },
    /// Client has the token.
    ReplyToken { token: &'a str },
    /// Server has accepted the token; the client can be reached.
    LetsGo { public_url: &'a str },
    /// The token is not the one that was told.
    AuthFailed,
    /// A packet with raw TCP data.
    Data { id: &'a str, data: &'a [u8] },
    /// TCP connection has been terminated.
    Closed { id: &'a str },
}

/// Why bytes are no packet that a server can receive.
#[derive(Debug, Clone, Copy, PartialEq, Eq, Structural)]
pub enum ParseEventError {
    Eof,
    InvalidUtf8,
    /// Only a server sends such packets.
    OnlyOutgoing,
    UnknownType,
}

/// What an [`Event`] says, without where its parts are stored.
#[verifier::ext_equal]
pub enum Packet {
    ReserveSubdomain { subdomain: Seq<char> },
    PromptToken { sender: Seq<char> },
    ReplyToken { token: Seq<char> },
    LetsGo { public_url: Seq<char> },
    AuthFailed,
    Data { id: Seq<char>, data: Seq<u8> },
    Closed { id: Seq<char> },
}

impl<'a> View for Event<'a> {
    type V = Packet;

    open spec fn view(&self) -> Packet {
        match self {
            Event::ReserveSubdomain { subdomain } => Packet::ReserveSubdomain {
                subdomain: subdomain@,
            },
            Event::PromptToken { sender } => Packet::PromptToken { sender: sender@ },
            Event::ReplyToken { token } => Packet::ReplyToken { token: token@ },
            Event::LetsGo { public_url } => Packet::LetsGo { public_url: public_url@ },
            Event::AuthFailed => Packet::AuthFailed,
            Event::Data { id, data } => Packet::Data { id: id@, data: data@ },
            Event::Closed { id } => Packet::Closed { id: id@ },
        }
    }
}

impl Packet {
    /// The bytes of the packet.
    pub open spec fn bytes(self) -> Seq<u8> {
        match self {
            Packet::ReserveSubdomain { subdomain } => seq![RESERVE_SUBDOMAIN] + encode_utf8(
                subdomain,
            ),
            Packet::PromptToken { sender } => seq![PROMPT_TOKEN] + encode_utf8(sender),
            Packet::ReplyToken { token } => seq![REPLY_TOKEN] + encode_utf8(token),
            Packet::LetsGo { public_url } => seq![LETS_GO] + encode_utf8(public_url),
            Packet::AuthFailed => seq![AUTH_FAILED],
            Packet::Data { id, data } => seq![DATA] + encode_utf8(id) + data,
            Packet::Closed { id } => seq![CLOSED] + encode_utf8(id),
        }
    }

    /// Whether a server sends such packets.
    pub open spec fn outgoing(self) -> bool {
        !(self is ReserveSubdomain || self is ReplyToken)
    }

    /// Whether a server receives such packets.
    pub open spec fn incoming(self) -> bool {
        !(self is PromptToken || self is LetsGo || self is AuthFailed)
    }

    /// Whether the id, if the packet has one, has the length that the format
    /// provides for.
    pub open spec fn framed(self) -> bool {
        match self {
            Packet::Data { id, .. } => proto::is_id(id),
            Packet::Closed { id } => proto::is_id(id),
            _ => true,
        }
    }
}

/// The text in `input` from 1 up to `end`.
pub open spec fn text_field(input: Seq<u8>, end: int) -> Result<Seq<char>, ParseEventError> {
    if end <= input.len() {
        match text::text_of(input.subrange(1, end)) {
            Some(s) => Ok(s),
            None => Err(ParseEventError::InvalidUtf8),
        }
    } else {
        Err(ParseEventError::Eof)
    }
}

/// The packet that a server receives when it gets these bytes, or why there is
/// none.
pub open spec fn parse(input: Seq<u8>) -> Result<Packet, ParseEventError> {
    if input.len() == 0 {
        Err(ParseEventError::Eof)
    } else if input[0] == RESERVE_SUBDOMAIN {
        match text_field(input, input.len() as int) {
            Ok(subdomain) => Ok(Packet::ReserveSubdomain { subdomain }),
            Err(e) => Err(e),
        }
    } else if input[0] == REPLY_TOKEN {
        match text_field(input, input.len() as int) {
            Ok(token) => Ok(Packet::ReplyToken { token }),
            Err(e) => Err(e),
        }
    } else if input[0] == DATA {
        match text_field(input, 1 + ID_LEN) {
            Ok(id) => Ok(Packet::Data { id, data: input.skip(1 + ID_LEN) }),
            Err(e) => Err(e),
        }
    } else if input[0] == CLOSED {
        match text_field(input, 1 + ID_LEN) {
            Ok(id) => Ok(Packet::Closed { id }),
            Err(e) => Err(e),
        }
    } else if input[0] == PROMPT_TOKEN || input[0] == LETS_GO || input[0] == AUTH_FAILED {
        Err(ParseEventError::OnlyOutgoing)
    } else {
        Err(ParseEventError::UnknownType)
    }
}

/// The text in `input` from 1 up to `end`.
fn parse_str(input: &[u8], end: usize) -> (r: Result<&str, ParseEventError>)
    requires
        1 <= end,
    ensures
        match (r, text_field(input@, end as int)) {
            (Ok(s), Ok(t)) => s@ == t,
            (Err(e), Err(f)) => e == f,
            _ => false,
        },
{
    if end <= input.len() {
        match text::decode(slice_subrange(input, 1, end)) {
            Some(s) => Ok(s),
            None => Err(ParseEventError::InvalidUtf8),
        }
    } else {
        Err(ParseEventError::Eof)
    }
}

impl<'a> Event<'a> {
    /// The event that a server receives when it gets these bytes.
    pub fn deserialize(input: &'a [u8]) -> (r: Result<Self, ParseEventError>)
        ensures
            match (r, parse(input@)) {
                (Ok(event), Ok(packet)) => event@ == packet,
                (Err(e), Err(f)) => e == f,
                _ => false,
            },
    {
        if input.len() == 0 {
            return Err(ParseEventError::Eof);
        }
        match input[0] {
            RESERVE_SUBDOMAIN => match parse_str(input, input.len()) {
                Ok(subdomain) => Ok(Event::ReserveSubdomain { subdomain }),
                Err(e) => Err(e),
            },
            REPLY_TOKEN => match parse_str(input, input.len()) {
                Ok(token) => Ok(Event::ReplyToken { token }),
                Err(e) => Err(e),
            },
            DATA => match parse_str(input, 1 + ID_LEN) {
                Ok(id) => {
                    let data: &[u8] = slice_subrange(input, 1 + ID_LEN, input.len());
                    Ok(Event::Data { id, data })
                },
                Err(e) => Err(e),
            },
            CLOSED => match parse_str(input, 1 + ID_LEN) {
                Ok(id) => Ok(Event::Closed { id }),
                Err(e) => Err(e),
            },
            PROMPT_TOKEN | LETS_GO | AUTH_FAILED => Err(ParseEventError::OnlyOutgoing),
            _ => Err(ParseEventError::UnknownType),
        }
    }

    /// The bytes of an event that a server sends.
    pub fn serialize(&self) -> (r: Vec<u8>)
        requires
            self@.outgoing(),
        ensures
            r@ == self@.bytes(),
    {
        let mut serialized: Vec<u8> = Vec::new();
        match self {
            Event::PromptToken { sender } => {
                serialized.push(PROMPT_TOKEN);
                serialized.extend_from_slice(sender.as_bytes());
            },
            Event::LetsGo { public_url } => {
                serialized.push(LETS_GO);
                serialized.extend_from_slice(public_url.as_bytes());
            },
            Event::AuthFailed => {
                serialized.push(AUTH_FAILED);
            },
            Event::Data { id, data } => {
                serialized.push(DATA);
                serialized.extend_from_slice(id.as_bytes());
                serialized.extend_from_slice(data);
            },
            Event::Closed { id } => {
                serialized.push(CLOSED);
                serialized.extend_from_slice(id.as_bytes());
            },
            Event::ReserveSubdomain { .. } | Event::ReplyToken { .. } => {},
        }
        assert(serialized@ =~= self@.bytes());
        serialized
    }
}

/// A text field that was read takes the bytes it was read from.
proof fn lemma_text_field(input: Seq<u8>, end: int)
    ensures
        text_field(input, end) matches Ok(s) ==> encode_utf8(s) == input.subrange(1, end),
{
    text::lemma_encoded_text_of(input.subrange(1, end));
}

/// A text field reads the text that was written there.
proof fn lemma_text_field_written(kind: u8, s: Seq<char>, tail: Seq<u8>)
    ensures
        text_field(seq![kind] + encode_utf8(s) + tail, 1 + encode_utf8(s).len() as int) == Ok::<
            Seq<char>,
            ParseEventError,
        >(s),
{
    let input = seq![kind] + encode_utf8(s) + tail;
    assert(input.subrange(1, 1 + encode_utf8(s).len() as int) =~= encode_utf8(s));
    text::lemma_text_of_encoded(s);
}

/// A server reads a packet back from its bytes exactly if it is one that servers
/// receive and its id, if it has one, is 36 bytes long. A packet that only
/// servers send is refused for that reason.
pub proof fn law_parse_undoes_bytes(packet: Packet)
    ensures
        parse(packet.bytes()) == Ok::<Packet, ParseEventError>(packet) <==> packet.incoming()
            && packet.framed(),
        !packet.incoming() <==> parse(packet.bytes()) == Err::<Packet, ParseEventError>(
            ParseEventError::OnlyOutgoing,
        ),
{
    let input = packet.bytes();
    lemma_text_field(input, 1 + ID_LEN);
    match packet {
        Packet::ReserveSubdomain { subdomain } => {
            lemma_text_field_written(RESERVE_SUBDOMAIN, subdomain, Seq::empty());
            assert(input =~= seq![RESERVE_SUBDOMAIN] + encode_utf8(subdomain) + Seq::<u8>::empty());
        },
        Packet::ReplyToken { token } => {
            lemma_text_field_written(REPLY_TOKEN, token, Seq::empty());
            assert(input =~= seq![REPLY_TOKEN] + encode_utf8(token) + Seq::<u8>::empty());
        },
        Packet::Data { id, data } => {
            lemma_text_field_written(DATA, id, data);
            assert(packet.framed() ==> input.skip(1 + ID_LEN) =~= data);
        },
        Packet::Closed { id } => {
            lemma_text_field_written(CLOSED, id, Seq::empty());
            assert(input =~= seq![CLOSED] + encode_utf8(id) + Seq::<u8>::empty());
        },
        _ => {},
    }
}

/// The bytes of a packet that was read are the bytes it was read from; only
/// after a closed connection can more bytes have followed, which are ignored.
pub proof fn law_bytes_undo_parse(input: Seq<u8>)
    ensures
        parse(input) matches Ok(packet) ==> {
            &&& packet.incoming() && packet.framed()
            &&& packet.bytes() == input.take(packet.bytes().len() as int)
            &&& !(packet is Closed) ==> packet.bytes() == input
        },
{
    lemma_text_field(input, 1 + ID_LEN);
    lemma_text_field(input, input.len() as int);
    if let Ok(packet) = parse(input) {
        if packet is Closed {
            assert(packet.bytes() =~= input.take(packet.bytes().len() as int));
        } else {
            assert(packet.bytes() =~= input);
            assert(input.take(input.len() as int) =~= input);
        }
    }
}

/// What each packet is on the wire: the number of its type, and its fields one
/// after the other.
pub proof fn law_wire_format(s: Seq<char>, data: Seq<u8>)
    ensures
        (Packet::ReserveSubdomain { subdomain: s }).bytes() == seq![1u8] + encode_utf8(s),
        (Packet::PromptToken { sender: s }).bytes() == seq![2u8] + encode_utf8(s),
        (Packet::ReplyToken { token: s }).bytes() == seq![3u8] + encode_utf8(s),
        (Packet::LetsGo { public_url: s }).bytes() == seq![4u8] + encode_utf8(s),
        Packet::AuthFailed.bytes() == seq![5u8],
        (Packet::Data { id: s, data }).bytes() == seq![6u8] + encode_utf8(s) + data,
        (Packet::Closed { id: s }).bytes() == seq![7u8] + encode_utf8(s),
{
}

/// Why bytes are no packet for a server.
pub proof fn law_why_bytes_are_no_packet(input: Seq<u8>)
    ensures
        parse(input) == Err::<Packet, ParseEventError>(ParseEventError::UnknownType) <==> input.len()
            > 0 && !(1 <= input[0] <= 7),
        parse(input) == Err::<Packet, ParseEventError>(ParseEventError::OnlyOutgoing)
            <==> input.len() > 0 && (input[0] == 2 || input[0] == 4 || input[0] == 5),
        parse(input) == Err::<Packet, ParseEventError>(ParseEventError::Eof) <==> input.len() == 0
            || ((input[0] == 6 || input[0] == 7) && input.len() < 37),
        parse(input) == Err::<Packet, ParseEventError>(ParseEventError::InvalidUtf8) <==> {
            ||| input.len() >= 1 && (input[0] == 1 || input[0] == 3) && !valid_utf8(input.skip(1))
            ||| input.len() >= 37 && (input[0] == 6 || input[0] == 7) && !valid_utf8(
                input.subrange(1, 37),
            )
        },
{
    assert(input.len() >= 1 ==> input.skip(1) =~= input.subrange(1, input.len() as int));
}

} // verus!
