//! The packets that client and server exchange on the control websocket.
//!
//! A packet is one byte that tells its type, followed by its fields. Text is
//! UTF-8. Tokens and connection ids take exactly [`ID_LEN`] bytes; the last
//! field of a packet takes all bytes that are left.

use crate::text;
use vstd::prelude::*;
use vstd::slice::*;
use vstd::string::*;
use vstd::utf8::*;

verus! {

/// The version of the protocol implemented by the crate.
/// The version in a `Hello` [`Event`] must match this integer.
pub const IMPLEMENTED_PROTO_VERSION: u16 = 1;

/// The number of bytes that a token or a connection id takes in a packet.
pub const ID_LEN: usize = 36;

pub const HELLO: u8 = 1;

pub const AO_AUTH: u8 = 2;

pub const TOKEN_IN_AO_TELL: u8 = 3;

pub const PRESENT_TOKEN: u8 = 4;

pub const LETS_GO: u8 = 5;

pub const AUTH_FAILED: u8 = 6;

pub const OUT_OF_CAPACITY: u8 = 7;

pub const DISALLOWED_PACKET: u8 = 8;

pub const DATA: u8 = 9;

pub const CLOSED: u8 = 10;

/// How a server wants its clients to authenticate.
#[derive(Clone, Copy, Debug, PartialEq, Eq, Structural)]
pub enum AuthMode {
    StaticToken,
    Anonymous,
    AoTell,
}

/// The authentication mode that a byte stands for.
pub open spec fn auth_mode_of(code: u8) -> Option<AuthMode> {
    if code == 1 {
        Some(AuthMode::StaticToken)
    } else if code == 2 {
        Some(AuthMode::Anonymous)
    } else if code == 3 {
        Some(AuthMode::AoTell)
    } else {
        None
    }
}

impl AuthMode {
    /// The byte that stands for the mode.
    pub open spec fn spec_code(self) -> u8 {
        match self {
            AuthMode::StaticToken => 1,
            AuthMode::Anonymous => 2,
            AuthMode::AoTell => 3,
        }
    }

    /// The byte that stands for the mode.
    #[verifier::when_used_as_spec(spec_code)]
    pub fn code(self) -> (r: u8)
        ensures
            r == self.spec_code(),
            auth_mode_of(r) == Some(self),
    {
        match self {
            AuthMode::StaticToken => 1,
            AuthMode::Anonymous => 2,
            AuthMode::AoTell => 3,
        }
    }
}

/// Why bytes are no packet.
#[derive(Debug, Clone, Copy, PartialEq, Eq, Structural)]
pub enum ParseEventError {
    Eof,
    InvalidUtf8,
    UnknownType,
    InvalidAuthMode,
    ProtocolVersionMismatch,
}

impl TryFrom<&u8> for AuthMode {
    type Error = ParseEventError;

    fn try_from(value: &u8) -> (r: Result<Self, Self::Error>) {
        match *value {
            1 => Ok(AuthMode::StaticToken),
            2 => Ok(AuthMode::Anonymous),
            3 => Ok(AuthMode::AoTell),
            _ => Err(ParseEventError::InvalidAuthMode),
        }
    }
}

impl vstd::std_specs::convert::TryFromSpecImpl<&u8> for AuthMode {
    open spec fn obeys_try_from_spec() -> bool {
        true
    }

    open spec fn try_from_spec(value: &u8) -> Result<Self, ParseEventError> {
        match auth_mode_of(*value) {
            Some(mode) => Ok(mode),
            None => Err(ParseEventError::InvalidAuthMode),
        }
    }
}

/// A packet exchanged between client and server on the control websocket.
#[derive(Debug)]
pub enum Event<'a> {
    /// Hello packet is sent by server when a client connects.
    /// The protocol version will always be present in the first two bytes
    /// of this packet, no matter the version.
    Hello { proto_version: u16, auth_mode: AuthMode, description: &'a str },
    /// Packets for authentication flow with [`AuthMode::AoTell`].
    AoAuth { character_name: &'a str },
    TokenInAoTell { sender: &'a str },
    /// Client has a token (either static or through [`AuthMode::AoTell`]) and
    /// wants to authenticate.
    PresentToken { token: &'a str, desired_subdomain: &'a str },
    /// Server has accepted client's token and created a subdomain. The public
    /// URL may not match the desired subdomain.
    LetsGo { public_url: &'a str },
    /// Authentication has failed, the token is not valid.
    AuthFailed,
    /// Authentication was successful, but the server is out of capacity (e.g.
    /// client limit reached).
    OutOfCapacity,
    /// Disallowed packet sent (e.g. for wrong auth method).
    DisallowedPacket,
    /// A packet with raw TCP data.
    Data { id: &'a str, data: &'a [u8] },
    /// TCP connection has been terminated.
    Closed { id: &'a str },
}

/// What an [`Event`] says, without where its parts are stored.
#[verifier::ext_equal]
pub enum Packet {
    Hello { proto_version: u16, auth_mode: AuthMode, description: Seq<char> },
    AoAuth { character_name: Seq<char> },
    TokenInAoTell { sender: Seq<char> },
    PresentToken { token: Seq<char>, desired_subdomain: Seq<char> },
    LetsGo { public_url: Seq<char> },
    AuthFailed,
    OutOfCapacity,
    DisallowedPacket,
    Data { id: Seq<char>, data: Seq<u8> },
    Closed { id: Seq<char> },
}

impl<'a> View for Event<'a> {
    type V = Packet;

    open spec fn view(&self) -> Packet {
        match self {
            Event::Hello { proto_version, auth_mode, description } => Packet::Hello {
                proto_version: *proto_version,
                auth_mode: *auth_mode,
                description: description@,
            },
            Event::AoAuth { character_name } => Packet::AoAuth { character_name: character_name@ },
            Event::TokenInAoTell { sender } => Packet::TokenInAoTell { sender: sender@ },
            Event::PresentToken { token, desired_subdomain } => Packet::PresentToken {
                token: token@,
                desired_subdomain: desired_subdomain@,
            },
            Event::LetsGo { public_url } => Packet::LetsGo { public_url: public_url@ },
            Event::AuthFailed => Packet::AuthFailed,
            Event::OutOfCapacity => Packet::OutOfCapacity,
            Event::DisallowedPacket => Packet::DisallowedPacket,
            Event::Data { id, data } => Packet::Data { id: id@, data: data@ },
            Event::Closed { id } => Packet::Closed { id: id@ },
        }
    }
}

/// Whether a text takes the number of bytes that a token or an id has to take.
pub open spec fn is_id(s: Seq<char>) -> bool {
    encode_utf8(s).len() == ID_LEN
}

/// A 16-bit integer, its high byte first.
pub open spec fn be_bytes(n: u16) -> Seq<u8> {
    seq![(n / 256) as u8, (n % 256) as u8]
}

impl Packet {
    /// The bytes of the packet.
    pub open spec fn bytes(self) -> Seq<u8> {
        match self {
            Packet::Hello { proto_version, auth_mode, description } => seq![HELLO] + be_bytes(
                proto_version,
            ) + seq![auth_mode.spec_code()] + encode_utf8(description),
            Packet::AoAuth { character_name } => seq![AO_AUTH] + encode_utf8(character_name),
            Packet::TokenInAoTell { sender } => seq![TOKEN_IN_AO_TELL] + encode_utf8(sender),
            Packet::PresentToken { token, desired_subdomain } => seq![PRESENT_TOKEN] + encode_utf8(
                token,
            ) + encode_utf8(desired_subdomain),
            Packet::LetsGo { public_url } => seq![LETS_GO] + encode_utf8(public_url),
            Packet::AuthFailed => seq![AUTH_FAILED],
            Packet::OutOfCapacity => seq![OUT_OF_CAPACITY],
            Packet::DisallowedPacket => seq![DISALLOWED_PACKET],
            Packet::Data { id, data } => seq![DATA] + encode_utf8(id) + data,
            Packet::Closed { id } => seq![CLOSED] + encode_utf8(id),
        }
    }

    /// Whether the token or id of the packet, if it has one, has the length that
    /// the format provides for.
    pub open spec fn sized(self) -> bool {
        match self {
            Packet::PresentToken { token, .. } => is_id(token),
            Packet::Data { id, .. } => is_id(id),
            Packet::Closed { id } => is_id(id),
            _ => true,
        }
    }

    /// Whether the packet can be read back from its bytes: it speaks the
    /// implemented version, and its token or id has the length that the format
    /// provides for.
    pub open spec fn framed(self) -> bool {
        &&& self.sized()
        &&& self matches Packet::Hello { proto_version, .. } ==> proto_version
            == IMPLEMENTED_PROTO_VERSION
    }

    /// Whether the packet's last field takes all the bytes that are left, so
    /// that nothing can follow it.
    pub open spec fn takes_all(self) -> bool {
        !(self is AuthFailed || self is OutOfCapacity || self is DisallowedPacket
            || self is Closed)
    }
}

/// The text in `input` from `start` up to `end`.
pub open spec fn text_field(input: Seq<u8>, start: int, end: int) -> Result<
    Seq<char>,
    ParseEventError,
> {
    if start <= end <= input.len() {
        match text::text_of(input.subrange(start, end)) {
            Some(s) => Ok(s),
            None => Err(ParseEventError::InvalidUtf8),
        }
    } else {
        Err(ParseEventError::Eof)
    }
}

/// The text in `input` from `start` on.
pub open spec fn text_rest(input: Seq<u8>, start: int) -> Result<Seq<char>, ParseEventError> {
    text_field(input, start, if start <= input.len() { input.len() as int } else { start })
}

/// What follows the type byte of a `Hello` packet.
pub open spec fn parse_hello(input: Seq<u8>) -> Result<Packet, ParseEventError> {
    if input.len() < 3 {
        Err(ParseEventError::Eof)
    } else if input.subrange(1, 3) != be_bytes(IMPLEMENTED_PROTO_VERSION) {
        Err(ParseEventError::ProtocolVersionMismatch)
    } else if input.len() < 4 {
        Err(ParseEventError::Eof)
    } else {
        match auth_mode_of(input[3]) {
            None => Err(ParseEventError::InvalidAuthMode),
            Some(auth_mode) => match text_rest(input, 4) {
                Ok(description) => Ok(
                    Packet::Hello {
                        proto_version: IMPLEMENTED_PROTO_VERSION,
                        auth_mode,
                        description,
                    },
                ),
                Err(e) => Err(e),
            },
        }
    }
}

/// What follows the type byte of a `PresentToken` packet.
pub open spec fn parse_present_token(input: Seq<u8>) -> Result<Packet, ParseEventError> {
    match text_field(input, 1, 1 + ID_LEN) {
        Err(e) => Err(e),
        Ok(token) => match text_rest(input, 1 + ID_LEN) {
            Err(e) => Err(e),
            Ok(desired_subdomain) => Ok(Packet::PresentToken { token, desired_subdomain }),
        },
    }
}

/// The packet that the bytes hold, or why they hold none.
pub open spec fn parse(input: Seq<u8>) -> Result<Packet, ParseEventError> {
    if input.len() == 0 {
        Err(ParseEventError::Eof)
    } else if input[0] == HELLO {
        parse_hello(input)
    } else if input[0] == AO_AUTH {
        match text_rest(input, 1) {
            Ok(character_name) => Ok(Packet::AoAuth { character_name }),
            Err(e) => Err(e),
        }
    } else if input[0] == TOKEN_IN_AO_TELL {
        match text_rest(input, 1) {
            Ok(sender) => Ok(Packet::TokenInAoTell { sender }),
            Err(e) => Err(e),
        }
    } else if input[0] == PRESENT_TOKEN {
        parse_present_token(input)
    } else if input[0] == LETS_GO {
        match text_rest(input, 1) {
            Ok(public_url) => Ok(Packet::LetsGo { public_url }),
            Err(e) => Err(e),
        }
    } else if input[0] == AUTH_FAILED {
        Ok(Packet::AuthFailed)
    } else if input[0] == OUT_OF_CAPACITY {
        Ok(Packet::OutOfCapacity)
    } else if input[0] == DISALLOWED_PACKET {
        Ok(Packet::DisallowedPacket)
    } else if input[0] == DATA {
        match text_field(input, 1, 1 + ID_LEN) {
            Ok(id) => Ok(Packet::Data { id, data: input.skip(1 + ID_LEN) }),
            Err(e) => Err(e),
        }
    } else if input[0] == CLOSED {
        match text_field(input, 1, 1 + ID_LEN) {
            Ok(id) => Ok(Packet::Closed { id }),
            Err(e) => Err(e),
        }
    } else {
        Err(ParseEventError::UnknownType)
    }
}

/// The text in `input` from `start` up to `end`, or up to the end of `input`
/// where `end` is `None`.
pub fn try_parse_str(input: &[u8], start: usize, end: Option<usize>) -> (r: Result<
    &str,
    ParseEventError,
>)
    ensures
        match (r, (match end {
            Some(end) => text_field(input@, start as int, end as int),
            None => text_rest(input@, start as int),
        })) {
            (Ok(s), Ok(t)) => s@ == t,
            (Err(e), Err(f)) => e == f,
            _ => false,
        },
{
    let stop: usize = match end {
        Some(end) => end,
        None => input.len(),
    };
    if start <= stop && stop <= input.len() {
        match text::decode(slice_subrange(input, start, stop)) {
            Some(s) => Ok(s),
            None => Err(ParseEventError::InvalidUtf8),
        }
    } else {
        Err(ParseEventError::Eof)
    }
}

/// Appends `bytes` to `out`.
fn put(out: &mut Vec<u8>, bytes: &[u8])
    ensures
        final(out)@ == old(out)@ + bytes@,
{
    out.extend_from_slice(bytes);
    assert(out@ == old(out)@ + bytes@);
}

impl<'a> Event<'a> {
    #[must_use]
    pub fn hello(auth_mode: AuthMode, description: &'a str) -> (r: Self)
        ensures
            r@ == (Packet::Hello {
                proto_version: IMPLEMENTED_PROTO_VERSION,
                auth_mode,
                description: description@,
            }),
    {
        Event::Hello { proto_version: IMPLEMENTED_PROTO_VERSION, auth_mode, description }
    }

    #[must_use]
    pub fn ao_auth(character_name: &'a str) -> (r: Self)
        ensures
            r@ == (Packet::AoAuth { character_name: character_name@ }),
    {
        Event::AoAuth { character_name }
    }

    #[must_use]
    pub fn token_in_ao_tell(sender: &'a str) -> (r: Self)
        ensures
            r@ == (Packet::TokenInAoTell { sender: sender@ }),
    {
        Event::TokenInAoTell { sender }
    }

    #[must_use]
    pub fn present_token(token: &'a str, desired_subdomain: &'a str) -> (r: Self)
        ensures
            r@ == (Packet::PresentToken { token: token@, desired_subdomain: desired_subdomain@ }),
    {
        Event::PresentToken { token, desired_subdomain }
    }

    #[must_use]
    pub fn lets_go(public_url: &'a str) -> (r: Self)
        ensures
            r@ == (Packet::LetsGo { public_url: public_url@ }),
    {
        Event::LetsGo { public_url }
    }

    #[must_use]
    pub fn auth_failed() -> (r: Self)
        ensures
            r@ == Packet::AuthFailed,
    {
        Event::AuthFailed
    }

    #[must_use]
    pub fn out_of_capacity() -> (r: Self)
        ensures
            r@ == Packet::OutOfCapacity,
    {
        Event::OutOfCapacity
    }

    #[must_use]
    pub fn disallowed_packet() -> (r: Self)
        ensures
            r@ == Packet::DisallowedPacket,
    {
        Event::DisallowedPacket
    }

    #[must_use]
    pub fn data(id: &'a str, data: &'a [u8]) -> (r: Self)
        ensures
            r@ == (Packet::Data { id: id@, data: data@ }),
    {
        Event::Data { id, data }
    }

    #[must_use]
    pub fn closed(id: &'a str) -> (r: Self)
        ensures
            r@ == (Packet::Closed { id: id@ }),
    {
        Event::Closed { id }
    }

    /// Parse an [`Event`] from a slice of bytes.
    ///
    /// # Errors
    ///
    /// Returns a [`ParseEventError`] if parsing an event failed.
    pub fn deserialize(input: &'a [u8]) -> (r: Result<Self, ParseEventError>)
        ensures
            match (r, parse(input@)) {
                (Ok(event), Ok(packet)) => event@ == packet,
                (Err(e), Err(f)) => e == f,
                _ => false,
            },
    {
        if input.len() == 0 {
            return Err(ParseEventError::Eof);
        }
        match input[0] {
            HELLO => {
                if input.len() < 3 {
                    return Err(ParseEventError::Eof);
                }
                let proto_version: u16 = (input[1] as u16) * 256 + input[2] as u16;
                proof {
                    assert(input@.subrange(1, 3) == seq![input@[1], input@[2]]);
                    assert(be_bytes(proto_version) == seq![input@[1], input@[2]]);
                    if proto_version != IMPLEMENTED_PROTO_VERSION {
                        assert(be_bytes(proto_version)[0] != be_bytes(IMPLEMENTED_PROTO_VERSION)[0]
                            || be_bytes(proto_version)[1] != be_bytes(
                            IMPLEMENTED_PROTO_VERSION,
                        )[1]);
                    }
                }
                if proto_version != IMPLEMENTED_PROTO_VERSION {
                    return Err(ParseEventError::ProtocolVersionMismatch);
                }
                if input.len() < 4 {
                    return Err(ParseEventError::Eof);
                }
                let auth_mode = match AuthMode::try_from(&input[3]) {
                    Ok(auth_mode) => auth_mode,
                    Err(e) => return Err(e),
                };
                let description = match try_parse_str(input, 4, None) {
                    Ok(description) => description,
                    Err(e) => return Err(e),
                };
                Ok(Event::Hello { proto_version, auth_mode, description })
            },
            AO_AUTH => match try_parse_str(input, 1, None) {
                Ok(character_name) => Ok(Event::AoAuth { character_name }),
                Err(e) => Err(e),
            },
            TOKEN_IN_AO_TELL => match try_parse_str(input, 1, None) {
                Ok(sender) => Ok(Event::TokenInAoTell { sender }),
                Err(e) => Err(e),
            },
            PRESENT_TOKEN => {
                let token = match try_parse_str(input, 1, Some(1 + ID_LEN)) {
                    Ok(token) => token,
                    Err(e) => return Err(e),
                };
                let desired_subdomain = match try_parse_str(input, 1 + ID_LEN, None) {
                    Ok(desired_subdomain) => desired_subdomain,
                    Err(e) => return Err(e),
                };
                Ok(Event::PresentToken { token, desired_subdomain })
            },
            LETS_GO => match try_parse_str(input, 1, None) {
                Ok(public_url) => Ok(Event::LetsGo { public_url }),
                Err(e) => Err(e),
            },
            AUTH_FAILED => Ok(Event::AuthFailed),
            OUT_OF_CAPACITY => Ok(Event::OutOfCapacity),
            DISALLOWED_PACKET => Ok(Event::DisallowedPacket),
            DATA => {
                let id = match try_parse_str(input, 1, Some(1 + ID_LEN)) {
                    Ok(id) => id,
                    Err(e) => return Err(e),
                };
                let data: &[u8] = slice_subrange(input, 1 + ID_LEN, input.len());
                Ok(Event::Data { id, data })
            },
            CLOSED => match try_parse_str(input, 1, Some(1 + ID_LEN)) {
                Ok(id) => Ok(Event::Closed { id }),
                Err(e) => Err(e),
            },
            _ => Err(ParseEventError::UnknownType),
        }
    }

    /// The bytes of the event.
    #[must_use]
    pub fn serialize(&self) -> (r: Vec<u8>)
        ensures
            r@ == self@.bytes(),
    {
        let mut serialized: Vec<u8> = Vec::new();
        match self {
            Event::Hello { proto_version, auth_mode, description } => {
                serialized.push(HELLO);
                serialized.push((*proto_version / 256) as u8);
                serialized.push((*proto_version % 256) as u8);
                serialized.push(auth_mode.code());
                put(&mut serialized, description.as_bytes());
            },
            Event::AoAuth { character_name } => {
                serialized.push(AO_AUTH);
                put(&mut serialized, character_name.as_bytes());
            },
            Event::TokenInAoTell { sender } => {
                serialized.push(TOKEN_IN_AO_TELL);
                put(&mut serialized, sender.as_bytes());
            },
            Event::PresentToken { token, desired_subdomain } => {
                serialized.push(PRESENT_TOKEN);
                put(&mut serialized, token.as_bytes());
                put(&mut serialized, desired_subdomain.as_bytes());
            },
            Event::LetsGo { public_url } => {
                serialized.push(LETS_GO);
                put(&mut serialized, public_url.as_bytes());
            },
            Event::AuthFailed => {
                serialized.push(AUTH_FAILED);
            },
            Event::OutOfCapacity => {
                serialized.push(OUT_OF_CAPACITY);
            },
            Event::DisallowedPacket => {
                serialized.push(DISALLOWED_PACKET);
            },
            Event::Data { id, data } => {
                serialized.push(DATA);
                put(&mut serialized, id.as_bytes());
                put(&mut serialized, data);
            },
            Event::Closed { id } => {
                serialized.push(CLOSED);
                put(&mut serialized, id.as_bytes());
            },
        }
        assert(serialized@ =~= self@.bytes());
        serialized
    }
}

/// A text field that was read takes the bytes it was read from.
proof fn lemma_text_field(input: Seq<u8>, start: int, end: int)
    ensures
        text_field(input, start, end) matches Ok(s) ==> encode_utf8(s) == input.subrange(
            start,
            end,
        ),
{
    text::lemma_encoded_text_of(input.subrange(start, end));
}

/// A text field reads the text that was written there.
proof fn lemma_text_field_written(head: Seq<u8>, s: Seq<char>, tail: Seq<u8>)
    ensures
        text_field(
            head + encode_utf8(s) + tail,
            head.len() as int,
            (head.len() + encode_utf8(s).len()) as int,
        ) == Ok::<Seq<char>, ParseEventError>(s),
{
    let input = head + encode_utf8(s) + tail;
    assert(input.subrange(head.len() as int, (head.len() + encode_utf8(s).len()) as int)
        == encode_utf8(s));
    text::lemma_text_of_encoded(s);
}

/// Every packet that is read from bytes is framed.
pub proof fn law_parsed_is_framed(input: Seq<u8>)
    ensures
        parse(input) matches Ok(packet) ==> packet.framed(),
{
    lemma_text_field(input, 1, 1 + ID_LEN);
}

/// A packet is read back from its bytes exactly if it is framed: reading
/// undoes writing on the packets of the implemented version whose token or id
/// is [`ID_LEN`] bytes long, and on no others.
pub proof fn law_parse_undoes_bytes(packet: Packet)
    ensures
        parse(packet.bytes()) == Ok::<Packet, ParseEventError>(packet) <==> packet.framed(),
{
    let input = packet.bytes();
    law_parsed_is_framed(input);
    if packet.framed() {
        match packet {
            Packet::Hello { proto_version, auth_mode, description } => {
                let head = seq![HELLO] + be_bytes(proto_version) + seq![auth_mode.spec_code()];
                lemma_text_field_written(head, description, Seq::empty());
                assert(input =~= head + encode_utf8(description) + Seq::<u8>::empty());
                assert(input.subrange(1, 3) =~= be_bytes(proto_version));
            },
            Packet::AoAuth { character_name } => {
                lemma_text_field_written(seq![AO_AUTH], character_name, Seq::empty());
                assert(input =~= seq![AO_AUTH] + encode_utf8(character_name) + Seq::<u8>::empty());
            },
            Packet::TokenInAoTell { sender } => {
                lemma_text_field_written(seq![TOKEN_IN_AO_TELL], sender, Seq::empty());
                assert(input =~= seq![TOKEN_IN_AO_TELL] + encode_utf8(sender) + Seq::<
                    u8,
                >::empty());
            },
            Packet::PresentToken { token, desired_subdomain } => {
                let head = seq![PRESENT_TOKEN] + encode_utf8(token);
                lemma_text_field_written(
                    seq![PRESENT_TOKEN],
                    token,
                    encode_utf8(desired_subdomain),
                );
                lemma_text_field_written(head, desired_subdomain, Seq::empty());
                assert(input =~= head + encode_utf8(desired_subdomain) + Seq::<u8>::empty());
            },
            Packet::LetsGo { public_url } => {
                lemma_text_field_written(seq![LETS_GO], public_url, Seq::empty());
                assert(input =~= seq![LETS_GO] + encode_utf8(public_url) + Seq::<u8>::empty());
            },
            Packet::AuthFailed | Packet::OutOfCapacity | Packet::DisallowedPacket => {},
            Packet::Data { id, data } => {
                lemma_text_field_written(seq![DATA], id, data);
                assert(input.skip(1 + ID_LEN) =~= data);
            },
            Packet::Closed { id } => {
                lemma_text_field_written(seq![CLOSED], id, Seq::empty());
                assert(input =~= seq![CLOSED] + encode_utf8(id) + Seq::<u8>::empty());
            },
        }
    }
}

/// The bytes of a packet that was read are the bytes it was read from. Only
/// after a packet without a last field that takes all is left can more bytes
/// have followed; those are ignored.
pub proof fn law_bytes_undo_parse(input: Seq<u8>)
    ensures
        parse(input) matches Ok(packet) ==> {
            &&& packet.bytes() == input.take(packet.bytes().len() as int)
            &&& packet.takes_all() ==> packet.bytes() == input
        },
{
    lemma_text_field(input, 1, 1 + ID_LEN);
    lemma_text_field(input, 1, input.len() as int);
    lemma_text_field(input, 4, input.len() as int);
    lemma_text_field(input, 1 + ID_LEN, input.len() as int);
    if let Ok(packet) = parse(input) {
        match packet {
            Packet::Hello { proto_version, auth_mode, description } => {
                assert(input.subrange(1, 3)[0] == input[1] && input.subrange(1, 3)[1] == input[2]);
                assert(auth_mode.spec_code() == input[3]);
                assert(packet.bytes() =~= input);
            },
            Packet::AuthFailed
            | Packet::OutOfCapacity
            | Packet::DisallowedPacket
            | Packet::Closed { .. } => {
                assert(packet.bytes() =~= input.take(packet.bytes().len() as int));
            },
            _ => {
                assert(packet.bytes() =~= input);
            },
        }
        assert(packet.takes_all() ==> packet.bytes() =~= input.take(packet.bytes().len() as int));
    }
}

/// No two packets have the same bytes, whatever the version of a `Hello`, where
/// tokens and ids are [`ID_LEN`] bytes long.
pub proof fn law_bytes_tell_packets_apart(p: Packet, q: Packet)
    requires
        p.sized(),
        q.sized(),
        p.bytes() == q.bytes(),
    ensures
        p == q,
{
    law_parse_undoes_bytes(p);
    law_parse_undoes_bytes(q);
    match (p, q) {
        (
            Packet::Hello { proto_version: v, auth_mode: m, description: d },
            Packet::Hello { proto_version: w, auth_mode: n, description: e },
        ) => {
            assert(p.bytes().subrange(1, 3) =~= be_bytes(v));
            assert(q.bytes().subrange(1, 3) =~= be_bytes(w));
            assert(be_bytes(v)[0] == be_bytes(w)[0] && be_bytes(v)[1] == be_bytes(w)[1]);
            assert(p.bytes()[3] == m.spec_code() && q.bytes()[3] == n.spec_code());
            assert(p.bytes().skip(4) =~= encode_utf8(d));
            assert(q.bytes().skip(4) =~= encode_utf8(e));
            text::lemma_text_of_encoded(d);
            text::lemma_text_of_encoded(e);
        },
        _ => {
            assert(p.bytes()[0] == q.bytes()[0]);
        },
    }
}

/// Whatever its version, a `Hello` packet has the version right behind its
/// type byte, and a receiver refuses every version but the implemented one for
/// that reason.
pub proof fn law_hello_leads_with_version(proto_version: u16, auth_mode: AuthMode, description: Seq<char>)
    ensures
        ({
            let input = (Packet::Hello { proto_version, auth_mode, description }).bytes();
            &&& input[0] == HELLO
            &&& input.subrange(1, 3) == be_bytes(proto_version)
            &&& proto_version != IMPLEMENTED_PROTO_VERSION <==> parse(input) == Err::<
                Packet,
                ParseEventError,
            >(ParseEventError::ProtocolVersionMismatch)
        }),
{
    let packet = Packet::Hello { proto_version, auth_mode, description };
    let input = packet.bytes();
    assert(input.subrange(1, 3) =~= be_bytes(proto_version));
    law_parse_undoes_bytes(packet);
    if proto_version != IMPLEMENTED_PROTO_VERSION {
        let implemented = be_bytes(IMPLEMENTED_PROTO_VERSION);
        assert(be_bytes(proto_version)[0] != implemented[0] || be_bytes(proto_version)[1]
            != implemented[1]);
    }
}

/// What each packet is on the wire: the number of its type, and its fields one
/// after the other.
pub proof fn law_wire_format(
    version: u16,
    auth_mode: AuthMode,
    s: Seq<char>,
    t: Seq<char>,
    data: Seq<u8>,
)
    ensures
        (Packet::Hello { proto_version: version, auth_mode, description: s }).bytes() == seq![
            1u8,
            (version / 256) as u8,
            (version % 256) as u8,
            match auth_mode {
                AuthMode::StaticToken => 1u8,
                AuthMode::Anonymous => 2u8,
                AuthMode::AoTell => 3u8,
            },
        ] + encode_utf8(s),
        (Packet::AoAuth { character_name: s }).bytes() == seq![2u8] + encode_utf8(s),
        (Packet::TokenInAoTell { sender: s }).bytes() == seq![3u8] + encode_utf8(s),
        (Packet::PresentToken { token: s, desired_subdomain: t }).bytes() == seq![4u8]
            + encode_utf8(s) + encode_utf8(t),
        (Packet::LetsGo { public_url: s }).bytes() == seq![5u8] + encode_utf8(s),
        Packet::AuthFailed.bytes() == seq![6u8],
        Packet::OutOfCapacity.bytes() == seq![7u8],
        Packet::DisallowedPacket.bytes() == seq![8u8],
        (Packet::Data { id: s, data }).bytes() == seq![9u8] + encode_utf8(s) + data,
        (Packet::Closed { id: s }).bytes() == seq![10u8] + encode_utf8(s),
{
    assert((Packet::Hello { proto_version: version, auth_mode, description: s }).bytes() =~= seq![
        1u8,
        (version / 256) as u8,
        (version % 256) as u8,
        auth_mode.spec_code(),
    ] + encode_utf8(s));
}

/// Why bytes are no packet. The type is unknown if it is none of the ten; the
/// version or the mode is wrong if it is there and not one that is known; the end
/// came too early if the fields of fixed length do not fit; and what is left is
/// text that is not UTF-8.
pub proof fn law_why_bytes_are_no_packet(input: Seq<u8>)
    ensures
        parse(input) == Err::<Packet, ParseEventError>(ParseEventError::UnknownType) <==> input.len()
            > 0 && !(1 <= input[0] <= 10),
        parse(input) == Err::<Packet, ParseEventError>(ParseEventError::ProtocolVersionMismatch)
            <==> input.len() >= 3 && input[0] == 1 && !(input[1] == 0 && input[2] == 1),
        parse(input) == Err::<Packet, ParseEventError>(ParseEventError::InvalidAuthMode)
            <==> input.len() >= 4 && input[0] == 1 && input[1] == 0 && input[2] == 1 && !(1
            <= input[3] <= 3),
        parse(input) == Err::<Packet, ParseEventError>(ParseEventError::Eof) <==> {
            ||| input.len() == 0
            ||| input[0] == 1 && input.len() < 3
            ||| input[0] == 1 && input.len() == 3 && input[1] == 0 && input[2] == 1
            ||| (input[0] == 4 || input[0] == 9 || input[0] == 10) && input.len() < 37
        },
        parse(input) == Err::<Packet, ParseEventError>(ParseEventError::InvalidUtf8) <==> {
            ||| input.len() >= 4 && input[0] == 1 && input[1] == 0 && input[2] == 1 && 1 <= input[3]
                <= 3 && !valid_utf8(input.skip(4))
            ||| input.len() >= 1 && (input[0] == 2 || input[0] == 3 || input[0] == 5)
                && !valid_utf8(input.skip(1))
            ||| input.len() >= 37 && (input[0] == 4 || input[0] == 9 || input[0] == 10)
                && !valid_utf8(input.subrange(1, 37))
            ||| input.len() >= 37 && input[0] == 4 && !valid_utf8(input.skip(37))
        },
{
    if input.len() >= 3 {
        assert(input.subrange(1, 3) =~= seq![input[1], input[2]]);
        assert(be_bytes(IMPLEMENTED_PROTO_VERSION) =~= seq![0u8, 1u8]);
        if input.subrange(1, 3) == seq![0u8, 1u8] {
            assert(input.subrange(1, 3)[0] == 0 && input.subrange(1, 3)[1] == 1);
        }
    }
    assert(input.len() >= 4 ==> input.skip(4) =~= input.subrange(4, input.len() as int));
    assert(input.len() >= 1 ==> input.skip(1) =~= input.subrange(1, input.len() as int));
    assert(input.len() >= 37 ==> input.skip(37) =~= input.subrange(37, input.len() as int));
}

/// A text field takes exactly the bytes from its start to its end: it reads the
/// text that was written there, whatever stands before and behind it, and it is
/// at fault for nothing else.
pub proof fn law_text_field(head: Seq<u8>, s: Seq<char>, tail: Seq<u8>, input: Seq<u8>, start: int, end: int)
    requires
        0 <= start,
    ensures
        text_field(
            head + encode_utf8(s) + tail,
            head.len() as int,
            (head.len() + encode_utf8(s).len()) as int,
        ) == Ok::<Seq<char>, ParseEventError>(s),
        text_rest(head + encode_utf8(s), head.len() as int) == Ok::<Seq<char>, ParseEventError>(s),
        text_field(input, start, end) == Err::<Seq<char>, ParseEventError>(ParseEventError::Eof)
            <==> start > end || end > input.len(),
        text_field(input, start, end) == Err::<Seq<char>, ParseEventError>(
            ParseEventError::InvalidUtf8,
        ) <==> start <= end <= input.len() && !valid_utf8(input.subrange(start, end)),
{
    lemma_text_field_written(head, s, tail);
    lemma_text_field_written(head, s, Seq::empty());
    assert(head + encode_utf8(s) + Seq::<u8>::empty() =~= head + encode_utf8(s));
}

} // verus!
