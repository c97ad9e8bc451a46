//! A client: it lets a server tunnel connections to a port of its own machine.
//!
//! A client is told what arrives on the control websocket and what came of what
//! it asked for, and says what is to be done.

use crate::auth::AuthState;
use crate::auth::Knowledge;
use crate::config;
use crate::config::AuthBackend;
use crate::config::SubdomainStrategy;
use crate::event::News;
use crate::proto;
use crate::proto::AuthMode;
use crate::proto::Event;
use crate::proto::Packet;
use crate::proto::ParseEventError;
use crate::request;
use crate::session;
use crate::session::Deed;
use crate::session::Frame;
use crate::session::Heard;
use crate::session::Progress;
use crate::state::Server;
use crate::tunnel;
use vstd::hash_set::StringHashSet;
use vstd::prelude::*;
use vstd::slice::*;
use vstd::string::*;
use vstd::utf8::*;

verus! {

/// What is answered in place of a local server that cannot be reached.
pub const GATEWAY_ERROR: &'static str = "HTTP/1.1 502\r\nContent-Length: 0\r\n\r\n";

/// The settings of a client.
#[derive(Debug)]
pub struct Args {
    /// Port of the local HTTP server to tunnel to.
    pub port: u16,
    /// Desired subdomain.
    pub subdomain: String,
    /// URL of the remote drill server entrypoint.
    pub drill: String,
    /// Token for static token authentication.
    pub token: Option<String>,
}

/// Why a client cannot go on.
#[derive(Debug, Clone, Copy, PartialEq, Eq, Structural)]
pub enum ClientError {
    /// The server sent something that is no packet.
    Proto(ParseEventError),
    /// The first packet of the server was no `Hello`.
    ExpectedHello,
}

impl From<ParseEventError> for ClientError {
    fn from(value: ParseEventError) -> (r: Self) {
        ClientError::Proto(value)
    }
}

impl vstd::std_specs::convert::FromSpecImpl<ParseEventError> for ClientError {
    open spec fn obeys_from_spec() -> bool {
        true
    }

    open spec fn from_spec(value: ParseEventError) -> Self {
        ClientError::Proto(value)
    }
}

/// What a client does about the greeting of a server.
#[derive(Debug)]
pub enum Reply {
    /// Send this packet.
    Present(Vec<u8>),
    /// Leave: the server tells tokens in the game, which is not supported.
    Unsupported,
    /// Leave: the server asks for a token, and there is none.
    TokenMissing,
}

/// What a [`Reply`] says.
#[verifier::ext_equal]
pub enum Introduction {
    Present(Seq<u8>),
    Unsupported,
    TokenMissing,
}

impl View for Reply {
    type V = Introduction;

    open spec fn view(&self) -> Introduction {
        match self {
            Reply::Present(packet) => Introduction::Present(packet@),
            Reply::Unsupported => Introduction::Unsupported,
            Reply::TokenMissing => Introduction::TokenMissing,
        }
    }
}

/// A server introduced itself.
#[derive(Debug)]
pub struct Greeting {
    pub auth_mode: AuthMode,
    pub description: String,
    pub reply: Reply,
}

/// The token that is presented where any will do.
pub open spec fn any_token() -> Seq<char> {
    Seq::new(36, |i: int| 'A')
}

/// The token that a client which was given `token` presents to a server that
/// wants `auth_mode`.
pub open spec fn token_for(auth_mode: AuthMode, token: Option<Seq<char>>) -> Option<Seq<char>> {
    match (auth_mode, token) {
        (AuthMode::AoTell, _) => None,
        (_, Some(token)) => Some(token),
        (AuthMode::Anonymous, None) => Some(any_token()),
        (AuthMode::StaticToken, None) => None,
    }
}

/// How a client introduces itself to a server that wants `auth_mode`.
pub open spec fn introduction(
    auth_mode: AuthMode,
    token: Option<Seq<char>>,
    desired_subdomain: Seq<char>,
) -> Introduction {
    match token_for(auth_mode, token) {
        Some(token) => Introduction::Present(
            (Packet::PresentToken { token, desired_subdomain }).bytes(),
        ),
        None => if auth_mode == AuthMode::AoTell {
            Introduction::Unsupported
        } else {
            Introduction::TokenMissing
        },
    }
}

/// What a client makes of the first message of a server: the mode and the
/// description that the server states, and how the client introduces itself.
pub open spec fn first_impression(
    payload: Seq<u8>,
    token: Option<Seq<char>>,
    desired_subdomain: Seq<char>,
) -> Result<(AuthMode, Seq<char>, Introduction), ClientError> {
    match proto::parse(payload) {
        Ok(Packet::Hello { auth_mode, description, .. }) => Ok(
            (auth_mode, description, introduction(auth_mode, token, desired_subdomain)),
        ),
        Ok(_) => Err(ClientError::ExpectedHello),
        Err(e) => Err(ClientError::Proto(e)),
    }
}

/// What a client with the settings `args` does about the first message of a
/// server.
pub fn greet(payload: &[u8], args: &Args) -> (r: Result<Greeting, ClientError>)
    ensures
        match (r, proto::parse(payload@)) {
            (Err(ClientError::Proto(e)), Err(f)) => e == f,
            (Err(ClientError::ExpectedHello), Ok(packet)) => !(packet is Hello),
            (Ok(greeting), Ok(Packet::Hello { auth_mode, description, .. })) => {
                &&& greeting.auth_mode == auth_mode
                &&& greeting.description@ == description
                &&& greeting.reply@ == introduction(
                    auth_mode,
                    (match args.token {
                        Some(token) => Some(token@),
                        None => None,
                    }),
                    args.subdomain@,
                )
            },
            _ => false,
        },
        match (
            r,
            first_impression(
                payload@,
                (match args.token {
                    Some(token) => Some(token@),
                    None => None,
                }),
                args.subdomain@,
            ),
        ) {
            (Ok(greeting), Ok((auth_mode, description, introduction))) => {
                &&& greeting.auth_mode == auth_mode
                &&& greeting.description@ == description
                &&& greeting.reply@ == introduction
            },
            (Err(e), Err(f)) => e == f,
            _ => false,
        },
{
    let (auth_mode, description) = match Event::deserialize(payload) {
        Ok(Event::Hello { auth_mode, description, .. }) => (auth_mode, description.to_owned()),
        Ok(_) => return Err(ClientError::ExpectedHello),
        Err(e) => return Err(ClientError::from(e)),
    };
    let token: &str = match (auth_mode, &args.token) {
        (AuthMode::AoTell, _) => {
            return Ok(Greeting { auth_mode, description, reply: Reply::Unsupported });
        },
        (_, Some(token)) => token.as_str(),
        (AuthMode::Anonymous, None) => {
            proof {
                reveal_strlit("AAAAAAAAAAAAAAAAAAAAAAAAAAAAAAAAAAAA");
                assert("AAAAAAAAAAAAAAAAAAAAAAAAAAAAAAAAAAAA"@ =~= any_token());
            }
            "AAAAAAAAAAAAAAAAAAAAAAAAAAAAAAAAAAAA"
        },
        (AuthMode::StaticToken, None) => {
            return Ok(Greeting { auth_mode, description, reply: Reply::TokenMissing });
        },
    };
    let packet: Vec<u8> = Event::present_token(token, args.subdomain.as_str()).serialize();
    Ok(Greeting { auth_mode, description, reply: Reply::Present(packet) })
}

/// What is to be done for a client.
#[derive(Debug)]
pub enum ClientAction {
    /// Nothing.
    Continue,
    /// Tell the user that the tunnel is open under this URL.
    Live(String),
    /// Leave: the token was rejected.
    AuthFailed,
    /// Leave: the server is out of capacity.
    OutOfCapacity,
    /// Leave: the server sent a packet that a server does not send.
    ProtocolError,
    /// Write the data to the local connection `id`.
    Write { id: String, data: Vec<u8> },
    /// Connect to the local server for the connection `id`, and write the data
    /// to it.
    Connect { id: String, data: Vec<u8> },
    /// Shut the local connection down.
    Shutdown(String),
}

/// What a [`ClientAction`] says.
#[verifier::ext_equal]
pub enum ClientDeed {
    Continue,
    Live(Seq<char>),
    AuthFailed,
    OutOfCapacity,
    ProtocolError,
    Write { id: Seq<char>, data: Seq<u8> },
    Connect { id: Seq<char>, data: Seq<u8> },
    Shutdown(Seq<char>),
}

impl View for ClientAction {
    type V = ClientDeed;

    open spec fn view(&self) -> ClientDeed {
        match self {
            ClientAction::Continue => ClientDeed::Continue,
            ClientAction::Live(public_url) => ClientDeed::Live(public_url@),
            ClientAction::AuthFailed => ClientDeed::AuthFailed,
            ClientAction::OutOfCapacity => ClientDeed::OutOfCapacity,
            ClientAction::ProtocolError => ClientDeed::ProtocolError,
            ClientAction::Write { id, data } => ClientDeed::Write { id: id@, data: data@ },
            ClientAction::Connect { id, data } => ClientDeed::Connect { id: id@, data: data@ },
            ClientAction::Shutdown(id) => ClientDeed::Shutdown(id@),
        }
    }
}

/// What is to be done when the server sent `packet`, while the connections
/// `open` are open.
pub open spec fn deed_of_packet(open: Set<Seq<char>>, packet: Packet) -> ClientDeed {
    match packet {
        Packet::LetsGo { public_url } => ClientDeed::Live(public_url),
        Packet::AuthFailed => ClientDeed::AuthFailed,
        Packet::OutOfCapacity => ClientDeed::OutOfCapacity,
        Packet::Data { id, data } => if open.contains(id) {
            ClientDeed::Write { id, data }
        } else {
            ClientDeed::Connect { id, data }
        },
        Packet::Closed { id } => if open.contains(id) {
            ClientDeed::Shutdown(id)
        } else {
            ClientDeed::Continue
        },
        _ => ClientDeed::ProtocolError,
    }
}

/// Which connections are open after the server sent `packet`.
pub open spec fn open_after_packet(open: Set<Seq<char>>, packet: Packet) -> Set<Seq<char>> {
    match packet {
        Packet::Closed { id } => open.remove(id),
        _ => open,
    }
}

/// What is to be done when something was heard on the websocket.
pub open spec fn deed_of_frame(open: Set<Seq<char>>, heard: Heard) -> Result<
    ClientDeed,
    ParseEventError,
> {
    match heard {
        Heard::Payload(payload) => match proto::parse(payload) {
            Ok(packet) => Ok(deed_of_packet(open, packet)),
            Err(e) => Err(e),
        },
        _ => Ok(ClientDeed::Continue),
    }
}

/// Which connections are open after something was heard on the websocket.
pub open spec fn open_after_frame(open: Set<Seq<char>>, heard: Heard) -> Set<Seq<char>> {
    match heard {
        Heard::Payload(payload) => match proto::parse(payload) {
            Ok(packet) => open_after_packet(open, packet),
            Err(_) => open,
        },
        _ => open,
    }
}

/// What came of connecting to the local server.
#[derive(Debug, Clone, Copy, PartialEq, Eq, Structural)]
pub enum Connecting {
    /// There is no connection.
    Refused,
    /// There was one, but the data could not be written to it.
    WriteFailed,
    /// The connection is open, and the data was written to it.
    Established,
}

/// The packets to send for what came of connecting to the local server.
pub open spec fn packets_for(id: Seq<char>, outcome: Connecting) -> Seq<Packet> {
    match outcome {
        Connecting::Refused => seq![
            Packet::Data { id, data: encode_utf8(GATEWAY_ERROR@) },
            Packet::Closed { id },
        ],
        Connecting::WriteFailed => seq![Packet::Closed { id }],
        Connecting::Established => seq![],
    }
}

/// Which connections are open after an attempt to connect to the local server.
pub open spec fn open_after_connecting(
    open: Set<Seq<char>>,
    id: Seq<char>,
    outcome: Connecting,
) -> Set<Seq<char>> {
    if outcome == Connecting::Established {
        open.insert(id)
    } else {
        open
    }
}

/// Which connections are open after data was written to one, or that failed.
pub open spec fn open_after_writing(open: Set<Seq<char>>, id: Seq<char>, success: bool) -> Set<
    Seq<char>,
> {
    if success {
        open
    } else {
        open.remove(id)
    }
}

/// The packet to send after data was written to a connection, or that failed.
pub open spec fn packet_of_writing(id: Seq<char>, success: bool) -> Option<Packet> {
    if success {
        None
    } else {
        Some(Packet::Closed { id })
    }
}

/// Whether to go on reading a local connection after `read` was read from it.
pub open spec fn reads_on(read: Option<Seq<u8>>) -> bool {
    read is Some && read->0.len() > 0
}

/// The packet to send when `read` was read from a local connection, which is
/// `None` where reading failed.
pub open spec fn packet_of_read(id: Seq<char>, read: Option<Seq<u8>>) -> Packet {
    match read {
        Some(data) => if data.len() == 0 {
            Packet::Closed { id }
        } else {
            Packet::Data { id, data }
        },
        None => Packet::Closed { id },
    }
}

/// A client that presented its token.
pub struct Client {
    pub connections: StringHashSet,
}

impl View for Client {
    type V = Set<Seq<char>>;

    open spec fn view(&self) -> Set<Seq<char>> {
        self.connections@
    }
}

impl Client {
    /// A client without connections.
    pub fn new() -> (r: Self)
        ensures
            r@ == Set::<Seq<char>>::empty(),
    {
        Client { connections: StringHashSet::new() }
    }

    /// A frame arrived on the websocket.
    pub fn on_frame(&mut self, frame: Frame<'_>) -> (r: Result<ClientAction, ClientError>)
        ensures
            match (r, deed_of_frame(old(self)@, frame@)) {
                (Ok(action), Ok(deed)) => action@ == deed,
                (Err(e), Err(f)) => e == ClientError::Proto(f),
                _ => false,
            },
            final(self)@ == open_after_frame(old(self)@, frame@),
    {
        let payload: &[u8] = match frame {
            Frame::Payload(payload) => payload,
            _ => return Ok(ClientAction::Continue),
        };
        let event = match Event::deserialize(payload) {
            Ok(event) => event,
            Err(e) => return Err(ClientError::from(e)),
        };
        let action = match event {
            Event::LetsGo { public_url } => ClientAction::Live(public_url.to_owned()),
            Event::AuthFailed => ClientAction::AuthFailed,
            Event::OutOfCapacity => ClientAction::OutOfCapacity,
            Event::Data { id, data } => {
                if self.connections.contains(id) {
                    ClientAction::Write { id: id.to_owned(), data: slice_to_vec(data) }
                } else {
                    ClientAction::Connect { id: id.to_owned(), data: slice_to_vec(data) }
                }
            },
            Event::Closed { id } => {
                if self.connections.remove(id) {
                    ClientAction::Shutdown(id.to_owned())
                } else {
                    ClientAction::Continue
                }
            },
            _ => ClientAction::ProtocolError,
        };
        Ok(action)
    }

    /// Data was written to a local connection, or that failed. Returns the
    /// packet to send, if there is one.
    pub fn on_written(&mut self, id: &str, success: bool) -> (r: Option<Vec<u8>>)
        ensures
            final(self)@ == (if success {
                old(self)@
            } else {
                old(self)@.remove(id@)
            }),
            r is Some <==> !success,
            r matches Some(packet) ==> packet@ == (Packet::Closed { id: id@ }).bytes(),
            final(self)@ == open_after_writing(old(self)@, id@, success),
            match (r, packet_of_writing(id@, success)) {
                (Some(sent), Some(packet)) => sent@ == packet.bytes(),
                (None, None) => true,
                _ => false,
            },
    {
        if success {
            None
        } else {
            let _ = self.connections.remove(id);
            Some(Event::closed(id).serialize())
        }
    }

    /// An attempt was made to connect to the local server. Returns the packets
    /// to send.
    pub fn on_connecting(&mut self, id: &str, outcome: Connecting) -> (r: Vec<Vec<u8>>)
        ensures
            final(self)@ == (if outcome == Connecting::Established {
                old(self)@.insert(id@)
            } else {
                old(self)@
            }),
            final(self)@ == open_after_connecting(old(self)@, id@, outcome),
            r@.map_values(|packet: Vec<u8>| packet@) == packets_for(id@, outcome).map_values(
                |packet: Packet| packet.bytes(),
            ),
    {
        let mut packets: Vec<Vec<u8>> = Vec::new();
        match outcome {
            Connecting::Refused => {
                packets.push(Event::data(id, GATEWAY_ERROR.as_bytes()).serialize());
                packets.push(Event::closed(id).serialize());
            },
            Connecting::WriteFailed => {
                packets.push(Event::closed(id).serialize());
            },
            Connecting::Established => {
                let _ = self.connections.insert(id.to_owned());
            },
        }
        assert(packets@.map_values(|packet: Vec<u8>| packet@) =~= packets_for(
            id@,
            outcome,
        ).map_values(|packet: Packet| packet.bytes()));
        packets
    }
}

/// Passes on what was read from the local connection `id`, which is `None` where
/// reading failed. Returns the packet to send, and whether to go on reading.
pub fn pass_on(id: &str, read: Option<&[u8]>) -> (r: (Vec<u8>, bool))
    ensures
        r.0@ == packet_of_read(
            id@,
            (match read {
                Some(data) => Some(data@),
                None => None,
            }),
        ).bytes(),
        r.1 <==> (read matches Some(data) && data@.len() > 0),
        r.1 == reads_on(
            (match read {
                Some(data) => Some(data@),
                None => None,
            }),
        ),
{
    match read {
        Some(data) => {
            if data.len() == 0 {
                (Event::closed(id).serialize(), false)
            } else {
                (Event::data(id, data).serialize(), true)
            }
        },
        None => (Event::closed(id).serialize(), false),
    }
}

/// What is answered in place of a local server is an HTTP answer without a body
/// that states so.
pub proof fn law_gateway_error_is_an_answer()
    ensures
        GATEWAY_ERROR@ == request::http_answer("502"@, Seq::empty()),
{
    reveal_strlit("HTTP/1.1 502\r\nContent-Length: 0\r\n\r\n");
    reveal_strlit("HTTP/1.1 ");
    reveal_strlit("502");
    reveal_strlit("\r\nContent-Length: ");
    reveal_strlit("\r\n\r\n");
    is_ascii_chars_encode_utf8(Seq::empty());
    reveal_with_fuel(request::decimal, 2);
    assert(GATEWAY_ERROR@ =~= request::http_answer("502"@, Seq::empty()));
}

/// A client that was given no token can still introduce itself where any token
/// will do: the server reads a token of the right length and the subdomain that
/// the client wants. Given a token of the right length, it introduces itself
/// with that one wherever it introduces itself at all.
pub proof fn law_server_reads_the_introduction(
    auth_mode: AuthMode,
    token: Option<Seq<char>>,
    desired_subdomain: Seq<char>,
)
    requires
        token matches Some(token) ==> proto::is_id(token),
    ensures
        introduction(auth_mode, token, desired_subdomain) matches Introduction::Present(packet)
            ==> proto::parse(packet) == Ok::<Packet, ParseEventError>(
            Packet::PresentToken {
                token: (match token {
                    Some(token) => token,
                    None => any_token(),
                }),
                desired_subdomain,
            },
        ),
        introduction(auth_mode, token, desired_subdomain) is Present <==> auth_mode
            == AuthMode::Anonymous || (auth_mode == AuthMode::StaticToken && token is Some),
{
    assert(is_ascii_chars(any_token()));
    is_ascii_chars_encode_utf8(any_token());
    if let Some(token) = token_for(auth_mode, token) {
        proto::law_parse_undoes_bytes(Packet::PresentToken { token, desired_subdomain });
    }
}

/// The first data for a connection opens it, and what follows is written to it,
/// until it is closed; after that data would open it anew.
pub proof fn law_data_opens_a_connection_once(
    open: Set<Seq<char>>,
    id: Seq<char>,
    first: Seq<u8>,
    data: Seq<u8>,
)
    requires
        !open.contains(id),
    ensures
        deed_of_packet(open, Packet::Data { id, data: first }) == (ClientDeed::Connect {
            id,
            data: first,
        }),
        deed_of_packet(open.insert(id), Packet::Data { id, data }) == (ClientDeed::Write {
            id,
            data,
        }),
        deed_of_packet(open.insert(id), Packet::Closed { id }) == ClientDeed::Shutdown(id),
        open_after_packet(open.insert(id), Packet::Closed { id }) == open,
        deed_of_packet(open, Packet::Closed { id }) == ClientDeed::Continue,
{
    assert(open.insert(id).remove(id) =~= open);
}

/// Who sends a request that cannot reach the local server is answered so: the
/// server delivers the answer to that very connection, and closes it.
pub proof fn law_unreachable_server_is_answered_for(
    session: Progress,
    server: Server,
    id: Seq<char>,
    sender: Seq<char>,
    listener: Seq<char>,
    token: Seq<char>,
    random: Seq<char>,
)
    requires
        session.auth_state == AuthState::Proxying,
        session.streams.contains_key(id),
        session.streams[id] == sender,
        proto::is_id(id),
    ensures
        ({
            let packets = packets_for(id, Connecting::Refused);
            let answer = Heard::Payload(packets[0].bytes());
            let end = Heard::Payload(packets[1].bytes());
            let first = session.frame_arrives(server, answer, listener, token, random);
            let second = first.session.frame_arrives(server, end, listener, token, random);
            &&& packets.len() == 2
            &&& first.deed == (Deed::Deliver {
                sender,
                news: News::Data { id, data: encode_utf8(GATEWAY_ERROR@) },
            })
            &&& second.deed == (Deed::Deliver { sender, news: News::Close { id } })
            &&& !second.session.streams.contains_key(id)
        }),
{
    let packets = packets_for(id, Connecting::Refused);
    proto::law_parse_undoes_bytes(packets[0]);
    proto::law_parse_undoes_bytes(packets[1]);
}

/// A request goes through the tunnel unchanged: what is read from a connection
/// to the server is what the client writes to its local connection of the same
/// id.
pub proof fn law_tunnel_carries_requests(open: Set<Seq<char>>, id: Seq<char>, data: Seq<u8>)
    requires
        proto::is_id(id),
        data.len() > 0,
    ensures
        tunnel::news_of_read(id, Some(data)) matches Some(news) && session::deed_of_news(
            news,
        ) matches Deed::Send(packet) && deed_of_frame(open, Heard::Payload(packet)) matches Ok(deed)
            && deed == (if open.contains(id) {
            ClientDeed::Write { id, data }
        } else {
            ClientDeed::Connect { id, data }
        }),
{
    proto::law_parse_undoes_bytes(Packet::Data { id, data });
}

/// An answer goes through the tunnel unchanged: what the client reads from a
/// local connection is what the server writes to the connection of the same id.
/// When the local connection ends the server closes that connection.
pub proof fn law_tunnel_carries_answers(
    session: Progress,
    server: Server,
    id: Seq<char>,
    read: Option<Seq<u8>>,
    listener: Seq<char>,
    token: Seq<char>,
    random: Seq<char>,
)
    requires
        session.auth_state == AuthState::Proxying,
        session.streams.contains_key(id),
        proto::is_id(id),
    ensures
        ({
            let payload = Heard::Payload(packet_of_read(id, read).bytes());
            session.frame_arrives(server, payload, listener, token, random).deed
                matches Deed::Deliver { sender, news } && sender == session.streams[id]
                && tunnel::written_for(news) == (match read {
                Some(data) => if data.len() > 0 {
                    Some(data)
                } else {
                    None
                },
                None => None,
            })
        }),
{
    proto::law_parse_undoes_bytes(packet_of_read(id, read));
}

/// When a connection to the server ends, the client shuts its local connection
/// of the same id down, if it has one.
pub proof fn law_tunnel_carries_the_end(open: Set<Seq<char>>, id: Seq<char>)
    requires
        proto::is_id(id),
    ensures
        session::deed_of_news(News::Close { id }) matches Deed::Send(packet) && deed_of_frame(
            open,
            Heard::Payload(packet),
        ) matches Ok(deed) && deed == (if open.contains(id) {
            ClientDeed::Shutdown(id)
        } else {
            ClientDeed::Continue
        }) && !open_after_frame(open, Heard::Payload(packet)).contains(id),
{
    proto::law_parse_undoes_bytes(Packet::Closed { id });
}

/// A client takes what a session sends it once it was let in: the public URL,
/// which is the one that the session means, and all news of connections. It
/// never leaves because of such a packet.
pub proof fn law_client_takes_its_url_and_news(
    open: Set<Seq<char>>,
    news: News,
    subdomain: Seq<char>,
    session: Progress,
    server: Server,
    listener: Seq<char>,
)
    requires
        match news {
            News::New { .. } => true,
            News::Data { id, .. } => proto::is_id(id),
            News::Close { id } => proto::is_id(id),
        },
    ensures
        session::deed_of_news(news) matches Deed::Send(packet) ==> deed_of_frame(
            open,
            Heard::Payload(packet),
        ) matches Ok(deed) && deed != ClientDeed::ProtocolError,
        session.granted(server, subdomain, listener).deed matches Deed::GoLive(packet)
            ==> deed_of_frame(open, Heard::Payload(packet)) == Ok::<ClientDeed, ParseEventError>(
            ClientDeed::Live(session::public_url(subdomain, server.config.domain@)),
        ),
{
    match news {
        News::Data { id, data } => {
            proto::law_parse_undoes_bytes(Packet::Data { id, data });
        },
        News::Close { id } => {
            proto::law_parse_undoes_bytes(Packet::Closed { id });
        },
        News::New { .. } => {},
    }
    proto::law_parse_undoes_bytes(
        Packet::LetsGo { public_url: session::public_url(subdomain, server.config.domain@) },
    );
}

/// A client gets the subdomain that it asks for if it can have it: where clients
/// choose their subdomains and any token will do, or the client has one that is
/// accepted, the server answers the introduction by letting the client in, and
/// the client learns the URL of that very subdomain.
pub proof fn law_client_gets_its_subdomain(
    session: Progress,
    server: Server,
    token: Option<Seq<char>>,
    desired_subdomain: Seq<char>,
    listener: Seq<char>,
    fresh: Seq<char>,
    random: Seq<char>,
    open: Set<Seq<char>>,
)
    requires
        session.auth_state == AuthState::AwaitingToken,
        server.config.subdomain_strategy == SubdomainStrategy::ClientChoice,
        match server.known {
            Knowledge::Anonymous => token matches Some(token) ==> proto::is_id(token),
            Knowledge::Private(accepted) => token matches Some(token) && proto::is_id(token)
                && accepted.contains(token),
            _ => false,
        },
        server.admits(desired_subdomain),
    ensures
        ({
            let auth_mode = if server.known is Anonymous {
                AuthMode::Anonymous
            } else {
                AuthMode::StaticToken
            };
            introduction(auth_mode, token, desired_subdomain) matches Introduction::Present(packet)
                && session.frame_arrives(
                server,
                Heard::Payload(packet),
                listener,
                fresh,
                random,
            ).deed matches Deed::GoLive(answer) && deed_of_frame(open, Heard::Payload(answer))
                matches Ok(deed) && deed == ClientDeed::Live(
                session::public_url(desired_subdomain, server.config.domain@),
            )
        }),
{
    let auth_mode = if server.known is Anonymous {
        AuthMode::Anonymous
    } else {
        AuthMode::StaticToken
    };
    law_server_reads_the_introduction(auth_mode, token, desired_subdomain);
    proto::law_parse_undoes_bytes(
        Packet::LetsGo {
            public_url: session::public_url(desired_subdomain, server.config.domain@),
        },
    );
}

/// Connections do not mix at the client: a packet changes whether a connection is
/// open only if it closes that very connection, so data for one leaves all others
/// open, and after an end all others are as they were. What becomes of one
/// attempt to connect or to write changes nothing for any other connection.
pub proof fn law_connections_do_not_mix(
    open: Set<Seq<char>>,
    packet: Packet,
    id: Seq<char>,
    other: Seq<char>,
    outcome: Connecting,
    success: bool,
)
    requires
        other != id,
    ensures
        open_after_packet(open, packet).contains(other) != open.contains(other) ==> packet == (
        Packet::Closed { id: other }),
        !(packet is Closed) ==> open_after_packet(open, packet) == open,
        open_after_packet(open, Packet::Closed { id }) == open.remove(id),
        open_after_connecting(open, id, outcome).contains(other) == open.contains(other),
        open_after_writing(open, id, success).contains(other) == open.contains(other),
{
}

/// Data for two open connections is written to each of them, in whichever order
/// it comes.
pub proof fn law_two_connections_are_both_served(
    open: Set<Seq<char>>,
    a: Seq<char>,
    x: Seq<u8>,
    b: Seq<char>,
    y: Seq<u8>,
)
    requires
        proto::is_id(a),
        proto::is_id(b),
        open.contains(a),
        open.contains(b),
    ensures
        ({
            let first = Heard::Payload((Packet::Data { id: a, data: x }).bytes());
            let second = Heard::Payload((Packet::Data { id: b, data: y }).bytes());
            &&& deed_of_frame(open, first) == Ok::<ClientDeed, ParseEventError>(
                ClientDeed::Write { id: a, data: x },
            )
            &&& deed_of_frame(open_after_frame(open, first), second) == Ok::<
                ClientDeed,
                ParseEventError,
            >(ClientDeed::Write { id: b, data: y })
            &&& open_after_frame(open_after_frame(open, first), second) == open
        }),
{
    proto::law_parse_undoes_bytes(Packet::Data { id: a, data: x });
    proto::law_parse_undoes_bytes(Packet::Data { id: b, data: y });
}

/// What a client makes of what it hears: a frame that is no payload is ignored; a
/// payload that is no packet is an error, and nothing changes; and a packet means
/// what it says, one that servers do not send being an error of the protocol.
pub proof fn law_what_the_client_makes_of_it(
    open: Set<Seq<char>>,
    payload: Seq<u8>,
    id: Seq<char>,
    data: Seq<u8>,
)
    ensures
        deed_of_frame(open, Heard::Pong) == Ok::<ClientDeed, ParseEventError>(ClientDeed::Continue),
        deed_of_frame(open, Heard::Other) == Ok::<ClientDeed, ParseEventError>(
            ClientDeed::Continue,
        ),
        open_after_frame(open, Heard::Pong) == open,
        open_after_frame(open, Heard::Other) == open,
        match proto::parse(payload) {
            Err(e) => {
                &&& deed_of_frame(open, Heard::Payload(payload)) == Err::<
                    ClientDeed,
                    ParseEventError,
                >(e)
                &&& open_after_frame(open, Heard::Payload(payload)) == open
            },
            Ok(packet) => deed_of_frame(open, Heard::Payload(payload)) matches Ok(deed) && {
                &&& packet matches Packet::LetsGo { public_url } ==> deed == ClientDeed::Live(
                    public_url,
                )
                &&& packet is AuthFailed <==> deed == ClientDeed::AuthFailed
                &&& packet is OutOfCapacity <==> deed == ClientDeed::OutOfCapacity
                &&& packet is Hello || packet is AoAuth || packet is TokenInAoTell || packet
                    is PresentToken || packet is DisallowedPacket <==> deed
                    == ClientDeed::ProtocolError
                &&& deed is Live ==> packet is LetsGo
            },
        },
        open.contains(id) ==> deed_of_packet(open, Packet::Data { id, data }) == (
        ClientDeed::Write { id, data }) && deed_of_packet(open, Packet::Closed { id })
            == ClientDeed::Shutdown(id),
        !open.contains(id) ==> deed_of_packet(open, Packet::Data { id, data }) == (
        ClientDeed::Connect { id, data }) && deed_of_packet(open, Packet::Closed { id })
            == ClientDeed::Continue,
{
}

/// A local connection is open exactly from when it was established until it is
/// closed or cannot be written to. The server is told of every connection that
/// could not be opened or written to, and of nothing else; where there was none
/// at all, who waits for an answer gets one first.
pub proof fn law_life_of_a_local_connection(open: Set<Seq<char>>, id: Seq<char>)
    requires
        proto::is_id(id),
    ensures
        open_after_connecting(open, id, Connecting::Established).contains(id),
        open_after_connecting(open, id, Connecting::Refused) == open,
        open_after_connecting(open, id, Connecting::WriteFailed) == open,
        open_after_writing(open, id, true) == open,
        !open_after_writing(open, id, false).contains(id),
        packet_of_writing(id, true) is None,
        packet_of_writing(id, false) matches Some(packet) && proto::parse(packet.bytes()) == Ok::<
            Packet,
            ParseEventError,
        >(Packet::Closed { id }),
        packets_for(id, Connecting::Established).len() == 0,
        packets_for(id, Connecting::WriteFailed).len() == 1 && proto::parse(
            packets_for(id, Connecting::WriteFailed)[0].bytes(),
        ) == Ok::<Packet, ParseEventError>(Packet::Closed { id }),
        packets_for(id, Connecting::Refused).len() == 2 && proto::parse(
            packets_for(id, Connecting::Refused)[1].bytes(),
        ) == Ok::<Packet, ParseEventError>(Packet::Closed { id }) && proto::parse(
            packets_for(id, Connecting::Refused)[0].bytes(),
        ) == Ok::<Packet, ParseEventError>(
            Packet::Data {
                id,
                data: encode_utf8("HTTP/1.1 502\r\nContent-Length: 0\r\n\r\n"@),
            },
        ),
{
    proto::law_parse_undoes_bytes(Packet::Closed { id });
    proto::law_parse_undoes_bytes(Packet::Data { id, data: encode_utf8(GATEWAY_ERROR@) });
}

/// Reading a local connection goes on exactly as long as there is data, which is
/// sent whole; the end of it, by failure or not, is sent as its end.
pub proof fn law_reading_a_local_connection(id: Seq<char>, read: Option<Seq<u8>>, data: Seq<u8>)
    ensures
        data.len() > 0 ==> reads_on(Some(data)) && packet_of_read(id, Some(data)) == (Packet::Data {
            id,
            data,
        }),
        reads_on(read) <==> packet_of_read(id, read) is Data,
        !reads_on(read) <==> packet_of_read(id, read) == (Packet::Closed { id }),
        !reads_on(None),
        !reads_on(Some(Seq::<u8>::empty())),
{
}

/// How a client introduces itself: with its token if it has one and with 36 times
/// `A` if any will do; not at all where tokens are told, or where it is asked for
/// a token and has none.
pub proof fn law_introductions(token: Seq<char>, desired_subdomain: Seq<char>, i: int)
    ensures
        introduction(AuthMode::AoTell, Some(token), desired_subdomain)
            == Introduction::Unsupported,
        introduction(AuthMode::AoTell, None, desired_subdomain) == Introduction::Unsupported,
        introduction(AuthMode::StaticToken, None, desired_subdomain)
            == Introduction::TokenMissing,
        introduction(AuthMode::StaticToken, Some(token), desired_subdomain)
            == Introduction::Present(
            (Packet::PresentToken { token, desired_subdomain }).bytes(),
        ),
        introduction(AuthMode::Anonymous, Some(token), desired_subdomain)
            == Introduction::Present(
            (Packet::PresentToken { token, desired_subdomain }).bytes(),
        ),
        introduction(AuthMode::Anonymous, None, desired_subdomain) == Introduction::Present(
            (Packet::PresentToken { token: any_token(), desired_subdomain }).bytes(),
        ),
        any_token().len() == 36,
        0 <= i < 36 ==> any_token()[i] == 'A',
{
}

/// A client takes the greeting of every server for what it is, introduces itself
/// as the mode asks for, and takes nothing else for a greeting.
pub proof fn law_greeting_is_understood(
    config: config::Args,
    token: Option<Seq<char>>,
    desired_subdomain: Seq<char>,
    payload: Seq<u8>,
)
    ensures
        ({
            let seen = first_impression(
                session::greeting(config).bytes(),
                token,
                desired_subdomain,
            );
            let mode = match config.auth {
                AuthBackend::Ao => AuthMode::AoTell,
                AuthBackend::Anonymous => AuthMode::Anonymous,
                AuthBackend::Private => AuthMode::StaticToken,
                AuthBackend::Dynamic => AuthMode::StaticToken,
            };
            seen == Ok::<(AuthMode, Seq<char>, Introduction), ClientError>(
                (mode, config.description@, introduction(mode, token, desired_subdomain)),
            )
        }),
        first_impression(payload, token, desired_subdomain) == Err::<
            (AuthMode, Seq<char>, Introduction),
            ClientError,
        >(ClientError::ExpectedHello) <==> (proto::parse(payload) matches Ok(packet) && !(packet
            is Hello)),
        proto::parse(payload) matches Err(e) ==> first_impression(
            payload,
            token,
            desired_subdomain,
        ) == Err::<(AuthMode, Seq<char>, Introduction), ClientError>(ClientError::Proto(e)),
{
    proto::law_parse_undoes_bytes(session::greeting(config));
}

} // verus!
