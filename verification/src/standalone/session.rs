//! The session of a client on the control websocket.
//!
//! A session is told what happens (a frame arrived, there is news of a tunneled
//! connection, nothing happened for a while) and says what is to be done.

use crate::auth::ao::TokenTell;
use crate::event::News;
use crate::event::StreamEvent;
use crate::session;
use crate::session::Farewell;
use crate::session::Frame;
use crate::session::Heard;
use crate::standalone::proto;
use crate::standalone::proto::Event;
use crate::standalone::proto::Packet;
use crate::standalone::state;
use crate::standalone::state::Server;
use crate::standalone::state::State;
use crate::standalone::state::Way;
use crate::standalone::tunnel;
use crate::table::Table;
use crate::text;
use crate::util;
use vstd::prelude::*;
use vstd::slice::*;
use vstd::string::*;
use vstd::utf8::*;

verus! {

/// After how many seconds without any event a session is told that it idles.
pub const IDLE_SECONDS: u64 = 60;

/// How far a client has come.
#[derive(Debug)]
pub enum ClientState {
    WaitingForReservation,
    WaitingForTokenReply { expected_token: String, subdomain: String },
    Proxying,
}

/// What a [`ClientState`] says.
#[verifier::ext_equal]
pub enum Stage {
    WaitingForReservation,
    WaitingForTokenReply { expected_token: Seq<char>, subdomain: Seq<char> },
    Proxying,
}

impl View for ClientState {
    type V = Stage;

    open spec fn view(&self) -> Stage {
        match self {
            ClientState::WaitingForReservation => Stage::WaitingForReservation,
            ClientState::WaitingForTokenReply { expected_token, subdomain } => {
                Stage::WaitingForTokenReply {
                    expected_token: expected_token@,
                    subdomain: subdomain@,
                }
            },
            ClientState::Proxying => Stage::Proxying,
        }
    }
}

/// What is to be done for a session. Where something cannot be sent on the
/// websocket the session is over.
#[derive(Debug)]
pub enum Action {
    /// Nothing.
    Continue,
    /// Send a packet to the client.
    Send(Vec<u8>),
    /// Send a ping to the client.
    Ping,
    /// The client was let in, and the name of its channel is registered, in
    /// place of another one where there was one: from now on there is news on
    /// it. Send the packet to the client.
    GoLive { packet: Vec<u8>, replaced: Option<String> },
    /// Have the token told to its character, and send the packet to the client.
    Tell { tell: TokenTell, reply: Vec<u8> },
    /// Send the news on the channel.
    Deliver { sender: String, event: StreamEvent },
    /// The session is over.
    Finish,
}

/// What an [`Action`] says.
#[verifier::ext_equal]
pub enum Deed {
    Continue,
    Send(Seq<u8>),
    Ping,
    GoLive { packet: Seq<u8>, replaced: Option<Seq<char>> },
    Tell { character: Seq<char>, token: Seq<char>, reply: Seq<u8> },
    Deliver { sender: Seq<char>, news: News },
    Finish,
}

impl View for Action {
    type V = Deed;

    open spec fn view(&self) -> Deed {
        match self {
            Action::Continue => Deed::Continue,
            Action::Send(packet) => Deed::Send(packet@),
            Action::Ping => Deed::Ping,
            Action::GoLive { packet, replaced } => Deed::GoLive {
                packet: packet@,
                replaced: match replaced {
                    Some(replaced) => Some(replaced@),
                    None => None,
                },
            },
            Action::Tell { tell, reply } => Deed::Tell {
                character: tell.character@,
                token: tell.token@,
                reply: reply@,
            },
            Action::Deliver { sender, event } => Deed::Deliver { sender: sender@, news: event@ },
            Action::Finish => Deed::Finish,
        }
    }
}

/// The session of one client.
#[derive(Debug)]
pub struct Session {
    pub client_state: ClientState,
    pub event_senders: Table,
    pub actual_subdomain: String,
    pub i_am_waiting_for_pong: bool,
}

/// How far a [`Session`] has come.
#[verifier::ext_equal]
pub struct Progress {
    pub stage: Stage,
    /// The channel of each connection that is tunneled to the client.
    pub streams: Map<Seq<char>, Seq<char>>,
    /// The subdomain that the client got, empty before.
    pub subdomain: Seq<char>,
    pub waiting_for_pong: bool,
}

impl View for Session {
    type V = Progress;

    open spec fn view(&self) -> Progress {
        Progress {
            stage: self.client_state@,
            streams: self.event_senders@,
            subdomain: self.actual_subdomain@,
            waiting_for_pong: self.i_am_waiting_for_pong,
        }
    }
}

/// What comes of something that happens: where the session and the server then
/// are, and what is to be done.
#[verifier::ext_equal]
pub struct Step {
    pub session: Progress,
    pub server: Server,
    pub deed: Deed,
}

impl Progress {
    /// Nothing changes, and `deed` is done.
    pub open spec fn only(self, server: Server, deed: Deed) -> Step {
        Step { session: self, server, deed }
    }

    /// The client wants `subdomain`; the token to be told is `token`.
    pub open spec fn reserves(
        self,
        server: Server,
        subdomain: Seq<char>,
        token: Seq<char>,
    ) -> Step {
        Step {
            session: Progress {
                stage: Stage::WaitingForTokenReply {
                    expected_token: token,
                    subdomain: text::ascii_lower(subdomain),
                },
                ..self
            },
            server,
            deed: Deed::Tell {
                character: text::capitalized(subdomain),
                token,
                reply: (Packet::PromptToken { sender: server.character }).bytes(),
            },
        }
    }

    /// The client has the token; it gets `subdomain`, and `listener` is the name
    /// of its channel.
    pub open spec fn admitted(
        self,
        server: Server,
        subdomain: Seq<char>,
        listener: Seq<char>,
    ) -> Step {
        Step {
            session: Progress { stage: Stage::Proxying, subdomain, ..self },
            server: server.with_listener(subdomain, listener),
            deed: Deed::GoLive {
                packet: (Packet::LetsGo {
                    public_url: session::public_url(subdomain, server.domain),
                }).bytes(),
                replaced: server.listener(subdomain),
            },
        }
    }

    /// The client sent `packet`. Should a token be needed, it is `token`.
    pub open spec fn packet_arrives(
        self,
        server: Server,
        packet: Packet,
        listener: Seq<char>,
        token: Seq<char>,
    ) -> Step {
        match (packet, self.stage) {
            (Packet::ReserveSubdomain { subdomain }, Stage::WaitingForReservation) => {
                self.reserves(server, subdomain, token)
            },
            (
                Packet::ReplyToken { token: replied },
                Stage::WaitingForTokenReply { expected_token, subdomain },
            ) => if replied == expected_token {
                self.admitted(server, subdomain, listener)
            } else {
                self.only(server, Deed::Send(Packet::AuthFailed.bytes()))
            },
            (Packet::Data { id, data }, Stage::Proxying) => self.only(
                server,
                if self.streams.contains_key(id) {
                    Deed::Deliver { sender: self.streams[id], news: News::Data { id, data } }
                } else {
                    Deed::Continue
                },
            ),
            (Packet::Closed { id }, Stage::Proxying) => Step {
                session: Progress { streams: self.streams.remove(id), ..self },
                server,
                deed: if self.streams.contains_key(id) {
                    Deed::Deliver { sender: self.streams[id], news: News::Close { id } }
                } else {
                    Deed::Continue
                },
            },
            _ => self.only(server, Deed::Finish),
        }
    }

    /// A frame arrived on the websocket.
    pub open spec fn frame_arrives(
        self,
        server: Server,
        heard: Heard,
        listener: Seq<char>,
        token: Seq<char>,
    ) -> Step {
        match heard {
            Heard::Pong => Progress { waiting_for_pong: false, ..self }.only(
                server,
                Deed::Continue,
            ),
            Heard::Other => self.only(server, Deed::Continue),
            Heard::Payload(payload) => match proto::parse(payload) {
                Ok(packet) => self.packet_arrives(server, packet, listener, token),
                Err(_) => self.only(server, Deed::Continue),
            },
        }
    }

    /// The session after news of a tunneled connection.
    pub open spec fn after_news(self, news: News) -> Progress {
        match news {
            News::New { id, sender } => Progress {
                streams: self.streams.insert(id, sender),
                ..self
            },
            News::Close { id } => Progress { streams: self.streams.remove(id), ..self },
            News::Data { .. } => self,
        }
    }

    /// The session after it has idled.
    pub open spec fn after_idling(self) -> Progress {
        Progress { waiting_for_pong: true, ..self }
    }

    /// What is done when the session has idled.
    pub open spec fn deed_of_idling(self) -> Deed {
        if self.waiting_for_pong {
            Deed::Finish
        } else {
            Deed::Ping
        }
    }

    /// The server after the session is over: the subdomain that the client got
    /// leads nowhere.
    pub open spec fn server_after(self, server: Server) -> Server {
        if self.subdomain.len() == 0 {
            server
        } else {
            server.without_listener(self.subdomain)
        }
    }
}

/// What is done when there is news of a tunneled connection.
pub open spec fn deed_of_news(news: News) -> Deed {
    match news {
        News::New { .. } => Deed::Continue,
        News::Data { id, data } => Deed::Send((Packet::Data { id, data }).bytes()),
        News::Close { id } => Deed::Send((Packet::Closed { id }).bytes()),
    }
}

impl Session {
    /// The session of a client that has just connected.
    pub fn open() -> (r: Self)
        ensures
            r@ == (Progress {
                stage: Stage::WaitingForReservation,
                streams: Map::empty(),
                subdomain: Seq::empty(),
                waiting_for_pong: false,
            }),
    {
        Session {
            client_state: ClientState::WaitingForReservation,
            event_senders: Table::new(),
            actual_subdomain: String::new(),
            i_am_waiting_for_pong: false,
        }
    }

    /// The client has the token; it gets `subdomain`, and `listener` is the name
    /// of its channel.
    fn let_in(&mut self, state: &mut State, subdomain: String, listener: &str) -> (r: Action)
        ensures
            (Step { session: final(self)@, server: final(state)@, deed: r@ }) == old(
                self,
            )@.admitted(old(state)@, subdomain@, listener@),
    {
        let mut public_url: String = text::join("https://", subdomain.as_str());
        public_url.append(".");
        public_url.append(state.domain.as_str());
        self.actual_subdomain = subdomain.clone();
        let replaced = state.register_event_listener(subdomain, listener.to_owned());
        self.client_state = ClientState::Proxying;
        let packet: Vec<u8> = (Event::LetsGo { public_url: public_url.as_str() }).serialize();
        Action::GoLive { packet, replaced }
    }

    /// A frame arrived on the websocket. `listener` is the name of the channel
    /// of the client. Should a token be needed, it is `token`.
    pub fn on_frame_with(
        &mut self,
        state: &mut State,
        frame: Frame<'_>,
        listener: &str,
        token: String,
    ) -> (r: Action)
        ensures
            (Step { session: final(self)@, server: final(state)@, deed: r@ }) == old(
                self,
            )@.frame_arrives(old(state)@, frame@, listener@, token@),
    {
        let payload: &[u8] = match frame {
            Frame::Pong => {
                self.i_am_waiting_for_pong = false;
                return Action::Continue;
            },
            Frame::Other => return Action::Continue,
            Frame::Payload(payload) => payload,
        };
        let event = match Event::deserialize(payload) {
            Ok(event) => event,
            Err(_) => return Action::Continue,
        };
        match (event, &self.client_state) {
            (Event::ReserveSubdomain { subdomain }, ClientState::WaitingForReservation) => {
                let bot_name: String = text::capitalize(subdomain);
                self.client_state = ClientState::WaitingForTokenReply {
                    expected_token: token.clone(),
                    subdomain: subdomain.to_ascii_lowercase(),
                };
                let reply: Vec<u8> = (Event::PromptToken {
                    sender: state.character.as_str(),
                }).serialize();
                Action::Tell { tell: TokenTell { character: bot_name, token }, reply }
            },
            (
                Event::ReplyToken { token: replied },
                ClientState::WaitingForTokenReply { expected_token, subdomain },
            ) => {
                if text::same(replied, expected_token.as_str()) {
                    let subdomain: String = subdomain.clone();
                    self.let_in(state, subdomain, listener)
                } else {
                    Action::Send(Event::AuthFailed.serialize())
                }
            },
            (Event::Data { id, data }, ClientState::Proxying) => {
                match self.event_senders.get(id) {
                    Some(sender) => Action::Deliver {
                        sender: sender.clone(),
                        event: StreamEvent::data(id.to_owned(), slice_to_vec(data)),
                    },
                    None => Action::Continue,
                }
            },
            (Event::Closed { id }, ClientState::Proxying) => {
                match self.event_senders.remove(id) {
                    Some(sender) => Action::Deliver {
                        sender,
                        event: StreamEvent::close(id.to_owned()),
                    },
                    None => Action::Continue,
                }
            },
            _ => Action::Finish,
        }
    }

    /// A frame arrived on the websocket. `listener` is the name of the channel
    /// of the client.
    pub fn on_frame(&mut self, state: &mut State, frame: Frame<'_>, listener: &str) -> (r: Action)
        ensures
            exists|token: Seq<char>| #[trigger]
                util::is_uuid_text(token) && (Step {
                    session: final(self)@,
                    server: final(state)@,
                    deed: r@,
                }) == old(self)@.frame_arrives(old(state)@, frame@, listener@, token),
    {
        match self.client_state {
            ClientState::WaitingForReservation => {
                let token: String = util::random_token();
                let ghost told = token@;
                let r = self.on_frame_with(state, frame, listener, token);
                assert(util::is_uuid_text(told));
                r
            },
            _ => {
                // Only who makes a reservation needs a token.
                let ghost any = util::lemma_some_uuid_text();
                let r = self.on_frame_with(state, frame, listener, String::new());
                assert(util::is_uuid_text(any));
                r
            },
        }
    }

    /// There is news on the channel of the client.
    pub fn on_stream_event(&mut self, event: StreamEvent) -> (r: Action)
        ensures
            final(self)@ == old(self)@.after_news(event@),
            r@ == deed_of_news(event@),
    {
        match event {
            StreamEvent::New { id, sender } => {
                self.event_senders.insert(id, sender);
                Action::Continue
            },
            StreamEvent::Close { id } => {
                let _ = self.event_senders.remove(id.as_str());
                Action::Send((Event::Closed { id: id.as_str() }).serialize())
            },
            StreamEvent::Data { id, data } => Action::Send(
                (Event::Data { id: id.as_str(), data: data.as_slice() }).serialize(),
            ),
        }
    }

    /// Nothing happened for [`IDLE_SECONDS`].
    pub fn on_idle(&mut self) -> (r: Action)
        ensures
            final(self)@ == old(self)@.after_idling(),
            r@ == old(self)@.deed_of_idling(),
    {
        if self.i_am_waiting_for_pong {
            Action::Finish
        } else {
            self.i_am_waiting_for_pong = true;
            Action::Ping
        }
    }

    /// The session is over. The subdomain that the client got leads nowhere from
    /// now on, also where another client has it meanwhile.
    pub fn finish(self, state: &mut State) -> (r: Farewell)
        ensures
            final(state)@ == self@.server_after(old(state)@),
            r.unregistered is Some <==> self@.subdomain.len() > 0 && old(state)@.listener(
                self@.subdomain,
            ) is Some,
            r.unregistered matches Some(sender) ==> old(state)@.listener(self@.subdomain) == Some(
                sender@,
            ),
            session::closes(
                r.closing@.map_values(|entry: (String, StreamEvent)| (entry.0@, entry.1@)),
                self@.streams,
            ),
    {
        let unregistered = if self.actual_subdomain.as_str().is_empty() {
            None
        } else {
            state.unregister_event_listener(self.actual_subdomain.as_str())
        };
        Farewell { unregistered, closing: session::close_all(self.event_senders) }
    }
}

/// A reservation has a token told to the character of that name; the client that
/// replies with it gets the name, in lower case, as its subdomain.
pub proof fn law_told_token_lets_in(
    session: Progress,
    server: Server,
    subdomain: Seq<char>,
    listener: Seq<char>,
    token: Seq<char>,
    later_token: Seq<char>,
)
    requires
        session.stage is WaitingForReservation,
    ensures
        ({
            let wish = Heard::Payload((Packet::ReserveSubdomain { subdomain }).bytes());
            let asked = session.frame_arrives(server, wish, listener, token);
            let reply = Heard::Payload((Packet::ReplyToken { token }).bytes());
            let step = asked.session.frame_arrives(asked.server, reply, listener, later_token);
            let name = text::ascii_lower(subdomain);
            &&& asked.deed == (Deed::Tell {
                character: text::capitalized(subdomain),
                token,
                reply: (Packet::PromptToken { sender: server.character }).bytes(),
            })
            &&& asked.server == server
            &&& step.session.stage is Proxying
            &&& step.server == server.with_listener(name, listener)
            &&& step.deed matches Deed::GoLive { packet, .. } && packet == (Packet::LetsGo {
                public_url: session::public_url(name, server.domain),
            }).bytes()
        }),
{
    proto::law_parse_undoes_bytes(Packet::ReserveSubdomain { subdomain });
    proto::law_parse_undoes_bytes(Packet::ReplyToken { token });
}

/// A client that replies with a wrong token is told so and may try again: the
/// session stays as it is.
pub proof fn law_wrong_token_may_be_corrected(
    session: Progress,
    server: Server,
    expected_token: Seq<char>,
    subdomain: Seq<char>,
    replied: Seq<char>,
    listener: Seq<char>,
    token: Seq<char>,
)
    requires
        session.stage == (Stage::WaitingForTokenReply { expected_token, subdomain }),
        replied != expected_token,
    ensures
        session.frame_arrives(
            server,
            Heard::Payload((Packet::ReplyToken { token: replied }).bytes()),
            listener,
            token,
        ) == session.only(server, Deed::Send(Packet::AuthFailed.bytes())),
{
    proto::law_parse_undoes_bytes(Packet::ReplyToken { token: replied });
}

/// A client is let in by nothing but the token that was told for its
/// reservation.
pub proof fn law_only_the_told_token_lets_in(
    session: Progress,
    server: Server,
    heard: Heard,
    listener: Seq<char>,
    token: Seq<char>,
)
    requires
        !(session.stage is Proxying),
        session.frame_arrives(server, heard, listener, token).session.stage is Proxying,
    ensures
        heard matches Heard::Payload(payload) && proto::parse(payload) matches Ok(
            Packet::ReplyToken { token: replied },
        ) && session.stage matches Stage::WaitingForTokenReply { expected_token, .. } && replied
            == expected_token,
{
}

/// Bytes that are no packet for a server are ignored, and a packet that does not
/// belong where the session is ends it; in neither case anything changes or is
/// sent.
pub proof fn law_disallowed_packets_end_the_session(
    session: Progress,
    server: Server,
    payload: Seq<u8>,
    listener: Seq<char>,
    token: Seq<char>,
)
    ensures
        ({
            let step = session.frame_arrives(server, Heard::Payload(payload), listener, token);
            match proto::parse(payload) {
                Err(_) => step == session.only(server, Deed::Continue),
                Ok(packet) => {
                    let belongs = match session.stage {
                        Stage::WaitingForReservation => packet is ReserveSubdomain,
                        Stage::WaitingForTokenReply { .. } => packet is ReplyToken,
                        Stage::Proxying => packet is Data || packet is Closed,
                    };
                    if belongs {
                        !(step.deed is Finish)
                    } else {
                        step == session.only(server, Deed::Finish)
                    }
                },
            }
        }),
{
}

/// The public URL that a client is told works: a request for its host is passed
/// on to the client, where the subdomain is a single label and not the one of
/// the websocket.
pub proof fn law_public_url_leads_to_the_client(
    session: Progress,
    server: Server,
    subdomain: Seq<char>,
    listener: Seq<char>,
)
    requires
        !subdomain.contains('.'),
        subdomain != state::WEBSOCKET_SUBDOMAIN@,
    ensures
        ({
            let step = session.admitted(server, subdomain, listener);
            let host = subdomain + "."@ + server.domain;
            &&& step.deed matches Deed::GoLive { packet, .. } && packet == (Packet::LetsGo {
                public_url: "https://"@ + host,
            }).bytes()
            &&& step.server.way_to_host(host) == Way::Tunnel(listener)
        }),
{
    reveal_strlit(".");
    assert("."@ =~= seq!['.']);
    let host = subdomain + "."@ + server.domain;
    assert("https://"@ + host =~= session::public_url(subdomain, server.domain));
    state::law_subdomain_leads_to_its_client(
        server.with_listener(subdomain, listener),
        subdomain,
        server.domain,
    );
}

/// What the client sends for a connection that was announced to it is delivered
/// to that connection as it is, until either side closes the connection; after
/// that nothing is delivered to it.
pub proof fn law_data_reaches_the_connection(
    session: Progress,
    server: Server,
    id: Seq<char>,
    sender: Seq<char>,
    data: Seq<u8>,
    listener: Seq<char>,
    token: Seq<char>,
)
    requires
        session.stage is Proxying,
        crate::proto::is_id(id),
    ensures
        ({
            let announced = session.after_news(News::New { id, sender });
            let payload = Heard::Payload((Packet::Data { id, data }).bytes());
            let end = Heard::Payload((Packet::Closed { id }).bytes());
            let step = announced.frame_arrives(server, payload, listener, token);
            let closed = announced.frame_arrives(server, end, listener, token);
            let gone = announced.after_news(News::Close { id });
            &&& step.deed == (Deed::Deliver { sender, news: News::Data { id, data } })
            &&& step.session == announced
            &&& closed.deed == (Deed::Deliver { sender, news: News::Close { id } })
            &&& closed.session.frame_arrives(server, payload, listener, token).deed
                is Continue
            &&& gone.frame_arrives(server, payload, listener, token).deed is Continue
        }),
{
    proto::law_parse_undoes_bytes(Packet::Data { id, data });
    proto::law_parse_undoes_bytes(Packet::Closed { id });
}

/// What is read from a tunneled connection reaches the client as it is: the
/// packet that is sent for it reads back as the id of the connection and the
/// very bytes, and where reading failed as its end.
pub proof fn law_data_reaches_the_client(id: Seq<char>, read: Option<Seq<u8>>)
    requires
        crate::proto::is_id(id),
    ensures
        deed_of_news(tunnel::news_of_read(id, read)) matches Deed::Send(packet) && proto::parse(
            packet,
        ) matches Ok(sent) && sent == (match read {
            Some(data) => Packet::Data { id, data },
            None => Packet::Closed { id },
        }),
{
    proto::law_parse_undoes_bytes(
        match read {
            Some(data) => Packet::Data { id, data },
            None => Packet::Closed { id },
        },
    );
}

/// A client that does not answer a ping before the session has idled again is
/// disconnected; one that answered is pinged again.
pub proof fn law_unanswered_ping_ends_the_session(
    session: Progress,
    server: Server,
    listener: Seq<char>,
    token: Seq<char>,
)
    ensures
        session.after_idling().deed_of_idling() is Finish,
        session.after_idling().frame_arrives(
            server,
            Heard::Pong,
            listener,
            token,
        ).session.deed_of_idling() is Ping,
{
}

/// When a session is over its subdomain leads nowhere, and all other subdomains
/// lead where they led before.
pub proof fn law_subdomain_is_given_back(session: Progress, server: Server, other: Seq<char>)
    ensures
        session.subdomain.len() > 0 ==> session.server_after(server).listener(session.subdomain)
            is None,
        other != session.subdomain ==> session.server_after(server).listener(other)
            == server.listener(other),
{
}

/// A frame that is no payload never ends a session, sends nothing and changes
/// nothing but whether a pong is awaited: a pong ends the waiting, however far the
/// client has come, and anything else leaves it.
pub proof fn law_only_payloads_matter(
    session: Progress,
    server: Server,
    listener: Seq<char>,
    token: Seq<char>,
)
    ensures
        ({
            let pong = session.frame_arrives(server, Heard::Pong, listener, token);
            &&& pong.deed == Deed::Continue
            &&& pong.server == server
            &&& pong.session.stage == session.stage
            &&& pong.session.streams == session.streams
            &&& pong.session.subdomain == session.subdomain
            &&& !pong.session.waiting_for_pong
        }),
        ({
            let other = session.frame_arrives(server, Heard::Other, listener, token);
            &&& other.deed == Deed::Continue
            &&& other.server == server
            &&& other.session == session
        }),
{
}

/// A client that was let in stays so, under its subdomain, whatever data it
/// sends, whatever connections it closes, whatever it answers to pings, and
/// whatever it sends that is no packet: the server stays as it is, and nothing is
/// sent to the client.
pub proof fn law_live_session_goes_on(
    session: Progress,
    server: Server,
    heard: Heard,
    listener: Seq<char>,
    token: Seq<char>,
)
    requires
        session.stage is Proxying,
        heard matches Heard::Payload(payload) ==> (proto::parse(payload) matches Ok(packet)
            ==> packet is Data || packet is Closed),
    ensures
        ({
            let step = session.frame_arrives(server, heard, listener, token);
            &&& step.deed is Continue || step.deed is Deliver
            &&& step.server == server
            &&& step.session.stage is Proxying
            &&& step.session.subdomain == session.subdomain
            &&& heard != Heard::Pong ==> step.session.waiting_for_pong == session.waiting_for_pong
        }),
{
}

/// Data and the end of a connection are delivered on the channel of the
/// connection that the packet names, if there is one, and otherwise ignored. Data
/// leaves all channels as they are; an end takes away that of its connection.
pub proof fn law_packets_reach_their_connection(
    session: Progress,
    server: Server,
    id: Seq<char>,
    data: Seq<u8>,
    listener: Seq<char>,
    token: Seq<char>,
)
    requires
        session.stage is Proxying,
        crate::proto::is_id(id),
    ensures
        ({
            let payload = Heard::Payload((Packet::Data { id, data }).bytes());
            let step = session.frame_arrives(server, payload, listener, token);
            &&& step.session == session
            &&& session.streams.contains_key(id) ==> step.deed == (Deed::Deliver {
                sender: session.streams[id],
                news: News::Data { id, data },
            })
            &&& !session.streams.contains_key(id) ==> step.deed == Deed::Continue
        }),
        ({
            let payload = Heard::Payload((Packet::Closed { id }).bytes());
            let step = session.frame_arrives(server, payload, listener, token);
            &&& step.session.streams == session.streams.remove(id)
            &&& session.streams.contains_key(id) ==> step.deed == (Deed::Deliver {
                sender: session.streams[id],
                news: News::Close { id },
            })
            &&& !session.streams.contains_key(id) ==> step.deed == Deed::Continue
        }),
{
    proto::law_parse_undoes_bytes(Packet::Data { id, data });
    proto::law_parse_undoes_bytes(Packet::Closed { id });
}

/// News of connections change nothing but the channels: a new connection adds
/// its channel, the end of one takes it away, and data leaves all as they are.
/// The client is sent data and ends, each under its id, and is not told of a new
/// connection before there is data.
pub proof fn law_news_of_connections(
    session: Progress,
    id: Seq<char>,
    sender: Seq<char>,
    data: Seq<u8>,
    news: News,
)
    requires
        crate::proto::is_id(id),
    ensures
        session.after_news(news).stage == session.stage,
        session.after_news(news).subdomain == session.subdomain,
        session.after_news(news).waiting_for_pong == session.waiting_for_pong,
        session.after_news(News::New { id, sender }).streams == session.streams.insert(id, sender),
        session.after_news(News::Data { id, data }).streams == session.streams,
        session.after_news(News::Close { id }).streams == session.streams.remove(id),
        deed_of_news(News::New { id, sender }) == Deed::Continue,
        deed_of_news(News::Data { id, data }) matches Deed::Send(packet) && proto::parse(packet)
            == Ok::<Packet, proto::ParseEventError>(Packet::Data { id, data }),
        deed_of_news(News::Close { id }) matches Deed::Send(packet) && proto::parse(packet) == Ok::<
            Packet,
            proto::ParseEventError,
        >(Packet::Closed { id }),
{
    proto::law_parse_undoes_bytes(Packet::Data { id, data });
    proto::law_parse_undoes_bytes(Packet::Closed { id });
}

/// A session that idles is pinged, and ends if the ping before was not answered.
/// Idling changes nothing but that a pong is awaited.
pub proof fn law_idling(session: Progress)
    ensures
        session.waiting_for_pong ==> session.deed_of_idling() == Deed::Finish,
        !session.waiting_for_pong ==> session.deed_of_idling() == Deed::Ping,
        session.after_idling().waiting_for_pong,
        session.after_idling().stage == session.stage,
        session.after_idling().streams == session.streams,
        session.after_idling().subdomain == session.subdomain,
{
}

/// A reservation changes nothing but that its token is awaited: the character of
/// that name, first letter in upper case, is told the token, the client is told
/// who tells it, and no one has the subdomain yet.
pub proof fn law_reserving(
    session: Progress,
    server: Server,
    first: char,
    rest: Seq<char>,
    listener: Seq<char>,
    token: Seq<char>,
)
    requires
        session.stage is WaitingForReservation,
    ensures
        ({
            let wish = Packet::ReserveSubdomain { subdomain: seq![first] + rest };
            let step = session.frame_arrives(
                server,
                Heard::Payload(wish.bytes()),
                listener,
                token,
            );
            &&& step.deed == (Deed::Tell {
                character: seq![text::ascii_upper_char(first)] + rest,
                token,
                reply: seq![2u8] + encode_utf8(server.character),
            })
            &&& step.server == server
            &&& step.session.stage == (Stage::WaitingForTokenReply {
                expected_token: token,
                subdomain: seq![text::ascii_lower_char(first)] + text::ascii_lower(rest),
            })
            &&& step.session.streams == session.streams
            &&& step.session.subdomain == session.subdomain
            &&& step.session.waiting_for_pong == session.waiting_for_pong
        }),
{
    proto::law_parse_undoes_bytes(Packet::ReserveSubdomain { subdomain: seq![first] + rest });
    text::law_capitalized_changes_the_first_letter(first, rest);
    assert(text::ascii_lower(seq![first] + rest) =~= seq![text::ascii_lower_char(first)]
        + text::ascii_lower(rest));
}

/// The right token gives the client its subdomain and nothing else: the subdomain
/// leads to the channel of the client, in place of whatever it led to, all else
/// stays, and the client is told its URL.
pub proof fn law_letting_in(
    session: Progress,
    server: Server,
    expected_token: Seq<char>,
    subdomain: Seq<char>,
    listener: Seq<char>,
    token: Seq<char>,
)
    requires
        session.stage == (Stage::WaitingForTokenReply { expected_token, subdomain }),
    ensures
        ({
            let reply = Heard::Payload((Packet::ReplyToken { token: expected_token }).bytes());
            let step = session.frame_arrives(server, reply, listener, token);
            &&& step.session.stage is Proxying
            &&& step.session.subdomain == subdomain
            &&& step.session.streams == session.streams
            &&& step.session.waiting_for_pong == session.waiting_for_pong
            &&& step.server.listeners == server.listeners.insert(subdomain, listener)
            &&& step.server.domain == server.domain
            &&& step.server.character == server.character
            &&& step.deed matches Deed::GoLive { packet, replaced } && packet == seq![4u8]
                + encode_utf8("https://"@ + subdomain + "."@ + server.domain) && (
            if server.listeners.contains_key(subdomain) {
                replaced == Some(server.listeners[subdomain])
            } else {
                replaced is None
            })
        }),
{
    proto::law_parse_undoes_bytes(Packet::ReplyToken { token: expected_token });
}

/// The end of a session changes nothing but where the subdomain that the client
/// got leads.
pub proof fn law_leaving(session: Progress, server: Server)
    ensures
        session.server_after(server).domain == server.domain,
        session.server_after(server).character == server.character,
        session.subdomain.len() > 0 ==> session.server_after(server).listeners
            == server.listeners.remove(session.subdomain),
        session.subdomain.len() == 0 ==> session.server_after(server) == server,
{
}

/// A frame never changes where a subdomain leads, but for that of the client that
/// is let in by it.
pub proof fn law_a_frame_touches_one_subdomain(
    session: Progress,
    server: Server,
    heard: Heard,
    other: Seq<char>,
    listener: Seq<char>,
    token: Seq<char>,
)
    ensures
        ({
            let step = session.frame_arrives(server, heard, listener, token);
            &&& step.server.domain == server.domain
            &&& step.server.character == server.character
            &&& step.server.listener(other) != server.listener(other) ==> {
                &&& step.deed is GoLive
                &&& step.session.subdomain == other
                &&& step.server.listener(other) == Some(listener)
            }
        }),
{
}

} // verus!
