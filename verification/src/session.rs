//! The session of a client on the control websocket.
//!
//! A session is told what happens (a frame arrived, there is news of a tunneled
//! connection, nothing happened for a while) and says what is to be done.

use crate::auth::ao;
use crate::auth::ao::TokenTell;
use crate::auth::dynamic;
use crate::auth::dynamic::BackendReply;
use crate::auth::AuthState;
use crate::auth::Knowledge;
use crate::auth::Ruling;
use crate::auth::Verdict;
use crate::config::Args;
use crate::config::AuthBackend;
use crate::config::SubdomainStrategy;
use crate::event::News;
use crate::event::StreamEvent;
use crate::proto;
use crate::proto::AuthMode;
use crate::proto::Event;
use crate::proto::Packet;
use crate::request;
use crate::state;
use crate::state::Server;
use crate::state::State;
use crate::table::Table;
use crate::text;
use crate::tunnel;
use crate::util;
use vstd::prelude::*;
use vstd::slice::*;
use vstd::string::*;

verus! {

/// After how many seconds without any event a session is told that it idles.
pub const IDLE_SECONDS: u64 = 15;

/// A message on the websocket.
#[derive(Debug)]
pub enum Frame<'a> {
    /// A binary or a text message.
    Payload(&'a [u8]),
    Pong,
    /// Anything else.
    Other,
}

/// What a [`Frame`] says.
#[verifier::ext_equal]
pub enum Heard {
    Payload(Seq<u8>),
    Pong,
    Other,
}

impl<'a> View for Frame<'a> {
    type V = Heard;

    open spec fn view(&self) -> Heard {
        match self {
            Frame::Payload(payload) => Heard::Payload(payload@),
            Frame::Pong => Heard::Pong,
            Frame::Other => Heard::Other,
        }
    }
}

/// What is to be done for a session. Where something cannot be sent on the
/// websocket the session is over.
#[derive(Debug)]
pub enum Action {
    /// Nothing.
    Continue,
    /// Send a packet to the client.
    Send(Vec<u8>),
    /// Send a ping to the client.
    Ping,
    /// The client was let in, and the name of its channel is registered: from
    /// now on there is news on it. Send the packet to the client.
    GoLive(Vec<u8>),
    /// Have the token told to its character, and send the packet to the client.
    Tell { tell: TokenTell, reply: Vec<u8> },
    /// Send the news on the channel.
    Deliver { sender: String, event: StreamEvent },
    /// Make a GET request to the URL. The answer is the verdict on the token.
    Ask(String),
    /// The session is over. Send the packet to the client, if there is one.
    Finish(Option<Vec<u8>>),
}

/// What an [`Action`] says.
#[verifier::ext_equal]
pub enum Deed {
    Continue,
    Send(Seq<u8>),
    Ping,
    GoLive(Seq<u8>),
    Tell { character: Seq<char>, token: Seq<char>, reply: Seq<u8> },
    Deliver { sender: Seq<char>, news: News },
    Ask(Seq<char>),
    Finish(Option<Seq<u8>>),
}

impl View for Action {
    type V = Deed;

    open spec fn view(&self) -> Deed {
        match self {
            Action::Continue => Deed::Continue,
            Action::Send(packet) => Deed::Send(packet@),
            Action::Ping => Deed::Ping,
            Action::GoLive(packet) => Deed::GoLive(packet@),
            Action::Tell { tell, reply } => Deed::Tell {
                character: tell.character@,
                token: tell.token@,
                reply: reply@,
            },
            Action::Deliver { sender, event } => Deed::Deliver { sender: sender@, news: event@ },
            Action::Ask(uri) => Deed::Ask(uri@),
            Action::Finish(packet) => Deed::Finish(
                match packet {
                    Some(packet) => Some(packet@),
                    None => None,
                },
            ),
        }
    }
}

/// The session of one client.
#[derive(Debug)]
pub struct Session {
    pub auth_state: AuthState,
    pub stream_senders: Table,
    pub actual_subdomain: String,
    pub i_am_waiting_for_pong: bool,
}

/// How far a [`Session`] has come.
#[verifier::ext_equal]
pub struct Progress {
    pub auth_state: AuthState,
    /// The channel of each connection that is tunneled to the client.
    pub streams: Map<Seq<char>, Seq<char>>,
    /// The subdomain that the client has, empty before it was let in.
    pub subdomain: Seq<char>,
    pub waiting_for_pong: bool,
}

impl View for Session {
    type V = Progress;

    open spec fn view(&self) -> Progress {
        Progress {
            auth_state: self.auth_state,
            streams: self.stream_senders@,
            subdomain: self.actual_subdomain@,
            waiting_for_pong: self.i_am_waiting_for_pong,
        }
    }
}

/// What comes of something that happens: where the session and the server then
/// are, and what is to be done.
#[verifier::ext_equal]
pub struct Step {
    pub session: Progress,
    pub server: Server,
    pub deed: Deed,
}

/// The URL under which a subdomain can be reached.
pub open spec fn public_url(subdomain: Seq<char>, domain: Seq<char>) -> Seq<char> {
    "https://"@ + subdomain + "."@ + domain
}

/// The packet that a server with the given settings greets clients with.
pub open spec fn greeting(config: Args) -> Packet {
    Packet::Hello {
        proto_version: proto::IMPLEMENTED_PROTO_VERSION,
        auth_mode: match config.auth {
            AuthBackend::Ao => AuthMode::AoTell,
            AuthBackend::Anonymous => AuthMode::Anonymous,
            AuthBackend::Private | AuthBackend::Dynamic => AuthMode::StaticToken,
        },
        description: config.description@,
    }
}

/// The session of a client that has just connected to a server with the given
/// settings.
pub open spec fn newcomer(config: Args) -> Progress {
    Progress {
        auth_state: if config.auth == AuthBackend::Ao {
            AuthState::AwaitingAoAuth
        } else {
            AuthState::AwaitingToken
        },
        streams: Map::empty(),
        subdomain: Seq::empty(),
        waiting_for_pong: false,
    }
}

/// The ruling that a reply of the endpoint stands for.
pub open spec fn ruling_of_reply(reply: BackendReply) -> Ruling {
    match reply.grants() {
        Some(subdomain) => Ruling::Granted(subdomain),
        None => Ruling::Rejected,
    }
}

/// Whether a client may send `packet` when it has come as far as `auth_state`.
pub open spec fn allowed(auth_state: AuthState, packet: Packet) -> bool {
    match auth_state {
        AuthState::AwaitingAoAuth => packet is AoAuth,
        AuthState::AwaitingToken => packet is PresentToken,
        AuthState::Proxying => packet is Data || packet is Closed,
    }
}

impl Progress {
    /// A session of a server: only where characters are told tokens does it
    /// wait for a character, and only a client that was let in has a subdomain
    /// and connections.
    pub open spec fn fits(self, server: Server) -> bool {
        &&& self.auth_state == AuthState::AwaitingAoAuth ==> server.config.auth == AuthBackend::Ao
        &&& self.auth_state != AuthState::Proxying ==> self.subdomain.len() == 0
            && self.streams == Map::<Seq<char>, Seq<char>>::empty()
    }

    /// Nothing changes, and `deed` is done.
    pub open spec fn only(self, server: Server, deed: Deed) -> Step {
        Step { session: self, server, deed }
    }

    /// The client was granted `subdomain`, and `listener` is the name of its
    /// channel.
    pub open spec fn granted(
        self,
        server: Server,
        subdomain: Seq<char>,
        listener: Seq<char>,
    ) -> Step {
        if server.admits(subdomain) {
            Step {
                session: Progress { auth_state: AuthState::Proxying, subdomain, ..self },
                server: server.with_listener(subdomain, listener),
                deed: Deed::GoLive(
                    (Packet::LetsGo {
                        public_url: public_url(subdomain, server.config.domain@),
                    }).bytes(),
                ),
            }
        } else {
            self.only(server, Deed::Finish(Some(Packet::OutOfCapacity.bytes())))
        }
    }

    /// There is a ruling on the token of the client.
    pub open spec fn ruled(self, server: Server, ruling: Ruling, listener: Seq<char>) -> Step {
        match ruling {
            Ruling::Granted(subdomain) => self.granted(server, subdomain, listener),
            Ruling::Rejected => self.only(
                server,
                Deed::Finish(Some(Packet::AuthFailed.bytes())),
            ),
            Ruling::Ask(uri) => self.only(server, Deed::Ask(uri)),
        }
    }

    /// The client sent `packet`. Should a token or a random subdomain be needed,
    /// they are `token` and `random`.
    pub open spec fn packet_arrives(
        self,
        server: Server,
        packet: Packet,
        listener: Seq<char>,
        token: Seq<char>,
        random: Seq<char>,
    ) -> Step {
        if !allowed(self.auth_state, packet) {
            self.only(server, Deed::Finish(Some(Packet::DisallowedPacket.bytes())))
        } else {
            match packet {
                Packet::AoAuth { character_name } => Step {
                    session: Progress { auth_state: AuthState::AwaitingToken, ..self },
                    server: Server {
                        known: server.known.expecting(text::capitalized(character_name), token),
                        ..server
                    },
                    deed: Deed::Tell {
                        character: text::capitalized(character_name),
                        token,
                        reply: (Packet::TokenInAoTell {
                            sender: server.config.ao_character->0@,
                        }).bytes(),
                    },
                },
                Packet::PresentToken { token: presented, desired_subdomain } => self.ruled(
                    Server { known: server.known.after_ruling(presented), ..server },
                    server.known.ruling(
                        presented,
                        desired_subdomain,
                        server.config.subdomain_strategy,
                        random,
                    ),
                    listener,
                ),
                Packet::Data { id, data } => self.only(
                    server,
                    if self.streams.contains_key(id) {
                        Deed::Deliver { sender: self.streams[id], news: News::Data { id, data } }
                    } else {
                        Deed::Continue
                    },
                ),
                Packet::Closed { id } => Step {
                    session: Progress { streams: self.streams.remove(id), ..self },
                    server,
                    deed: if self.streams.contains_key(id) {
                        Deed::Deliver { sender: self.streams[id], news: News::Close { id } }
                    } else {
                        Deed::Continue
                    },
                },
                _ => self.only(server, Deed::Continue),
            }
        }
    }

    /// A frame arrived on the websocket.
    pub open spec fn frame_arrives(
        self,
        server: Server,
        heard: Heard,
        listener: Seq<char>,
        token: Seq<char>,
        random: Seq<char>,
    ) -> Step {
        match heard {
            Heard::Pong => Progress { waiting_for_pong: false, ..self }.only(
                server,
                Deed::Continue,
            ),
            Heard::Other => self.only(server, Deed::Continue),
            Heard::Payload(payload) => match proto::parse(payload) {
                Ok(packet) => self.packet_arrives(server, packet, listener, token, random),
                Err(_) => self.only(
                    server,
                    Deed::Finish(Some(Packet::DisallowedPacket.bytes())),
                ),
            },
        }
    }

    /// The session after news of a tunneled connection.
    pub open spec fn after_news(self, news: News) -> Progress {
        match news {
            News::New { id, sender } => Progress {
                streams: self.streams.insert(id, sender),
                ..self
            },
            News::Close { id } => Progress { streams: self.streams.remove(id), ..self },
            News::Data { .. } => self,
        }
    }

    /// The session after it has idled.
    pub open spec fn after_idling(self) -> Progress {
        Progress { waiting_for_pong: true, ..self }
    }

    /// What is done when the session has idled.
    pub open spec fn deed_of_idling(self) -> Deed {
        if self.waiting_for_pong {
            Deed::Finish(None)
        } else {
            Deed::Ping
        }
    }

    /// The channel that is given up when the session is over.
    pub open spec fn channel_given_up(self, server: Server) -> Option<Seq<char>> {
        if self.auth_state == AuthState::Proxying {
            server.listener(self.subdomain)
        } else {
            None
        }
    }

    /// The server after the session is over: the subdomain of a client that was
    /// let in leads nowhere.
    pub open spec fn server_after(self, server: Server) -> Server {
        if self.auth_state == AuthState::Proxying {
            server.without_listener(self.subdomain)
        } else {
            server
        }
    }
}

/// What is done when there is news of a tunneled connection.
pub open spec fn deed_of_news(news: News) -> Deed {
    match news {
        News::New { .. } => Deed::Continue,
        News::Data { id, data } => Deed::Send((Packet::Data { id, data }).bytes()),
        News::Close { id } => Deed::Send((Packet::Closed { id }).bytes()),
    }
}

/// What is left to do when a session is over.
#[derive(Debug)]
pub struct Farewell {
    /// The channel that the subdomain of the client led to.
    pub unregistered: Option<String>,
    /// For each connection that was tunneled to the client, its channel and the
    /// news to send there.
    pub closing: Vec<(String, StreamEvent)>,
}

/// Whether `closing` tells each of `streams` once, on its channel, that it is
/// closed, and nothing else.
pub open spec fn closes(
    closing: Seq<(Seq<char>, News)>,
    streams: Map<Seq<char>, Seq<char>>,
) -> bool {
    &&& forall|i: int|
        0 <= i < closing.len() ==> (#[trigger] closing[i]).1 is Close && streams.contains_key(
            closing[i].1->Close_id,
        ) && streams[closing[i].1->Close_id] == closing[i].0
    &&& forall|i: int, j: int|
        0 <= i < j < closing.len() ==> (#[trigger] closing[i]).1 != (#[trigger] closing[j]).1
    &&& forall|id: Seq<char>| #[trigger]
        streams.contains_key(id) ==> exists|i: int|
            0 <= i < closing.len() && (#[trigger] closing[i]).1 == (News::Close { id })
}

/// For each of the connections, its channel and the news to send there when all
/// are closed.
pub fn close_all(streams: Table) -> (closing: Vec<(String, StreamEvent)>)
    ensures
        closes(
            closing@.map_values(|entry: (String, StreamEvent)| (entry.0@, entry.1@)),
            streams@,
        ),
{
    let ghost m = streams@;
    let mut list: Vec<(String, String)> = streams.into_list();
    let ghost all = list@;
    let ghost listed = all.map_values(|entry: (String, String)| (entry.0@, entry.1@));
    let mut closing: Vec<(String, StreamEvent)> = Vec::new();
    let ghost n = all.len();
    while list.len() > 0
        invariant
            n == all.len(),
            list@.len() <= n,
            list@ == all.take(list@.len() as int),
            closing@.len() == n - list@.len(),
            forall|i: int|
                0 <= i < closing@.len() ==> (#[trigger] closing@[i]).0@ == all[n - 1 - i].1@
                    && closing@[i].1@ == (News::Close { id: all[n - 1 - i].0@ }),
        decreases list@.len(),
    {
        match list.pop() {
            Some((id, sender)) => {
                closing.push((sender, StreamEvent::close(id)));
            },
            None => {},
        }
    }
    proof {
        let seen = closing@.map_values(|entry: (String, StreamEvent)| (entry.0@, entry.1@));
        assert forall|i: int| 0 <= i < seen.len() implies (#[trigger] seen[i]).1 is Close
            && m.contains_key(seen[i].1->Close_id) && m[seen[i].1->Close_id] == seen[i].0 by {
            assert(closing@[i].0@ == all[n - 1 - i].1@);
            assert(listed[n - 1 - i] == (all[n - 1 - i].0@, all[n - 1 - i].1@));
        }
        assert forall|i: int, j: int| 0 <= i < j < seen.len() implies (#[trigger] seen[i]).1
            != (#[trigger] seen[j]).1 by {
            assert(closing@[i].0@ == all[n - 1 - i].1@);
            assert(closing@[j].0@ == all[n - 1 - j].1@);
            assert(listed[n - 1 - j].0 != listed[n - 1 - i].0);
        }
        assert forall|id: Seq<char>| #[trigger] m.contains_key(id) implies exists|i: int|
            0 <= i < seen.len() && (#[trigger] seen[i]).1 == (News::Close { id }) by {
            let k = choose|k: int| 0 <= k < listed.len() && (#[trigger] listed[k]).0 == id;
            assert(listed[k].0 == id);
            assert(closing@[n - 1 - k].0@ == all[k].1@);
            assert(seen[n - 1 - k].1 == (News::Close { id }));
        }
    }
    closing
}

impl Session {
    /// The session of a client that has just connected, and the packet that it
    /// is greeted with.
    pub fn open(state: &State) -> (r: (Self, Vec<u8>))
        ensures
            r.0@ == (Progress {
                auth_state: if state.config.auth == AuthBackend::Ao {
                    AuthState::AwaitingAoAuth
                } else {
                    AuthState::AwaitingToken
                },
                streams: Map::empty(),
                subdomain: Seq::empty(),
                waiting_for_pong: false,
            }),
            r.0@.fits(state@),
            r.1@ == (Packet::Hello {
                proto_version: proto::IMPLEMENTED_PROTO_VERSION,
                auth_mode: match state.config.auth {
                    AuthBackend::Ao => AuthMode::AoTell,
                    AuthBackend::Anonymous => AuthMode::Anonymous,
                    AuthBackend::Private | AuthBackend::Dynamic => AuthMode::StaticToken,
                },
                description: state.config.description@,
            }).bytes(),
            r.0@ == newcomer(state.config),
            r.1@ == greeting(state.config).bytes(),
    {
        let auth_mode = AuthMode::from(state.config.auth);
        let session = Session {
            auth_state: AuthState::from(auth_mode),
            stream_senders: Table::new(),
            actual_subdomain: String::new(),
            i_am_waiting_for_pong: false,
        };
        (session, Event::hello(auth_mode, state.config.description.as_str()).serialize())
    }

    /// The client was granted `subdomain`, and `listener` is the name of its
    /// channel.
    fn grant(&mut self, state: &mut State, subdomain: String, listener: &str) -> (r: Action)
        requires
            old(state)@.wf(),
            old(self)@.fits(old(state)@),
            old(self).auth_state == AuthState::AwaitingToken,
        ensures
            (Step { session: final(self)@, server: final(state)@, deed: r@ }) == old(
                self,
            )@.granted(old(state)@, subdomain@, listener@),
            final(state)@.wf(),
            final(self)@.fits(final(state)@),
    {
        let mut public_url: String = text::join("https://", subdomain.as_str());
        public_url.append(".");
        public_url.append(state.config.domain.as_str());
        if !state.register_event_listener(subdomain.clone(), listener.to_owned()) {
            return Action::Finish(Some(Event::out_of_capacity().serialize()));
        }
        self.actual_subdomain = subdomain;
        self.auth_state = AuthState::Proxying;
        Action::GoLive(Event::lets_go(public_url.as_str()).serialize())
    }

    /// There is a verdict on the token of the client, and `listener` is the name
    /// of its channel.
    pub fn on_verdict(&mut self, state: &mut State, verdict: Verdict, listener: &str) -> (r: Action)
        requires
            old(state)@.wf(),
            old(self)@.fits(old(state)@),
            old(self).auth_state == AuthState::AwaitingToken,
        ensures
            (Step { session: final(self)@, server: final(state)@, deed: r@ }) == old(self)@.ruled(
                old(state)@,
                verdict@,
                listener@,
            ),
            final(state)@.wf(),
            final(self)@.fits(final(state)@),
    {
        match verdict {
            Verdict::Granted(subdomain) => self.grant(state, subdomain, listener),
            Verdict::Rejected => Action::Finish(Some(Event::auth_failed().serialize())),
            Verdict::Ask(uri) => Action::Ask(uri),
        }
    }

    /// The endpoint that was asked about the token of the client replied, and
    /// `listener` is the name of the channel of the client.
    pub fn on_reply(&mut self, state: &mut State, reply: &BackendReply, listener: &str) -> (r:
        Action)
        requires
            old(state)@.wf(),
            old(self)@.fits(old(state)@),
            old(self).auth_state == AuthState::AwaitingToken,
            old(state)@.known is Dynamic,
        ensures
            (Step { session: final(self)@, server: final(state)@, deed: r@ }) == old(self)@.ruled(
                old(state)@,
                ruling_of_reply(*reply),
                listener@,
            ),
            final(state)@.wf(),
            final(self)@.fits(final(state)@),
    {
        let verdict = match reply.granted() {
            Some(subdomain) => Verdict::Granted(subdomain),
            None => Verdict::Rejected,
        };
        self.on_verdict(state, verdict, listener)
    }

    /// A frame arrived on the websocket. `listener` is the name of the channel
    /// of the client. Should a token or a random subdomain be needed, they are
    /// `token` and `random`.
    pub fn on_frame_with(
        &mut self,
        state: &mut State,
        frame: Frame<'_>,
        listener: &str,
        token: String,
        random: String,
    ) -> (r: Action)
        requires
            old(state)@.wf(),
            old(self)@.fits(old(state)@),
        ensures
            (Step { session: final(self)@, server: final(state)@, deed: r@ }) == old(
                self,
            )@.frame_arrives(old(state)@, frame@, listener@, token@, random@),
            final(state)@.wf(),
            final(self)@.fits(final(state)@),
    {
        let payload: &[u8] = match frame {
            Frame::Pong => {
                self.i_am_waiting_for_pong = false;
                return Action::Continue;
            },
            Frame::Other => return Action::Continue,
            Frame::Payload(payload) => payload,
        };
        let event = match Event::deserialize(payload) {
            Ok(event) => event,
            Err(_) => return Action::Finish(Some(Event::disallowed_packet().serialize())),
        };
        match (event, self.auth_state) {
            (Event::AoAuth { character_name }, AuthState::AwaitingAoAuth) => {
                let bot_name: String = text::capitalize(character_name);
                self.auth_state = AuthState::AwaitingToken;
                let tell = state.auth_provider.expect(bot_name, token);
                match (tell, &state.config.ao_character) {
                    (Some(tell), Some(sender)) => Action::Tell {
                        tell,
                        reply: Event::token_in_ao_tell(sender.as_str()).serialize(),
                    },
                    _ => Action::Continue,
                }
            },
            (Event::PresentToken { token: presented, desired_subdomain }, AuthState::AwaitingToken)
                => {
                let strategy = state.config.subdomain_strategy;
                let verdict = state.auth_provider.verify_with(
                    presented,
                    desired_subdomain,
                    strategy,
                    random,
                );
                self.on_verdict(state, verdict, listener)
            },
            (Event::Data { id, data }, AuthState::Proxying) => {
                match self.stream_senders.get(id) {
                    Some(sender) => Action::Deliver {
                        sender: sender.clone(),
                        event: StreamEvent::data(id.to_owned(), slice_to_vec(data)),
                    },
                    None => Action::Continue,
                }
            },
            (Event::Closed { id }, AuthState::Proxying) => {
                match self.stream_senders.remove(id) {
                    Some(sender) => Action::Deliver {
                        sender,
                        event: StreamEvent::close(id.to_owned()),
                    },
                    None => Action::Continue,
                }
            },
            _ => Action::Finish(Some(Event::disallowed_packet().serialize())),
        }
    }

    /// A frame arrived on the websocket. `listener` is the name of the channel
    /// of the client.
    pub fn on_frame(&mut self, state: &mut State, frame: Frame<'_>, listener: &str) -> (r: Action)
        requires
            old(state)@.wf(),
            old(self)@.fits(old(state)@),
        ensures
            exists|token: Seq<char>, random: Seq<char>|
                #![trigger util::is_uuid_text(token), util::is_uuid_text(random)]
                util::is_uuid_text(token) && util::is_uuid_text(random) && (Step {
                    session: final(self)@,
                    server: final(state)@,
                    deed: r@,
                }) == old(self)@.frame_arrives(old(state)@, frame@, listener@, token, random),
            final(state)@.wf(),
            final(self)@.fits(final(state)@),
    {
        if self.auth_state == AuthState::Proxying {
            // A client that was let in needs neither a token nor a subdomain.
            let ghost any = util::lemma_some_uuid_text();
            let r = self.on_frame_with(state, frame, listener, String::new(), String::new());
            assert(util::is_uuid_text(any));
            r
        } else {
            let token: String = util::random_token();
            let random: String = util::random_subdomain();
            let ghost (t, s) = (token@, random@);
            let r = self.on_frame_with(state, frame, listener, token, random);
            assert(util::is_uuid_text(t) && util::is_uuid_text(s));
            r
        }
    }

    /// There is news on the channel of the client.
    pub fn on_stream_event(&mut self, event: StreamEvent) -> (r: Action)
        ensures
            final(self)@ == old(self)@.after_news(event@),
            r@ == deed_of_news(event@),
    {
        match event {
            StreamEvent::New { id, sender } => {
                self.stream_senders.insert(id, sender);
                Action::Continue
            },
            StreamEvent::Close { id } => {
                let _ = self.stream_senders.remove(id.as_str());
                Action::Send(Event::closed(id.as_str()).serialize())
            },
            StreamEvent::Data { id, data } => Action::Send(
                Event::data(id.as_str(), data.as_slice()).serialize(),
            ),
        }
    }

    /// Nothing happened for [`IDLE_SECONDS`].
    pub fn on_idle(&mut self) -> (r: Action)
        ensures
            final(self)@ == old(self)@.after_idling(),
            r@ == old(self)@.deed_of_idling(),
    {
        if self.i_am_waiting_for_pong {
            Action::Finish(None)
        } else {
            self.i_am_waiting_for_pong = true;
            Action::Ping
        }
    }

    /// The session is over. The subdomain that the client had leads nowhere from
    /// now on.
    pub fn finish(self, state: &mut State) -> (r: Farewell)
        ensures
            final(state)@ == self@.server_after(old(state)@),
            old(state)@.wf() ==> final(state)@.wf(),
            r.unregistered is Some <==> self.auth_state == AuthState::Proxying && old(
                state,
            )@.listener(self@.subdomain) is Some,
            r.unregistered matches Some(sender) ==> old(state)@.listener(self@.subdomain) == Some(
                sender@,
            ),
            match (r.unregistered, self@.channel_given_up(old(state)@)) {
                (Some(sender), Some(channel)) => sender@ == channel,
                (None, None) => true,
                _ => false,
            },
            closes(
                r.closing@.map_values(|entry: (String, StreamEvent)| (entry.0@, entry.1@)),
                self@.streams,
            ),
    {
        let unregistered = if self.auth_state == AuthState::Proxying {
            state.unregister_event_listener(self.actual_subdomain.as_str())
        } else {
            None
        };
        Farewell { unregistered, closing: close_all(self.stream_senders) }
    }
}

/// What a client may not send ends its session: bytes that are no packet, and
/// packets that do not belong where the session is. It is answered that the
/// packet is disallowed, and nothing changes. A packet that is allowed is never
/// answered so.
pub proof fn law_disallowed_packets_end_the_session(
    session: Progress,
    server: Server,
    payload: Seq<u8>,
    listener: Seq<char>,
    token: Seq<char>,
    random: Seq<char>,
)
    ensures
        ({
            let step = session.frame_arrives(
                server,
                Heard::Payload(payload),
                listener,
                token,
                random,
            );
            let refusal = Deed::Finish(Some(Packet::DisallowedPacket.bytes()));
            if proto::parse(payload) matches Ok(packet) && allowed(session.auth_state, packet) {
                step.deed != refusal
            } else {
                step == session.only(server, refusal)
            }
        }),
{
    proto::law_parse_undoes_bytes(Packet::DisallowedPacket);
    proto::law_parse_undoes_bytes(Packet::AuthFailed);
    proto::law_parse_undoes_bytes(Packet::OutOfCapacity);
    assert(Packet::DisallowedPacket.bytes() != Packet::AuthFailed.bytes());
    assert(Packet::DisallowedPacket.bytes() != Packet::OutOfCapacity.bytes());
}

/// Only a client that was let in can pass on data: before, a packet with data
/// or one that closes a connection ends the session, and nothing is delivered.
pub proof fn law_no_data_before_admission(
    session: Progress,
    server: Server,
    heard: Heard,
    listener: Seq<char>,
    token: Seq<char>,
    random: Seq<char>,
)
    requires
        session.auth_state != AuthState::Proxying,
    ensures
        !(session.frame_arrives(server, heard, listener, token, random).deed is Deliver),
        heard matches Heard::Payload(payload) && proto::parse(payload) matches Ok(packet) && (
        packet is Data || packet is Closed) ==> session.frame_arrives(
            server,
            heard,
            listener,
            token,
            random,
        ).deed == Deed::Finish(Some(Packet::DisallowedPacket.bytes())),
{
}

/// What the client is answered to a token: that authentication failed if the
/// token is rejected, that the server is out of capacity if it is granted a
/// subdomain that it cannot have, and its public URL otherwise. Only then does
/// it get the subdomain; the first two end the session.
pub proof fn law_answer_to_a_token(
    session: Progress,
    server: Server,
    ruling: Ruling,
    listener: Seq<char>,
)
    ensures
        ({
            let step = session.ruled(server, ruling, listener);
            match ruling {
                Ruling::Rejected => step == session.only(
                    server,
                    Deed::Finish(Some(Packet::AuthFailed.bytes())),
                ),
                Ruling::Granted(subdomain) => if server.admits(subdomain) {
                    &&& step.deed == Deed::GoLive(
                        (Packet::LetsGo {
                            public_url: public_url(subdomain, server.config.domain@),
                        }).bytes(),
                    )
                    &&& step.server.listener(subdomain) == Some(listener)
                    &&& step.session.auth_state == AuthState::Proxying
                } else {
                    step == session.only(
                        server,
                        Deed::Finish(Some(Packet::OutOfCapacity.bytes())),
                    )
                },
                Ruling::Ask(uri) => step == session.only(server, Deed::Ask(uri)),
            }
        }),
{
}

/// A client is let in by nothing but a token: a session comes to pass on data
/// only when the client presents a token, is granted a subdomain, and the
/// server has room for it.
pub proof fn law_only_a_token_lets_in(
    session: Progress,
    server: Server,
    heard: Heard,
    listener: Seq<char>,
    token: Seq<char>,
    random: Seq<char>,
)
    requires
        session.auth_state != AuthState::Proxying,
        session.frame_arrives(server, heard, listener, token, random).session.auth_state
            == AuthState::Proxying,
    ensures
        session.auth_state == AuthState::AwaitingToken,
        heard matches Heard::Payload(payload) && proto::parse(payload) matches Ok(
            Packet::PresentToken { token: presented, desired_subdomain },
        ) && server.known.ruling(
            presented,
            desired_subdomain,
            server.config.subdomain_strategy,
            random,
        ) matches Ruling::Granted(subdomain) && server.admits(subdomain),
{
}

/// Where an endpoint decides, it is asked about the token and the subdomain that
/// the client wants. The client is let in with the text that a 2xx answer has as
/// its body, whatever the strategy, if the server has room for it; any other
/// status, or none, is answered with a failed authentication.
pub proof fn law_endpoint_decides(
    session: Progress,
    server: Server,
    endpoint: Seq<char>,
    presented: Seq<char>,
    desired_subdomain: Seq<char>,
    reply: BackendReply,
    listener: Seq<char>,
    token: Seq<char>,
    random: Seq<char>,
)
    requires
        session.auth_state == AuthState::AwaitingToken,
        server.known == Knowledge::Dynamic(endpoint),
        proto::is_id(presented),
    ensures
        ({
            let packet = Packet::PresentToken { token: presented, desired_subdomain };
            let step = session.frame_arrives(
                server,
                Heard::Payload(packet.bytes()),
                listener,
                token,
                random,
            );
            let next = step.session.ruled(step.server, ruling_of_reply(reply), listener);
            &&& step == session.only(
                server,
                Deed::Ask(dynamic::question(endpoint, presented, desired_subdomain)),
            )
            &&& match reply {
                BackendReply::Answer { status, body: Some(body) } => if 200 <= status < 300
                    && text::text_of(body@) is Some {
                    next == session.granted(server, text::text_of(body@)->0, listener)
                } else {
                    next.deed == Deed::Finish(Some(Packet::AuthFailed.bytes()))
                },
                _ => next.deed == Deed::Finish(Some(Packet::AuthFailed.bytes())),
            }
        }),
{
    proto::law_parse_undoes_bytes(Packet::PresentToken { token: presented, desired_subdomain });
}

/// A reply of an endpoint lets a client in only where an endpoint decides: there
/// is a question only for a token that the client presented, and the client is
/// let in only with a subdomain that the reply grants and the server has room
/// for.
pub proof fn law_reply_lets_in_only_after_a_question(
    session: Progress,
    server: Server,
    heard: Heard,
    reply: BackendReply,
    listener: Seq<char>,
    token: Seq<char>,
    random: Seq<char>,
)
    requires
        session.auth_state != AuthState::Proxying,
        session.frame_arrives(server, heard, listener, token, random).deed is Ask,
    ensures
        server.known is Dynamic,
        session.auth_state == AuthState::AwaitingToken,
        heard matches Heard::Payload(payload) && proto::parse(payload) matches Ok(packet)
            && packet is PresentToken,
        ({
            let asked = session.frame_arrives(server, heard, listener, token, random);
            let next = asked.session.ruled(asked.server, ruling_of_reply(reply), listener);
            next.session.auth_state == AuthState::Proxying <==> (reply.grants() matches Some(
                subdomain,
            ) && server.admits(subdomain))
        }),
{
}

/// A claim that is refused takes nothing away: once the session is over the
/// server is as it was, and who holds the subdomain still holds it.
pub proof fn law_refused_claim_takes_nothing_away(
    session: Progress,
    server: Server,
    subdomain: Seq<char>,
    listener: Seq<char>,
)
    requires
        session.auth_state != AuthState::Proxying,
        !server.admits(subdomain),
    ensures
        ({
            let step = session.granted(server, subdomain, listener);
            &&& step.deed == Deed::Finish(Some(Packet::OutOfCapacity.bytes()))
            &&& step.session.server_after(step.server) == server
        }),
{
}

/// A subdomain stays with its client until the session of that client is over:
/// neither what another client sends, nor a ruling on its token, nor the end of
/// its session changes where the subdomain leads, and no other client comes to
/// have it.
pub proof fn law_subdomain_stays_with_its_client(
    holder: Progress,
    other: Progress,
    server: Server,
    channel: Seq<char>,
    heard: Heard,
    ruling: Ruling,
    listener: Seq<char>,
    token: Seq<char>,
    random: Seq<char>,
)
    requires
        server.listener(holder.subdomain) == Some(channel),
        other.auth_state == AuthState::Proxying ==> other.subdomain != holder.subdomain,
    ensures
        ({
            let sent = other.frame_arrives(server, heard, listener, token, random);
            let ruled = other.ruled(server, ruling, listener);
            &&& sent.server.listener(holder.subdomain) == Some(channel)
            &&& sent.session.auth_state == AuthState::Proxying ==> sent.session.subdomain
                != holder.subdomain
            &&& ruled.server.listener(holder.subdomain) == Some(channel)
            &&& ruled.session.auth_state == AuthState::Proxying ==> ruled.session.subdomain
                != holder.subdomain
            &&& other.server_after(server).listener(holder.subdomain) == Some(channel)
        }),
{
}

/// The public URL that a client is told works: a request for its host is passed
/// on to the client, where the subdomain is a single label and the host is not
/// the one of the websocket.
pub proof fn law_public_url_leads_to_the_client(
    session: Progress,
    server: Server,
    subdomain: Seq<char>,
    listener: Seq<char>,
    path: Option<Seq<char>>,
)
    requires
        server.admits(subdomain),
        !subdomain.contains('.'),
        subdomain + "."@ + server.config.domain@ != server.config.websocket_host@,
    ensures
        ({
            let step = session.granted(server, subdomain, listener);
            let host = subdomain + "."@ + server.config.domain@;
            &&& step.deed == Deed::GoLive(
                (Packet::LetsGo { public_url: "https://"@ + host }).bytes(),
            )
            &&& step.server.way_to_host(path, host) == request::Way::Tunnel(listener)
        }),
{
    reveal_strlit(".");
    assert("."@ =~= seq!['.']);
    let host = subdomain + "."@ + server.config.domain@;
    assert("https://"@ + host =~= public_url(subdomain, server.config.domain@));
    request::law_subdomain_leads_to_its_client(
        server.with_listener(subdomain, listener),
        path,
        subdomain,
        server.config.domain@,
    );
}

/// A random subdomain always is a single label, so the public URL that a client
/// is told with it works.
pub proof fn law_random_subdomain_works(
    session: Progress,
    server: Server,
    random: Seq<char>,
    listener: Seq<char>,
    path: Option<Seq<char>>,
)
    requires
        util::is_uuid_text(random),
        server.admits(random),
        random + "."@ + server.config.domain@ != server.config.websocket_host@,
    ensures
        session.granted(server, random, listener).server.way_to_host(
            path,
            random + "."@ + server.config.domain@,
        ) == request::Way::Tunnel(listener),
{
    util::law_random_token_is_id_and_label(random);
    law_public_url_leads_to_the_client(session, server, random, listener, path);
}

/// A client that does not answer a ping before the session has idled again is
/// disconnected; one that answered is pinged again.
pub proof fn law_unanswered_ping_ends_the_session(
    session: Progress,
    server: Server,
    listener: Seq<char>,
    token: Seq<char>,
    random: Seq<char>,
)
    ensures
        session.after_idling().deed_of_idling() == Deed::Finish(None),
        session.after_idling().frame_arrives(
            server,
            Heard::Pong,
            listener,
            token,
            random,
        ).session.deed_of_idling() == Deed::Ping,
{
}

/// What is read from a tunneled connection reaches the client as it is: the
/// packet that is sent for it holds the id of the connection and the very bytes.
pub proof fn law_data_reaches_the_client(id: Seq<char>, data: Seq<u8>)
    requires
        proto::is_id(id),
        data.len() > 0,
    ensures
        tunnel::news_of_read(id, Some(data)) matches Some(news) && deed_of_news(
            news,
        ) matches Deed::Send(packet) && proto::parse(packet) matches Ok(read)
            && read == (Packet::Data { id, data }),
{
    proto::law_parse_undoes_bytes(Packet::Data { id, data });
}

/// What the client sends for a connection that was announced to it is written to
/// that connection as it is.
pub proof fn law_data_reaches_the_connection(
    session: Progress,
    server: Server,
    id: Seq<char>,
    sender: Seq<char>,
    data: Seq<u8>,
    listener: Seq<char>,
    token: Seq<char>,
    random: Seq<char>,
)
    requires
        session.auth_state == AuthState::Proxying,
        proto::is_id(id),
    ensures
        ({
            let announced = session.after_news(News::New { id, sender });
            let payload = (Packet::Data { id, data }).bytes();
            let step = announced.frame_arrives(
                server,
                Heard::Payload(payload),
                listener,
                token,
                random,
            );
            &&& step.deed == (Deed::Deliver { sender, news: News::Data { id, data } })
            &&& tunnel::written_for(News::Data { id, data }) == Some(data)
            &&& step.session == announced
        }),
{
    proto::law_parse_undoes_bytes(Packet::Data { id, data });
}

/// Once either side has closed a connection nothing more is delivered to it.
pub proof fn law_closed_is_closed(
    session: Progress,
    server: Server,
    id: Seq<char>,
    data: Seq<u8>,
    listener: Seq<char>,
    token: Seq<char>,
    random: Seq<char>,
)
    requires
        session.auth_state == AuthState::Proxying,
        proto::is_id(id),
    ensures
        ({
            let by_peer = session.after_news(News::Close { id });
            let by_client = session.packet_arrives(
                server,
                Packet::Closed { id },
                listener,
                token,
                random,
            ).session;
            let payload = Heard::Payload((Packet::Data { id, data }).bytes());
            &&& by_peer.frame_arrives(server, payload, listener, token, random).deed
                == Deed::Continue
            &&& by_client.frame_arrives(server, payload, listener, token, random).deed
                == Deed::Continue
        }),
{
    proto::law_parse_undoes_bytes(Packet::Data { id, data });
}

/// Connections do not mix: what happens to one leaves the channels of the others
/// as they are.
pub proof fn law_connections_do_not_mix(session: Progress, news: News, other: Seq<char>)
    requires
        match news {
            News::New { id, .. } => other != id,
            News::Data { .. } => true,
            News::Close { id } => other != id,
        },
    ensures
        session.after_news(news).streams.contains_key(other) == session.streams.contains_key(other),
        session.streams.contains_key(other) ==> session.after_news(news).streams[other]
            == session.streams[other],
{
}

/// When the session of a client that was let in is over its subdomain leads
/// nowhere, its place is free, and the subdomain can be had again; all other
/// subdomains lead where they led before.
pub proof fn law_subdomain_is_given_back(session: Progress, server: Server, other: Seq<char>)
    ensures
        session.auth_state == AuthState::Proxying ==> session.server_after(server).listener(
            session.subdomain,
        ) is None,
        server.wf() && session.auth_state == AuthState::Proxying && server.listener(
            session.subdomain,
        ) is Some ==> {
            &&& session.server_after(server).listeners.len() == server.listeners.len() - 1
            &&& session.server_after(server).admits(session.subdomain)
        },
        other != session.subdomain ==> session.server_after(server).listener(other)
            == server.listener(other),
{
    if server.wf() {
        state::law_unregistered_is_free(server, session.subdomain, other);
        assert(server.listeners.remove(session.subdomain).dom() == server.listeners.dom().remove(
            session.subdomain,
        ));
    }
}

/// What a client sends for one connection goes to that connection alone: it is
/// delivered on the channel of the connection that the packet names, as news of
/// that connection, and the channels of all others stay as they are.
pub proof fn law_packets_do_not_mix(
    session: Progress,
    server: Server,
    heard: Heard,
    other: Seq<char>,
    listener: Seq<char>,
    token: Seq<char>,
    random: Seq<char>,
)
    ensures
        ({
            let step = session.frame_arrives(server, heard, listener, token, random);
            &&& step.deed matches Deed::Deliver { sender, news } ==> {
                let id = match news {
                    News::New { id, .. } => id,
                    News::Data { id, .. } => id,
                    News::Close { id } => id,
                };
                &&& !(news is New)
                &&& session.streams.contains_key(id)
                &&& sender == session.streams[id]
                &&& other != id && session.streams.contains_key(other)
                    ==> step.session.streams.contains_key(other) && step.session.streams[other]
                    == session.streams[other]
            }
            &&& !(step.deed is Deliver) ==> step.session.streams =~= session.streams
        }),
{
}

/// A frame never takes a subdomain from a client, nor changes the settings: it
/// changes where a subdomain leads only if the subdomain was free and the client
/// goes live under it.
pub proof fn law_a_frame_takes_no_subdomain_away(
    session: Progress,
    server: Server,
    heard: Heard,
    other: Seq<char>,
    listener: Seq<char>,
    token: Seq<char>,
    random: Seq<char>,
)
    ensures
        ({
            let step = session.frame_arrives(server, heard, listener, token, random);
            &&& step.server.config == server.config
            &&& step.server.listener(other) != server.listener(other) ==> {
                &&& server.listener(other) is None
                &&& step.server.listener(other) == Some(listener)
                &&& step.deed is GoLive
                &&& step.session.subdomain == other
            }
        }),
{
}

/// A client that authenticates as a character has a token told to that character
/// and, presenting it, goes live under the subdomain that the strategy provides
/// for, if the server has room for it.
pub proof fn law_character_goes_live(
    session: Progress,
    server: Server,
    character_name: Seq<char>,
    desired_subdomain: Seq<char>,
    listener: Seq<char>,
    token: Seq<char>,
    random: Seq<char>,
    later_token: Seq<char>,
)
    requires
        session.auth_state == AuthState::AwaitingAoAuth,
        server.known is Ao,
        util::is_uuid_text(token),
    ensures
        ({
            let wish = Heard::Payload((Packet::AoAuth { character_name }).bytes());
            let asked = session.frame_arrives(server, wish, listener, token, random);
            let reply = Heard::Payload((Packet::PresentToken { token, desired_subdomain }).bytes());
            let step = asked.session.frame_arrives(
                asked.server,
                reply,
                listener,
                later_token,
                random,
            );
            let character = text::capitalized(character_name);
            let subdomain = ao::character_subdomain(
                server.config.subdomain_strategy,
                character,
                desired_subdomain,
                random,
            );
            &&& asked.deed matches Deed::Tell { character: told, token: sent, .. } && told
                == character && sent == token
            &&& server.admits(subdomain) ==> {
                &&& step.deed == Deed::GoLive(
                    (Packet::LetsGo {
                        public_url: public_url(subdomain, server.config.domain@),
                    }).bytes(),
                )
                &&& step.server.listener(subdomain) == Some(listener)
            }
        }),
{
    util::law_random_token_is_id_and_label(token);
    proto::law_parse_undoes_bytes(Packet::AoAuth { character_name });
    proto::law_parse_undoes_bytes(Packet::PresentToken { token, desired_subdomain });
}

/// A client that connects is greeted with the version, the mode and the
/// description of the server, and has nothing yet: it first names a character
/// where tokens are told, and presents a token anywhere else.
pub proof fn law_newcomers(config: Args)
    ensures
        proto::parse(greeting(config).bytes()) matches Ok(
            Packet::Hello { proto_version, auth_mode, description },
        ) && proto_version == 1 && description == config.description@ && (auth_mode
            == AuthMode::AoTell <==> config.auth == AuthBackend::Ao) && (auth_mode
            == AuthMode::Anonymous <==> config.auth == AuthBackend::Anonymous),
        newcomer(config).auth_state == AuthState::AwaitingAoAuth <==> config.auth
            == AuthBackend::Ao,
        newcomer(config).auth_state == AuthState::AwaitingToken <==> config.auth
            != AuthBackend::Ao,
        newcomer(config).streams == Map::<Seq<char>, Seq<char>>::empty(),
        newcomer(config).subdomain == Seq::<char>::empty(),
        !newcomer(config).waiting_for_pong,
{
    proto::law_parse_undoes_bytes(greeting(config));
}

/// A frame that is no payload never ends a session, sends nothing and changes
/// nothing but whether a pong is awaited: a pong ends the waiting, however far the
/// client has come, and anything else leaves it.
pub proof fn law_only_payloads_matter(
    session: Progress,
    server: Server,
    listener: Seq<char>,
    token: Seq<char>,
    random: Seq<char>,
)
    ensures
        ({
            let pong = session.frame_arrives(server, Heard::Pong, listener, token, random);
            &&& pong.deed == Deed::Continue
            &&& pong.server == server
            &&& pong.session.auth_state == session.auth_state
            &&& pong.session.streams == session.streams
            &&& pong.session.subdomain == session.subdomain
            &&& !pong.session.waiting_for_pong
        }),
        ({
            let other = session.frame_arrives(server, Heard::Other, listener, token, random);
            &&& other.deed == Deed::Continue
            &&& other.server == server
            &&& other.session == session
        }),
{
}

/// What a client may send, and when: first the name of its character where tokens
/// are told, then a token, and once it was let in data and the ends of
/// connections. Only that keeps the session going; anything else is answered as
/// disallowed, ends the session, and changes nothing.
pub proof fn law_what_may_be_sent_when(
    session: Progress,
    server: Server,
    payload: Seq<u8>,
    listener: Seq<char>,
    token: Seq<char>,
    random: Seq<char>,
)
    ensures
        ({
            let step = session.frame_arrives(
                server,
                Heard::Payload(payload),
                listener,
                token,
                random,
            );
            let belongs = match proto::parse(payload) {
                Err(_) => false,
                Ok(Packet::AoAuth { .. }) => session.auth_state == AuthState::AwaitingAoAuth,
                Ok(Packet::PresentToken { .. }) => session.auth_state == AuthState::AwaitingToken,
                Ok(Packet::Data { .. }) => session.auth_state == AuthState::Proxying,
                Ok(Packet::Closed { .. }) => session.auth_state == AuthState::Proxying,
                Ok(_) => false,
            };
            let refused = step.deed == Deed::Finish(Some(seq![8u8]));
            &&& belongs <==> !refused
            &&& refused ==> step.session == session && step.server == server
        }),
{
    assert(Packet::DisallowedPacket.bytes() =~= seq![8u8]);
    assert(Packet::AuthFailed.bytes()[0] == 6);
    assert(Packet::OutOfCapacity.bytes()[0] == 7);
    assert(seq![8u8][0] == 8);
}

/// A client that was let in stays so, under its subdomain, whatever data it
/// sends, whatever connections it closes, and whatever it answers to pings: the
/// server stays as it is, and nothing is sent to the client.
pub proof fn law_live_session_goes_on(
    session: Progress,
    server: Server,
    heard: Heard,
    listener: Seq<char>,
    token: Seq<char>,
    random: Seq<char>,
)
    requires
        session.auth_state == AuthState::Proxying,
        heard matches Heard::Payload(payload) ==> (proto::parse(payload) matches Ok(packet) && (
        packet is Data || packet is Closed)),
    ensures
        ({
            let step = session.frame_arrives(server, heard, listener, token, random);
            &&& step.deed is Continue || step.deed is Deliver
            &&& step.server == server
            &&& step.session.auth_state == AuthState::Proxying
            &&& step.session.subdomain == session.subdomain
            &&& heard != Heard::Pong ==> step.session.waiting_for_pong == session.waiting_for_pong
        }),
{
}

/// Data and the end of a connection are delivered on the channel of the
/// connection that the packet names, if there is one, and otherwise ignored. Data
/// leaves all channels as they are; an end takes away that of its connection.
pub proof fn law_packets_reach_their_connection(
    session: Progress,
    server: Server,
    id: Seq<char>,
    data: Seq<u8>,
    listener: Seq<char>,
    token: Seq<char>,
    random: Seq<char>,
)
    requires
        session.auth_state == AuthState::Proxying,
        proto::is_id(id),
    ensures
        ({
            let payload = Heard::Payload((Packet::Data { id, data }).bytes());
            let step = session.frame_arrives(server, payload, listener, token, random);
            &&& step.session == session
            &&& session.streams.contains_key(id) ==> step.deed == (Deed::Deliver {
                sender: session.streams[id],
                news: News::Data { id, data },
            })
            &&& !session.streams.contains_key(id) ==> step.deed == Deed::Continue
        }),
        ({
            let payload = Heard::Payload((Packet::Closed { id }).bytes());
            let step = session.frame_arrives(server, payload, listener, token, random);
            &&& step.session.streams == session.streams.remove(id)
            &&& session.streams.contains_key(id) ==> step.deed == (Deed::Deliver {
                sender: session.streams[id],
                news: News::Close { id },
            })
            &&& !session.streams.contains_key(id) ==> step.deed == Deed::Continue
        }),
{
    proto::law_parse_undoes_bytes(Packet::Data { id, data });
    proto::law_parse_undoes_bytes(Packet::Closed { id });
}

/// News of connections change nothing but the channels: a new connection adds
/// its channel, the end of one takes it away, and data leaves all as they are.
/// The client is sent data and ends, each under its id, and is not told of a new
/// connection before there is data.
pub proof fn law_news_of_connections(
    session: Progress,
    id: Seq<char>,
    sender: Seq<char>,
    data: Seq<u8>,
    news: News,
)
    requires
        proto::is_id(id),
    ensures
        session.after_news(news).auth_state == session.auth_state,
        session.after_news(news).subdomain == session.subdomain,
        session.after_news(news).waiting_for_pong == session.waiting_for_pong,
        session.after_news(News::New { id, sender }).streams == session.streams.insert(id, sender),
        session.after_news(News::Data { id, data }).streams == session.streams,
        session.after_news(News::Close { id }).streams == session.streams.remove(id),
        deed_of_news(News::New { id, sender }) == Deed::Continue,
        deed_of_news(News::Data { id, data }) matches Deed::Send(packet) && proto::parse(packet)
            == Ok::<Packet, proto::ParseEventError>(Packet::Data { id, data }),
        deed_of_news(News::Close { id }) matches Deed::Send(packet) && proto::parse(packet) == Ok::<
            Packet,
            proto::ParseEventError,
        >(Packet::Closed { id }),
{
    proto::law_parse_undoes_bytes(Packet::Data { id, data });
    proto::law_parse_undoes_bytes(Packet::Closed { id });
}

/// A session that idles is pinged, and ends without a word if the ping before was
/// not answered. Idling changes nothing but that a pong is awaited.
pub proof fn law_idling(session: Progress)
    ensures
        session.waiting_for_pong ==> session.deed_of_idling() == Deed::Finish(None),
        !session.waiting_for_pong ==> session.deed_of_idling() == Deed::Ping,
        session.after_idling().waiting_for_pong,
        session.after_idling().auth_state == session.auth_state,
        session.after_idling().streams == session.streams,
        session.after_idling().subdomain == session.subdomain,
{
}

/// A client that is let in has its subdomain, which leads to its channel, and
/// keeps what it had; for all others the server stays as it is. A client that is
/// refused has nothing, and changes nothing.
pub proof fn law_letting_in(
    session: Progress,
    server: Server,
    subdomain: Seq<char>,
    listener: Seq<char>,
)
    ensures
        ({
            let step = session.granted(server, subdomain, listener);
            let room = server.listeners.dom().len() < server.config.max_clients
                && !server.listeners.contains_key(subdomain);
            &&& room ==> {
                &&& step.session.auth_state == AuthState::Proxying
                &&& step.session.subdomain == subdomain
                &&& step.session.streams == session.streams
                &&& step.session.waiting_for_pong == session.waiting_for_pong
                &&& step.server.listeners == server.listeners.insert(subdomain, listener)
                &&& step.server.known == server.known
                &&& step.server.config == server.config
                &&& step.deed == Deed::GoLive(
                    (Packet::LetsGo {
                        public_url: "https://"@ + subdomain + "."@ + server.config.domain@,
                    }).bytes(),
                )
            }
            &&& !room ==> {
                &&& step.session == session
                &&& step.server == server
                &&& step.deed == Deed::Finish(Some(seq![7u8]))
            }
        }),
{
    assert(Packet::OutOfCapacity.bytes() =~= seq![7u8]);
}

/// The end of a session changes nothing but where the subdomain of a client that
/// was let in leads; the end of any other session changes nothing.
pub proof fn law_leaving(session: Progress, server: Server)
    ensures
        session.server_after(server).known == server.known,
        session.server_after(server).config == server.config,
        session.auth_state == AuthState::Proxying ==> session.server_after(server).listeners
            == server.listeners.remove(session.subdomain),
        session.auth_state != AuthState::Proxying ==> session.server_after(server) == server,
{
}

/// A client that comes, is let in and leaves, whatever it did meanwhile to its
/// connections, leaves the clients of the server as they were.
pub proof fn law_client_comes_and_goes(
    session: Progress,
    server: Server,
    subdomain: Seq<char>,
    listener: Seq<char>,
    news: News,
    heard: Heard,
    token: Seq<char>,
    random: Seq<char>,
)
    requires
        server.admits(subdomain),
        heard matches Heard::Payload(payload) ==> (proto::parse(payload) matches Ok(packet) && (
        packet is Data || packet is Closed)),
    ensures
        ({
            let live = session.granted(server, subdomain, listener);
            let told = live.session.after_news(news).after_idling();
            let last = told.frame_arrives(live.server, heard, listener, token, random);
            last.session.server_after(last.server) == server
        }),
{
    assert(server.listeners.insert(subdomain, listener).remove(subdomain) =~= server.listeners);
}

/// A client that names its character waits for the token, which is told to the
/// character of that name, first letter in upper case, and is told who will tell
/// it. It has nothing yet, and no other token and no other client is affected.
pub proof fn law_naming_a_character(
    session: Progress,
    server: Server,
    first: char,
    rest: Seq<char>,
    other: Seq<char>,
    desired_subdomain: Seq<char>,
    listener: Seq<char>,
    token: Seq<char>,
    random: Seq<char>,
)
    requires
        session.auth_state == AuthState::AwaitingAoAuth,
        server.known is Ao,
        server.config.ao_character is Some,
    ensures
        ({
            let wish = Packet::AoAuth { character_name: seq![first] + rest };
            let step = session.frame_arrives(
                server,
                Heard::Payload(wish.bytes()),
                listener,
                token,
                random,
            );
            &&& step.deed matches Deed::Tell { character, token: told, reply } && character == seq![
                text::ascii_upper_char(first),
            ] + rest && told == token && proto::parse(reply) == Ok::<
                Packet,
                proto::ParseEventError,
            >(Packet::TokenInAoTell { sender: server.config.ao_character->0@ })
            &&& step.session.auth_state == AuthState::AwaitingToken
            &&& step.session.streams == session.streams
            &&& step.session.subdomain == session.subdomain
            &&& step.session.waiting_for_pong == session.waiting_for_pong
            &&& step.server.listeners == server.listeners
            &&& step.server.config == server.config
            &&& other != token ==> step.server.known.ruling(
                other,
                desired_subdomain,
                SubdomainStrategy::ClientChoice,
                random,
            ) == server.known.ruling(
                other,
                desired_subdomain,
                SubdomainStrategy::ClientChoice,
                random,
            )
            &&& step.server.known.ruling(
                token,
                desired_subdomain,
                SubdomainStrategy::ClientChoice,
                random,
            ) == Ruling::Granted(desired_subdomain)
        }),
{
    proto::law_parse_undoes_bytes(Packet::AoAuth { character_name: seq![first] + rest });
    proto::law_parse_undoes_bytes(
        Packet::TokenInAoTell { sender: server.config.ao_character->0@ },
    );
    text::law_capitalized_changes_the_first_letter(first, rest);
}

/// What becomes of a token that a client presents. Where any token will do, or
/// the token is one that is accepted, the client is let in under the subdomain
/// that the strategy provides for, if there is room; a token that was told is
/// spent. Where an endpoint decides, it is asked. Otherwise it is answered that
/// authentication failed, and the server is as it was.
pub proof fn law_presented_token(
    session: Progress,
    server: Server,
    presented: Seq<char>,
    desired_subdomain: Seq<char>,
    listener: Seq<char>,
    token: Seq<char>,
    random: Seq<char>,
)
    requires
        session.auth_state == AuthState::AwaitingToken,
        proto::is_id(presented),
    ensures
        ({
            let packet = Packet::PresentToken { token: presented, desired_subdomain };
            let payload = Heard::Payload(packet.bytes());
            let step = session.frame_arrives(server, payload, listener, token, random);
            let subdomain = if server.config.subdomain_strategy
                == SubdomainStrategy::ClientChoice {
                desired_subdomain
            } else {
                random
            };
            let failed = step == (Step {
                session,
                server,
                deed: Deed::Finish(Some(seq![6u8])),
            });
            match server.known {
                Knowledge::Anonymous => step == session.granted(server, subdomain, listener),
                Knowledge::Private(accepted) => if accepted.contains(presented) {
                    step == session.granted(server, subdomain, listener)
                } else {
                    failed
                },
                Knowledge::Ao(tokens) => if tokens.contains_key(presented) {
                    step == session.granted(
                        Server { known: Knowledge::Ao(tokens.remove(presented)), ..server },
                        match server.config.subdomain_strategy {
                            SubdomainStrategy::AoCharacter => text::unicode_lower(
                                tokens[presented],
                            ),
                            SubdomainStrategy::ClientChoice => desired_subdomain,
                            SubdomainStrategy::Random => random,
                        },
                        listener,
                    )
                } else {
                    failed
                },
                Knowledge::Dynamic(_) => step.deed is Ask && step.session == session && step.server
                    == server,
            }
        }),
{
    proto::law_parse_undoes_bytes(Packet::PresentToken { token: presented, desired_subdomain });
    assert(Packet::AuthFailed.bytes() =~= seq![6u8]);
    if let Knowledge::Ao(tokens) = server.known {
        if !tokens.contains_key(presented) {
            assert(tokens.remove(presented) =~= tokens);
        }
    }
}

/// When all connections of a client are closed, each of them is told so on its
/// own channel, once, and no one else is told anything.
pub proof fn law_everyone_is_told_of_the_end(
    closing: Seq<(Seq<char>, News)>,
    streams: Map<Seq<char>, Seq<char>>,
    id: Seq<char>,
    sender: Seq<char>,
    other: (Seq<char>, News),
)
    requires
        closes(closing, streams),
    ensures
        closing.contains((sender, News::Close { id })) <==> streams.contains_key(id) && streams[id]
            == sender,
        closing.contains(other) ==> other.1 is Close,
        closing.no_duplicates(),
{
    if streams.contains_key(id) && streams[id] == sender {
        let i = choose|i: int|
            0 <= i < closing.len() && (#[trigger] closing[i]).1 == (News::Close { id });
        assert(closing[i].1->Close_id == id);
        assert(closing[i] == (sender, News::Close { id }));
    }
    if closing.contains((sender, News::Close { id })) {
        let i = choose|i: int| 0 <= i < closing.len() && closing[i] == (sender, News::Close { id });
        assert(closing[i].1->Close_id == id);
    }
    if closing.contains(other) {
        let i = choose|i: int| 0 <= i < closing.len() && closing[i] == other;
        assert(closing[i].1 is Close);
    }
    assert forall|i: int, j: int| 0 <= i < closing.len() && 0 <= j < closing.len() && i
        != j implies closing[i] != closing[j] by {
        if i < j {
            assert(closing[i].1 != closing[j].1);
        } else {
            assert(closing[j].1 != closing[i].1);
        }
    }
}

/// A connection is known to the session of its client from its opening to its
/// end: once it was opened its channel is the one that was named, the client can
/// answer on it, and once it has ended the client is told so and it is known no
/// more. All other connections stay as they are.
pub proof fn law_life_of_a_connection(
    session: Progress,
    id: Seq<char>,
    sender: Seq<char>,
    other: Seq<char>,
)
    requires
        proto::is_id(id),
        other != id,
    ensures
        ({
            let opened = session.after_news(tunnel::news_of_opening(id, sender));
            let ended = opened.after_news(tunnel::news_of_end(id));
            &&& opened.streams.contains_key(id) && opened.streams[id] == sender
            &&& !ended.streams.contains_key(id)
            &&& deed_of_news(tunnel::news_of_end(id)) matches Deed::Send(packet) && proto::parse(
                packet,
            ) == Ok::<Packet, proto::ParseEventError>(Packet::Closed { id })
            &&& ended.streams.contains_key(other) == session.streams.contains_key(other)
            &&& session.streams.contains_key(other) ==> ended.streams[other]
                == session.streams[other]
        }),
{
    proto::law_parse_undoes_bytes(Packet::Closed { id });
}

/// The channel that is given up when a session is over is the one that the
/// subdomain of a client that was let in led to; no other session gives one up.
pub proof fn law_channel_is_given_up(session: Progress, server: Server)
    ensures
        session.auth_state != AuthState::Proxying ==> session.channel_given_up(server) is None,
        session.auth_state == AuthState::Proxying && server.listeners.contains_key(
            session.subdomain,
        ) ==> session.channel_given_up(server) == Some(server.listeners[session.subdomain]),
        session.auth_state == AuthState::Proxying && !server.listeners.contains_key(
            session.subdomain,
        ) ==> session.channel_given_up(server) is None,
{
}

} // verus!
