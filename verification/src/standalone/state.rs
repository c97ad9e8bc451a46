//! What the sessions of the server share, and where requests lead.

use crate::request;
use crate::request::Reading;
use crate::request::RequestHead;
use crate::request::Response;
use crate::table::Table;
use crate::text;
use vstd::prelude::*;
use vstd::string::*;
use vstd::utf8::*;

verus! {

/// The subdomain of the control websocket.
pub const WEBSOCKET_SUBDOMAIN: &'static str = "localhost";

/// What is answered where a subdomain leads nowhere.
pub const NOT_FOUND: &'static str = "HTTP/1.1 404\r\n\r\n";

/// What the sessions of the server share.
#[derive(Debug)]
pub struct State {
    // Mapping of subdomain to the name of the channel of its client
    pub event_senders: Table,
    pub domain: String,
    pub character: String,
}

/// What a [`State`] holds.
#[verifier::ext_equal]
pub struct Server {
    pub listeners: Map<Seq<char>, Seq<char>>,
    /// The domain that subdomains are handed out for.
    pub domain: Seq<char>,
    /// The character that tells tokens.
    pub character: Seq<char>,
}

impl View for State {
    type V = Server;

    open spec fn view(&self) -> Server {
        Server {
            listeners: self.event_senders@,
            domain: self.domain@,
            character: self.character@,
        }
    }
}

/// Where a request leads.
#[derive(Debug)]
pub enum Route {
    /// More of the request has to be read first.
    Wait,
    /// Nowhere; this is answered.
    Respond(Response),
    /// To a subdomain that leads nowhere; [`NOT_FOUND`] is answered.
    NotFound,
    /// To a session on the control websocket.
    Control,
    /// To the client whose channel has this name.
    Tunnel(String),
}

/// What a [`Route`] says.
#[verifier::ext_equal]
pub enum Way {
    Wait,
    Respond(Response),
    NotFound,
    Control,
    Tunnel(Seq<char>),
}

impl View for Route {
    type V = Way;

    open spec fn view(&self) -> Way {
        match self {
            Route::Wait => Way::Wait,
            Route::Respond(response) => Way::Respond(*response),
            Route::NotFound => Way::NotFound,
            Route::Control => Way::Control,
            Route::Tunnel(sender) => Way::Tunnel(sender@),
        }
    }
}

impl Server {
    /// Where `subdomain` leads.
    pub open spec fn listener(self, subdomain: Seq<char>) -> Option<Seq<char>> {
        if self.listeners.contains_key(subdomain) {
            Some(self.listeners[subdomain])
        } else {
            None
        }
    }

    /// The same, with `subdomain` leading to `sender`.
    pub open spec fn with_listener(self, subdomain: Seq<char>, sender: Seq<char>) -> Server {
        Server { listeners: self.listeners.insert(subdomain, sender), ..self }
    }

    /// The same, with `subdomain` leading nowhere.
    pub open spec fn without_listener(self, subdomain: Seq<char>) -> Server {
        Server { listeners: self.listeners.remove(subdomain), ..self }
    }

    /// Where a request for `host` leads.
    pub open spec fn way_to_host(self, host: Seq<char>) -> Way {
        match text::before_first(host, '.') {
            None => Way::Respond(Response::HostNoSubdomain),
            Some(subdomain) => if subdomain == WEBSOCKET_SUBDOMAIN@ {
                Way::Control
            } else {
                match self.listener(subdomain) {
                    None => Way::NotFound,
                    Some(sender) => Way::Tunnel(sender),
                }
            },
        }
    }

    /// Where a complete request with the given headers leads.
    pub open spec fn way(self, headers: Seq<(Seq<char>, Seq<u8>)>) -> Way {
        match request::header_value(headers, "host"@) {
            None => Way::Respond(Response::MissingHostHeader),
            Some(value) => match text::text_of(value) {
                None => Way::Respond(Response::HostNotUtf8),
                Some(host) => self.way_to_host(host),
            },
        }
    }

    /// Where what was read of a connection leads.
    pub open spec fn way_of_reading(
        self,
        read: Result<Option<(Option<Seq<char>>, Seq<(Seq<char>, Seq<u8>)>)>, ()>,
    ) -> Way {
        match read {
            Ok(Some(head)) => self.way(head.1),
            Ok(None) => Way::Wait,
            Err(_) => Way::Respond(Response::FailedToParse),
        }
    }
}

impl State {
    /// The state of a server that starts.
    pub fn new(domain: String, character: String) -> (r: Self)
        ensures
            r@ == (Server {
                listeners: Map::empty(),
                domain: domain@,
                character: character@,
            }),
    {
        State { event_senders: Table::new(), domain, character }
    }

    /// The name of the channel of the client that has `subdomain`.
    pub fn get_event_sender(&self, subdomain: &str) -> (r: Option<String>)
        ensures
            match (r, self@.listener(subdomain@)) {
                (Some(sender), Some(listener)) => sender@ == listener,
                (None, None) => true,
                _ => false,
            },
    {
        match self.event_senders.get(subdomain) {
            Some(sender) => Some(sender.clone()),
            None => None,
        }
    }

    /// Lets `subdomain` lead to `sender`, whatever it led to before. Returns the
    /// name of the channel that it led to.
    pub fn register_event_listener(&mut self, subdomain: String, sender: String) -> (r: Option<
        String,
    >)
        ensures
            final(self)@ == old(self)@.with_listener(subdomain@, sender@),
            match (r, old(self)@.listener(subdomain@)) {
                (Some(replaced), Some(listener)) => replaced@ == listener,
                (None, None) => true,
                _ => false,
            },
    {
        let replaced = self.event_senders.remove(subdomain.as_str());
        let ghost key = subdomain@;
        self.event_senders.insert(subdomain, sender);
        assert(old(self).event_senders@.remove(key).insert(key, sender@)
            =~= old(self).event_senders@.insert(key, sender@));
        replaced
    }

    /// Lets `subdomain` lead nowhere. Returns the name of the channel that it
    /// led to.
    pub fn unregister_event_listener(&mut self, subdomain: &str) -> (r: Option<String>)
        ensures
            final(self)@ == old(self)@.without_listener(subdomain@),
            match (r, old(self)@.listener(subdomain@)) {
                (Some(sender), Some(listener)) => sender@ == listener,
                (None, None) => true,
                _ => false,
            },
    {
        self.event_senders.remove(subdomain)
    }

    /// Where a complete request leads.
    pub fn route(&self, head: &RequestHead) -> (r: Route)
        ensures
            r@ == self@.way(head@.1),
    {
        let host = match head.header("host") {
            None => return Route::Respond(Response::MissingHostHeader),
            Some(value) => match text::decode(value) {
                None => return Route::Respond(Response::HostNotUtf8),
                Some(host) => host,
            },
        };
        match text::split_before(host, '.') {
            None => Route::Respond(Response::HostNoSubdomain),
            Some(subdomain) => {
                if text::same(subdomain, WEBSOCKET_SUBDOMAIN) {
                    Route::Control
                } else {
                    match self.get_event_sender(subdomain) {
                        None => Route::NotFound,
                        Some(sender) => Route::Tunnel(sender),
                    }
                }
            },
        }
    }

    /// Where the connection leads of which `buffer` is the start.
    pub fn receive(&self, buffer: &[u8]) -> (r: Route)
        ensures
            r@ == self@.way_of_reading(
                request::parsed_head(buffer@, request::MAX_HEADERS as nat),
            ),
    {
        match request::read_request(buffer) {
            Reading::Incomplete => Route::Wait,
            Reading::Malformed => Route::Respond(Response::FailedToParse),
            Reading::Complete(head) => self.route(&head),
        }
    }
}

/// A request for a host that starts with the subdomain of a client leads to that
/// client, unless it is the subdomain of the websocket.
pub proof fn law_subdomain_leads_to_its_client(
    server: Server,
    subdomain: Seq<char>,
    rest: Seq<char>,
)
    requires
        !subdomain.contains('.'),
        subdomain != WEBSOCKET_SUBDOMAIN@,
        server.listener(subdomain) is Some,
    ensures
        server.way_to_host(subdomain + seq!['.'] + rest) == Way::Tunnel(
            server.listener(subdomain)->0,
        ),
{
    text::lemma_before_first(subdomain, '.', rest);
}

/// The subdomain of the websocket leads to a session under every domain, also
/// where a client has it.
pub proof fn law_websocket_subdomain_is_reserved(server: Server, rest: Seq<char>)
    ensures
        server.way_to_host(WEBSOCKET_SUBDOMAIN@ + seq!['.'] + rest) == Way::Control,
{
    reveal_strlit("localhost");
    let s = WEBSOCKET_SUBDOMAIN@;
    assert(!s.contains('.')) by {
        if s.contains('.') {
            let i = choose|i: int| 0 <= i < s.len() && s[i] == '.';
            assert(s[i] == '.');
        }
    }
    text::lemma_before_first(s, '.', rest);
}

/// A subdomain leads to the client that had it registered last, until it is
/// given back; all others lead where they led before.
pub proof fn law_last_client_has_the_subdomain(
    server: Server,
    subdomain: Seq<char>,
    first: Seq<char>,
    second: Seq<char>,
    other: Seq<char>,
)
    ensures
        ({
            let both = server.with_listener(subdomain, first).with_listener(subdomain, second);
            &&& both.listener(subdomain) == Some(second)
            &&& both.without_listener(subdomain).listener(subdomain) is None
            &&& other != subdomain ==> both.listener(other) == server.listener(other)
            &&& other != subdomain ==> both.without_listener(subdomain).listener(other)
                == server.listener(other)
        }),
{
}

/// Nothing but the first `Host` header decides where a request leads: to a
/// session where the subdomain is that of the websocket, else to the client that
/// has the subdomain, else nowhere. Its other headers, an upgrade to a websocket
/// for one, have no part in it.
pub proof fn law_request_for_a_subdomain(
    server: Server,
    path: Option<Seq<char>>,
    headers: Seq<(Seq<char>, Seq<u8>)>,
    i: int,
    subdomain: Seq<char>,
    rest: Seq<char>,
)
    requires
        0 <= i < headers.len(),
        text::ascii_lower(headers[i].0) == "host"@,
        headers[i].1 == encode_utf8(subdomain + seq!['.'] + rest),
        forall|j: int| 0 <= j < i ==> text::ascii_lower((#[trigger] headers[j]).0) != "host"@,
        !subdomain.contains('.'),
    ensures
        ({
            let way = server.way_of_reading(Ok(Some((path, headers))));
            if subdomain == "localhost"@ {
                way == Way::Control
            } else if server.listeners.contains_key(subdomain) {
                way == Way::Tunnel(server.listeners[subdomain])
            } else {
                way == Way::NotFound
            }
        }),
{
    reveal_strlit("host");
    assert(text::ascii_lower("host"@) =~= "host"@);
    request::lemma_header_value(headers, "host"@, i);
    text::lemma_text_of_encoded(subdomain + seq!['.'] + rest);
    text::lemma_before_first(subdomain, '.', rest);
}

/// What is answered to a request that names no subdomain: that the header is
/// missing where there is no `Host` header, that it is not UTF-8 where it is not,
/// that it has no subdomain where it has no dot; and that it cannot be parsed
/// where it is no request. A request that is not complete is waited for.
pub proof fn law_requests_that_lead_nowhere(
    server: Server,
    path: Option<Seq<char>>,
    headers: Seq<(Seq<char>, Seq<u8>)>,
    i: int,
    host: Seq<char>,
)
    requires
        0 <= i <= headers.len(),
        forall|j: int| 0 <= j < i ==> text::ascii_lower((#[trigger] headers[j]).0) != "host"@,
    ensures
        ({
            let way = server.way_of_reading(Ok(Some((path, headers))));
            &&& i == headers.len() ==> way == Way::Respond(Response::MissingHostHeader)
            &&& i < headers.len() && text::ascii_lower(headers[i].0) == "host"@ ==> {
                &&& !valid_utf8(headers[i].1) ==> way == Way::Respond(Response::HostNotUtf8)
                &&& headers[i].1 == encode_utf8(host) && !host.contains('.') ==> way
                    == Way::Respond(Response::HostNoSubdomain)
            }
        }),
        server.way_of_reading(Err(())) == Way::Respond(Response::FailedToParse),
        server.way_of_reading(Ok(None)) == Way::Wait,
{
    reveal_strlit("host");
    assert(text::ascii_lower("host"@) =~= "host"@);
    request::lemma_header_value(headers, "host"@, i);
    text::lemma_text_of_encoded(host);
    text::lemma_split_at_first(host, '.');
    if let Some(head) = text::before_first(host, '.') {
        assert(host[head.len() as int] == '.');
    }
}

/// Registering and unregistering change nothing but where the one subdomain
/// leads.
pub proof fn law_registering_changes_nothing_else(
    server: Server,
    subdomain: Seq<char>,
    sender: Seq<char>,
)
    ensures
        server.with_listener(subdomain, sender).listeners == server.listeners.insert(
            subdomain,
            sender,
        ),
        server.without_listener(subdomain).listeners == server.listeners.remove(subdomain),
        server.with_listener(subdomain, sender).domain == server.domain,
        server.with_listener(subdomain, sender).character == server.character,
        server.without_listener(subdomain).domain == server.domain,
        server.without_listener(subdomain).character == server.character,
{
}

} // verus!
