//! The HTTP request that opens every connection to a server: where it leads,
//! and what is answered where it leads nowhere.

use crate::state::Server;
use crate::state::State;
use crate::text;
use vstd::prelude::*;
use vstd::slice::*;
use vstd::string::*;
use vstd::utf8::*;

verus! {

/// The error of `httparse`; nothing here looks inside it.
#[verifier::external_type_specification]
#[verifier::external_body]
pub struct ExHttparseError(httparse::Error);

/// The number of headers that a request may have.
pub const MAX_HEADERS: usize = 100;

/// A header field of a request.
#[derive(Debug)]
pub struct Header {
    pub name: String,
    pub value: Vec<u8>,
}

/// What a request says before its body.
#[derive(Debug)]
pub struct RequestHead {
    pub path: Option<String>,
    pub headers: Vec<Header>,
}

impl View for Header {
    type V = (Seq<char>, Seq<u8>);

    open spec fn view(&self) -> (Seq<char>, Seq<u8>) {
        (self.name@, self.value@)
    }
}

impl View for RequestHead {
    type V = (Option<Seq<char>>, Seq<(Seq<char>, Seq<u8>)>);

    open spec fn view(&self) -> (Option<Seq<char>>, Seq<(Seq<char>, Seq<u8>)>) {
        (
            match self.path {
                Some(path) => Some(path@),
                None => None,
            },
            self.headers@.map_values(|header: Header| header@),
        )
    }
}

/// The path and the headers of the request at the start of `buffer`, with room
/// for `max_headers` headers. `Ok(None)` means that the request is not complete
/// yet, `Err` that it is none.
pub uninterp spec fn parsed_head(buffer: Seq<u8>, max_headers: nat) -> Result<
    Option<(Option<Seq<char>>, Seq<(Seq<char>, Seq<u8>)>)>,
    (),
>;

/// `httparse::Request::parse` reads the request at the start of `buffer` into
/// `max_headers` header slots. What it finds is a function of the two; HTTP's
/// grammar is not spelled out.
#[verifier::external_body]
fn parse_head(buffer: &[u8], max_headers: usize) -> (r: Result<
    Option<RequestHead>,
    httparse::Error,
>)
    requires
        max_headers <= 0x1_0000,
    ensures
        match r {
            Ok(Some(head)) => parsed_head(buffer@, max_headers as nat) matches Ok(Some(found))
                && found == head@,
            Ok(None) => parsed_head(buffer@, max_headers as nat) matches Ok(found)
                && found is None,
            Err(_) => parsed_head(buffer@, max_headers as nat) is Err,
        },
{
    let mut slots = vec![httparse::EMPTY_HEADER; max_headers];
    let mut request = httparse::Request::new(&mut slots);
    let status = request.parse(buffer)?;
    let path = request.path.map(String::from);
    let headers = request.headers.iter();
    let headers = headers.map(|h| Header { name: String::from(h.name), value: h.value.to_vec() });
    match status {
        httparse::Status::Complete(_) => Ok(Some(RequestHead { path, headers: headers.collect() })),
        httparse::Status::Partial => Ok(None),
    }
}

/// What is read from the start of a connection.
#[derive(Debug)]
pub enum Reading {
    /// There is more to come.
    Incomplete,
    /// This is no request.
    Malformed,
    Complete(RequestHead),
}

/// Reads the request at the start of `buffer`.
pub fn read_request(buffer: &[u8]) -> (r: Reading)
    ensures
        match (r, parsed_head(buffer@, MAX_HEADERS as nat)) {
            (Reading::Complete(head), Ok(Some(found))) => head@ == found,
            (Reading::Incomplete, Ok(None)) => true,
            (Reading::Malformed, Err(_)) => true,
            _ => false,
        },
{
    match parse_head(buffer, MAX_HEADERS) {
        Ok(Some(head)) => Reading::Complete(head),
        Ok(None) => Reading::Incomplete,
        Err(_) => Reading::Malformed,
    }
}

/// An answer that the server gives itself.
#[derive(Debug, Clone, Copy, PartialEq, Eq, Structural)]
pub enum Response {
    MissingHostHeader,
    FailedToParse,
    HostNotUtf8,
    HostNoSubdomain,
    NotFound,
    ServiceAlive,
}

impl Response {
    /// The answer as text.
    pub open spec fn text(self) -> Seq<char> {
        match self {
            Response::MissingHostHeader => {
                "HTTP/1.1 400\r\nContent-Length: 19\r\n\r\nMissing Host header"@
            },
            Response::FailedToParse => {
                "HTTP/1.1 400\r\nContent-Length: 23\r\n\r\nFailed to parse request"@
            },
            Response::HostNotUtf8 => {
                "HTTP/1.1 400\r\nContent-Length: 27\r\n\r\nHost header is invalid UTF8"@
            },
            Response::HostNoSubdomain => {
                "HTTP/1.1 400\r\nContent-Length: 28\r\n\r\nHost header has no subdomain"@
            },
            Response::NotFound => "HTTP/1.1 404\r\nContent-Length: 0\r\n\r\n"@,
            Response::ServiceAlive => {
                "HTTP/1.1 200\r\nContent-Length: 19\r\n\r\nDrill service alive"@
            },
        }
    }

    /// The bytes of the answer.
    pub fn bytes(self) -> (r: &'static [u8])
        ensures
            r@ == encode_utf8(self.text()),
    {
        let text: &'static str = match self {
            Response::MissingHostHeader => {
                "HTTP/1.1 400\r\nContent-Length: 19\r\n\r\nMissing Host header"
            },
            Response::FailedToParse => {
                "HTTP/1.1 400\r\nContent-Length: 23\r\n\r\nFailed to parse request"
            },
            Response::HostNotUtf8 => {
                "HTTP/1.1 400\r\nContent-Length: 27\r\n\r\nHost header is invalid UTF8"
            },
            Response::HostNoSubdomain => {
                "HTTP/1.1 400\r\nContent-Length: 28\r\n\r\nHost header has no subdomain"
            },
            Response::NotFound => "HTTP/1.1 404\r\nContent-Length: 0\r\n\r\n",
            Response::ServiceAlive => {
                "HTTP/1.1 200\r\nContent-Length: 19\r\n\r\nDrill service alive"
            },
        };
        text.as_bytes()
    }

    /// The status of the answer.
    pub open spec fn status(self) -> Seq<char> {
        match self {
            Response::NotFound => "404"@,
            Response::ServiceAlive => "200"@,
            _ => "400"@,
        }
    }

    /// What the answer says to a reader.
    pub open spec fn body(self) -> Seq<char> {
        match self {
            Response::MissingHostHeader => "Missing Host header"@,
            Response::FailedToParse => "Failed to parse request"@,
            Response::HostNotUtf8 => "Host header is invalid UTF8"@,
            Response::HostNoSubdomain => "Host header has no subdomain"@,
            Response::NotFound => ""@,
            Response::ServiceAlive => "Drill service alive"@,
        }
    }
}

/// The decimal digit for a number below ten.
pub open spec fn digit(n: nat) -> char {
    (('0' as u32) + n) as char
}

/// A number in decimal.
pub open spec fn decimal(n: nat) -> Seq<char>
    decreases n,
{
    if n < 10 {
        seq![digit(n)]
    } else {
        decimal(n / 10).push(digit(n % 10))
    }
}

/// An HTTP answer with the given status and body, whose length it states.
pub open spec fn http_answer(status: Seq<char>, body: Seq<char>) -> Seq<char> {
    "HTTP/1.1 "@ + status + "\r\nContent-Length: "@ + decimal(encode_utf8(body).len())
        + "\r\n\r\n"@ + body
}

/// Every answer is an HTTP answer that states the length of its body in bytes.
pub proof fn law_answers_state_their_length(r: Response)
    ensures
        r.text() == http_answer(r.status(), r.body()),
{
    reveal_strlit("HTTP/1.1 ");
    reveal_strlit("\r\nContent-Length: ");
    reveal_strlit("\r\n\r\n");
    reveal_strlit("400");
    reveal_strlit("404");
    reveal_strlit("200");
    reveal_strlit("");
    reveal_strlit("Missing Host header");
    reveal_strlit("Failed to parse request");
    reveal_strlit("Host header is invalid UTF8");
    reveal_strlit("Host header has no subdomain");
    reveal_strlit("Drill service alive");
    reveal_strlit("HTTP/1.1 400\r\nContent-Length: 19\r\n\r\nMissing Host header");
    reveal_strlit("HTTP/1.1 400\r\nContent-Length: 23\r\n\r\nFailed to parse request");
    reveal_strlit("HTTP/1.1 400\r\nContent-Length: 27\r\n\r\nHost header is invalid UTF8");
    reveal_strlit("HTTP/1.1 400\r\nContent-Length: 28\r\n\r\nHost header has no subdomain");
    reveal_strlit("HTTP/1.1 404\r\nContent-Length: 0\r\n\r\n");
    reveal_strlit("HTTP/1.1 200\r\nContent-Length: 19\r\n\r\nDrill service alive");
    reveal_with_fuel(decimal, 3);
    assert(is_ascii_chars(r.body()));
    is_ascii_chars_encode_utf8(r.body());
    assert(r.text() =~= http_answer(r.status(), r.body()));
}

/// Whether a header has the name `name`, whatever the case of its letters.
pub open spec fn is_named(header: (Seq<char>, Seq<u8>), name: Seq<char>) -> bool {
    text::ascii_lower(header.0) == text::ascii_lower(name)
}

/// The value of the first header of the given name.
pub open spec fn header_value(headers: Seq<(Seq<char>, Seq<u8>)>, name: Seq<char>) -> Option<
    Seq<u8>,
>
    decreases headers.len(),
{
    if headers.len() == 0 {
        None
    } else if is_named(headers[0], name) {
        Some(headers[0].1)
    } else {
        header_value(headers.drop_first(), name)
    }
}

impl RequestHead {
    /// The value of the first header of the given name.
    pub fn header(&self, name: &str) -> (r: Option<&[u8]>)
        ensures
            match (r, header_value(self@.1, name@)) {
                (Some(value), Some(found)) => value@ == found,
                (None, None) => true,
                _ => false,
            },
    {
        let mut i: usize = 0;
        assert(self@.1.skip(0) == self@.1);
        while i < self.headers.len()
            invariant
                i <= self.headers@.len(),
                self@.1.len() == self.headers@.len(),
                header_value(self@.1, name@) == header_value(self@.1.skip(i as int), name@),
            decreases self.headers@.len() - i,
        {
            assert(self@.1.skip(i as int)[0] == self.headers@[i as int]@);
            assert(self@.1.skip(i as int).drop_first() == self@.1.skip(i + 1));
            if text::same_ignoring_ascii_case(self.headers[i].name.as_str(), name) {
                return Some(self.headers[i].value.as_slice());
            }
            i = i + 1;
        }
        None
    }
}

/// The address that a proxy says the request comes from: what stands before
/// the first comma of the `X-Forwarded-For` header, if that is text.
pub open spec fn forwarded_address(headers: Seq<(Seq<char>, Seq<u8>)>) -> Option<Seq<char>> {
    match header_value(headers, "x-forwarded-for"@) {
        Some(value) => match text::text_of(value) {
            Some(list) => match text::before_first(list, ',') {
                Some(first) => Some(first),
                None => Some(list),
            },
            None => None,
        },
        None => None,
    }
}

impl RequestHead {
    /// The address that a proxy says the request comes from.
    pub fn forwarded_for(&self) -> (r: Option<&str>)
        ensures
            match (r, forwarded_address(self@.1)) {
                (Some(address), Some(found)) => address@ == found,
                (None, None) => true,
                _ => false,
            },
    {
        match self.header("x-forwarded-for") {
            Some(value) => match text::decode(value) {
                Some(list) => match text::split_before(list, ',') {
                    Some(first) => Some(first),
                    None => Some(list),
                },
                None => None,
            },
            None => None,
        }
    }
}

/// The address that a proxy says the connection comes from, once the request
/// is complete.
pub open spec fn address_of_reading(
    read: Result<Option<(Option<Seq<char>>, Seq<(Seq<char>, Seq<u8>)>)>, ()>,
) -> Option<Seq<char>> {
    match read {
        Ok(Some(head)) => forwarded_address(head.1),
        _ => None,
    }
}

/// Where a request leads.
#[derive(Debug)]
pub enum Route {
    /// More of the request has to be read first.
    Wait,
    /// Nowhere; this is answered.
    Respond(Response),
    /// To a session on the control websocket.
    Control,
    /// To the client whose channel has this name.
    Tunnel(String),
}

/// What a [`Route`] says.
#[verifier::ext_equal]
pub enum Way {
    Wait,
    Respond(Response),
    Control,
    Tunnel(Seq<char>),
}

impl View for Route {
    type V = Way;

    open spec fn view(&self) -> Way {
        match self {
            Route::Wait => Way::Wait,
            Route::Respond(response) => Way::Respond(*response),
            Route::Control => Way::Control,
            Route::Tunnel(sender) => Way::Tunnel(sender@),
        }
    }
}

impl Server {
    /// Where a request for `host` leads.
    pub open spec fn way_to_host(self, path: Option<Seq<char>>, host: Seq<char>) -> Way {
        if host == self.config.websocket_host@ {
            if path == Some("/livez"@) {
                Way::Respond(Response::ServiceAlive)
            } else {
                Way::Control
            }
        } else {
            match text::before_first(host, '.') {
                None => Way::Respond(Response::HostNoSubdomain),
                Some(subdomain) => match self.listener(subdomain) {
                    None => Way::Respond(Response::NotFound),
                    Some(sender) => Way::Tunnel(sender),
                },
            }
        }
    }

    /// Where a complete request leads.
    pub open spec fn way(self, head: (Option<Seq<char>>, Seq<(Seq<char>, Seq<u8>)>)) -> Way {
        match header_value(head.1, "host"@) {
            None => Way::Respond(Response::MissingHostHeader),
            Some(value) => match text::text_of(value) {
                None => Way::Respond(Response::HostNotUtf8),
                Some(host) => self.way_to_host(head.0, host),
            },
        }
    }

    /// Where what was read of a connection leads.
    pub open spec fn way_of_reading(
        self,
        read: Result<Option<(Option<Seq<char>>, Seq<(Seq<char>, Seq<u8>)>)>, ()>,
    ) -> Way {
        match read {
            Ok(Some(head)) => self.way(head),
            Ok(None) => Way::Wait,
            Err(_) => Way::Respond(Response::FailedToParse),
        }
    }
}

impl State {
    /// Where a complete request leads.
    pub fn route(&self, head: &RequestHead) -> (r: Route)
        ensures
            r@ == self@.way(head@),
    {
        let host = match head.header("host") {
            None => return Route::Respond(Response::MissingHostHeader),
            Some(value) => match text::decode(value) {
                None => return Route::Respond(Response::HostNotUtf8),
                Some(host) => host,
            },
        };
        if text::same(host, self.config.websocket_host.as_str()) {
            let probe: bool = match &head.path {
                Some(path) => text::same(path.as_str(), "/livez"),
                None => false,
            };
            if probe {
                Route::Respond(Response::ServiceAlive)
            } else {
                Route::Control
            }
        } else {
            match text::split_before(host, '.') {
                None => Route::Respond(Response::HostNoSubdomain),
                Some(subdomain) => match self.get_event_sender(subdomain) {
                    None => Route::Respond(Response::NotFound),
                    Some(sender) => Route::Tunnel(sender),
                },
            }
        }
    }

    /// Where the connection leads of which `buffer` is the start, and the
    /// address that a proxy says it comes from.
    pub fn receive(&self, buffer: &[u8]) -> (r: (Route, Option<String>))
        ensures
            r.0@ == self@.way_of_reading(parsed_head(buffer@, MAX_HEADERS as nat)),
            match (r.1, address_of_reading(parsed_head(buffer@, MAX_HEADERS as nat))) {
                (Some(address), Some(found)) => address@ == found,
                (None, None) => true,
                _ => false,
            },
    {
        match read_request(buffer) {
            Reading::Incomplete => (Route::Wait, None),
            Reading::Malformed => (Route::Respond(Response::FailedToParse), None),
            Reading::Complete(head) => {
                let address = match head.forwarded_for() {
                    Some(address) => Some(address.to_owned()),
                    None => None,
                };
                (self.route(&head), address)
            },
        }
    }
}

/// A request for a host that starts with the subdomain of a client leads to
/// that client, unless the host is the one of the websocket.
pub proof fn law_subdomain_leads_to_its_client(
    server: Server,
    path: Option<Seq<char>>,
    subdomain: Seq<char>,
    rest: Seq<char>,
)
    requires
        !subdomain.contains('.'),
        server.listener(subdomain) is Some,
        subdomain + seq!['.'] + rest != server.config.websocket_host@,
    ensures
        server.way_to_host(path, subdomain + seq!['.'] + rest) == Way::Tunnel(
            server.listener(subdomain)->0,
        ),
{
    text::lemma_before_first(subdomain, '.', rest);
}

/// The host of the websocket leads to a session, or to the answer that the
/// service is alive; it never leads to a client.
pub proof fn law_websocket_host_is_reserved(server: Server, path: Option<Seq<char>>)
    ensures
        ({
            let way = server.way_to_host(path, server.config.websocket_host@);
            way == (if path == Some("/livez"@) {
                Way::Respond(Response::ServiceAlive)
            } else {
                Way::Control
            })
        }),
{
}

/// The value of a header is that of the first one of its name.
pub proof fn lemma_header_value(headers: Seq<(Seq<char>, Seq<u8>)>, name: Seq<char>, i: int)
    requires
        0 <= i <= headers.len(),
        forall|j: int|
            0 <= j < i ==> text::ascii_lower((#[trigger] headers[j]).0) != text::ascii_lower(name),
    ensures
        i < headers.len() && text::ascii_lower(headers[i].0) == text::ascii_lower(name)
            ==> header_value(headers, name) == Some(headers[i].1),
        i == headers.len() ==> header_value(headers, name) is None,
    decreases headers.len(),
{
    if i > 0 {
        let rest = headers.drop_first();
        assert(text::ascii_lower(headers[0].0) != text::ascii_lower(name));
        assert forall|j: int| 0 <= j < i - 1 implies text::ascii_lower((#[trigger] rest[j]).0)
            != text::ascii_lower(name) by {
            assert(rest[j] == headers[j + 1]);
        }
        lemma_header_value(rest, name, i - 1);
        if i < headers.len() {
            assert(rest[i - 1] == headers[i]);
        }
    }
}

/// Nothing but the first `Host` header, and on the host of the websocket the
/// path, decides where a request leads: whatever other headers the request has,
/// an upgrade to a websocket for one, it leads where its host leads.
pub proof fn law_host_header_decides(
    server: Server,
    path: Option<Seq<char>>,
    headers: Seq<(Seq<char>, Seq<u8>)>,
    i: int,
    host: Seq<char>,
)
    requires
        0 <= i < headers.len(),
        text::ascii_lower(headers[i].0) == "host"@,
        headers[i].1 == encode_utf8(host),
        forall|j: int| 0 <= j < i ==> text::ascii_lower((#[trigger] headers[j]).0) != "host"@,
    ensures
        server.way((path, headers)) == server.way_to_host(path, host),
        server.way_of_reading(Ok(Some((path, headers)))) == server.way_to_host(path, host),
{
    reveal_strlit("host");
    assert(text::ascii_lower("host"@) =~= "host"@);
    lemma_header_value(headers, "host"@, i);
    text::lemma_text_of_encoded(host);
}

/// Two requests for the same host lead to the same place, whatever else they say;
/// only on the host of the websocket the path makes a difference.
pub proof fn law_same_host_same_way(
    server: Server,
    path: Option<Seq<char>>,
    headers: Seq<(Seq<char>, Seq<u8>)>,
    i: int,
    other_path: Option<Seq<char>>,
    other_headers: Seq<(Seq<char>, Seq<u8>)>,
    k: int,
)
    requires
        0 <= i < headers.len(),
        text::ascii_lower(headers[i].0) == "host"@,
        forall|j: int| 0 <= j < i ==> text::ascii_lower((#[trigger] headers[j]).0) != "host"@,
        0 <= k < other_headers.len(),
        text::ascii_lower(other_headers[k].0) == "host"@,
        forall|j: int| 0 <= j < k ==> text::ascii_lower((#[trigger] other_headers[j]).0) != "host"@,
        headers[i].1 == other_headers[k].1,
        path == other_path || headers[i].1 != encode_utf8(server.config.websocket_host@),
    ensures
        server.way((path, headers)) == server.way((other_path, other_headers)),
{
    reveal_strlit("host");
    assert(text::ascii_lower("host"@) =~= "host"@);
    lemma_header_value(headers, "host"@, i);
    lemma_header_value(other_headers, "host"@, k);
    text::lemma_encoded_text_of(headers[i].1);
}

/// A request for a subdomain is passed on to the client that has it, and answered
/// as not found where no client has it, whatever its other headers are.
pub proof fn law_request_for_a_subdomain(
    server: Server,
    path: Option<Seq<char>>,
    headers: Seq<(Seq<char>, Seq<u8>)>,
    i: int,
    subdomain: Seq<char>,
    rest: Seq<char>,
)
    requires
        0 <= i < headers.len(),
        text::ascii_lower(headers[i].0) == "host"@,
        headers[i].1 == encode_utf8(subdomain + seq!['.'] + rest),
        forall|j: int| 0 <= j < i ==> text::ascii_lower((#[trigger] headers[j]).0) != "host"@,
        !subdomain.contains('.'),
        subdomain + seq!['.'] + rest != server.config.websocket_host@,
    ensures
        server.listeners.contains_key(subdomain) ==> server.way((path, headers)) == Way::Tunnel(
            server.listeners[subdomain],
        ),
        !server.listeners.contains_key(subdomain) ==> server.way((path, headers)) == Way::Respond(
            Response::NotFound,
        ),
{
    law_host_header_decides(server, path, headers, i, subdomain + seq!['.'] + rest);
    text::lemma_before_first(subdomain, '.', rest);
}

/// A request for the host of the websocket leads to a session, or to the answer
/// that the service is alive where its path is the one to probe for that.
pub proof fn law_request_for_the_websocket(
    server: Server,
    path: Option<Seq<char>>,
    headers: Seq<(Seq<char>, Seq<u8>)>,
    i: int,
)
    requires
        0 <= i < headers.len(),
        text::ascii_lower(headers[i].0) == "host"@,
        headers[i].1 == encode_utf8(server.config.websocket_host@),
        forall|j: int| 0 <= j < i ==> text::ascii_lower((#[trigger] headers[j]).0) != "host"@,
    ensures
        path == Some("/livez"@) ==> server.way((path, headers)) == Way::Respond(
            Response::ServiceAlive,
        ),
        path != Some("/livez"@) ==> server.way((path, headers)) == Way::Control,
{
    law_host_header_decides(server, path, headers, i, server.config.websocket_host@);
}

/// What is answered to a request that leads nowhere: that the header is missing
/// where there is no `Host` header, that it is not UTF-8 where it is not, that it
/// has no subdomain where there is no dot in a host other than that of the
/// websocket; and that it cannot be parsed where it is no request. A request that
/// is not complete is waited for.
pub proof fn law_requests_that_lead_nowhere(
    server: Server,
    path: Option<Seq<char>>,
    headers: Seq<(Seq<char>, Seq<u8>)>,
    i: int,
    host: Seq<char>,
)
    requires
        0 <= i <= headers.len(),
        forall|j: int| 0 <= j < i ==> text::ascii_lower((#[trigger] headers[j]).0) != "host"@,
    ensures
        i == headers.len() ==> server.way((path, headers)) == Way::Respond(
            Response::MissingHostHeader,
        ),
        i < headers.len() && text::ascii_lower(headers[i].0) == "host"@ ==> {
            &&& !valid_utf8(headers[i].1) ==> server.way((path, headers)) == Way::Respond(
                Response::HostNotUtf8,
            )
            &&& headers[i].1 == encode_utf8(host) && !host.contains('.') && host
                != server.config.websocket_host@ ==> server.way((path, headers)) == Way::Respond(
                Response::HostNoSubdomain,
            )
        },
        server.way_of_reading(Err(())) == Way::Respond(Response::FailedToParse),
        server.way_of_reading(Ok(None)) == Way::Wait,
{
    reveal_strlit("host");
    assert(text::ascii_lower("host"@) =~= "host"@);
    lemma_header_value(headers, "host"@, i);
    text::lemma_text_of_encoded(host);
    text::lemma_split_at_first(host, '.');
    if let Some(head) = text::before_first(host, '.') {
        assert(host[head.len() as int] == '.');
    }
}

/// The address that a proxy says a request comes from is what stands before the
/// first comma of the first `X-Forwarded-For` header, all of it where there is no
/// comma. There is none without such a header, or where it is not UTF-8. Where
/// the request leads has no part in it.
pub proof fn law_forwarded_address(
    path: Option<Seq<char>>,
    headers: Seq<(Seq<char>, Seq<u8>)>,
    i: int,
    address: Seq<char>,
    rest: Seq<char>,
)
    requires
        0 <= i <= headers.len(),
        forall|j: int|
            0 <= j < i ==> text::ascii_lower((#[trigger] headers[j]).0) != "x-forwarded-for"@,
        !address.contains(','),
    ensures
        ({
            let found = address_of_reading(Ok(Some((path, headers))));
            &&& i == headers.len() ==> found is None
            &&& i < headers.len() && text::ascii_lower(headers[i].0) == "x-forwarded-for"@ ==> {
                &&& headers[i].1 == encode_utf8(address) ==> found == Some(address)
                &&& headers[i].1 == encode_utf8(address + seq![','] + rest) ==> found == Some(
                    address,
                )
                &&& !valid_utf8(headers[i].1) ==> found is None
            }
        }),
        address_of_reading(Ok(None)) is None,
        address_of_reading(Err(())) is None,
{
    reveal_strlit("x-forwarded-for");
    assert(text::ascii_lower("x-forwarded-for"@) =~= "x-forwarded-for"@);
    lemma_header_value(headers, "x-forwarded-for"@, i);
    text::lemma_text_of_encoded(address);
    text::lemma_text_of_encoded(address + seq![','] + rest);
    text::lemma_before_first(address, ',', rest);
    text::lemma_split_at_first(address, ',');
    if let Some(head) = text::before_first(address, ',') {
        assert(address[head.len() as int] == ',');
    }
}

} // verus!
