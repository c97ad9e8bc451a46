//! Authentication by asking an HTTP endpoint.

use crate::query;
use crate::text;
use vstd::prelude::*;
use vstd::string::*;

verus! {

/// Leaves the decision to an HTTP endpoint.
#[derive(Debug)]
pub struct DynamicAuthProvider {
    pub api_endpoint: String,
}

impl View for DynamicAuthProvider {
    type V = Seq<char>;

    open spec fn view(&self) -> Seq<char> {
        self.api_endpoint@
    }
}

/// What came of asking the endpoint.
#[derive(Debug)]
pub enum BackendReply {
    /// The request could not be made.
    Unreachable,
    /// The endpoint answered with `status`. The body is `None` where it could
    /// not be read.
    Answer { status: u16, body: Option<Vec<u8>> },
}

/// What stands between `endpoint` and the parameters of a question: where the
/// endpoint has a query of its own, they are added to it.
pub open spec fn separator(endpoint: Seq<char>) -> Seq<char> {
    if endpoint.contains('?') {
        "&"@
    } else {
        "?"@
    }
}

/// The URL that asks `endpoint` about a token: it has the query parameters
/// `token` and `desired_subdomain`.
pub open spec fn question(
    endpoint: Seq<char>,
    token: Seq<char>,
    desired_subdomain: Seq<char>,
) -> Seq<char> {
    endpoint + separator(endpoint) + "token="@ + query::encoded(token) + "&desired_subdomain="@
        + query::encoded(desired_subdomain)
}

/// Whether a status is one of success.
pub open spec fn is_success(status: u16) -> bool {
    200 <= status < 300
}

/// Whether a status is one of success; only then does the body matter.
pub fn succeeded(status: u16) -> (r: bool)
    ensures
        r == is_success(status),
{
    200 <= status && status < 300
}

impl BackendReply {
    /// The subdomain that the reply grants: the body of a 2xx answer, if it
    /// could be read and is text.
    pub open spec fn grants(self) -> Option<Seq<char>> {
        match self {
            BackendReply::Answer { status, body: Some(body) } => if is_success(status) {
                text::text_of(body@)
            } else {
                None
            },
            _ => None,
        }
    }

    /// The subdomain that the reply grants: the body of a 2xx answer, if it
    /// could be read and is text.
    pub fn granted(&self) -> (r: Option<String>)
        ensures
            match (r, self.grants()) {
                (Some(subdomain), Some(granted)) => subdomain@ == granted,
                (None, None) => true,
                _ => false,
            },
    {
        match self {
            BackendReply::Answer { status, body: Some(body) } => {
                if succeeded(*status) {
                    match text::decode(body.as_slice()) {
                        Some(subdomain) => Some(subdomain.to_owned()),
                        None => None,
                    }
                } else {
                    None
                }
            },
            _ => None,
        }
    }
}

impl DynamicAuthProvider {
    pub fn new(api_endpoint: String) -> (r: Self)
        ensures
            r@ == api_endpoint@,
    {
        DynamicAuthProvider { api_endpoint }
    }

    /// The URL to send a GET request to.
    pub fn request_uri(&self, token: &str, desired_subdomain: &str) -> (r: String)
        ensures
            r@ == question(self@, token@, desired_subdomain@),
    {
        let mut uri: String = self.api_endpoint.clone();
        proof {
            self@.index_of_first_ensures('?');
        }
        if text::split_before(self.api_endpoint.as_str(), '?').is_some() {
            uri.append("&");
        } else {
            uri.append("?");
        }
        uri.append("token=");
        uri.append(query::encode(token).as_str());
        uri.append("&desired_subdomain=");
        uri.append(query::encode(desired_subdomain).as_str());
        uri
    }

    /// The subdomain that the endpoint grants, or `None` where it rejects.
    pub fn verify(&self, reply: &BackendReply) -> (r: Option<String>)
        ensures
            match (r, reply.grants()) {
                (Some(subdomain), Some(granted)) => subdomain@ == granted,
                (None, None) => true,
                _ => false,
            },
    {
        reply.granted()
    }
}

/// What is written for a query holds none of the characters that part a URI.
proof fn lemma_encoded_lacks(s: Seq<char>, c: char)
    requires
        c == '#' || c == '&' || c == '=' || c == '?',
    ensures
        !query::encoded(s).contains(c),
{
    query::law_encoded_is_plain(s);
    let e = query::encoded(s);
    if e.contains(c) {
        let i = choose|i: int| 0 <= i < e.len() && e[i] == c;
        assert(query::is_query_char(e[i]));
    }
}

/// A parameter whose name is plain and whose value was written for a query reads
/// back as the name and the value.
proof fn lemma_parameter(name: Seq<char>, value: Seq<char>)
    requires
        forall|i: int| 0 <= i < name.len() ==> name[i] != '%' && query::is_query_char(
            #[trigger] name[i],
        ),
    ensures
        query::parameter(name + "="@ + query::encoded(value)) == (Some(name), Some(value)),
        !(name + "="@ + query::encoded(value)).contains('&'),
        !(name + "="@ + query::encoded(value)).contains('#'),
        !(name + "="@ + query::encoded(value)).contains('?'),
        query::pieces(name + "="@ + query::encoded(value), '&') == seq![
            name + "="@ + query::encoded(value),
        ],
{
    reveal_strlit("=");
    assert("="@ =~= seq!['=']);
    let e = query::encoded(value);
    let piece = name + "="@ + e;
    assert(!name.contains('=')) by {
        if name.contains('=') {
            let i = choose|i: int| 0 <= i < name.len() && name[i] == '=';
            assert(query::is_query_char(name[i]));
        }
    }
    text::lemma_before_first(name, '=', e);
    assert(piece.skip(name.len() as int + 1) =~= e);
    query::law_encoded_is_plain(name);
    query::law_decoding_undoes_encoding(name);
    query::law_decoding_undoes_encoding(value);
    assert forall|c: char| c == '&' || c == '#' || c == '?' implies !(#[trigger] piece.contains(
        c,
    )) by {
        lemma_encoded_lacks(value, c);
        if piece.contains(c) {
            let i = choose|i: int| 0 <= i < piece.len() && piece[i] == c;
            if i < name.len() {
                assert(query::is_query_char(name[i]));
            } else if i > name.len() {
                assert(e[i - name.len() - 1] == c);
                assert(e.contains(c));
            }
        }
    }
    text::lemma_split_at_first(piece, '&');
    assert(text::before_first(piece, '&') is None) by {
        if let Some(head) = text::before_first(piece, '&') {
            assert(piece[head.len() as int] == '&');
            assert(piece.contains('&'));
        }
    }
}

/// The question carries the token and the subdomain, whatever characters they
/// hold: its query has the parameters of the endpoint itself, if there are any,
/// and then `token` and `desired_subdomain`, which decode to the two. There are
/// no others. An endpoint has no fragment, as one is not sent in a request.
pub proof fn law_question_carries_token_and_subdomain(
    endpoint: Seq<char>,
    token: Seq<char>,
    desired_subdomain: Seq<char>,
)
    requires
        !endpoint.contains('#'),
    ensures
        query::parameters(question(endpoint, token, desired_subdomain)) == query::parameters(
            endpoint,
        ) + seq![
            (Some("token"@), Some(token)),
            (Some("desired_subdomain"@), Some(desired_subdomain)),
        ],
{
    reveal_strlit("?");
    reveal_strlit("&");
    reveal_strlit("=");
    reveal_strlit("token");
    reveal_strlit("token=");
    reveal_strlit("desired_subdomain");
    reveal_strlit("&desired_subdomain=");
    let first = "token"@ + "="@ + query::encoded(token);
    let second = "desired_subdomain"@ + "="@ + query::encoded(desired_subdomain);
    lemma_parameter("token"@, token);
    lemma_parameter("desired_subdomain"@, desired_subdomain);
    let both = first + seq!['&'] + second;
    query::lemma_pieces_joined(first, '&', second);
    let uri = question(endpoint, token, desired_subdomain);
    let sep = separator(endpoint);
    assert(uri =~= endpoint + sep + both);
    assert(sep.len() == 1 && sep =~= seq![sep[0]]);
    assert(!uri.contains('#')) by {
        if uri.contains('#') {
            let i = choose|i: int| 0 <= i < uri.len() && uri[i] == '#';
            let n = endpoint.len() as int;
            let m = first.len() as int;
            if i < n {
                assert(endpoint[i] == '#');
            } else if i > n {
                assert(both[i - n - 1] == '#');
                if i - n - 1 < m {
                    assert(first[i - n - 1] == '#');
                } else if i - n - 1 > m {
                    assert(second[i - n - 1 - m - 1] == '#');
                }
            }
        }
    }
    lemma_no_fragment(uri);
    lemma_no_fragment(endpoint);
    text::lemma_split_at_first(endpoint, '?');
    let read = |piece: Seq<char>| query::parameter(piece);
    let asked = seq![
        (Some("token"@), Some(token)),
        (Some("desired_subdomain"@), Some(desired_subdomain)),
    ];
    assert(query::pieces(both, '&').map_values(read) =~= asked);
    match text::before_first(endpoint, '?') {
        Some(head) => {
            let own = endpoint.skip(head.len() as int + 1);
            assert(endpoint[head.len() as int] == '?');
            assert(endpoint.contains('?'));
            assert(uri =~= head + seq!['?'] + (own + seq!['&'] + both));
            text::lemma_before_first(head, '?', own + seq!['&'] + both);
            assert(uri.skip(head.len() as int + 1) =~= own + seq!['&'] + both);
            query::lemma_pieces_joined(own, '&', both);
            let p = query::pieces(own, '&');
            let q = query::pieces(both, '&');
            assert((p + q).map_values(read) =~= p.map_values(read) + q.map_values(read));
        },
        None => {
            assert(uri =~= endpoint + seq!['?'] + both);
            text::lemma_before_first(endpoint, '?', both);
            assert(uri.skip(endpoint.len() as int + 1) =~= both);
            assert(query::parameters(endpoint) + asked =~= asked);
        },
    }
}

/// A URI without a `#` has no fragment.
proof fn lemma_no_fragment(uri: Seq<char>)
    requires
        !uri.contains('#'),
    ensures
        query::without_fragment(uri) == uri,
{
    text::lemma_split_at_first(uri, '#');
    if let Some(head) = text::before_first(uri, '#') {
        assert(uri[head.len() as int] == '#');
    }
}

/// The question goes to the endpoint as it is: it starts with the endpoint, and
/// where the endpoint has no query one begins right behind it.
pub proof fn law_question_goes_to_the_endpoint(
    endpoint: Seq<char>,
    token: Seq<char>,
    desired_subdomain: Seq<char>,
)
    ensures
        ({
            let uri = question(endpoint, token, desired_subdomain);
            &&& uri.len() > endpoint.len()
            &&& uri.take(endpoint.len() as int) == endpoint
            &&& uri[endpoint.len() as int] == (if endpoint.contains('?') {
                '&'
            } else {
                '?'
            })
        }),
{
    reveal_strlit("?");
    reveal_strlit("&");
    let uri = question(endpoint, token, desired_subdomain);
    assert(uri.take(endpoint.len() as int) =~= endpoint);
}

/// A reply grants exactly the text in the body of an answer with a status from
/// 200 to 299.
pub proof fn law_what_a_reply_grants(status: u16, subdomain: Seq<char>, body: Vec<u8>)
    ensures
        BackendReply::Unreachable.grants() is None,
        (BackendReply::Answer { status, body: None }).grants() is None,
        !(200 <= status <= 299) ==> (BackendReply::Answer { status, body: Some(body) }).grants()
            is None,
        200 <= status <= 299 && body@ == vstd::utf8::encode_utf8(subdomain) ==> (
        BackendReply::Answer { status, body: Some(body) }).grants() == Some(subdomain),
        !vstd::utf8::valid_utf8(body@) ==> (BackendReply::Answer {
            status,
            body: Some(body),
        }).grants() is None,
{
    text::lemma_text_of_encoded(subdomain);
}

} // verus!
