//! The URI under which a client reaches its server.

use vstd::prelude::*;
use vstd::string::*;

verus! {

/// The error of `http` for a text that is no URI; nothing here looks inside it.
#[verifier::external_type_specification]
#[verifier::external_body]
pub struct ExInvalidUri(http::uri::InvalidUri);

/// The error of `http` for parts that make no URI; nothing here looks inside it.
#[verifier::external_type_specification]
#[verifier::external_body]
pub struct ExHttpError(http::Error);

/// The parts of a URI that tell how and where to connect.
#[derive(Debug)]
pub struct UriParts {
    pub scheme: Option<String>,
    pub authority: Option<String>,
}

impl View for UriParts {
    type V = (Option<Seq<char>>, Option<Seq<char>>);

    open spec fn view(&self) -> (Option<Seq<char>>, Option<Seq<char>>) {
        (
            match self.scheme {
                Some(scheme) => Some(scheme@),
                None => None,
            },
            match self.authority {
                Some(authority) => Some(authority@),
                None => None,
            },
        )
    }
}

/// The scheme and the authority of the URI that a text is, or `Err` where it is
/// none.
pub uninterp spec fn uri_parts(text: Seq<char>) -> Result<
    (Option<Seq<char>>, Option<Seq<char>>),
    (),
>;

/// `http::Uri::from_str` reads a URI. What it finds is a function of the text;
/// the grammar of URIs is not spelled out. A URI with an authority and without a
/// scheme is nothing but its authority.
#[verifier::external_body]
fn read_uri(text: &str) -> (r: Result<UriParts, http::uri::InvalidUri>)
    ensures
        match r {
            Ok(parts) => uri_parts(text@) matches Ok(found) && found == parts@,
            Err(_) => uri_parts(text@) is Err,
        },
        match r {
            Ok(parts) => match (parts.scheme, parts.authority) {
                (None, Some(authority)) => authority@ == text@,
                _ => true,
            },
            Err(_) => true,
        },
{
    let uri: http::Uri = text.parse()?;
    let scheme = uri.scheme_str().map(String::from);
    let authority = uri.authority().map(|a| String::from(a.as_str()));
    Ok(UriParts { scheme, authority })
}

/// Whether a text is a scheme of lower case letters.
pub open spec fn is_plain_scheme(s: Seq<char>) -> bool {
    0 < s.len() <= 64 && forall|i: int| 0 <= i < s.len() ==> 'a' <= #[trigger] s[i] <= 'z'
}

/// `http::Uri::from_parts` puts the parts of a URI, with its scheme and its path
/// replaced, together again. That fails where there is no authority.
#[verifier::external_body]
fn replace_parts(text: &str, scheme: &str, path_and_query: &str) -> (r: Result<String, http::Error>)
    requires
        is_plain_scheme(scheme@),
        path_and_query@ == "/"@,
    ensures
        match (r, uri_parts(text@)) {
            (Ok(uri), Ok((_, Some(authority)))) => uri@ == scheme@ + "://"@ + authority
                + path_and_query@,
            (Err(_), Ok((_, None))) => true,
            (Err(_), Err(_)) => true,
            _ => false,
        },
{
    let uri: http::Uri = text.parse()?;
    let mut parts = uri.into_parts();
    parts.scheme = Some(scheme.parse()?);
    parts.path_and_query = Some(path_and_query.parse()?);
    Ok(http::Uri::from_parts(parts)?.to_string())
}

/// Why a text does not tell where the server is.
#[derive(Debug, Clone, Copy, PartialEq, Eq, Structural)]
pub enum UriError {
    /// It is no URI.
    Invalid,
    /// It is a URI without an authority.
    NoAuthority,
}

/// The URI of the control websocket of the server that `text`, with the given
/// scheme and authority, speaks of: the text itself where it has a scheme,
/// otherwise the root of its authority, over TLS.
pub open spec fn websocket_uri(
    text: Seq<char>,
    parts: Result<(Option<Seq<char>>, Option<Seq<char>>), ()>,
) -> Result<Seq<char>, UriError> {
    match parts {
        Err(_) => Err(UriError::Invalid),
        Ok((Some(_), _)) => Ok(text),
        Ok((None, Some(authority))) => Ok("wss://"@ + authority + "/"@),
        Ok((None, None)) => Err(UriError::NoAuthority),
    }
}

impl UriParts {
    /// The scheme and the path to be filled in, where the scheme is missing.
    pub fn defaults(&self) -> (r: Option<(&'static str, &'static str)>)
        ensures
            r is Some <==> self.scheme is None,
            r matches Some((scheme, path_and_query)) ==> scheme@ == "wss"@ && path_and_query@
                == "/"@,
    {
        match self.scheme {
            Some(_) => None,
            None => Some(("wss", "/")),
        }
    }
}

/// The URI of the control websocket of the server that `drill` speaks of. Where
/// it has an authority and no scheme it is nothing but the authority.
pub fn server_uri(drill: &str) -> (r: Result<String, UriError>)
    ensures
        match (r, websocket_uri(drill@, uri_parts(drill@))) {
            (Ok(uri), Ok(found)) => uri@ == found,
            (Err(e), Err(f)) => e == f,
            _ => false,
        },
        uri_parts(drill@) matches Ok((None, Some(_))) ==> r matches Ok(uri) && uri@ == "wss://"@
            + drill@ + "/"@,
{
    let parts = match read_uri(drill) {
        Ok(parts) => parts,
        Err(_) => return Err(UriError::Invalid),
    };
    match parts.defaults() {
        None => Ok(drill.to_owned()),
        Some((scheme, path_and_query)) => {
            proof {
                reveal_strlit("wss");
                reveal_strlit("://");
                reveal_strlit("wss://");
                assert("wss"@ + "://"@ =~= "wss://"@);
            }
            match replace_parts(drill, scheme, path_and_query) {
                Ok(uri) => Ok(uri),
                Err(_) => Err(UriError::NoAuthority),
            }
        },
    }
}

/// A client dials what it was given where that has a scheme, and otherwise the
/// root of the host that it was given, over TLS; without a host it dials nothing.
pub proof fn law_what_is_dialled(
    text: Seq<char>,
    scheme: Seq<char>,
    authority: Seq<char>,
    any: Option<Seq<char>>,
)
    ensures
        websocket_uri(text, Ok((Some(scheme), any))) == Ok::<Seq<char>, UriError>(text),
        websocket_uri(text, Ok((None, Some(authority)))) matches Ok(uri) && uri.len() == 6
            + authority.len() + 1 && uri.take(6) == "wss://"@ && uri.subrange(
            6,
            6 + authority.len() as int,
        ) == authority && uri.last() == '/',
        websocket_uri(text, Ok((None, None))) == Err::<Seq<char>, UriError>(UriError::NoAuthority),
        websocket_uri(text, Err(())) == Err::<Seq<char>, UriError>(UriError::Invalid),
{
    reveal_strlit("wss://");
    reveal_strlit("/");
    let uri = "wss://"@ + authority + "/"@;
    assert(uri.take(6) =~= "wss://"@);
    assert(uri.subrange(6, 6 + authority.len() as int) =~= authority);
}

} // verus!
