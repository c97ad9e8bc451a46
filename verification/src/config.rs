//! How a server is set up.

use crate::proto::AuthMode;
use vstd::prelude::*;

verus! {

/// Who decides which subdomain a client gets.
#[derive(Debug, Clone, Copy, PartialEq, Eq, Structural)]
pub enum SubdomainStrategy {
    AoCharacter,
    ClientChoice,
    Random,
}

/// Who decides whether a client may connect.
#[derive(Debug, Clone, Copy, PartialEq, Eq, Structural)]
pub enum AuthBackend {
    Ao,
    Anonymous,
    Private,
    Dynamic,
}

impl From<AuthBackend> for AuthMode {
    fn from(val: AuthBackend) -> (r: Self) {
        match val {
            AuthBackend::Ao => AuthMode::AoTell,
            AuthBackend::Anonymous => AuthMode::Anonymous,
            AuthBackend::Private => AuthMode::StaticToken,
            AuthBackend::Dynamic => AuthMode::StaticToken,
        }
    }
}

impl vstd::std_specs::convert::FromSpecImpl<AuthBackend> for AuthMode {
    open spec fn obeys_from_spec() -> bool {
        true
    }

    open spec fn from_spec(val: AuthBackend) -> Self {
        match val {
            AuthBackend::Ao => AuthMode::AoTell,
            AuthBackend::Anonymous => AuthMode::Anonymous,
            AuthBackend::Private | AuthBackend::Dynamic => AuthMode::StaticToken,
        }
    }
}

/// The settings of a server.
#[derive(Debug)]
pub struct Args {
    /// Maximum parallel connected clients.
    pub max_clients: usize,
    /// Username of the AO account to send tells from.
    pub ao_username: Option<String>,
    /// Password of the AO account to send tells from.
    pub ao_password: Option<String>,
    /// Character name on the AO account to send tells from.
    pub ao_character: Option<String>,
    /// Authentication backend.
    pub auth: AuthBackend,
    /// Strategy to choose subdomains for clients.
    pub subdomain_strategy: SubdomainStrategy,
    /// For "private" authentication backend, path to file with
    /// whitespace-seperated tokens.
    pub token_file: Option<String>,
    /// For "dynamic" authentication backend, URL of authentication API.
    pub auth_backend: Option<String>,
    /// Hostname for the websocket server, e.g. "connect.mydomain.com".
    pub websocket_host: String,
    /// Domain that subdomains can be handed out for, e.g. "mydomain.com".
    pub domain: String,
    /// Description of this instance, clients can display this to users.
    pub description: String,
    /// Port to run on.
    pub port: u16,
}

/// The AO account to send tells from.
#[derive(Debug, Clone)]
pub struct AoCredentials {
    pub username: String,
    pub password: String,
    pub character: String,
}

/// Username, password or character of the AO account is not set.
#[derive(Debug)]
pub struct MissingCredentialsError;

impl TryFrom<&Args> for AoCredentials {
    type Error = MissingCredentialsError;

    fn try_from(value: &Args) -> (r: Result<Self, Self::Error>) {
        if let (Some(username), Some(password), Some(character)) = (
            &value.ao_username,
            &value.ao_password,
            &value.ao_character,
        ) {
            Ok(
                AoCredentials {
                    username: username.clone(),
                    password: password.clone(),
                    character: character.clone(),
                },
            )
        } else {
            Err(MissingCredentialsError)
        }
    }
}

impl vstd::std_specs::convert::TryFromSpecImpl<&Args> for AoCredentials {
    open spec fn obeys_try_from_spec() -> bool {
        true
    }

    open spec fn try_from_spec(value: &Args) -> Result<Self, MissingCredentialsError> {
        match (value.ao_username, value.ao_password, value.ao_character) {
            (Some(username), Some(password), Some(character)) => Ok(
                AoCredentials { username, password, character },
            ),
            _ => Err(MissingCredentialsError),
        }
    }
}

/// The account is the one in the settings, and there is one exactly if its
/// username, password and character are all set.
pub proof fn law_account_is_that_of_the_settings(args: Args)
    ensures
        ({
            let account = <AoCredentials as vstd::std_specs::convert::TryFromSpec<
                &Args,
            >>::try_from_spec(&args);
            &&& account is Ok <==> args.ao_username is Some && args.ao_password is Some
                && args.ao_character is Some
            &&& account matches Ok(found) ==> {
                &&& args.ao_username == Some(found.username)
                &&& args.ao_password == Some(found.password)
                &&& args.ao_character == Some(found.character)
            }
        }),
{
}

/// What clients are told of each backend.
pub proof fn law_auth_mode_of_each_backend()
    ensures
        <AuthMode as vstd::std_specs::convert::FromSpec<AuthBackend>>::from_spec(AuthBackend::Ao)
            == AuthMode::AoTell,
        <AuthMode as vstd::std_specs::convert::FromSpec<AuthBackend>>::from_spec(
            AuthBackend::Anonymous,
        ) == AuthMode::Anonymous,
        <AuthMode as vstd::std_specs::convert::FromSpec<AuthBackend>>::from_spec(
            AuthBackend::Private,
        ) == AuthMode::StaticToken,
        <AuthMode as vstd::std_specs::convert::FromSpec<AuthBackend>>::from_spec(
            AuthBackend::Dynamic,
        ) == AuthMode::StaticToken,
{
}

} // verus!
