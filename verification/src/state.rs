//! What the sessions of a server share.

use crate::auth::ao::AoAuthProvider;
use crate::auth::dynamic::DynamicAuthProvider;
use crate::auth::AuthProvider;
use crate::auth::Knowledge;
use crate::config::AoCredentials;
use crate::config::Args;
use crate::config::AuthBackend;
use crate::config::SubdomainStrategy;
use crate::shared::SharedMap;
use crate::text;
use vstd::prelude::*;
use vstd::string::*;

verus! {

/// What the sessions of a server share: who decides about tokens, which
/// subdomain leads to which client, and the settings.
pub struct State {
    pub auth_provider: AuthProvider,
    // Mapping of subdomain to the name of the channel of its client
    pub event_senders: SharedMap,
    pub config: Args,
}

/// What a [`State`] holds.
#[verifier::ext_equal]
pub struct Server {
    pub known: Knowledge,
    pub listeners: Map<Seq<char>, Seq<char>>,
    pub config: Args,
}

/// Why a server cannot be started.
#[derive(Debug, Clone, Copy, PartialEq, Eq, Structural)]
pub enum StartError {
    /// AO credentials incomplete.
    MissingCredentials,
    /// Private auth backend requires token file to be specified.
    NoTokenFile,
    /// Failed to open token file.
    UnreadableTokenFile,
    /// Dynamic auth backend requires auth backend URL to be specified.
    NoAuthBackend,
}

/// What the auth provider knows when a server starts. The text of the token
/// file is `None` where there is none or it cannot be read.
pub open spec fn at_start(config: Args, token_file: Option<Seq<char>>) -> Result<
    Knowledge,
    StartError,
> {
    match config.auth {
        AuthBackend::Ao => if config.ao_username is Some && config.ao_password is Some
            && config.ao_character is Some {
            Ok(Knowledge::Ao(Map::empty()))
        } else {
            Err(StartError::MissingCredentials)
        },
        AuthBackend::Anonymous => Ok(Knowledge::Anonymous),
        AuthBackend::Private => if config.token_file is None {
            Err(StartError::NoTokenFile)
        } else {
            match token_file {
                Some(tokens) => Ok(Knowledge::Private(text::words(tokens))),
                None => Err(StartError::UnreadableTokenFile),
            }
        },
        AuthBackend::Dynamic => match config.auth_backend {
            Some(endpoint) => Ok(Knowledge::Dynamic(endpoint@)),
            None => Err(StartError::NoAuthBackend),
        },
    }
}

/// Whether the provider is of the kind that the settings ask for.
pub open spec fn is_for(known: Knowledge, auth: AuthBackend) -> bool {
    match auth {
        AuthBackend::Ao => known is Ao,
        AuthBackend::Anonymous => known is Anonymous,
        AuthBackend::Private => known is Private,
        AuthBackend::Dynamic => known is Dynamic,
    }
}

impl Server {
    /// The provider is the one that the settings ask for, and no more clients
    /// are connected than may be.
    pub open spec fn wf(self) -> bool {
        &&& is_for(self.known, self.config.auth)
        &&& self.config.auth == AuthBackend::Ao ==> self.config.ao_character is Some
        &&& self.listeners.dom().finite()
        &&& self.listeners.len() <= self.config.max_clients
    }

    /// Whether a client can have `subdomain`: there is room for one more
    /// client, and the subdomain is not in use.
    pub open spec fn admits(self, subdomain: Seq<char>) -> bool {
        self.listeners.len() < self.config.max_clients && !self.listeners.contains_key(subdomain)
    }

    /// The same, with `subdomain` leading to `sender`.
    pub open spec fn with_listener(self, subdomain: Seq<char>, sender: Seq<char>) -> Server {
        Server { listeners: self.listeners.insert(subdomain, sender), ..self }
    }

    /// The same, with `subdomain` leading nowhere.
    pub open spec fn without_listener(self, subdomain: Seq<char>) -> Server {
        Server { listeners: self.listeners.remove(subdomain), ..self }
    }

    /// Where `subdomain` leads.
    pub open spec fn listener(self, subdomain: Seq<char>) -> Option<Seq<char>> {
        if self.listeners.contains_key(subdomain) {
            Some(self.listeners[subdomain])
        } else {
            None
        }
    }
}

impl View for State {
    type V = Server;

    open spec fn view(&self) -> Server {
        Server {
            known: self.auth_provider@,
            listeners: self.event_senders@,
            config: self.config,
        }
    }
}

impl State {
    /// The state of a server that starts. The text of the token file is `None`
    /// where there is none or it cannot be read.
    pub fn new(config: Args, token_file: Option<&str>) -> (r: Result<Self, StartError>)
        ensures
            match (r, at_start(config, (match token_file {
                Some(tokens) => Some(tokens@),
                None => None,
            }))) {
                (Ok(state), Ok(known)) => {
                    &&& state@ == (Server { known, listeners: Map::empty(), config })
                    &&& state@.wf()
                },
                (Err(e), Err(f)) => e == f,
                _ => false,
            },
    {
        let auth_provider = match config.auth {
            AuthBackend::Ao => match AoCredentials::try_from(&config) {
                Ok(_) => AuthProvider::Ao(AoAuthProvider::new()),
                Err(_) => return Err(StartError::MissingCredentials),
            },
            AuthBackend::Anonymous => AuthProvider::Anonymous,
            AuthBackend::Private => {
                if config.token_file.is_none() {
                    return Err(StartError::NoTokenFile);
                }
                match token_file {
                    Some(tokens) => AuthProvider::Private(text::words_of(tokens)),
                    None => return Err(StartError::UnreadableTokenFile),
                }
            },
            AuthBackend::Dynamic => match &config.auth_backend {
                Some(auth_backend) => AuthProvider::Dynamic(
                    DynamicAuthProvider::new(auth_backend.clone()),
                ),
                None => return Err(StartError::NoAuthBackend),
            },
        };
        let state = State { auth_provider, event_senders: SharedMap::new(), config };
        Ok(state)
    }

    /// The name of the channel of the client that has `subdomain`.
    pub fn get_event_sender(&self, subdomain: &str) -> (r: Option<String>)
        ensures
            match (r, self@.listener(subdomain@)) {
                (Some(sender), Some(listener)) => sender@ == listener,
                (None, None) => true,
                _ => false,
            },
    {
        self.event_senders.get(subdomain)
    }

    /// Lets `subdomain` lead to `sender`, unless the maximum number of clients
    /// is reached or the subdomain is in use.
    pub fn register_event_listener(&mut self, subdomain: String, sender: String) -> (r: bool)
        ensures
            r == old(self)@.admits(subdomain@),
            final(self)@ == (if r {
                old(self)@.with_listener(subdomain@, sender@)
            } else {
                old(self)@
            }),
            old(self)@.wf() ==> final(self)@.wf(),
    {
        if self.event_senders.len() >= self.config.max_clients || self.event_senders.contains_key(
            subdomain.as_str(),
        ) {
            false
        } else {
            let _ = self.event_senders.insert(subdomain, sender);
            true
        }
    }

    /// Lets `subdomain` lead nowhere. Returns the name of the channel that it
    /// led to.
    pub fn unregister_event_listener(&mut self, subdomain: &str) -> (r: Option<String>)
        ensures
            final(self)@ == old(self)@.without_listener(subdomain@),
            match (r, old(self)@.listener(subdomain@)) {
                (Some(sender), Some(listener)) => sender@ == listener,
                (None, None) => true,
                _ => false,
            },
            old(self)@.wf() ==> final(self)@.wf(),
    {
        let r = self.event_senders.remove(subdomain);
        proof {
            if old(self)@.wf() {
                lemma_len_remove(old(self)@.listeners, subdomain@);
            }
        }
        r
    }
}

/// Taking an entry out of a map does not make it larger.
proof fn lemma_len_remove(m: Map<Seq<char>, Seq<char>>, key: Seq<char>)
    requires
        m.dom().finite(),
    ensures
        m.remove(key).dom().finite(),
        m.remove(key).len() <= m.len(),
{
    assert(m.remove(key).dom() == m.dom().remove(key));
}

/// A client that was let in is found under its subdomain, and every other
/// subdomain leads where it led before.
pub proof fn law_registered_is_found(
    server: Server,
    subdomain: Seq<char>,
    sender: Seq<char>,
    other: Seq<char>,
)
    ensures
        server.with_listener(subdomain, sender).listener(subdomain) == Some(sender),
        other != subdomain ==> server.with_listener(subdomain, sender).listener(other)
            == server.listener(other),
{
}

/// Once its client is gone a subdomain leads nowhere and, where there is room,
/// can be had again; every other subdomain leads where it led before.
pub proof fn law_unregistered_is_free(server: Server, subdomain: Seq<char>, other: Seq<char>)
    requires
        server.wf(),
    ensures
        server.without_listener(subdomain).listener(subdomain) is None,
        server.listener(subdomain) is Some ==> server.without_listener(subdomain).admits(subdomain),
        other != subdomain ==> server.without_listener(subdomain).listener(other)
            == server.listener(other),
{
    lemma_len_remove(server.listeners, subdomain);
    assert(server.listeners.remove(subdomain).dom() == server.listeners.dom().remove(subdomain));
}

/// No two clients have the same subdomain at the same time: one that is in use
/// is not given to another.
pub proof fn law_subdomain_in_use_is_refused(server: Server, subdomain: Seq<char>, sender: Seq<char>)
    ensures
        !server.with_listener(subdomain, sender).admits(subdomain),
{
}

/// The number of clients stays within the maximum, and a server that is full
/// lets no one in.
pub proof fn law_capacity(server: Server, subdomain: Seq<char>, sender: Seq<char>)
    requires
        server.wf(),
    ensures
        server.admits(subdomain) ==> server.with_listener(subdomain, sender).listeners.len()
            == server.listeners.len() + 1 <= server.config.max_clients,
        server.listeners.len() == server.config.max_clients ==> !server.admits(subdomain),
{
    assert(server.listeners.insert(subdomain, sender).dom() == server.listeners.dom().insert(
        subdomain,
    ));
}

/// Registering and unregistering a subdomain that was free changes nothing.
pub proof fn law_unregister_undoes_register(server: Server, subdomain: Seq<char>, sender: Seq<char>)
    requires
        server.admits(subdomain),
    ensures
        server.with_listener(subdomain, sender).without_listener(subdomain) == server,
{
    assert(server.listeners.insert(subdomain, sender).remove(subdomain) =~= server.listeners);
}

/// What stands in a text without white space in it, and with white space or
/// nothing on either side, is a word of the text.
proof fn lemma_word_between(a: Seq<char>, token: Seq<char>, b: Seq<char>)
    requires
        token.len() > 0,
        forall|i: int| 0 <= i < token.len() ==> !text::is_white_space(#[trigger] token[i]),
        a.len() == 0 || text::is_white_space(a.last()),
        b.len() == 0 || text::is_white_space(b[0]),
    ensures
        text::words(a + token + b).contains(token),
{
    let t = a + token + b;
    let (i, j) = (a.len() as int, (a.len() + token.len()) as int);
    assert forall|k: int| i <= k < j implies !text::is_white_space(#[trigger] t[k]) by {
        assert(t[k] == token[k - i]);
    }
    assert(text::word_at(t, i, j)) by {
        if i > 0 {
            assert(t[i - 1] == a.last());
        }
        if j < t.len() {
            assert(t[j] == b[0]);
        }
    }
    assert(t.subrange(i, j) =~= token);
}

/// A private server accepts every token of its file, wherever in the file it
/// stands: on whichever line, first or last, with whatever around it, as long as
/// that is white space.
pub proof fn law_every_token_of_the_file_is_accepted(
    config: Args,
    a: Seq<char>,
    token: Seq<char>,
    b: Seq<char>,
    desired_subdomain: Seq<char>,
    strategy: SubdomainStrategy,
    random: Seq<char>,
)
    requires
        config.auth == AuthBackend::Private,
        config.token_file is Some,
        token.len() > 0,
        forall|i: int| 0 <= i < token.len() ==> !text::is_white_space(#[trigger] token[i]),
        a.len() == 0 || text::is_white_space(a.last()),
        b.len() == 0 || text::is_white_space(b[0]),
    ensures
        at_start(config, Some(a + token + b)) matches Ok(known) && known.ruling(
            token,
            desired_subdomain,
            strategy,
            random,
        ) is Granted,
{
    lemma_word_between(a, token, b);
}

/// A private server accepts nothing but the tokens of its file: what it accepts
/// stands in the file, has no white space in it, and has white space or nothing
/// on either side. All else is rejected.
pub proof fn law_only_tokens_of_the_file_are_accepted(
    config: Args,
    t: Seq<char>,
    token: Seq<char>,
    desired_subdomain: Seq<char>,
    strategy: SubdomainStrategy,
    random: Seq<char>,
)
    requires
        config.auth == AuthBackend::Private,
        config.token_file is Some,
    ensures
        at_start(config, Some(t)) matches Ok(known) && {
            let ruling = known.ruling(token, desired_subdomain, strategy, random);
            &&& ruling is Granted || ruling is Rejected
            &&& ruling is Granted ==> token.len() > 0 && (forall|i: int|
                0 <= i < token.len() ==> !text::is_white_space(#[trigger] token[i])) && exists|
                a: Seq<char>,
                b: Seq<char>,
            |
                t == #[trigger] (a + token + b) && (a.len() == 0 || text::is_white_space(a.last()))
                    && (b.len() == 0 || text::is_white_space(b[0]))
        },
{
    if text::words(t).contains(token) {
        let (i, j) = choose|i: int, j: int|
            #[trigger] text::word_at(t, i, j) && token == t.subrange(i, j);
        assert forall|k: int| 0 <= k < token.len() implies !text::is_white_space(
            #[trigger] token[k],
        ) by {
            assert(token[k] == t[i + k]);
        }
        let a = t.take(i);
        let b = t.skip(j);
        assert(t =~= a + token + b);
        if i > 0 {
            assert(a.last() == t[i - 1]);
        }
        if j < t.len() {
            assert(b[0] == t[j]);
        }
        assert(t == a + token + b && (a.len() == 0 || text::is_white_space(a.last())) && (b.len()
            == 0 || text::is_white_space(b[0])));
    }
}

/// A token file that is two files with white space between them accepts what
/// either of the two accepts.
pub proof fn law_token_files_add_up(
    config: Args,
    a: Seq<char>,
    c: char,
    b: Seq<char>,
    token: Seq<char>,
    desired_subdomain: Seq<char>,
    strategy: SubdomainStrategy,
    random: Seq<char>,
)
    requires
        config.auth == AuthBackend::Private,
        config.token_file is Some,
        text::is_white_space(c),
    ensures
        ({
            let both = at_start(config, Some(a + seq![c] + b));
            let one = at_start(config, Some(a));
            let two = at_start(config, Some(b));
            &&& both is Ok && one is Ok && two is Ok
            &&& both->Ok_0.ruling(token, desired_subdomain, strategy, random) is Granted <==> one
                ->Ok_0.ruling(token, desired_subdomain, strategy, random) is Granted || two
                ->Ok_0.ruling(token, desired_subdomain, strategy, random) is Granted
        }),
{
    text::law_words_of_both_sides(a, c, b);
}

/// When a server starts, and why it does not: with tells it needs the whole
/// account, with a token file one that is named and can be read, with an endpoint
/// its URL, and otherwise nothing. It starts without tokens that were told.
pub proof fn law_when_a_server_starts(config: Args, token_file: Option<Seq<char>>)
    ensures
        ({
            let start = at_start(config, token_file);
            let account = config.ao_username is Some && config.ao_password is Some
                && config.ao_character is Some;
            let named = config.token_file is Some;
            let failed = |e: StartError| start == Err::<Knowledge, StartError>(e);
            let started = |known: Knowledge| start == Ok::<Knowledge, StartError>(known);
            match config.auth {
                AuthBackend::Anonymous => started(Knowledge::Anonymous),
                AuthBackend::Ao => if account {
                    started(Knowledge::Ao(Map::empty()))
                } else {
                    failed(StartError::MissingCredentials)
                },
                AuthBackend::Private => {
                    &&& !named ==> failed(StartError::NoTokenFile)
                    &&& named && token_file is None ==> failed(StartError::UnreadableTokenFile)
                    &&& named && token_file is Some ==> start is Ok && start->Ok_0 is Private
                },
                AuthBackend::Dynamic => {
                    &&& config.auth_backend is None ==> failed(StartError::NoAuthBackend)
                    &&& config.auth_backend matches Some(url) ==> started(
                        Knowledge::Dynamic(url@),
                    )
                },
            }
        }),
{
}

/// Whether a client can have a subdomain depends on nothing but whether there is
/// room and the subdomain is free: where one free name can be had, every free
/// name can, and a server that is not full has every free name to give.
pub proof fn law_every_free_name_can_be_had(server: Server, one: Seq<char>, other: Seq<char>)
    ensures
        server.admits(one) && !server.listeners.contains_key(other) ==> server.admits(other),
        server.admits(one) <==> server.listener(one) is None && server.listeners.dom().len()
            < server.config.max_clients,
{
}

/// Registering and unregistering change nothing but where the one subdomain
/// leads: what is known of tokens and the settings stay.
pub proof fn law_registering_changes_nothing_else(
    server: Server,
    subdomain: Seq<char>,
    sender: Seq<char>,
)
    ensures
        server.with_listener(subdomain, sender).known == server.known,
        server.with_listener(subdomain, sender).config == server.config,
        server.without_listener(subdomain).known == server.known,
        server.without_listener(subdomain).config == server.config,
{
}

} // verus!
