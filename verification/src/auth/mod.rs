//! Who may connect, and under which subdomain.

use crate::config::SubdomainStrategy;
use crate::proto::AuthMode;
use crate::text;
use crate::util;
use ao::AoAuthProvider;
use ao::TokenTell;
use dynamic::DynamicAuthProvider;
use vstd::hash_set::StringHashSet;
use vstd::prelude::*;
use vstd::string::*;

pub mod ao;
pub mod bot;
pub mod dynamic;

verus! {

/// How far a client has come.
#[derive(Debug, Clone, Copy, PartialEq, Eq, Structural)]
pub enum AuthState {
    AwaitingAoAuth,
    AwaitingToken,
    Proxying,
}

impl From<AuthMode> for AuthState {
    fn from(value: AuthMode) -> (r: Self) {
        match value {
            AuthMode::Anonymous | AuthMode::StaticToken => AuthState::AwaitingToken,
            AuthMode::AoTell => AuthState::AwaitingAoAuth,
        }
    }
}

impl vstd::std_specs::convert::FromSpecImpl<AuthMode> for AuthState {
    open spec fn obeys_from_spec() -> bool {
        true
    }

    open spec fn from_spec(value: AuthMode) -> Self {
        if value == AuthMode::AoTell {
            AuthState::AwaitingAoAuth
        } else {
            AuthState::AwaitingToken
        }
    }
}

/// Decides about tokens.
pub enum AuthProvider {
    Ao(AoAuthProvider),
    Anonymous,
    Private(StringHashSet),
    Dynamic(DynamicAuthProvider),
}

/// What an [`AuthProvider`] knows.
#[verifier::ext_equal]
pub enum Knowledge {
    /// The tokens told to characters, each with its character.
    Ao(Map<Seq<char>, Seq<char>>),
    Anonymous,
    /// The tokens that are accepted.
    Private(Set<Seq<char>>),
    /// The endpoint to ask.
    Dynamic(Seq<char>),
}

impl View for AuthProvider {
    type V = Knowledge;

    open spec fn view(&self) -> Knowledge {
        match self {
            AuthProvider::Ao(ao) => Knowledge::Ao(ao@),
            AuthProvider::Anonymous => Knowledge::Anonymous,
            AuthProvider::Private(set) => Knowledge::Private(set@),
            AuthProvider::Dynamic(dynamic) => Knowledge::Dynamic(dynamic@),
        }
    }
}

/// What an [`AuthProvider`] says about a token.
#[derive(Debug)]
pub enum Verdict {
    /// The client gets this subdomain.
    Granted(String),
    Rejected,
    /// The answer is up to who is asked at this URL.
    Ask(String),
}

/// What a [`Verdict`] says.
#[verifier::ext_equal]
pub enum Ruling {
    Granted(Seq<char>),
    Rejected,
    Ask(Seq<char>),
}

impl View for Verdict {
    type V = Ruling;

    open spec fn view(&self) -> Ruling {
        match self {
            Verdict::Granted(subdomain) => Ruling::Granted(subdomain@),
            Verdict::Rejected => Ruling::Rejected,
            Verdict::Ask(uri) => Ruling::Ask(uri@),
        }
    }
}

/// The subdomain that a client gets which is no AO character.
pub open spec fn client_subdomain(
    strategy: SubdomainStrategy,
    desired_subdomain: Seq<char>,
    random: Seq<char>,
) -> Seq<char> {
    if strategy == SubdomainStrategy::ClientChoice {
        desired_subdomain
    } else {
        random
    }
}

impl Knowledge {
    /// The ruling on a token.
    pub open spec fn ruling(
        self,
        token: Seq<char>,
        desired_subdomain: Seq<char>,
        strategy: SubdomainStrategy,
        random: Seq<char>,
    ) -> Ruling {
        match self {
            Knowledge::Ao(tokens) => match ao::granted_by_tell(
                tokens,
                token,
                desired_subdomain,
                strategy,
                random,
            ) {
                Some(subdomain) => Ruling::Granted(subdomain),
                None => Ruling::Rejected,
            },
            Knowledge::Anonymous => Ruling::Granted(
                client_subdomain(strategy, desired_subdomain, random),
            ),
            Knowledge::Private(accepted) => if accepted.contains(token) {
                Ruling::Granted(client_subdomain(strategy, desired_subdomain, random))
            } else {
                Ruling::Rejected
            },
            Knowledge::Dynamic(endpoint) => Ruling::Ask(
                dynamic::question(endpoint, token, desired_subdomain),
            ),
        }
    }

    /// What is known once a ruling on `token` was given: a token that was told
    /// to a character is spent.
    pub open spec fn after_ruling(self, token: Seq<char>) -> Knowledge {
        match self {
            Knowledge::Ao(tokens) => Knowledge::Ao(tokens.remove(token)),
            _ => self,
        }
    }

    /// What is known once `token` was made valid for `character`.
    pub open spec fn expecting(self, character: Seq<char>, token: Seq<char>) -> Knowledge {
        match self {
            Knowledge::Ao(tokens) => Knowledge::Ao(tokens.insert(token, character)),
            _ => self,
        }
    }
}

fn choose_subdomain(strategy: SubdomainStrategy, desired_subdomain: &str, random: String) -> (r:
    String)
    ensures
        r@ == client_subdomain(strategy, desired_subdomain@, random@),
{
    match strategy {
        SubdomainStrategy::ClientChoice => desired_subdomain.to_owned(),
        _ => random,
    }
}

impl AuthProvider {
    /// Makes `token` valid for `character`, where tokens are told to
    /// characters. The tell that is returned is to be sent.
    pub fn expect(&mut self, character: String, token: String) -> (r: Option<TokenTell>)
        ensures
            final(self)@ == old(self)@.expecting(character@, token@),
            r is Some <==> old(self)@ is Ao,
            r matches Some(tell) ==> tell.character@ == character@ && tell.token@ == token@,
    {
        match self {
            AuthProvider::Ao(ao) => Some(ao.expect(character, token)),
            _ => None,
        }
    }

    /// The verdict on `token`, with `random` for a random subdomain.
    pub fn verify_with(
        &mut self,
        token: &str,
        desired_subdomain: &str,
        strategy: SubdomainStrategy,
        random: String,
    ) -> (r: Verdict)
        ensures
            r@ == old(self)@.ruling(token@, desired_subdomain@, strategy, random@),
            final(self)@ == old(self)@.after_ruling(token@),
    {
        match self {
            AuthProvider::Ao(ao) => {
                match ao.verify_with(token, desired_subdomain, strategy, random) {
                    Some(subdomain) => Verdict::Granted(subdomain),
                    None => Verdict::Rejected,
                }
            },
            AuthProvider::Anonymous => Verdict::Granted(
                choose_subdomain(strategy, desired_subdomain, random),
            ),
            AuthProvider::Private(set) => {
                if set.contains(token) {
                    Verdict::Granted(choose_subdomain(strategy, desired_subdomain, random))
                } else {
                    Verdict::Rejected
                }
            },
            AuthProvider::Dynamic(dynamic) => Verdict::Ask(
                dynamic.request_uri(token, desired_subdomain),
            ),
        }
    }

    /// The verdict on `token`.
    pub fn verify(
        &mut self,
        token: &str,
        desired_subdomain: &str,
        strategy: SubdomainStrategy,
    ) -> (r: Verdict)
        ensures
            exists|random: Seq<char>| #[trigger]
                util::is_uuid_text(random) && r@ == old(self)@.ruling(
                    token@,
                    desired_subdomain@,
                    strategy,
                    random,
                ),
            final(self)@ == old(self)@.after_ruling(token@),
    {
        let random: String = util::random_subdomain();
        let ghost chosen = random@;
        let r = self.verify_with(token, desired_subdomain, strategy, random);
        assert(util::is_uuid_text(chosen));
        r
    }
}

/// A token that was told to a character is accepted, once: presented again, by
/// whomever, it is rejected.
pub proof fn law_told_token_is_accepted_once(
    tokens: Map<Seq<char>, Seq<char>>,
    character: Seq<char>,
    token: Seq<char>,
    desired_subdomain: Seq<char>,
    strategy: SubdomainStrategy,
    random: Seq<char>,
    other_subdomain: Seq<char>,
    other_strategy: SubdomainStrategy,
    other_random: Seq<char>,
)
    ensures
        ({
            let told = Knowledge::Ao(tokens).expecting(character, token);
            let spent = told.after_ruling(token);
            &&& told.ruling(token, desired_subdomain, strategy, random) == Ruling::Granted(
                ao::character_subdomain(strategy, character, desired_subdomain, random),
            )
            &&& spent.ruling(token, other_subdomain, other_strategy, other_random)
                == Ruling::Rejected
        }),
{
}

/// Presenting one token leaves the others as valid as they were.
pub proof fn law_other_tokens_stay(
    known: Knowledge,
    token: Seq<char>,
    other: Seq<char>,
    desired_subdomain: Seq<char>,
    strategy: SubdomainStrategy,
    random: Seq<char>,
)
    requires
        token != other,
    ensures
        known.after_ruling(token).ruling(other, desired_subdomain, strategy, random)
            == known.ruling(other, desired_subdomain, strategy, random),
{
}

/// `anonymous` accepts any token; `private` accepts the tokens of the file and
/// no others; `dynamic` asks about every token.
pub proof fn law_who_is_accepted(
    known: Knowledge,
    token: Seq<char>,
    desired_subdomain: Seq<char>,
    strategy: SubdomainStrategy,
    random: Seq<char>,
)
    ensures
        ({
            let ruling = known.ruling(token, desired_subdomain, strategy, random);
            &&& known is Anonymous ==> ruling is Granted
            &&& known matches Knowledge::Private(accepted) ==> {
                &&& ruling is Granted <==> accepted.contains(token)
                &&& ruling is Rejected <==> !accepted.contains(token)
            }
            &&& known matches Knowledge::Ao(tokens) ==> {
                &&& ruling is Granted <==> tokens.contains_key(token)
                &&& ruling is Rejected <==> !tokens.contains_key(token)
            }
            &&& known is Dynamic <==> ruling is Ask
        }),
{
}

/// With `client-choice` a client that is accepted gets the subdomain that it
/// asked for, with `random` it gets the random one, and with `ao-character` an
/// AO character gets its name. `dynamic` authentication ignores the strategy.
pub proof fn law_strategy_decides_the_subdomain(
    known: Knowledge,
    token: Seq<char>,
    desired_subdomain: Seq<char>,
    strategy: SubdomainStrategy,
    random: Seq<char>,
    other_strategy: SubdomainStrategy,
    other_random: Seq<char>,
)
    ensures
        known.ruling(token, desired_subdomain, strategy, random) matches Ruling::Granted(subdomain)
            ==> {
            &&& strategy == SubdomainStrategy::ClientChoice ==> subdomain == desired_subdomain
            &&& strategy == SubdomainStrategy::Random ==> subdomain == random
            &&& strategy == SubdomainStrategy::AoCharacter ==> subdomain == (match known {
                Knowledge::Ao(tokens) => text::unicode_lower(tokens[token]),
                _ => random,
            })
        },
        known is Dynamic ==> known.ruling(token, desired_subdomain, strategy, random)
            == known.ruling(token, desired_subdomain, other_strategy, other_random),
{
}

/// Only a token that was told to a character is spent by being presented: what
/// is accepted otherwise is accepted as often as it is presented.
pub proof fn law_other_tokens_are_not_spent(
    known: Knowledge,
    presented: Seq<char>,
    token: Seq<char>,
    desired_subdomain: Seq<char>,
    strategy: SubdomainStrategy,
    random: Seq<char>,
)
    requires
        !(known is Ao),
    ensures
        known.after_ruling(presented) == known,
        known.after_ruling(presented).ruling(token, desired_subdomain, strategy, random)
            == known.ruling(token, desired_subdomain, strategy, random),
{
}

/// A token that is told to a character changes nothing for any other token, and
/// nothing at all where tokens are not told.
pub proof fn law_expecting_leaves_other_tokens(
    known: Knowledge,
    character: Seq<char>,
    token: Seq<char>,
    other: Seq<char>,
    desired_subdomain: Seq<char>,
    strategy: SubdomainStrategy,
    random: Seq<char>,
)
    ensures
        other != token ==> known.expecting(character, token).ruling(
            other,
            desired_subdomain,
            strategy,
            random,
        ) == known.ruling(other, desired_subdomain, strategy, random),
        !(known is Ao) ==> known.expecting(character, token) == known,
{
}

/// Two characters that were told different tokens are both let in, in either
/// order, each under its own name.
pub proof fn law_two_characters_are_both_let_in(
    tokens: Map<Seq<char>, Seq<char>>,
    one: Seq<char>,
    first: Seq<char>,
    two: Seq<char>,
    second: Seq<char>,
    desired_subdomain: Seq<char>,
    random: Seq<char>,
)
    requires
        first != second,
    ensures
        ({
            let named = SubdomainStrategy::AoCharacter;
            let told = Knowledge::Ao(tokens).expecting(one, first).expecting(two, second);
            &&& told.ruling(first, desired_subdomain, named, random) == Ruling::Granted(
                text::unicode_lower(one),
            )
            &&& told.after_ruling(first).ruling(second, desired_subdomain, named, random)
                == Ruling::Granted(text::unicode_lower(two))
            &&& told.ruling(second, desired_subdomain, named, random) == Ruling::Granted(
                text::unicode_lower(two),
            )
            &&& told.after_ruling(second).ruling(first, desired_subdomain, named, random)
                == Ruling::Granted(text::unicode_lower(one))
        }),
{
}

} // verus!
