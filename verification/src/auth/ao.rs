//! Authentication of Anarchy Online characters by a tell in the game.

use crate::config::SubdomainStrategy;
use crate::shared::SharedMap;
use crate::text;
use crate::util;
use vstd::prelude::*;
use vstd::string::*;

verus! {

/// A token to be told to a character.
#[derive(Debug)]
pub struct TokenTell {
    pub character: String,
    pub token: String,
}

/// Knows the tokens that were told to characters and not yet presented.
#[derive(Debug)]
pub struct AoAuthProvider {
    // Mapping of token to character name
    valid_tokens: SharedMap,
}

impl View for AoAuthProvider {
    type V = Map<Seq<char>, Seq<char>>;

    closed spec fn view(&self) -> Map<Seq<char>, Seq<char>> {
        self.valid_tokens@
    }
}

/// The subdomain that a character gets.
pub open spec fn character_subdomain(
    strategy: SubdomainStrategy,
    character: Seq<char>,
    desired_subdomain: Seq<char>,
    random: Seq<char>,
) -> Seq<char> {
    match strategy {
        SubdomainStrategy::AoCharacter => text::unicode_lower(character),
        SubdomainStrategy::ClientChoice => desired_subdomain,
        SubdomainStrategy::Random => random,
    }
}

/// The subdomain granted to who presents `token`, where `tokens` are valid.
pub open spec fn granted_by_tell(
    tokens: Map<Seq<char>, Seq<char>>,
    token: Seq<char>,
    desired_subdomain: Seq<char>,
    strategy: SubdomainStrategy,
    random: Seq<char>,
) -> Option<Seq<char>> {
    if tokens.contains_key(token) {
        Some(character_subdomain(strategy, tokens[token], desired_subdomain, random))
    } else {
        None
    }
}

impl AoAuthProvider {
    pub fn new() -> (r: Self)
        ensures
            r@ == Map::<Seq<char>, Seq<char>>::empty(),
    {
        AoAuthProvider { valid_tokens: SharedMap::new() }
    }

    /// Makes `token` valid for `character`. The tell that is returned is to be
    /// sent in the game.
    pub fn expect(&mut self, character: String, token: String) -> (r: TokenTell)
        ensures
            final(self)@ == old(self)@.insert(token@, character@),
            r.character@ == character@,
            r.token@ == token@,
    {
        let _ = self.valid_tokens.insert(token.clone(), character.clone());
        TokenTell { character, token }
    }

    /// The subdomain that who presents `token` gets, with `random` for a random
    /// one. The token is spent.
    pub fn verify_with(
        &mut self,
        token: &str,
        desired_subdomain: &str,
        strategy: SubdomainStrategy,
        random: String,
    ) -> (r: Option<String>)
        ensures
            final(self)@ == old(self)@.remove(token@),
            match (r, granted_by_tell(old(self)@, token@, desired_subdomain@, strategy, random@)) {
                (Some(subdomain), Some(granted)) => subdomain@ == granted,
                (None, None) => true,
                _ => false,
            },
    {
        match self.valid_tokens.remove(token) {
            Some(character_name) => match strategy {
                SubdomainStrategy::AoCharacter => Some(character_name.as_str().to_lowercase()),
                SubdomainStrategy::ClientChoice => Some(desired_subdomain.to_owned()),
                SubdomainStrategy::Random => Some(random),
            },
            None => None,
        }
    }

    /// The subdomain that who presents `token` gets. The token is spent.
    pub fn verify(
        &mut self,
        token: &str,
        desired_subdomain: &str,
        strategy: SubdomainStrategy,
    ) -> (r: Option<String>)
        ensures
            final(self)@ == old(self)@.remove(token@),
            r is Some <==> old(self)@.contains_key(token@),
            exists|random: Seq<char>| #[trigger]
                util::is_uuid_text(random) && match (
                    r,
                    granted_by_tell(old(self)@, token@, desired_subdomain@, strategy, random),
                ) {
                    (Some(subdomain), Some(granted)) => subdomain@ == granted,
                    (None, None) => true,
                    _ => false,
                },
    {
        let random: String = util::random_subdomain();
        let ghost chosen = random@;
        let r = self.verify_with(token, desired_subdomain, strategy, random);
        assert(util::is_uuid_text(chosen));
        r
    }
}

} // verus!
