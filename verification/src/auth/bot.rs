//! The bot that tells tokens to characters in the chat of Anarchy Online.
//!
//! The bot is told what happens in the chat and says what is to be done there.

use crate::auth::ao::TokenTell;
use crate::auth::Knowledge;
use crate::auth::Ruling;
use crate::config::AoCredentials;
use crate::config::SubdomainStrategy;
use crate::table::Table;
use crate::text;
use vstd::prelude::*;
use vstd::string::*;

verus! {

/// The address of the chat server.
pub const CHAT_SERVER: &'static str = "chat.d1.funcom.com:7105";

/// After how many seconds a bot that failed is started again.
pub const RETRY_SECONDS: u64 = 10;

/// After how many seconds a bot whose account was reactivated reconnects.
pub const RECONNECT_SECONDS: u64 = 5;

/// A character on an account.
#[derive(Debug)]
pub struct Character {
    pub name: String,
    pub id: u32,
}

impl View for Character {
    type V = (Seq<char>, u32);

    open spec fn view(&self) -> (Seq<char>, u32) {
        (self.name@, self.id)
    }
}

/// What happens to a bot.
#[derive(Debug)]
pub enum ChatEvent {
    /// A token is to be told.
    Due(TokenTell),
    /// The chat server sent the seed for the login.
    LoginSeed(String),
    /// The chat server sent the characters on the account.
    LoginCharlist(Vec<Character>),
    /// The chat server refused the login.
    LoginError(String),
    /// An attempt was made to reactivate the account. It failed, or it succeeded
    /// and the bot may go on.
    Reactivated(bool),
    /// The chat server looked a character up.
    ClientLookup { character_name: String, character_id: u32, exists: bool },
    /// Anything else.
    Other,
}

/// What a [`ChatEvent`] says.
#[verifier::ext_equal]
pub enum Chat {
    Due { character: Seq<char>, token: Seq<char> },
    LoginSeed(Seq<char>),
    LoginCharlist(Seq<(Seq<char>, u32)>),
    LoginError(Seq<char>),
    Reactivated(bool),
    ClientLookup { character_name: Seq<char>, character_id: u32, exists: bool },
    Other,
}

impl View for ChatEvent {
    type V = Chat;

    open spec fn view(&self) -> Chat {
        match self {
            ChatEvent::Due(tell) => Chat::Due { character: tell.character@, token: tell.token@ },
            ChatEvent::LoginSeed(seed) => Chat::LoginSeed(seed@),
            ChatEvent::LoginCharlist(characters) => Chat::LoginCharlist(
                characters@.map_values(|c: Character| c@),
            ),
            ChatEvent::LoginError(message) => Chat::LoginError(message@),
            ChatEvent::Reactivated(success) => Chat::Reactivated(*success),
            ChatEvent::ClientLookup { character_name, character_id, exists } => {
                Chat::ClientLookup {
                    character_name: character_name@,
                    character_id: *character_id,
                    exists: *exists,
                }
            },
            ChatEvent::Other => Chat::Other,
        }
    }
}

/// What is to be done for a bot.
#[derive(Debug)]
pub enum BotAction {
    /// Nothing.
    Continue,
    /// Have the chat server look the character up.
    Lookup(String),
    /// Log in.
    Login { username: String, password: String, seed: String },
    /// Select the character.
    Select(u32),
    /// Try to reactivate the account.
    Reactivate { username: String, password: String },
    /// Wait [`RECONNECT_SECONDS`] and connect again.
    Reconnect,
    /// Send the text to the character.
    Tell { character_id: u32, text: String },
    /// The bot cannot go on: its character is not on the account.
    CharacterMissing,
    /// The bot cannot go on: it may not log in.
    LoginDenied,
}

/// What a [`BotAction`] says.
#[verifier::ext_equal]
pub enum BotDeed {
    Continue,
    Lookup(Seq<char>),
    Login { username: Seq<char>, password: Seq<char>, seed: Seq<char> },
    Select(u32),
    Reactivate { username: Seq<char>, password: Seq<char> },
    Reconnect,
    Tell { character_id: u32, text: Seq<char> },
    CharacterMissing,
    LoginDenied,
}

impl View for BotAction {
    type V = BotDeed;

    open spec fn view(&self) -> BotDeed {
        match self {
            BotAction::Continue => BotDeed::Continue,
            BotAction::Lookup(character) => BotDeed::Lookup(character@),
            BotAction::Login { username, password, seed } => BotDeed::Login {
                username: username@,
                password: password@,
                seed: seed@,
            },
            BotAction::Select(id) => BotDeed::Select(*id),
            BotAction::Reactivate { username, password } => BotDeed::Reactivate {
                username: username@,
                password: password@,
            },
            BotAction::Reconnect => BotDeed::Reconnect,
            BotAction::Tell { character_id, text } => BotDeed::Tell {
                character_id: *character_id,
                text: text@,
            },
            BotAction::CharacterMissing => BotDeed::CharacterMissing,
            BotAction::LoginDenied => BotDeed::LoginDenied,
        }
    }
}

/// A bot on one connection to the chat server.
#[derive(Debug)]
pub struct AoBot {
    pub credentials: AoCredentials,
    // Mapping of character name to the token it is to be told
    pub pending_tells: Table,
}

/// What an [`AoBot`] knows.
#[verifier::ext_equal]
pub struct Agenda {
    pub credentials: AoCredentials,
    /// The token that each character is to be told once it was looked up.
    pub pending: Map<Seq<char>, Seq<char>>,
}

impl View for AoBot {
    type V = Agenda;

    open spec fn view(&self) -> Agenda {
        Agenda { credentials: self.credentials, pending: self.pending_tells@ }
    }
}

/// The id of the first character of the given name.
pub open spec fn id_of(characters: Seq<(Seq<char>, u32)>, name: Seq<char>) -> Option<u32>
    decreases characters.len(),
{
    if characters.len() == 0 {
        None
    } else if characters[0].0 == name {
        Some(characters[0].1)
    } else {
        id_of(characters.drop_first(), name)
    }
}

/// The message by which a character is told a token.
pub open spec fn tell_text(token: Seq<char>) -> Seq<char> {
    "!drill "@ + token
}

impl Agenda {
    /// What is to be done when `chat` happens.
    pub open spec fn deed(self, chat: Chat) -> BotDeed {
        match chat {
            Chat::Due { character, .. } => BotDeed::Lookup(character),
            Chat::LoginSeed(seed) => BotDeed::Login {
                username: self.credentials.username@,
                password: self.credentials.password@,
                seed,
            },
            Chat::LoginCharlist(characters) => match id_of(
                characters,
                self.credentials.character@,
            ) {
                Some(id) => BotDeed::Select(id),
                None => BotDeed::CharacterMissing,
            },
            Chat::LoginError(message) => if text::occurs_in(
                "Account system denies login"@,
                message,
            ) {
                BotDeed::Reactivate {
                    username: self.credentials.username@,
                    password: self.credentials.password@,
                }
            } else {
                BotDeed::LoginDenied
            },
            Chat::Reactivated(success) => if success {
                BotDeed::Reconnect
            } else {
                BotDeed::LoginDenied
            },
            Chat::ClientLookup { character_name, character_id, exists } => if exists
                && self.pending.contains_key(character_name) {
                BotDeed::Tell { character_id, text: tell_text(self.pending[character_name]) }
            } else {
                BotDeed::Continue
            },
            Chat::Other => BotDeed::Continue,
        }
    }

    /// What the bot knows after `chat` happened.
    pub open spec fn after(self, chat: Chat) -> Agenda {
        match chat {
            Chat::Due { character, token } => Agenda {
                pending: self.pending.insert(character, token),
                ..self
            },
            Chat::ClientLookup { character_name, .. } => Agenda {
                pending: self.pending.remove(character_name),
                ..self
            },
            _ => self,
        }
    }
}

/// The id of the first character of the given name.
fn find_character(characters: &Vec<Character>, name: &str) -> (r: Option<u32>)
    ensures
        r == id_of(characters@.map_values(|c: Character| c@), name@),
{
    let ghost all = characters@.map_values(|c: Character| c@);
    let mut i: usize = 0;
    assert(all.skip(0) == all);
    while i < characters.len()
        invariant
            i <= characters@.len(),
            all == characters@.map_values(|c: Character| c@),
            id_of(all, name@) == id_of(all.skip(i as int), name@),
        decreases characters@.len() - i,
    {
        assert(all.skip(i as int)[0] == characters@[i as int]@);
        assert(all.skip(i as int).drop_first() == all.skip(i + 1));
        if text::same(characters[i].name.as_str(), name) {
            return Some(characters[i].id);
        }
        i = i + 1;
    }
    None
}

impl AoBot {
    /// A bot that has no tokens to tell yet.
    pub fn new(credentials: AoCredentials) -> (r: Self)
        ensures
            r@ == (Agenda { credentials, pending: Map::empty() }),
    {
        AoBot { credentials, pending_tells: Table::new() }
    }

    /// Something happened in the chat.
    pub fn on_event(&mut self, event: ChatEvent) -> (r: BotAction)
        ensures
            r@ == old(self)@.deed(event@),
            final(self)@ == old(self)@.after(event@),
    {
        match event {
            ChatEvent::Due(tell) => {
                self.pending_tells.insert(tell.character.clone(), tell.token);
                BotAction::Lookup(tell.character)
            },
            ChatEvent::LoginSeed(seed) => BotAction::Login {
                username: self.credentials.username.clone(),
                password: self.credentials.password.clone(),
                seed,
            },
            ChatEvent::LoginCharlist(characters) => {
                match find_character(&characters, self.credentials.character.as_str()) {
                    Some(id) => BotAction::Select(id),
                    None => BotAction::CharacterMissing,
                }
            },
            ChatEvent::LoginError(message) => {
                if text::contains(message.as_str(), "Account system denies login") {
                    BotAction::Reactivate {
                        username: self.credentials.username.clone(),
                        password: self.credentials.password.clone(),
                    }
                } else {
                    BotAction::LoginDenied
                }
            },
            ChatEvent::Reactivated(success) => {
                if success {
                    BotAction::Reconnect
                } else {
                    BotAction::LoginDenied
                }
            },
            ChatEvent::ClientLookup { character_name, character_id, exists } => {
                match self.pending_tells.remove(character_name.as_str()) {
                    Some(token) => {
                        if exists {
                            BotAction::Tell {
                                character_id,
                                text: text::join("!drill ", token.as_str()),
                            }
                        } else {
                            BotAction::Continue
                        }
                    },
                    None => BotAction::Continue,
                }
            },
            ChatEvent::Other => BotAction::Continue,
        }
    }
}

/// How a try to run a bot ended.
#[derive(Debug, Clone, Copy, PartialEq, Eq, Structural)]
pub enum Attempt {
    /// There was no connection to the chat server.
    NotConnected,
    /// The connection failed.
    Failed,
    /// The bot could not go on, or there was nothing more to do.
    Ended,
}

/// After how many seconds the next try is made, if there is to be one.
pub open spec fn seconds_to_next_attempt(attempt: Attempt) -> Option<u64> {
    match attempt {
        Attempt::NotConnected | Attempt::Failed => Some(RETRY_SECONDS),
        Attempt::Ended => None,
    }
}

/// After how many seconds the next try is made, if there is to be one.
pub fn next_attempt(attempt: Attempt) -> (r: Option<u64>)
    ensures
        r == (if attempt == Attempt::Ended {
            None
        } else {
            Some(RETRY_SECONDS)
        }),
        r == seconds_to_next_attempt(attempt),
{
    match attempt {
        Attempt::NotConnected | Attempt::Failed => Some(RETRY_SECONDS),
        Attempt::Ended => None,
    }
}

/// A token is told to its character, once: the character is looked up, when it
/// was found it is sent the token, and whatever is found out about the
/// character after that, it is not sent a token again.
pub proof fn law_token_is_told_once(
    bot: Agenda,
    character: Seq<char>,
    token: Seq<char>,
    character_id: u32,
    again: Chat,
)
    requires
        again matches Chat::ClientLookup { character_name, .. } && character_name == character,
    ensures
        ({
            let due = Chat::Due { character, token };
            let found = Chat::ClientLookup {
                character_name: character,
                character_id,
                exists: true,
            };
            &&& bot.deed(due) == BotDeed::Lookup(character)
            &&& bot.after(due).deed(found) == (BotDeed::Tell {
                character_id,
                text: tell_text(token),
            })
            &&& bot.after(due).after(found).deed(again) == BotDeed::Continue
        }),
{
}

/// A token whose character does not exist is told to no one, and forgotten.
pub proof fn law_unknown_character_is_forgotten(
    bot: Agenda,
    character: Seq<char>,
    token: Seq<char>,
    character_id: u32,
)
    ensures
        ({
            let missing = Chat::ClientLookup {
                character_name: character,
                character_id,
                exists: false,
            };
            let waiting = bot.after(Chat::Due { character, token });
            &&& waiting.deed(missing) == BotDeed::Continue
            &&& !waiting.after(missing).pending.contains_key(character)
        }),
{
}

/// A tell is only ever sent where a token is due for the character that was
/// looked up, and it holds that token. Nothing that happens changes what is due
/// for other characters.
pub proof fn law_no_one_else_is_told(bot: Agenda, chat: Chat, other: Seq<char>)
    ensures
        bot.deed(chat) matches BotDeed::Tell { character_id: to, text } ==> {
            &&& chat matches Chat::ClientLookup { character_name, character_id, .. }
                && character_id == to && bot.pending.contains_key(character_name) && text
                == tell_text(bot.pending[character_name])
        },
        (match chat {
            Chat::Due { character, .. } => character != other,
            Chat::ClientLookup { character_name, .. } => character_name != other,
            _ => true,
        }) ==> {
            &&& bot.after(chat).pending.contains_key(other) == bot.pending.contains_key(other)
            &&& bot.pending.contains_key(other) ==> bot.after(chat).pending[other]
                == bot.pending[other]
        },
{
}

/// The tell carries the whole token: it is `!drill ` and the token, and who
/// presents what stands behind the `!drill ` is let in by a server that expects
/// the token.
pub proof fn law_tell_carries_the_whole_token(
    bot: Agenda,
    character: Seq<char>,
    token: Seq<char>,
    character_id: u32,
    tokens: Map<Seq<char>, Seq<char>>,
    desired_subdomain: Seq<char>,
    strategy: SubdomainStrategy,
    random: Seq<char>,
)
    ensures
        bot.after(Chat::Due { character, token }).deed(
            Chat::ClientLookup { character_name: character, character_id, exists: true },
        ) matches BotDeed::Tell { character_id: to, text } && to == character_id && text.len() == 7
            + token.len() && text.take(7) == "!drill "@ && text.skip(7) == token
            && Knowledge::Ao(tokens).expecting(character, token).ruling(
            text.skip(7),
            desired_subdomain,
            strategy,
            random,
        ) is Granted,
{
    reveal_strlit("!drill ");
    let text = tell_text(token);
    assert(text.take(7) =~= "!drill "@);
    assert(text.skip(7) =~= token);
}

/// The id of a character stands where the first character of that name stands.
proof fn lemma_id_of(characters: Seq<(Seq<char>, u32)>, name: Seq<char>, i: int)
    requires
        0 <= i <= characters.len(),
        forall|j: int| 0 <= j < i ==> (#[trigger] characters[j]).0 != name,
    ensures
        i < characters.len() && characters[i].0 == name ==> id_of(characters, name) == Some(
            characters[i].1,
        ),
        i == characters.len() ==> id_of(characters, name) is None,
    decreases characters.len(),
{
    if i > 0 {
        let rest = characters.drop_first();
        assert(characters[0].0 != name);
        assert forall|j: int| 0 <= j < i - 1 implies (#[trigger] rest[j]).0 != name by {
            assert(rest[j] == characters[j + 1]);
        }
        lemma_id_of(rest, name, i - 1);
        if i < characters.len() {
            assert(rest[i - 1] == characters[i]);
        }
    }
}

/// A bot logs in with its account and the seed that it was sent, and plays the
/// first character on the account that has its name; where none has it, the bot
/// cannot go on. What it knows stays as it is.
pub proof fn law_bot_logs_in(
    bot: Agenda,
    seed: Seq<char>,
    characters: Seq<(Seq<char>, u32)>,
    i: int,
)
    requires
        0 <= i <= characters.len(),
        forall|j: int|
            0 <= j < i ==> (#[trigger] characters[j]).0 != bot.credentials.character@,
    ensures
        bot.deed(Chat::LoginSeed(seed)) matches BotDeed::Login { username, password, seed: sent }
            && username == bot.credentials.username@ && password == bot.credentials.password@
            && sent == seed,
        bot.after(Chat::LoginSeed(seed)) == bot,
        i < characters.len() && characters[i].0 == bot.credentials.character@ ==> bot.deed(
            Chat::LoginCharlist(characters),
        ) == BotDeed::Select(characters[i].1),
        i == characters.len() ==> bot.deed(Chat::LoginCharlist(characters))
            == BotDeed::CharacterMissing,
        bot.after(Chat::LoginCharlist(characters)) == bot,
{
    lemma_id_of(characters, bot.credentials.character@, i);
}

/// A login that the account system denies is answered by reactivating the
/// account, wherever in the message that is said; any other failure is final. A
/// bot reconnects exactly if the account was reactivated.
pub proof fn law_frozen_account_is_reactivated(
    bot: Agenda,
    before: Seq<char>,
    after: Seq<char>,
    message: Seq<char>,
    success: bool,
)
    ensures
        bot.deed(Chat::LoginError(before + "Account system denies login"@ + after)) == (
        BotDeed::Reactivate {
            username: bot.credentials.username@,
            password: bot.credentials.password@,
        }),
        bot.deed(Chat::LoginError(message)) is Reactivate ==> exists|a: Seq<char>, b: Seq<char>|
            message == #[trigger] (a + "Account system denies login"@ + b),
        !(bot.deed(Chat::LoginError(message)) is Reactivate) ==> bot.deed(Chat::LoginError(message))
            == BotDeed::LoginDenied,
        bot.deed(Chat::Reactivated(true)) == BotDeed::Reconnect,
        bot.deed(Chat::Reactivated(false)) == BotDeed::LoginDenied,
        bot.after(Chat::LoginError(message)) == bot,
        bot.after(Chat::Reactivated(success)) == bot,
{
    let part = "Account system denies login"@;
    text::law_occurrence(part, before + part + after);
    text::law_occurrence(part, message);
}

/// Nothing else that happens in the chat makes the bot do anything or forget
/// anything, and whatever happens it stays with its account.
pub proof fn law_bot_keeps_to_its_task(bot: Agenda, chat: Chat)
    ensures
        bot.deed(Chat::Other) == BotDeed::Continue,
        bot.after(Chat::Other) == bot,
        bot.after(chat).credentials == bot.credentials,
        bot.deed(chat) matches BotDeed::Lookup(name) ==> chat matches Chat::Due { character, .. }
            && character == name,
        bot.deed(chat) is Login ==> chat is LoginSeed,
        bot.deed(chat) is Select ==> chat is LoginCharlist,
        bot.deed(chat) is Reactivate ==> chat is LoginError,
        bot.deed(chat) is Reconnect ==> chat is Reactivated,
        bot.deed(chat) is CharacterMissing ==> chat is LoginCharlist,
        bot.deed(chat) is LoginDenied ==> chat is LoginError || chat is Reactivated,
{
}

/// Where two tokens are due for a character, the newer one is told.
pub proof fn law_newest_token_is_told(
    bot: Agenda,
    character: Seq<char>,
    older: Seq<char>,
    newer: Seq<char>,
    character_id: u32,
)
    ensures
        bot.after(Chat::Due { character, token: older }).after(
            Chat::Due { character, token: newer },
        ).deed(Chat::ClientLookup { character_name: character, character_id, exists: true }) == (
        BotDeed::Tell { character_id, text: "!drill "@ + newer }),
{
}

/// A bot is started again, ten seconds later, exactly if its connection could not
/// be made or failed.
pub proof fn law_failed_bot_is_started_again(attempt: Attempt)
    ensures
        seconds_to_next_attempt(attempt) is None <==> attempt == Attempt::Ended,
        seconds_to_next_attempt(attempt) matches Some(seconds) ==> seconds == 10,
{
}

} // verus!
