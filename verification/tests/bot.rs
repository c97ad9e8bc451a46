use drill::auth::ao::TokenTell;
use drill::auth::bot::{next_attempt, AoBot, Attempt, BotAction, Character, ChatEvent};
use drill::config::AoCredentials;

fn bot() -> AoBot {
    AoBot::new(AoCredentials {
        username: String::from("user"),
        password: String::from("pass"),
        character: String::from("Teller"),
    })
}

fn due(character: &str, token: &str) -> ChatEvent {
    ChatEvent::Due(TokenTell { character: String::from(character), token: String::from(token) })
}

fn lookup(character: &str, character_id: u32, exists: bool) -> ChatEvent {
    ChatEvent::ClientLookup { character_name: String::from(character), character_id, exists }
}

fn done(bot: &mut AoBot, event: ChatEvent) -> String {
    format!("{:?}", bot.on_event(event))
}

fn character(name: &str, id: u32) -> Character {
    Character { name: String::from(name), id }
}

#[test]
fn bot_logs_in() {
    let mut bot = bot();
    assert_eq!(
        done(&mut bot, ChatEvent::LoginSeed(String::from("seed"))),
        "Login { username: \"user\", password: \"pass\", seed: \"seed\" }"
    );
    let list = vec![character("Other", 1), character("Teller", 2), character("Teller", 3)];
    assert_eq!(done(&mut bot, ChatEvent::LoginCharlist(list)), "Select(2)");
    assert_eq!(done(&mut bot, ChatEvent::Other), "Continue");
}

#[test]
fn bot_needs_its_character() {
    let mut bot = bot();
    let list = vec![character("teller", 1), character("Other", 2)];
    assert_eq!(done(&mut bot, ChatEvent::LoginCharlist(list)), "CharacterMissing");
    assert_eq!(done(&mut bot, ChatEvent::LoginCharlist(vec![])), "CharacterMissing");
}

#[test]
fn frozen_account_is_reactivated() {
    let mut bot = bot();
    assert_eq!(
        done(&mut bot, ChatEvent::LoginError(String::from("/Account system denies login, sorry"))),
        "Reactivate { username: \"user\", password: \"pass\" }"
    );
    assert_eq!(done(&mut bot, ChatEvent::Reactivated(true)), "Reconnect");
    assert_eq!(done(&mut bot, ChatEvent::Reactivated(false)), "LoginDenied");
    assert_eq!(
        done(&mut bot, ChatEvent::LoginError(String::from("account system denies login"))),
        "LoginDenied"
    );
}

#[test]
fn token_is_told_once() {
    let mut bot = bot();
    assert_eq!(done(&mut bot, due("Bot", "tok")), "Lookup(\"Bot\")");
    match bot.on_event(lookup("Bot", 7, true)) {
        BotAction::Tell { character_id, text } => {
            assert_eq!(character_id, 7);
            assert_eq!(text, "!drill tok");
        }
        other => panic!("{:?}", other),
    }
    assert_eq!(done(&mut bot, lookup("Bot", 7, true)), "Continue");
}

#[test]
fn unknown_character_is_told_nothing() {
    let mut bot = bot();
    let _ = bot.on_event(due("Ghost", "tok"));
    assert_eq!(done(&mut bot, lookup("Ghost", 0, false)), "Continue");
    assert_eq!(done(&mut bot, lookup("Ghost", 7, true)), "Continue");
    assert_eq!(done(&mut bot, lookup("Stranger", 7, true)), "Continue");
}

#[test]
fn tells_do_not_mix() {
    let mut bot = bot();
    let _ = bot.on_event(due("One", "t1"));
    let _ = bot.on_event(due("Two", "t2"));
    let _ = bot.on_event(due("One", "t3"));
    assert_eq!(
        done(&mut bot, lookup("Two", 2, true)),
        "Tell { character_id: 2, text: \"!drill t2\" }"
    );
    assert_eq!(
        done(&mut bot, lookup("One", 1, true)),
        "Tell { character_id: 1, text: \"!drill t3\" }"
    );
}

#[test]
fn failed_bot_is_started_again() {
    assert_eq!(next_attempt(Attempt::NotConnected), Some(10));
    assert_eq!(next_attempt(Attempt::Failed), Some(10));
    assert_eq!(next_attempt(Attempt::Ended), None);
    assert_eq!(drill::auth::bot::RECONNECT_SECONDS, 5);
    assert_eq!(drill::auth::bot::CHAT_SERVER, "chat.d1.funcom.com:7105");
}
