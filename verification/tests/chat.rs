use twitch_adapter::chat::{
    greeting, on_chat_input, parse_twitch_privmsg, pong, read_line, read_text, say, ChatAction,
    ChatEvent, ChatInput,
};
use twitch_adapter::setup::Credentials;

fn parsed(line: &str) -> Option<(String, String)> {
    parse_twitch_privmsg(line)
}

fn some(author: &str, message: &str) -> Option<(String, String)> {
    Some((author.to_string(), message.to_string()))
}

#[test]
fn reads_a_line_without_tags() {
    assert_eq!(
        parsed(":bob!bob@bob.tmi.twitch.tv PRIVMSG #chan :hello there"),
        some("bob", "hello there")
    );
}

#[test]
fn reads_a_line_with_tags() {
    assert_eq!(
        parsed("@badges=;color=#FF;display-name=Böb;mod=0 :bob!bob@x PRIVMSG #chan : hi :) \r"),
        some("Böb", "hi :)")
    );
}

#[test]
fn the_last_display_name_that_is_not_empty_counts() {
    assert_eq!(
        parsed("@display-name=A;display-name=B;display-name= :n!n@x PRIVMSG #c :m"),
        some("B", "m")
    );
}

#[test]
fn an_empty_display_name_falls_back_to_the_nick() {
    assert_eq!(parsed("@display-name= :nick!n@x PRIVMSG #c :m"), some("nick", "m"));
    assert_eq!(parsed("@mod=1 :nick!n@x PRIVMSG #c :m"), some("nick", "m"));
}

#[test]
fn any_other_display_name_is_the_author() {
    assert_eq!(
        parsed("@display-name=Unknown :unknown!unknown@x PRIVMSG #c :hi"),
        some("Unknown", "hi")
    );
    assert_eq!(parsed("@display-name=Unknown n@x PRIVMSG #c :m"), some("Unknown", "m"));
}

#[test]
fn the_message_does_not_change_the_author() {
    for front in ["@display-name=A x PRIVMSG #c :", ":a!a@x PRIVMSG #c :", "@mod=1 :a!a@x PRIVMSG #c :"] {
        let plain = parsed(&format!("{}hi", front)).unwrap().0;
        for message in [":b!b@y PRIVMSG #d :z", "@display-name=B;x y!", "! :! display-name=C"] {
            assert_eq!(parsed(&format!("{}{}", front, message)).unwrap().0, plain);
        }
    }
}

#[test]
fn nobody_known_is_unknown() {
    assert_eq!(parsed("x PRIVMSG #c :m"), some("Unknown", "m"));
    assert_eq!(parsed("x!y PRIVMSG #c :m"), some("Unknown", "m"));
    assert_eq!(parsed("@tags-without-a-space"), None);
}

#[test]
fn lines_without_a_message_are_none() {
    assert_eq!(parsed(""), None);
    assert_eq!(parsed(":bob!b@x JOIN #chan"), None);
    assert_eq!(parsed("PRIVMSG #chan :hello"), None);
    assert_eq!(parsed(":bob!b@x PRIVMSG #chan hello"), None);
    assert_eq!(parsed(":bob!b@x PRIVMSG"), None);
}

#[test]
fn an_empty_message_is_one() {
    assert_eq!(parsed(":bob!b@x PRIVMSG #chan :   "), some("bob", ""));
}

#[test]
fn tells_rejections_pings_and_messages_apart() {
    for words in [
        "Login authentication failed",
        "Improperly formatted auth",
        "Login unsuccessful",
        "authentication failed",
    ] {
        let line = format!(":tmi.twitch.tv NOTICE * :{}", words);
        assert!(matches!(read_line(&line), Some(ChatEvent::Rejected { line: l }) if l == line));
    }
    assert!(matches!(read_line("PING :tmi.twitch.tv"), Some(ChatEvent::Ping)));
    assert!(matches!(
        read_line("PING authentication failed"),
        Some(ChatEvent::Rejected { .. })
    ));
    assert!(matches!(
        read_line(":a!a@x PRIVMSG #c :hi"),
        Some(ChatEvent::Message { author, message, .. }) if author == "a" && message == "hi"
    ));
    assert!(read_line(":tmi.twitch.tv 001 bob :Welcome").is_none());
}

#[test]
fn a_rejection_ends_a_text() {
    let events = read_text(
        "PING :x\r\n:s 001 a :hi\r\n:a!a@x PRIVMSG #c :one\r\n:s NOTICE * :Login unsuccessful\r\nPING :y\r\n",
    );
    assert_eq!(events.len(), 3);
    assert!(matches!(events[0], ChatEvent::Ping));
    assert!(matches!(&events[1], ChatEvent::Message { line, .. } if line == ":a!a@x PRIVMSG #c :one"));
    assert!(matches!(&events[2], ChatEvent::Rejected { line } if line == ":s NOTICE * :Login unsuccessful"));
    assert_eq!(read_text("").len(), 0);
}

fn known(channel: &str, token: &str, username: &str) -> Credentials {
    Credentials {
        channel: channel.to_string(),
        oauth_token: token.to_string(),
        username: username.to_string(),
        client_id: String::new(),
    }
}

#[test]
fn greets_with_the_credentials() {
    assert_eq!(
        greeting(&known("ChanÉ", "oauth:abc", "BotName")),
        vec![
            "PASS oauth:abc",
            "NICK botname",
            "JOIN #chané",
            "CAP req :twitch.tv/tags twitch.tv/commands",
        ]
    );
}

#[test]
fn greets_anonymously_without_them() {
    assert_eq!(
        greeting(&known("c", "", "")),
        vec![
            "PASS oauth:123456",
            "NICK justinfan123",
            "JOIN #c",
            "CAP req :twitch.tv/tags twitch.tv/commands",
        ]
    );
}

#[test]
fn says_on_one_line() {
    assert_eq!(say("Chan", "a\r\nb"), "PRIVMSG #chan :a  b");
    assert_eq!(say("chan", "plain"), "PRIVMSG #chan :plain");
    assert_eq!(pong(), "PONG :tmi.twitch.tv");
}

#[test]
fn decides_about_the_connection() {
    assert!(matches!(
        on_chat_input("c", ChatInput::Text("PING\n".to_string())),
        ChatAction::Handle(events) if events.len() == 1
    ));
    assert!(matches!(on_chat_input("c", ChatInput::Other), ChatAction::Ignore));
    assert!(matches!(on_chat_input("c", ChatInput::Lost), ChatAction::Reconnect));
    assert!(matches!(
        on_chat_input("C", ChatInput::Outbound(Some("hi".to_string()))),
        ChatAction::Send(line) if line == "PRIVMSG #c :hi"
    ));
    assert!(matches!(on_chat_input("c", ChatInput::Outbound(None)), ChatAction::Reconnect));
}
