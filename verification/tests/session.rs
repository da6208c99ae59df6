use twitch_adapter::chat::{read_text, ChatEvent};
use twitch_adapter::engine::{Identity, Payload};
use twitch_adapter::session::{after, on_chat_event, Ending, EventAction, Next};

fn me() -> Identity {
    Identity {
        auth_token: "a".to_string(),
        module_name: "m".to_string(),
        instance_uuid: "i".to_string(),
    }
}

#[test]
fn a_ping_is_answered() {
    assert!(matches!(
        on_chat_event(&me(), &ChatEvent::Ping),
        EventAction::Send(line) if line == "PONG :tmi.twitch.tv"
    ));
}

#[test]
fn a_rejection_ends_the_stay() {
    let event = ChatEvent::Rejected { line: "Login unsuccessful".to_string() };
    assert!(matches!(on_chat_event(&me(), &event), EventAction::Leave));
}

#[test]
fn a_message_is_relayed_with_its_order() {
    let events = read_text("@display-name=Mod :mod!m@x PRIVMSG #c :!ban @bob spam\r\n");
    assert_eq!(events.len(), 1);
    match on_chat_event(&me(), &events[0]) {
        EventAction::Relay { chat, order } => {
            assert!(matches!(
                chat.payload,
                Payload::MessagePreProcess(told)
                    if told.raw_message.raw_message == "!ban @bob spam"
                        && told.raw_message.user_uuid7 == "Mod"
            ));
            match order {
                Some(envelope) => assert!(matches!(
                    envelope.payload,
                    Payload::DatabaseQuery(query)
                        if query.query_id == "mod_ban"
                            && query.sql == "{\"actor\":{\"handle\":\"Mod\",\"platform\":\"twitch\"},\"handle\":\"bob\",\"platform\":\"twitch\",\"reason\":\"spam\"}"
                )),
                other => panic!("{:?}", other),
            }
        }
        other => panic!("{:?}", other),
    }
}

#[test]
fn a_plain_message_gives_no_order() {
    let event = ChatEvent::Message {
        line: "l".to_string(),
        author: "a".to_string(),
        message: "hello".to_string(),
    };
    assert!(matches!(on_chat_event(&me(), &event), EventAction::Relay { order: None, .. }));
    let event = ChatEvent::Message {
        line: "l".to_string(),
        author: "a".to_string(),
        message: "!ban".to_string(),
    };
    assert!(matches!(on_chat_event(&me(), &event), EventAction::Relay { order: None, .. }));
}

#[test]
fn endings_have_their_sequel() {
    for force_prompt in [false, true] {
        assert_eq!(
            after(Ending::NoChannel, force_prompt),
            Next::SetUp { force_prompt, pause_secs: 2 }
        );
        assert_eq!(after(Ending::NotReached, force_prompt), Next::Connect { pause_secs: 5 });
        assert_eq!(after(Ending::Lost, force_prompt), Next::Connect { pause_secs: 5 });
        assert_eq!(
            after(Ending::Rejected, force_prompt),
            Next::SetUp { force_prompt: true, pause_secs: 2 }
        );
    }
}
