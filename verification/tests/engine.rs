use twitch_adapter::engine::{
    on_engine_event, EngineAction, EngineEvent, EngineMessage, Envelope, Identity, Payload,
    PromptResponse,
};
use twitch_adapter::json::parse;

fn adapter() -> Identity {
    Identity {
        auth_token: "secret".to_string(),
        module_name: "twitch".to_string(),
        instance_uuid: "inst".to_string(),
    }
}

fn assert_signed(envelope: &Envelope) {
    assert_eq!(envelope.version, 1);
    assert_eq!(envelope.auth_token, "secret");
    assert_eq!(envelope.module_name, "twitch");
    assert_eq!(envelope.module_instance_uuid7, "inst");
}

#[test]
fn a_probe_is_answered_with_the_token() {
    let action = on_engine_event(&adapter(), EngineEvent::Message(EngineMessage::AuthVerify));
    match action {
        EngineAction::Reply(envelope) => {
            assert_signed(&envelope);
            assert!(matches!(envelope.payload, Payload::AuthVerify(token) if token == "secret"));
        }
        other => panic!("{:?}", other),
    }
}

#[test]
fn messages_and_answers_are_passed_on() {
    assert!(matches!(
        on_engine_event(
            &adapter(),
            EngineEvent::Message(EngineMessage::SendToPlatforms("hi".to_string()))
        ),
        EngineAction::Forward(message) if message == "hi"
    ));
    let response = PromptResponse {
        prompt_id_uuid7: "id".to_string(),
        accepted: true,
        reason: "r".to_string(),
    };
    assert!(matches!(
        on_engine_event(&adapter(), EngineEvent::Message(EngineMessage::PromptResponse(response))),
        EngineAction::Answer(r) if r.prompt_id_uuid7 == "id" && r.accepted && r.reason == "r"
    ));
}

#[test]
fn the_rest_is_ignored_or_ends_the_connection() {
    assert!(matches!(
        on_engine_event(&adapter(), EngineEvent::Message(EngineMessage::Other)),
        EngineAction::Ignore
    ));
    assert!(matches!(on_engine_event(&adapter(), EngineEvent::Unreadable), EngineAction::Ignore));
    assert!(matches!(on_engine_event(&adapter(), EngineEvent::Closed), EngineAction::Stop));
    assert!(matches!(on_engine_event(&adapter(), EngineEvent::Failed), EngineAction::Stop));
}

#[test]
fn a_chat_message_is_told_with_its_line() {
    let envelope = adapter().chat_envelope(":é!x PRIVMSG #c :hi", "é", "hi");
    assert_signed(&envelope);
    match envelope.payload {
        Payload::MessagePreProcess(told) => {
            assert!(told.audio.is_empty());
            assert!(told.audio_type.is_empty());
            assert!(told.message_uuid7.is_empty());
            assert_eq!(told.raw_message.platform, "twitch");
            assert_eq!(told.raw_message.raw_data, ":é!x PRIVMSG #c :hi".as_bytes());
            assert_eq!(told.raw_message.raw_message, "hi");
            assert_eq!(told.raw_message.user_uuid7, "é");
        }
        other => panic!("{:?}", other),
    }
}

#[test]
fn a_query_carries_its_payload_as_text() {
    let payload = parse("{ \"b\" : [1, -2], \"a\" : \"x\\ny\" }").unwrap();
    let envelope = adapter().query_envelope("q".to_string(), &payload);
    assert_signed(&envelope);
    match envelope.payload {
        Payload::DatabaseQuery(query) => {
            assert_eq!(query.query_id, "q");
            assert_eq!(query.sql, "{\"a\":\"x\\ny\",\"b\":[1,-2]}");
            assert!(query.params.is_empty());
            assert_eq!(parse(&query.sql), Some(payload));
        }
        other => panic!("{:?}", other),
    }
}

#[test]
fn a_command_becomes_a_query() {
    let envelope = adapter().mod_envelope("!timeout bob 60 rude", "mod").unwrap();
    assert_signed(&envelope);
    match envelope.payload {
        Payload::DatabaseQuery(query) => {
            assert_eq!(query.query_id, "mod_timeout");
            assert_eq!(
                query.sql,
                "{\"actor\":{\"handle\":\"mod\",\"platform\":\"twitch\"},\"duration_secs\":60,\"handle\":\"bob\",\"platform\":\"twitch\",\"reason\":\"rude\"}"
            );
            assert!(query.params.is_empty());
        }
        other => panic!("{:?}", other),
    }
    assert!(adapter().mod_envelope("hello", "mod").is_none());
    assert!(adapter().mod_envelope("!timeout", "mod").is_none());
}
