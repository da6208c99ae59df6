use twitch_adapter::engine::{Envelope, Identity, Payload, Prompt, PromptKind, PromptResponse};
use twitch_adapter::prompt::{
    prompt_envelope, question, PendingPrompt, PromptEvent, Question, Topic, POLL_SECS,
};

fn identity() -> Identity {
    Identity {
        auth_token: "secret".to_string(),
        module_name: "twitch".to_string(),
        instance_uuid: "inst".to_string(),
    }
}

fn prompt_in(envelope: Envelope) -> Prompt {
    match envelope.payload {
        Payload::Prompt(prompt) => prompt,
        other => panic!("no prompt: {:?}", other),
    }
}

fn response(id: &str, accepted: bool, reason: &str) -> PromptEvent {
    PromptEvent::Response(PromptResponse {
        prompt_id_uuid7: id.to_string(),
        accepted,
        reason: reason.to_string(),
    })
}

#[test]
fn questions_are_worded() {
    let q = question(&Topic::UseSaved("chan".to_string()), 3000);
    assert_eq!(q.title, "Use Saved Twitch Configuration?");
    assert_eq!(
        q.details,
        "A saved Twitch configuration was found for channel 'chan'.\n\nConnect to this existing channel, or set up a new stream?"
    );
    assert_eq!((q.input_label.as_str(), q.kind, q.timeout), ("", PromptKind::Boolean, 120));

    let q = question(&Topic::Channel, 3000);
    assert_eq!(q.title, "Twitch Live Chat Configuration Required");
    assert_eq!(q.details, "Enter the Twitch channel name or stream link to connect to.");
    assert_eq!(
        (q.input_label.as_str(), q.kind, q.timeout),
        ("Twitch channel name or stream link", PromptKind::String, 300)
    );

    let q = question(&Topic::ClientId, 4100);
    assert_eq!(q.title, "Twitch Client ID Required");
    assert_eq!(
        q.details,
        "Paste your Twitch Client ID (or press Enter for anonymous read-only).\n\n\
         To create one:\n\
         1. Go to https://dev.twitch.tv/console/apps\n\
         2. Click 'Register Your Application'.\n\
         3. Settings:\n\
            - Name: tiel-bot (nsfw words are banned)\n\
            - OAuth Redirect URI: http://localhost:4100\n\
            - Set the client type to public\n\
            - Category: Chat Bot\n\
         4. Click 'Create' and copy your Client ID."
    );
    assert_eq!(
        (q.input_label.as_str(), q.kind, q.timeout),
        ("Twitch Client ID (or blank for anonymous)", PromptKind::String, 300)
    );

    let q = question(&Topic::Authorization, 3000);
    assert_eq!(q.title, "Twitch OAuth Authorization");
    assert_eq!(
        q.details,
        "Opening the browser for official Twitch authorization...\n\n\
         If the automatic browser flow already succeeded, no input is needed.\n\
         Otherwise, paste the full redirect URL from your browser's address bar."
    );
    assert_eq!(
        (q.input_label.as_str(), q.kind, q.timeout),
        ("Paste full redirect URL", PromptKind::Credential, 90)
    );
}

#[test]
fn a_prompt_carries_its_question() {
    let q = Question {
        title: "T".to_string(),
        details: "D".to_string(),
        input_label: "L".to_string(),
        kind: PromptKind::Credential,
        timeout: 7,
    };
    let envelope = prompt_envelope(&identity(), "id", &q);
    assert_eq!(envelope.version, 1);
    assert_eq!(envelope.auth_token, "secret");
    assert_eq!(envelope.module_name, "twitch");
    assert_eq!(envelope.module_instance_uuid7, "inst");
    let p = prompt_in(envelope);
    assert_eq!(p.prompt_id_uuid7, "id");
    assert_eq!((p.prompt.as_str(), p.details.as_str()), ("T", "D"));
    assert_eq!((p.yes_dialog.as_str(), p.no_dialog.as_str()), ("Submit", "Cancel"));
    assert_eq!((p.timeout, p.origin.as_str(), p.input_label.as_str()), (7, "twitch", "L"));
    assert_eq!(p.prompt_type, PromptKind::Credential);
    assert!(p.origin_uuid7.is_empty() && p.instructions.is_empty() && p.link.is_empty());
}

#[test]
fn each_prompt_has_an_id_of_its_own() {
    let q = question(&Topic::Channel, 3000);
    let (pending, envelope) = PendingPrompt::open(&identity(), &q);
    let id = prompt_in(envelope).prompt_id_uuid7;
    let (_, other) = PendingPrompt::open(&identity(), &q);
    assert!(id != prompt_in(other).prompt_id_uuid7);
    let parsed = uuid::Uuid::parse_str(&id).unwrap();
    assert_eq!(parsed.get_version_num(), 7);
    assert_eq!(parsed.to_string(), id);
    assert_eq!(pending.on_event(response(&id, true, "yes")), Some(Some("yes".to_string())));
}

#[test]
fn only_the_answer_to_the_prompt_settles_it() {
    let pending = PendingPrompt::under("mine".to_string(), 300);
    assert_eq!(pending.on_event(PromptEvent::Quiet), None);
    assert_eq!(pending.on_event(response("other", true, "x")), None);
    assert_eq!(pending.on_event(response("other", false, "x")), None);
    assert_eq!(pending.on_event(response("mine", true, "x")), Some(Some("x".to_string())));
    assert_eq!(pending.on_event(response("mine", true, "")), Some(Some(String::new())));
    assert_eq!(pending.on_event(response("mine", false, "x")), Some(None));
    assert_eq!(pending.on_event(PromptEvent::Closed), Some(None));
}

#[test]
fn a_prompt_is_awaited_ten_seconds_longer_than_it_stays() {
    let pending = PendingPrompt::under("mine".to_string(), 90);
    assert_eq!(POLL_SECS, 10);
    assert!(pending.waits(0));
    assert!(pending.waits(99_999_999_999));
    assert!(!pending.waits(100_000_000_000));
    assert!(PendingPrompt::under(String::new(), u32::MAX).waits(4_294_967_304_999_999_999));
    assert!(!PendingPrompt::under(String::new(), u32::MAX).waits(4_294_967_305_000_000_000));
}
