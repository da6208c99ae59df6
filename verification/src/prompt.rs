//! Questions to the operator: what is asked, how it is put to the engine, and
//! how its answer is awaited.
use vstd::prelude::*;

use crate::engine::{signed_by, Envelope, Identity, Payload, Prompt, PromptKind, PromptResponse};
use crate::text;
use crate::text::decimal;

verus! {

broadcast use vstd::string::group_string_axioms;

// ---------------------------------------------------------------------------
// What is asked
// ---------------------------------------------------------------------------
/// What the operator is asked about.
#[derive(Debug)]
pub enum Topic {
    /// Whether to go on with the saved settings for this channel.
    UseSaved(String),
    /// Which channel to connect to.
    Channel,
    /// Which client to authorize.
    ClientId,
    /// Where the browser was sent after the authorization.
    Authorization,
}

/// A question as the operator sees it.
#[derive(Debug)]
pub struct Question {
    pub title: String,
    pub details: String,
    pub input_label: String,
    pub kind: PromptKind,
    /// Seconds until the prompt goes away.
    pub timeout: u32,
}

/// The title over a question.
pub open spec fn title_of(topic: Topic) -> Seq<char> {
    match topic {
        Topic::UseSaved(_) => "Use Saved Twitch Configuration?"@,
        Topic::Channel => "Twitch Live Chat Configuration Required"@,
        Topic::ClientId => "Twitch Client ID Required"@,
        Topic::Authorization => "Twitch OAuth Authorization"@,
    }
}

/// The text of a question. `port` is where the browser is sent back to.
pub open spec fn details_of(topic: Topic, port: u16) -> Seq<char> {
    match topic {
        Topic::UseSaved(channel) => "A saved Twitch configuration was found for channel '"@
            + channel@
            + "'.\n\nConnect to this existing channel, or set up a new stream?"@,
        Topic::Channel => "Enter the Twitch channel name or stream link to connect to."@,
        Topic::ClientId =>
            "Paste your Twitch Client ID (or press Enter for anonymous read-only).\n\nTo create one:\n1. Go to https://dev.twitch.tv/console/apps\n2. Click 'Register Your Application'.\n3. Settings:\n- Name: tiel-bot (nsfw words are banned)\n- OAuth Redirect URI: http://localhost:"@
            + decimal(port as nat)
            + "\n- Set the client type to public\n- Category: Chat Bot\n4. Click 'Create' and copy your Client ID."@,
        Topic::Authorization =>
            "Opening the browser for official Twitch authorization...\n\nIf the automatic browser flow already succeeded, no input is needed.\nOtherwise, paste the full redirect URL from your browser's address bar."@,
    }
}

/// The label of the field for the answer.
pub open spec fn label_of(topic: Topic) -> Seq<char> {
    match topic {
        Topic::UseSaved(_) => ""@,
        Topic::Channel => "Twitch channel name or stream link"@,
        Topic::ClientId => "Twitch Client ID (or blank for anonymous)"@,
        Topic::Authorization => "Paste full redirect URL"@,
    }
}

/// The kind of answer that a question asks for.
pub open spec fn kind_of(topic: Topic) -> PromptKind {
    match topic {
        Topic::UseSaved(_) => PromptKind::Boolean,
        Topic::Channel => PromptKind::String,
        Topic::ClientId => PromptKind::String,
        Topic::Authorization => PromptKind::Credential,
    }
}

/// The seconds that a question stays up.
pub open spec fn timeout_of(topic: Topic) -> u32 {
    match topic {
        Topic::UseSaved(_) => 120,
        Topic::Channel => 300,
        Topic::ClientId => 300,
        Topic::Authorization => 90,
    }
}

/// The question on `topic`. `port` is where the browser is sent back to.
pub fn question(topic: &Topic, port: u16) -> (q: Question)
    ensures
        q.title@ == title_of(*topic),
        q.details@ == details_of(*topic, port),
        q.input_label@ == label_of(*topic),
        q.kind == kind_of(*topic),
        q.timeout == timeout_of(*topic),
{
    match topic {
        Topic::UseSaved(channel) => Question {
            title: "Use Saved Twitch Configuration?".to_string(),
            details: "A saved Twitch configuration was found for channel '".to_string().concat(
                channel.as_str(),
            ).concat("'.\n\nConnect to this existing channel, or set up a new stream?"),
            input_label: "".to_string(),
            kind: PromptKind::Boolean,
            timeout: 120,
        },
        Topic::Channel => Question {
            title: "Twitch Live Chat Configuration Required".to_string(),
            details: "Enter the Twitch channel name or stream link to connect to.".to_string(),
            input_label: "Twitch channel name or stream link".to_string(),
            kind: PromptKind::String,
            timeout: 300,
        },
        Topic::ClientId => Question {
            title: "Twitch Client ID Required".to_string(),
            details:
                "Paste your Twitch Client ID (or press Enter for anonymous read-only).\n\nTo create one:\n1. Go to https://dev.twitch.tv/console/apps\n2. Click 'Register Your Application'.\n3. Settings:\n- Name: tiel-bot (nsfw words are banned)\n- OAuth Redirect URI: http://localhost:".to_string().concat(
            text::decimal_text(port as u64).as_str()).concat(
                "\n- Set the client type to public\n- Category: Chat Bot\n4. Click 'Create' and copy your Client ID.",
            ),
            input_label: "Twitch Client ID (or blank for anonymous)".to_string(),
            kind: PromptKind::String,
            timeout: 300,
        },
        Topic::Authorization => Question {
            title: "Twitch OAuth Authorization".to_string(),
            details:
                "Opening the browser for official Twitch authorization...\n\nIf the automatic browser flow already succeeded, no input is needed.\nOtherwise, paste the full redirect URL from your browser's address bar.".to_string(),
            input_label: "Paste full redirect URL".to_string(),
            kind: PromptKind::Credential,
            timeout: 90,
        },
    }
}

// ---------------------------------------------------------------------------
// How it is put to the engine
// ---------------------------------------------------------------------------
/// A digit of a number in base sixteen, in lower case.
pub open spec fn hex_digit(c: char) -> bool {
    '0' <= c <= '9' || 'a' <= c <= 'f'
}

/// The text of a version 7 UUID: five groups of hexadecimal digits, the third
/// of which begins with the version and the fourth with the variant.
pub open spec fn uuid7_text(s: Seq<char>) -> bool {
    &&& s.len() == 36
    &&& forall|i: int|
        0 <= i < 36 ==> if i == 8 || i == 13 || i == 18 || i == 23 {
            #[trigger] s[i] == '-'
        } else {
            hex_digit(s[i])
        }
    &&& s[14] == '7'
    &&& s[19] == '8' || s[19] == '9' || s[19] == 'a' || s[19] == 'b'
}

/// `uuid::Uuid::now_v7` makes a version 7 UUID out of the time and chance, and
/// its `Display` writes it in hyphenated form. Which one it is rests on the
/// clock and on random bytes, so that only its form is stated; that those of
/// one process are ordered by their creation is left unsaid.
#[verifier::external_body]
fn fresh_prompt_id() -> (r: std::string::String)
    ensures
        uuid7_text(r@),
{
    uuid::Uuid::now_v7().to_string()
}

/// `envelope` puts `question` to the operator under `prompt_id`.
pub open spec fn asks(
    envelope: Envelope,
    identity: Identity,
    prompt_id: Seq<char>,
    question: Question,
) -> bool {
    &&& signed_by(envelope, identity)
    &&& envelope.payload matches Payload::Prompt(prompt)
    &&& prompt.prompt_id_uuid7@ == prompt_id
    &&& prompt.prompt@ == question.title@
    &&& prompt.details@ == question.details@
    &&& prompt.yes_dialog@ == "Submit"@
    &&& prompt.no_dialog@ == "Cancel"@
    &&& prompt.timeout == question.timeout
    &&& prompt.origin@ == identity.module_name@
    &&& prompt.origin_uuid7@.len() == 0
    &&& prompt.instructions@.len() == 0
    &&& prompt.link@.len() == 0
    &&& prompt.input_label@ == question.input_label@
    &&& prompt.prompt_type == question.kind
}

/// The message that puts `question` to the operator under `prompt_id`.
pub fn prompt_envelope(identity: &Identity, prompt_id: &str, question: &Question) -> (r: Envelope)
    ensures
        asks(r, *identity, prompt_id@, *question),
{
    identity.envelope(
        Payload::Prompt(
            Prompt {
                prompt_id_uuid7: prompt_id.to_string(),
                prompt: question.title.clone(),
                details: question.details.clone(),
                yes_dialog: "Submit".to_string(),
                no_dialog: "Cancel".to_string(),
                timeout: question.timeout,
                origin: identity.module_name.clone(),
                origin_uuid7: std::string::String::new(),
                instructions: std::string::String::new(),
                link: std::string::String::new(),
                input_label: question.input_label.clone(),
                prompt_type: question.kind,
            },
        ),
    )
}

// ---------------------------------------------------------------------------
// How its answer is awaited
// ---------------------------------------------------------------------------
/// The seconds to wait for an answer before looking at the clock again.
pub const POLL_SECS: u64 = 10;

/// What happens while an answer is awaited.
#[derive(Debug)]
pub enum PromptEvent {
    /// An answer came, to this prompt or to another.
    Response(PromptResponse),
    /// No answer can come any more.
    Closed,
    /// Nothing came for `POLL_SECS` seconds.
    Quiet,
}

/// What the answer to prompt `prompt_id` is after `event`, if that settles
/// it: the operator's text, or nothing where the operator declined or none
/// can come.
pub open spec fn settled(prompt_id: Seq<char>, event: PromptEvent) -> Option<Option<Seq<char>>> {
    match event {
        PromptEvent::Response(response) => if response.prompt_id_uuid7@ == prompt_id {
            Some(
                if response.accepted {
                    Some(response.reason@)
                } else {
                    None
                },
            )
        } else {
            None
        },
        PromptEvent::Closed => Some(None),
        PromptEvent::Quiet => None,
    }
}

/// What the answer is after all of `events`, if one of them settles it.
pub open spec fn answer_after(prompt_id: Seq<char>, events: Seq<PromptEvent>) -> Option<
    Option<Seq<char>>,
>
    decreases events.len(),
{
    if events.len() == 0 {
        None
    } else if settled(prompt_id, events[0]) is Some {
        settled(prompt_id, events[0])
    } else {
        answer_after(prompt_id, events.drop_first())
    }
}

/// A prompt whose answer is awaited.
#[derive(Debug)]
pub struct PendingPrompt {
    prompt_id: std::string::String,
    timeout: u32,
}

impl PendingPrompt {
    /// The name under which the prompt was put.
    pub closed spec fn id(&self) -> Seq<char> {
        self.prompt_id@
    }

    /// The seconds that the prompt stays up.
    pub closed spec fn seconds(&self) -> u32 {
        self.timeout
    }

    /// Puts `question` to the operator: the prompt to wait for, and the
    /// message that has to be sent first.
    ///
    /// The names of one process's prompts are ordered by their creation, as
    /// `uuid` promises, so that no two are the same. No clause states it: a
    /// call sees none of the names that were given before.
    pub fn open(identity: &Identity, question: &Question) -> (r: (PendingPrompt, Envelope))
        ensures
            uuid7_text(r.0.id()),
            r.0.seconds() == question.timeout,
            asks(r.1, *identity, r.0.id(), *question),
    {
        let prompt_id = fresh_prompt_id();
        let envelope = prompt_envelope(identity, prompt_id.as_str(), question);
        (PendingPrompt::under(prompt_id, question.timeout), envelope)
    }

    /// The prompt that was put under `prompt_id` for `timeout` seconds.
    pub fn under(prompt_id: std::string::String, timeout: u32) -> (r: PendingPrompt)
        ensures
            r.id() == prompt_id@,
            r.seconds() == timeout,
    {
        PendingPrompt { prompt_id, timeout }
    }

    /// Whether to wait on, `elapsed` nanoseconds after the prompt was sent:
    /// for ten seconds longer than it stays up.
    pub fn waits(&self, elapsed: u128) -> (b: bool)
        ensures
            b == (elapsed < (self.seconds() + 10) * 1_000_000_000),
    {
        elapsed < (self.timeout as u128 + 10) * 1_000_000_000
    }

    /// What the answer is after `event`, if that settles it.
    pub fn on_event(&self, event: PromptEvent) -> (r: Option<Option<std::string::String>>)
        ensures
            r is Some <==> settled(self.id(), event) is Some,
            r matches Some(answer) ==> (answer is Some <==> settled(self.id(), event)->0 is Some),
            r matches Some(Some(text)) ==> settled(self.id(), event) == Some(Some(text@)),
    {
        match event {
            PromptEvent::Response(response) => if text::same(
                response.prompt_id_uuid7.as_str(),
                self.prompt_id.as_str(),
            ) {
                if response.accepted {
                    Some(Some(response.reason))
                } else {
                    Some(None)
                }
            } else {
                None
            },
            PromptEvent::Closed => Some(None),
            PromptEvent::Quiet => None,
        }
    }
}

// ---------------------------------------------------------------------------
// Laws
// ---------------------------------------------------------------------------
/// Silence and the answers to other prompts neither give nor take an answer:
/// behind any number of them, the next event decides as if it came first.
pub proof fn law_only_its_own_answer_counts(
    prompt_id: Seq<char>,
    before: Seq<PromptEvent>,
    after: Seq<PromptEvent>,
)
    requires
        forall|i: int|
            0 <= i < before.len() ==> {
                ||| #[trigger] before[i] is Quiet
                ||| before[i] matches PromptEvent::Response(response)
                    && response.prompt_id_uuid7@ != prompt_id
            },
    ensures
        answer_after(prompt_id, before + after) == answer_after(prompt_id, after),
    decreases before.len(),
{
    if before.len() == 0 {
        assert(before + after =~= after);
    } else {
        let events = before + after;
        assert(events[0] == before[0]);
        assert(events.drop_first() =~= before.drop_first() + after);
        law_only_its_own_answer_counts(prompt_id, before.drop_first(), after);
    }
}

/// A late answer to one prompt is no answer to another that bears a different
/// name.
pub proof fn law_late_answer_is_skipped(
    first: Seq<char>,
    second: Seq<char>,
    late: PromptResponse,
    after: Seq<PromptEvent>,
)
    requires
        first != second,
        late.prompt_id_uuid7@ == first,
    ensures
        answer_after(second, seq![PromptEvent::Response(late)] + after) == answer_after(
            second,
            after,
        ),
{
    law_only_its_own_answer_counts(second, seq![PromptEvent::Response(late)], after);
}

/// An answer is always one that the operator gave to this very prompt.
pub proof fn law_an_answer_was_given(
    prompt_id: Seq<char>,
    events: Seq<PromptEvent>,
    answer: Seq<char>,
)
    requires
        answer_after(prompt_id, events) == Some(Some(answer)),
    ensures
        exists|i: int|
            0 <= i < events.len() && (#[trigger] events[i] matches PromptEvent::Response(response)
                && response.prompt_id_uuid7@ == prompt_id && response.accepted && response.reason@
                == answer),
    decreases events.len(),
{
    if settled(prompt_id, events[0]) is Some {
        assert(events[0] is Response);
    } else {
        let rest = events.drop_first();
        law_an_answer_was_given(prompt_id, rest, answer);
        let i = choose|i: int|
            0 <= i < rest.len() && (#[trigger] rest[i] matches PromptEvent::Response(response)
                && response.prompt_id_uuid7@ == prompt_id && response.accepted && response.reason@
                == answer);
        assert(events[i + 1] == rest[i]);
    }
}

/// The question about saved settings names the very channel, and its other
/// words are the same for all.
pub proof fn law_saved_channel_is_named(
    topic: &Topic,
    channel: std::string::String,
    port: u16,
    q: Question,
)
    requires
        *topic == Topic::UseSaved(channel),
        call_ensures(question, (topic, port), q),
    ensures
        q.title@ == "Use Saved Twitch Configuration?"@,
        q.details@ == "A saved Twitch configuration was found for channel '"@ + channel@
            + "'.\n\nConnect to this existing channel, or set up a new stream?"@,
        q.input_label@ == ""@,
        q.kind == PromptKind::Boolean && q.timeout == 120,
{
}

/// The question about the client names the very address to which the browser
/// comes back, and its other words are the same for every port.
pub proof fn law_redirect_address_is_named(port: u16, other: u16, q: Question, other_q: Question)
    requires
        call_ensures(question, (&Topic::ClientId, port), q),
        call_ensures(question, (&Topic::ClientId, other), other_q),
    ensures
        exists|a: Seq<char>, b: Seq<char>|
            {
                &&& q.details@ == #[trigger] (a + "http://localhost:"@ + decimal(port as nat) + b)
                &&& other_q.details@ == a + "http://localhost:"@ + decimal(other as nat) + b
            },
        q.title@ == "Twitch Client ID Required"@ && q.title@ == other_q.title@,
        q.input_label@ == "Twitch Client ID (or blank for anonymous)"@,
        q.kind == PromptKind::String && q.timeout == 300,
{
    let head =
        "Paste your Twitch Client ID (or press Enter for anonymous read-only).\n\nTo create one:\n1. Go to https://dev.twitch.tv/console/apps\n2. Click 'Register Your Application'.\n3. Settings:\n- Name: tiel-bot (nsfw words are banned)\n- OAuth Redirect URI: http://localhost:"@;
    let uri = "http://localhost:"@;
    let b =
        "\n- Set the client type to public\n- Category: Chat Bot\n4. Click 'Create' and copy your Client ID."@;
    reveal_strlit(
        "Paste your Twitch Client ID (or press Enter for anonymous read-only).\n\nTo create one:\n1. Go to https://dev.twitch.tv/console/apps\n2. Click 'Register Your Application'.\n3. Settings:\n- Name: tiel-bot (nsfw words are banned)\n- OAuth Redirect URI: http://localhost:",
    );
    reveal_strlit("http://localhost:");
    let a = head.take(head.len() - uri.len());
    assert(head =~= a + uri);
    assert(q.details@ =~= a + uri + decimal(port as nat) + b);
    assert(other_q.details@ =~= a + uri + decimal(other as nat) + b);
}

/// The other questions are the same wherever the browser comes back to.
pub proof fn law_other_questions_are_fixed(port: u16, channel: Question, authorization: Question)
    requires
        call_ensures(question, (&Topic::Channel, port), channel),
        call_ensures(question, (&Topic::Authorization, port), authorization),
    ensures
        channel.title@ == "Twitch Live Chat Configuration Required"@,
        channel.details@ == "Enter the Twitch channel name or stream link to connect to."@,
        channel.input_label@ == "Twitch channel name or stream link"@,
        channel.kind == PromptKind::String && channel.timeout == 300,
        authorization.title@ == "Twitch OAuth Authorization"@,
        authorization.details@
            == "Opening the browser for official Twitch authorization...\n\nIf the automatic browser flow already succeeded, no input is needed.\nOtherwise, paste the full redirect URL from your browser's address bar."@,
        authorization.input_label@ == "Paste full redirect URL"@,
        authorization.kind == PromptKind::Credential && authorization.timeout == 90,
{
}

/// A prompt bears the id that it was given, the question as it was asked, and
/// the names of the adapter.
pub proof fn law_prompt_bears_its_question(
    identity: &Identity,
    prompt_id: &str,
    question: &Question,
    r: Envelope,
)
    requires
        call_ensures(prompt_envelope, (identity, prompt_id, question), r),
    ensures
        r.version == 1,
        r.auth_token@ == identity.auth_token@,
        r.module_name@ == identity.module_name@,
        r.module_instance_uuid7@ == identity.instance_uuid@,
        r.payload matches Payload::Prompt(prompt) && {
            &&& prompt.prompt_id_uuid7@ == prompt_id@
            &&& prompt.prompt@ == question.title@
            &&& prompt.details@ == question.details@
            &&& prompt.yes_dialog@ == "Submit"@
            &&& prompt.no_dialog@ == "Cancel"@
            &&& prompt.timeout == question.timeout
            &&& prompt.origin@ == identity.module_name@
            &&& prompt.input_label@ == question.input_label@
            &&& prompt.prompt_type == question.kind
            &&& prompt.origin_uuid7@.len() == 0
            &&& prompt.instructions@.len() == 0
            &&& prompt.link@.len() == 0
        },
{
}

/// A prompt that was opened awaits the answer to the very id that it was sent
/// under, for as long as its question stays up.
pub proof fn law_opened_prompt_awaits_its_own_id(
    identity: &Identity,
    question: &Question,
    r: (PendingPrompt, Envelope),
)
    requires
        call_ensures(PendingPrompt::open, (identity, question), r),
    ensures
        r.0.seconds() == question.timeout,
        r.1.version == 1,
        r.1.auth_token@ == identity.auth_token@,
        r.1.module_name@ == identity.module_name@,
        r.1.module_instance_uuid7@ == identity.instance_uuid@,
        r.1.payload matches Payload::Prompt(prompt) && {
            &&& prompt.prompt_id_uuid7@ == r.0.id()
            &&& prompt.prompt@ == question.title@
            &&& prompt.details@ == question.details@
            &&& prompt.input_label@ == question.input_label@
            &&& prompt.prompt_type == question.kind
            &&& prompt.timeout == question.timeout
        },
{
}

/// The answer to a prompt is what the operator wrote, where they accepted, and
/// nothing where they declined or none can come; any other event leaves it
/// open.
pub proof fn law_own_answer_settles(
    pending: &PendingPrompt,
    event: PromptEvent,
    r: Option<Option<std::string::String>>,
)
    requires
        call_ensures(PendingPrompt::on_event, (pending, event), r),
    ensures
        event matches PromptEvent::Response(response) ==> {
            &&& response.prompt_id_uuid7@ == pending.id() && response.accepted ==> (
            r matches Some(Some(answer)) && answer@ == response.reason@)
            &&& response.prompt_id_uuid7@ == pending.id() && !response.accepted ==> r == Some(
                None::<std::string::String>,
            )
            &&& response.prompt_id_uuid7@ != pending.id() ==> r is None
        },
        event is Closed ==> r == Some(None::<std::string::String>),
        event is Quiet ==> r is None,
{
}

/// A prompt is awaited for ten seconds more than it stays up, and no longer.
pub proof fn law_prompt_is_awaited(pending: &PendingPrompt, seconds: nat, nanos: nat, r: bool)
    requires
        nanos < 1_000_000_000,
        seconds * 1_000_000_000 + nanos <= u128::MAX,
        call_ensures(
            PendingPrompt::waits,
            (pending, (seconds * 1_000_000_000 + nanos) as u128),
            r,
        ),
    ensures
        r <==> seconds < pending.seconds() + 10,
{
}

} // verus!
