//! What the adapter and the Cockatiel engine tell each other.
use vstd::prelude::*;

use crate::json;
use crate::json::{json_of, json_read, json_text, max_depth, nested, without_floats, Json};
use crate::moderation::{
    law_payload_reads_back, order_of, parse_mod_command, payload_of, query_id_of, Order,
};
use vstd::utf8::encode_utf8;

verus! {

broadcast use vstd::string::group_string_axioms;

/// Under which names the adapter is known to the engine.
#[derive(Debug)]
pub struct Identity {
    pub auth_token: String,
    pub module_name: String,
    pub instance_uuid: String,
}

/// What kind of answer a prompt asks for.
#[derive(Debug, Clone, Copy, PartialEq, Eq, Structural)]
pub enum PromptKind {
    Boolean,
    String,
    Credential,
}

/// A prompt that the engine puts before the operator.
#[derive(Debug)]
pub struct Prompt {
    pub prompt_id_uuid7: String,
    pub prompt: String,
    pub details: String,
    pub yes_dialog: String,
    pub no_dialog: String,
    pub timeout: u32,
    pub origin: String,
    pub origin_uuid7: String,
    pub instructions: String,
    pub link: String,
    pub input_label: String,
    pub prompt_type: PromptKind,
}

/// The operator's answer to a prompt.
#[derive(Debug)]
pub struct PromptResponse {
    pub prompt_id_uuid7: String,
    pub accepted: bool,
    pub reason: String,
}

/// A chat message as the engine takes it in.
#[derive(Debug)]
pub struct ChatMessage {
    pub platform: String,
    pub raw_data: Vec<u8>,
    pub raw_message: String,
    pub user_uuid7: String,
}

/// A chat message before the engine has worked on it.
#[derive(Debug)]
pub struct MessagePreProcess {
    pub audio: Vec<u8>,
    pub audio_type: String,
    pub message_uuid7: String,
    pub raw_message: ChatMessage,
}

/// A query to the engine's database.
#[derive(Debug)]
pub struct DatabaseQuery {
    pub query_id: String,
    pub sql: String,
    pub params: Vec<String>,
}

/// What an envelope carries to the engine.
#[derive(Debug)]
pub enum Payload {
    Prompt(Prompt),
    AuthVerify(String),
    MessagePreProcess(MessagePreProcess),
    DatabaseQuery(DatabaseQuery),
}

/// A message to the engine.
#[derive(Debug)]
pub struct Envelope {
    pub version: u32,
    pub auth_token: String,
    pub module_name: String,
    pub module_instance_uuid7: String,
    pub payload: Payload,
}

/// The version of the envelopes.
pub const ENVELOPE_VERSION: u32 = 1;

/// `envelope` bears the names of `identity`.
pub open spec fn signed_by(envelope: Envelope, identity: Identity) -> bool {
    &&& envelope.version == ENVELOPE_VERSION
    &&& envelope.auth_token@ == identity.auth_token@
    &&& envelope.module_name@ == identity.module_name@
    &&& envelope.module_instance_uuid7@ == identity.instance_uuid@
}

/// `envelope` tells the engine that `author` wrote `message` in `line`.
pub open spec fn tells_message(
    envelope: Envelope,
    identity: Identity,
    line: Seq<char>,
    author: Seq<char>,
    message: Seq<char>,
) -> bool {
    &&& signed_by(envelope, identity)
    &&& envelope.payload matches Payload::MessagePreProcess(told)
    &&& told.audio@.len() == 0
    &&& told.audio_type@.len() == 0
    &&& told.message_uuid7@.len() == 0
    &&& told.raw_message.platform@ == "twitch"@
    &&& told.raw_message.raw_data@ == encode_utf8(line)
    &&& told.raw_message.raw_message@ == message
    &&& told.raw_message.user_uuid7@ == author
}

/// `found` tells the engine of the moderator's command in `message`, if there
/// is one.
pub open spec fn tells_order(
    found: Option<Envelope>,
    identity: Identity,
    author: Seq<char>,
    message: Seq<char>,
) -> bool {
    match found {
        None => order_of(message) is None,
        Some(envelope) => {
            &&& signed_by(envelope, identity)
            &&& order_of(message) matches Some(order)
            &&& envelope.payload matches Payload::DatabaseQuery(query)
            &&& query.query_id@ == query_id_of(order)
            &&& query.sql@ == json_text(payload_of(order, author))
            &&& json_read(query.sql@) == Some(payload_of(order, author))
            &&& query.params@.len() == 0
        },
    }
}

impl Identity {
    /// Puts `payload` into an envelope with the adapter's names.
    pub fn envelope(&self, payload: Payload) -> (r: Envelope)
        ensures
            signed_by(r, *self),
            r.payload == payload,
    {
        Envelope {
            version: ENVELOPE_VERSION,
            auth_token: self.auth_token.clone(),
            module_name: self.module_name.clone(),
            module_instance_uuid7: self.instance_uuid.clone(),
            payload,
        }
    }

    /// The answer to the engine's liveness probe: the adapter's own token.
    pub fn auth_reply(&self) -> (r: Envelope)
        ensures
            signed_by(r, *self),
            r.payload matches Payload::AuthVerify(token) && token@ == self.auth_token@,
    {
        self.envelope(Payload::AuthVerify(self.auth_token.clone()))
    }

    /// Tells the engine of a chat message by `author` that came in `line`.
    pub fn chat_envelope(&self, line: &str, author: &str, message: &str) -> (r: Envelope)
        ensures
            tells_message(r, *self, line@, author@, message@),
    {
        let raw_message = ChatMessage {
            platform: "twitch".to_string(),
            raw_data: line.as_bytes_vec(),
            raw_message: message.to_string(),
            user_uuid7: author.to_string(),
        };
        self.envelope(
            Payload::MessagePreProcess(
                MessagePreProcess {
                    audio: Vec::new(),
                    audio_type: String::new(),
                    message_uuid7: String::new(),
                    raw_message,
                },
            ),
        )
    }

    /// Passes a query on to the engine: its name, and its payload as JSON
    /// text.
    pub fn query_envelope(&self, query_id: String, payload: &serde_json::Value) -> (r: Envelope)
        ensures
            signed_by(r, *self),
            r.payload matches Payload::DatabaseQuery(query) && {
                &&& query.query_id@ == query_id@
                &&& query.sql@ == json_text(json_of(*payload))
                &&& query.params@.len() == 0
                &&& nested(json_of(*payload), max_depth()) && without_floats(
                    json_of(*payload),
                    max_depth(),
                ) ==> json_read(query.sql@) == Some(json_of(*payload))
            },
    {
        self.envelope(
            Payload::DatabaseQuery(
                DatabaseQuery { query_id, sql: json::write(payload), params: Vec::new() },
            ),
        )
    }

    /// Passes the moderator's command in a chat message by `author` on to the
    /// engine, where there is one. What the engine reads in the query is the
    /// order that the message gives.
    pub fn mod_envelope(&self, message: &str, author: &str) -> (r: Option<Envelope>)
        ensures
            tells_order(r, *self, author@, message@),
    {
        match parse_mod_command(message, author) {
            None => None,
            Some((query_id, payload)) => {
                proof {
                    law_payload_reads_back(order_of(message@)->0, author@);
                }
                Some(self.query_envelope(query_id, &payload))
            },
        }
    }
}

// ---------------------------------------------------------------------------
// What comes from the engine
// ---------------------------------------------------------------------------
/// What a message from the engine carries.
#[derive(Debug)]
pub enum EngineMessage {
    /// A liveness probe.
    AuthVerify,
    /// A message for the chat.
    SendToPlatforms(String),
    /// The operator's answer to a prompt.
    PromptResponse(PromptResponse),
    /// Anything else.
    Other,
}

/// What happens on the connection to the engine.
#[derive(Debug)]
pub enum EngineEvent {
    Message(EngineMessage),
    /// A frame that holds no message.
    Unreadable,
    Closed,
    Failed,
}

/// What the adapter does about it.
#[derive(Debug)]
pub enum EngineAction {
    /// Answers the engine.
    Reply(Envelope),
    /// Hands a message to the chat.
    Forward(String),
    /// Hands an answer to whoever waits for it.
    Answer(PromptResponse),
    Ignore,
    /// Listens no longer.
    Stop,
}

/// Decides what to do about an event on the connection to the engine.
pub fn on_engine_event(identity: &Identity, event: EngineEvent) -> (action: EngineAction)
    ensures
        event == EngineEvent::Message(EngineMessage::AuthVerify) ==> {
            &&& action matches EngineAction::Reply(reply)
            &&& signed_by(reply, *identity)
            &&& reply.payload matches Payload::AuthVerify(token)
            &&& token@ == identity.auth_token@
        },
        event matches EngineEvent::Message(EngineMessage::SendToPlatforms(message)) ==> action
            == EngineAction::Forward(message),
        event matches EngineEvent::Message(EngineMessage::PromptResponse(response)) ==> action
            == EngineAction::Answer(response),
        event == EngineEvent::Message(EngineMessage::Other) || event is Unreadable ==> action
            == EngineAction::Ignore,
        event is Closed || event is Failed ==> action == EngineAction::Stop,
{
    match event {
        EngineEvent::Message(message) => match message {
            EngineMessage::AuthVerify => EngineAction::Reply(identity.auth_reply()),
            EngineMessage::SendToPlatforms(text) => EngineAction::Forward(text),
            EngineMessage::PromptResponse(response) => EngineAction::Answer(response),
            EngineMessage::Other => EngineAction::Ignore,
        },
        EngineEvent::Unreadable => EngineAction::Ignore,
        EngineEvent::Closed => EngineAction::Stop,
        EngineEvent::Failed => EngineAction::Stop,
    }
}

// ---------------------------------------------------------------------------
// Laws
// ---------------------------------------------------------------------------
/// Every message to the engine bears the adapter's own names and the version
/// of the protocol, and carries what it was given.
pub proof fn law_envelopes_bear_the_names(identity: &Identity, payload: Payload, r: Envelope)
    requires
        call_ensures(Identity::envelope, (identity, payload), r),
    ensures
        r.version == 1,
        r.auth_token@ == identity.auth_token@,
        r.module_name@ == identity.module_name@,
        r.module_instance_uuid7@ == identity.instance_uuid@,
        r.payload == payload,
{
}

/// A chat message is told with its whole line, its text and its author, each
/// in its own place.
pub proof fn law_message_is_told_as_it_was(
    identity: &Identity,
    line: &str,
    author: &str,
    message: &str,
    r: Envelope,
)
    requires
        call_ensures(Identity::chat_envelope, (identity, line, author, message), r),
    ensures
        r.version == 1,
        r.auth_token@ == identity.auth_token@,
        r.module_name@ == identity.module_name@,
        r.module_instance_uuid7@ == identity.instance_uuid@,
        r.payload matches Payload::MessagePreProcess(told) && {
            &&& told.raw_message.platform@ == "twitch"@
            &&& vstd::utf8::valid_utf8(told.raw_message.raw_data@)
            &&& vstd::utf8::decode_utf8(told.raw_message.raw_data@) == line@
            &&& told.raw_message.raw_message@ == message@
            &&& told.raw_message.user_uuid7@ == author@
            &&& told.audio@.len() == 0
            &&& told.audio_type@.len() == 0
            &&& told.message_uuid7@.len() == 0
        },
{
    vstd::utf8::encode_utf8_valid_utf8(line@);
    vstd::utf8::encode_utf8_decode_utf8(line@);
}

/// The engine reads in a query the payload that was put into it, where that
/// can be written without loss.
pub proof fn law_query_carries_its_payload(
    identity: &Identity,
    query_id: String,
    payload: &serde_json::Value,
    r: Envelope,
)
    requires
        call_ensures(Identity::query_envelope, (identity, query_id, payload), r),
        nested(json_of(*payload), 127),
        without_floats(json_of(*payload), 127),
    ensures
        r.version == 1,
        r.auth_token@ == identity.auth_token@,
        r.module_name@ == identity.module_name@,
        r.module_instance_uuid7@ == identity.instance_uuid@,
        r.payload matches Payload::DatabaseQuery(query) && {
            &&& query.query_id@ == query_id@
            &&& json_read(query.sql@) == Some(json_of(*payload))
            &&& query.params@.len() == 0
        },
{
}

/// The engine is told of a command exactly where the message gives an order,
/// and reads in the query who is to be dealt with, why, and on whose word.
pub proof fn law_order_reaches_the_engine(
    identity: &Identity,
    message: &str,
    author: &str,
    r: Option<Envelope>,
)
    requires
        call_ensures(Identity::mod_envelope, (identity, message, author), r),
    ensures
        r is Some <==> order_of(message@) is Some,
        r matches Some(envelope) ==> {
            &&& envelope.version == 1
            &&& envelope.auth_token@ == identity.auth_token@
            &&& envelope.module_name@ == identity.module_name@
            &&& envelope.module_instance_uuid7@ == identity.instance_uuid@
        },
        order_of(message@) matches Some(Order::Ban { target, reason }) ==> {
            &&& r matches Some(envelope)
            &&& envelope.payload matches Payload::DatabaseQuery(query)
            &&& query.query_id@ == "mod_ban"@
            &&& query.params@.len() == 0
            &&& json_read(query.sql@) == Some(
                Json::Object(
                    map![
                        "platform"@ => Json::Text("twitch"@),
                        "handle"@ => Json::Text(target),
                        "reason"@ => Json::Text(reason),
                        "actor"@ => Json::Object(
                            map![
                                "platform"@ => Json::Text("twitch"@),
                                "handle"@ => Json::Text(author@),
                            ],
                        ),
                    ],
                ),
            )
        },
        order_of(message@) matches Some(Order::Timeout { target, duration_secs, reason }) ==> {
            &&& r matches Some(envelope)
            &&& envelope.payload matches Payload::DatabaseQuery(query)
            &&& query.query_id@ == "mod_timeout"@
            &&& query.params@.len() == 0
            &&& json_read(query.sql@) == Some(
                Json::Object(
                    map![
                        "platform"@ => Json::Text("twitch"@),
                        "handle"@ => Json::Text(target),
                        "duration_secs"@ => if duration_secs >= 0 {
                            Json::Unsigned(duration_secs as u64)
                        } else {
                            Json::Negative(duration_secs)
                        },
                        "reason"@ => Json::Text(reason),
                        "actor"@ => Json::Object(
                            map![
                                "platform"@ => Json::Text("twitch"@),
                                "handle"@ => Json::Text(author@),
                            ],
                        ),
                    ],
                ),
            )
        },
{
}

/// A liveness probe is answered with the adapter's own token, under its own
/// names; a message for the chat and the operator's answer are handed on as
/// they are; a connection that ended is listened to no longer.
pub proof fn law_engine_is_heard(identity: &Identity, event: EngineEvent, action: EngineAction)
    requires
        call_ensures(on_engine_event, (identity, event), action),
    ensures
        action is Reply <==> event == EngineEvent::Message(EngineMessage::AuthVerify),
        action matches EngineAction::Reply(reply) ==> {
            &&& reply.version == 1
            &&& reply.auth_token@ == identity.auth_token@
            &&& reply.module_name@ == identity.module_name@
            &&& reply.module_instance_uuid7@ == identity.instance_uuid@
            &&& reply.payload matches Payload::AuthVerify(token)
            &&& token@ == identity.auth_token@
        },
        action matches EngineAction::Forward(text) ==> event == EngineEvent::Message(
            EngineMessage::SendToPlatforms(text),
        ),
        action matches EngineAction::Answer(response) ==> event == EngineEvent::Message(
            EngineMessage::PromptResponse(response),
        ),
        action is Stop <==> event is Closed || event is Failed,
        action is Ignore <==> event is Unreadable || event == EngineEvent::Message(
            EngineMessage::Other,
        ),
{
}

} // verus!
