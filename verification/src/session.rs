//! A stay in a chat: what each event there leads to, and what follows when the
//! stay ends.
use vstd::prelude::*;
use vstd::utf8::encode_utf8;

use crate::chat;
use crate::chat::{ChatEvent, ChatEventView};
use crate::engine::{tells_message, tells_order, Envelope, Identity, Payload};
use crate::moderation::order_of;
use crate::setup::{at, begun, nothing_known, CredentialsView, PhaseView};

verus! {

broadcast use vstd::string::group_string_axioms;

/// What the adapter does about an event in the chat.
#[derive(Debug)]
pub enum EventAction {
    /// Sends this line to the chat.
    Send(String),
    /// Tells the engine of a message, and then of the moderator's command in
    /// it if there is one.
    Relay { chat: Envelope, order: Option<Envelope> },
    /// Leaves, for Twitch rejected the credentials.
    Leave,
}

/// Decides what to do about an event in the chat.
pub fn on_chat_event(identity: &Identity, event: &ChatEvent) -> (action: EventAction)
    ensures
        match event@ {
            ChatEventView::Rejected { .. } => action is Leave,
            ChatEventView::Ping => action matches EventAction::Send(line) && line@
                == "PONG :tmi.twitch.tv"@,
            ChatEventView::Message { line, author, message } =>
                action matches EventAction::Relay { chat, order } && tells_message(
                chat,
                *identity,
                line,
                author,
                message,
            ) && tells_order(order, *identity, author, message),
        },
{
    match event {
        ChatEvent::Rejected { .. } => EventAction::Leave,
        ChatEvent::Ping => EventAction::Send(chat::pong()),
        ChatEvent::Message { line, author, message } => EventAction::Relay {
            chat: identity.chat_envelope(line.as_str(), author.as_str(), message.as_str()),
            order: identity.mod_envelope(message.as_str(), author.as_str()),
        },
    }
}

/// How a stay, or the attempt at one, ended.
#[derive(Debug, Clone, Copy, PartialEq, Eq, Structural)]
pub enum Ending {
    /// The operator gave no channel.
    NoChannel,
    /// Twitch could not be reached.
    NotReached,
    /// The connection was lost.
    Lost,
    /// Twitch rejected the credentials.
    Rejected,
}

/// What follows, after a pause of so many seconds.
#[derive(Debug, Clone, Copy, PartialEq, Eq, Structural)]
pub enum Next {
    /// A setup from the start.
    SetUp { force_prompt: bool, pause_secs: u64 },
    /// A connection with the same credentials.
    Connect { pause_secs: u64 },
}

/// What follows an ending. `force_prompt` says whether Twitch has rejected
/// credentials before.
pub open spec fn following(ending: Ending, force_prompt: bool) -> Next {
    match ending {
        Ending::NoChannel => Next::SetUp { force_prompt, pause_secs: 2 },
        Ending::NotReached => Next::Connect { pause_secs: 5 },
        Ending::Lost => Next::Connect { pause_secs: 5 },
        Ending::Rejected => Next::SetUp { force_prompt: true, pause_secs: 2 },
    }
}

/// Decides what follows an ending.
pub fn after(ending: Ending, force_prompt: bool) -> (next: Next)
    ensures
        next == following(ending, force_prompt),
{
    match ending {
        Ending::NoChannel => Next::SetUp { force_prompt, pause_secs: 2 },
        Ending::NotReached => Next::Connect { pause_secs: 5 },
        Ending::Lost => Next::Connect { pause_secs: 5 },
        Ending::Rejected => Next::SetUp { force_prompt: true, pause_secs: 2 },
    }
}

/// Whether setups are forced to ask after all of `endings`.
pub open spec fn forced_after(endings: Seq<Ending>) -> bool
    decreases endings.len(),
{
    if endings.len() == 0 {
        false
    } else {
        let before = forced_after(endings.drop_last());
        match following(endings.last(), before) {
            Next::SetUp { force_prompt, .. } => force_prompt,
            Next::Connect { .. } => before,
        }
    }
}

/// `force_prompt` is set exactly from the first rejection on, and every setup
/// that begins then asks the operator for new credentials.
pub proof fn law_forced_from_the_first_rejection_on(
    endings: Seq<Ending>,
    known: CredentialsView,
)
    ensures
        forced_after(endings) == endings.contains(Ending::Rejected),
        endings.contains(Ending::Rejected) ==> begun(known, forced_after(endings)) == at(
            true,
            nothing_known(),
            PhaseView::AskChannel,
        ),
    decreases endings.len(),
{
    if endings.len() > 0 {
        let front = endings.drop_last();
        law_forced_from_the_first_rejection_on(front, known);
        if front.contains(Ending::Rejected) {
            let i = choose|i: int| 0 <= i < front.len() && front[i] == Ending::Rejected;
            assert(endings[i] == Ending::Rejected);
        }
        if endings.last() == Ending::Rejected {
            assert(endings[endings.len() - 1] == Ending::Rejected);
        } else if endings.contains(Ending::Rejected) {
            let i = choose|i: int| 0 <= i < endings.len() && endings[i] == Ending::Rejected;
            assert(front[i] == Ending::Rejected);
        }
    }
}

/// What follows each ending, and after how long: new credentials after two
/// seconds where the old ones did not do, the same ones after five where the
/// connection did not hold.
pub proof fn law_endings_have_their_sequel(ending: Ending, force_prompt: bool, next: Next)
    requires
        call_ensures(after, (ending, force_prompt), next),
    ensures
        ending is Rejected ==> next == (Next::SetUp { force_prompt: true, pause_secs: 2 }),
        ending is NoChannel ==> next == (Next::SetUp { force_prompt, pause_secs: 2 }),
        ending is NotReached || ending is Lost ==> next == (Next::Connect { pause_secs: 5 }),
{
}

/// An event in the chat leads to leaving exactly where it is a rejection, to
/// the answer exactly where it is a ping, and else to the message being told to
/// the engine with its line and its author.
pub proof fn law_events_lead_to_their_actions(
    identity: &Identity,
    event: &ChatEvent,
    action: EventAction,
)
    requires
        call_ensures(on_chat_event, (identity, event), action),
    ensures
        action is Leave <==> event is Rejected,
        action is Send <==> event is Ping,
        action matches EventAction::Send(line) ==> line@ == "PONG :tmi.twitch.tv"@,
        event matches ChatEvent::Message { line, author, message } ==> {
            &&& action matches EventAction::Relay { chat, order }
            &&& chat.payload matches Payload::MessagePreProcess(told)
            &&& told.raw_message.raw_data@ == encode_utf8(line@)
            &&& told.raw_message.raw_message@ == message@
            &&& told.raw_message.user_uuid7@ == author@
            &&& order is Some <==> order_of(message@) is Some
        },
{
    assert(event@ is Rejected <==> event is Rejected);
    assert(event@ is Ping <==> event is Ping);
}

} // verus!
