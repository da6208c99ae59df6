//! How the adapter comes by what it needs to join a chat: from its settings,
//! from an earlier run, and from the operator.
//!
//! A `Setup` is a point on the way. It says what it needs next; the reply
//! takes it to the next point, or to the end of the way.
use vstd::prelude::*;

use crate::json::{max_depth, same_but_floats, Json};
use crate::oauth;
use crate::oauth::{bare, prefixed};
use crate::prompt::Topic;
use crate::settings;
use crate::settings::{
    chars_in, chars_or_empty, root_of, setting_in, ConfigView, TwitchAdapterConfig,
};
use crate::text;
use crate::text::{ascii_lowered, decimal, is_char, pieces, position_of, trimmed, views};

verus! {

broadcast use vstd::string::group_string_axioms;

/// What the adapter joins a chat with. What it lacks is empty.
#[derive(Debug)]
pub struct Credentials {
    pub channel: String,
    pub oauth_token: String,
    pub username: String,
    pub client_id: String,
}

/// The characters of the credentials.
pub struct CredentialsView {
    pub channel: Seq<char>,
    pub oauth_token: Seq<char>,
    pub username: Seq<char>,
    pub client_id: Seq<char>,
}

impl View for Credentials {
    type V = CredentialsView;

    open spec fn view(&self) -> CredentialsView {
        CredentialsView {
            channel: self.channel@,
            oauth_token: self.oauth_token@,
            username: self.username@,
            client_id: self.client_id@,
        }
    }
}

impl Credentials {
    /// Credentials of their own with the same characters.
    pub fn copy(&self) -> (r: Credentials)
        ensures
            r@ == self@,
    {
        Credentials {
            channel: self.channel.clone(),
            oauth_token: self.oauth_token.clone(),
            username: self.username.clone(),
            client_id: self.client_id.clone(),
        }
    }
}

// ---------------------------------------------------------------------------
// Points on the way
// ---------------------------------------------------------------------------
/// Where a setup stands.
#[derive(Debug)]
pub enum Phase {
    /// Nothing is known: the settings of an earlier run may do.
    Recall,
    /// No channel is known: an earlier run may have saved one.
    Offer,
    /// The operator is asked whether to go on with these settings.
    Confirm(TwitchAdapterConfig),
    /// The operator is asked for the channel.
    AskChannel,
    /// The operator is asked for the client.
    AskClientId,
    /// The operator authorizes the client that they gave.
    FirstCapture,
    /// Twitch is asked whose the new token is, for settings that are new.
    FirstName,
    /// A name for an anonymous reader is made up.
    MakeName,
    /// The operator authorizes the client in the settings.
    Capture,
    /// Twitch is asked whose the new token is.
    Name,
}

/// Where a setup stands, over characters.
pub enum PhaseView {
    Recall,
    Offer,
    Confirm(ConfigView),
    AskChannel,
    AskClientId,
    FirstCapture,
    FirstName,
    MakeName,
    Capture,
    Name,
}

impl View for Phase {
    type V = PhaseView;

    open spec fn view(&self) -> PhaseView {
        match self {
            Phase::Recall => PhaseView::Recall,
            Phase::Offer => PhaseView::Offer,
            Phase::Confirm(saved) => PhaseView::Confirm(saved@),
            Phase::AskChannel => PhaseView::AskChannel,
            Phase::AskClientId => PhaseView::AskClientId,
            Phase::FirstCapture => PhaseView::FirstCapture,
            Phase::FirstName => PhaseView::FirstName,
            Phase::MakeName => PhaseView::MakeName,
            Phase::Capture => PhaseView::Capture,
            Phase::Name => PhaseView::Name,
        }
    }
}

/// A point on the way to the credentials.
#[derive(Debug)]
pub struct Setup {
    /// Twitch rejected credentials before: only the operator can help.
    pub force_prompt: bool,
    pub known: Credentials,
    pub phase: Phase,
}

/// A point on the way, over characters.
pub struct SetupView {
    pub force_prompt: bool,
    pub known: CredentialsView,
    pub phase: PhaseView,
}

impl View for Setup {
    type V = SetupView;

    open spec fn view(&self) -> SetupView {
        SetupView {
            force_prompt: self.force_prompt,
            known: self.known@,
            phase: self.phase@,
        }
    }
}

/// Where a reply leads.
#[derive(Debug)]
pub enum Progress {
    /// Something else is needed.
    Wait(Setup),
    /// The credentials are there. Where `save` is set they are new, and to be
    /// saved before they are used.
    Connect { known: Credentials, save: bool },
    /// The operator gave no channel: begin anew after a pause.
    Retry,
}

/// Where a reply leads, over characters.
pub enum ProgressView {
    Wait(SetupView),
    Connect { known: CredentialsView, save: bool },
    Retry,
}

impl View for Progress {
    type V = ProgressView;

    open spec fn view(&self) -> ProgressView {
        match self {
            Progress::Wait(setup) => ProgressView::Wait(setup@),
            Progress::Connect { known, save } => ProgressView::Connect {
                known: known@,
                save: *save,
            },
            Progress::Retry => ProgressView::Retry,
        }
    }
}

// ---------------------------------------------------------------------------
// What is needed, and what comes
// ---------------------------------------------------------------------------
/// What a setup needs next.
#[derive(Debug)]
pub enum Request {
    /// The settings of an earlier run.
    LoadSaved,
    /// The operator's answer to a question.
    Ask(Topic),
    /// A token for this client, caught within so many seconds if any are
    /// given.
    CaptureToken { client_id: String, seconds: Option<u64> },
    /// The name of the user that this token belongs to.
    FetchUsername(String),
    /// The nanoseconds that have gone by in the current second.
    ClockNanos,
}

/// What came of a request.
#[derive(Debug)]
pub enum Reply {
    Saved(Option<TwitchAdapterConfig>),
    Answer(Option<String>),
    /// The token, or nothing where none was caught.
    Captured(Option<String>),
    Username(Option<String>),
    ClockNanos(u32),
}

/// What came of a request, over characters.
pub enum ReplyView {
    Saved(Option<ConfigView>),
    Answer(Option<Seq<char>>),
    Captured(Option<Seq<char>>),
    Username(Option<Seq<char>>),
    ClockNanos(u32),
}

impl View for Reply {
    type V = ReplyView;

    open spec fn view(&self) -> ReplyView {
        match self {
            Reply::Saved(saved) => ReplyView::Saved(
                match saved {
                    Some(config) => Some(config@),
                    None => None,
                },
            ),
            Reply::Answer(answer) => ReplyView::Answer(chars_in(*answer)),
            Reply::Captured(token) => ReplyView::Captured(chars_in(*token)),
            Reply::Username(name) => ReplyView::Username(chars_in(*name)),
            Reply::ClockNanos(nanos) => ReplyView::ClockNanos(*nanos),
        }
    }
}

/// The seconds within which the operator authorizes a client that is already
/// in the settings.
pub const CAPTURE_SECS: u64 = 90;

/// The reply is one to what the setup needs.
pub open spec fn fits(phase: PhaseView, reply: ReplyView) -> bool {
    match phase {
        PhaseView::Recall => reply is Saved,
        PhaseView::Offer => reply is Saved,
        PhaseView::Confirm(_) => reply is Answer,
        PhaseView::AskChannel => reply is Answer,
        PhaseView::AskClientId => reply is Answer,
        PhaseView::FirstCapture => reply is Captured,
        PhaseView::FirstName => reply is Username,
        PhaseView::MakeName => reply is ClockNanos,
        PhaseView::Capture => reply is Captured,
        PhaseView::Name => reply is Username,
    }
}

// ---------------------------------------------------------------------------
// The rules
// ---------------------------------------------------------------------------
/// Nothing is known.
pub open spec fn knows_nothing(known: CredentialsView) -> bool {
    known.channel.len() == 0 && known.oauth_token.len() == 0 && known.username.len() == 0
        && known.client_id.len() == 0
}

/// Credentials of which nothing is known.
pub open spec fn nothing_known() -> CredentialsView {
    CredentialsView {
        channel: Seq::empty(),
        oauth_token: Seq::empty(),
        username: Seq::empty(),
        client_id: Seq::empty(),
    }
}

/// What the settings of an earlier run give; what they lack is empty.
pub open spec fn recalled(saved: ConfigView) -> CredentialsView {
    CredentialsView {
        channel: chars_or_empty(saved.channel),
        oauth_token: chars_or_empty(saved.oauth_token),
        username: chars_or_empty(saved.username),
        client_id: chars_or_empty(saved.client_id),
    }
}

/// The operator agrees.
pub open spec fn agrees(answer: Option<Seq<char>>) -> bool {
    match answer {
        Some(choice) => {
            let word = ascii_lowered(trimmed(choice));
            word == ascii_lowered("y"@) || word == ascii_lowered("yes"@)
        },
        None => false,
    }
}

/// The channel that the operator names: the first part of a link's path
/// behind `twitch.tv/`, or what they typed.
pub open spec fn channel_in(input: Seq<char>) -> Seq<char> {
    let name = trimmed(input);
    match position_of(name, "twitch.tv/"@) {
        Some(at) => pieces(name.skip(at + "twitch.tv/"@.len()), is_char('/'))[0],
        None => name,
    }
}

/// The name of an anonymous reader.
pub open spec fn anonymous_name(nanos: u32) -> Seq<char> {
    "justinfan"@ + decimal((nanos % 10000) as nat)
}

/// A setup that stands at `phase`.
pub open spec fn at(force_prompt: bool, known: CredentialsView, phase: PhaseView) -> ProgressView {
    ProgressView::Wait(SetupView { force_prompt, known, phase })
}

/// With a channel from the settings: a token is caught where there is none
/// but a client to authorize.
pub open spec fn with_channel(force_prompt: bool, known: CredentialsView) -> ProgressView {
    if known.oauth_token.len() == 0 && known.client_id.len() > 0 {
        at(force_prompt, known, PhaseView::Capture)
    } else {
        ProgressView::Connect { known, save: false }
    }
}

/// After the look at what is known: without a channel an earlier run's is
/// offered.
pub open spec fn find_channel(force_prompt: bool, known: CredentialsView) -> ProgressView {
    if known.channel.len() > 0 {
        with_channel(force_prompt, known)
    } else {
        at(force_prompt, known, PhaseView::Offer)
    }
}

/// With all that the operator gave: without a name, a token's reader bears
/// the channel's, and a reader without a token one that is made up.
pub open spec fn with_answers(force_prompt: bool, known: CredentialsView) -> ProgressView {
    if known.username.len() > 0 {
        ProgressView::Connect { known, save: true }
    } else if known.oauth_token.len() == 0 {
        at(force_prompt, known, PhaseView::MakeName)
    } else {
        ProgressView::Connect {
            known: CredentialsView { username: known.channel, ..known },
            save: true,
        }
    }
}

/// The name that Twitch gave, or the channel's.
pub open spec fn named(known: CredentialsView, name: Option<Seq<char>>) -> CredentialsView {
    CredentialsView {
        username: match name {
            Some(name) => name,
            None => known.channel,
        },
        ..known
    }
}

/// Where a setup begins. After a rejection nothing that was known counts, and
/// the operator is asked.
pub open spec fn begun(known: CredentialsView, force_prompt: bool) -> ProgressView {
    if force_prompt {
        at(force_prompt, nothing_known(), PhaseView::AskChannel)
    } else if knows_nothing(known) {
        at(force_prompt, known, PhaseView::Recall)
    } else {
        find_channel(force_prompt, known)
    }
}

/// Where `reply` takes `setup`. A reply that is none to what the setup needs
/// leaves it where it stands.
pub open spec fn advanced(setup: SetupView, reply: ReplyView) -> ProgressView {
    let force = setup.force_prompt;
    let known = setup.known;
    match (setup.phase, reply) {
        (PhaseView::Recall, ReplyView::Saved(saved)) => match saved {
            Some(config) => if chars_or_empty(config.channel).len() > 0 {
                find_channel(force, recalled(config))
            } else {
                find_channel(force, known)
            },
            None => find_channel(force, known),
        },
        (PhaseView::Offer, ReplyView::Saved(saved)) => match saved {
            Some(config) => if config.channel is Some {
                at(force, known, PhaseView::Confirm(config))
            } else {
                at(force, known, PhaseView::AskChannel)
            },
            None => at(force, known, PhaseView::AskChannel),
        },
        (PhaseView::Confirm(config), ReplyView::Answer(answer)) => if agrees(answer)
            && recalled(config).channel.len() > 0 {
            with_channel(force, recalled(config))
        } else if agrees(answer) {
            at(force, recalled(config), PhaseView::AskChannel)
        } else {
            at(force, known, PhaseView::AskChannel)
        },
        (PhaseView::AskChannel, ReplyView::Answer(answer)) => match answer {
            Some(input) => {
                let known = CredentialsView { channel: channel_in(input), ..known };
                if known.oauth_token.len() == 0 {
                    at(force, known, PhaseView::AskClientId)
                } else {
                    with_answers(force, known)
                }
            },
            None => ProgressView::Retry,
        },
        (PhaseView::AskClientId, ReplyView::Answer(answer)) => {
            let known = CredentialsView { client_id: trimmed(chars_or_empty(answer)), ..known };
            if known.client_id.len() > 0 {
                at(force, known, PhaseView::FirstCapture)
            } else {
                with_answers(force, known)
            }
        },
        (PhaseView::FirstCapture, ReplyView::Captured(token)) => match token {
            Some(raw) => at(
                force,
                CredentialsView { oauth_token: prefixed(raw), ..known },
                PhaseView::FirstName,
            ),
            None => with_answers(force, known),
        },
        (PhaseView::FirstName, ReplyView::Username(name)) => with_answers(
            force,
            named(known, name),
        ),
        (PhaseView::MakeName, ReplyView::ClockNanos(nanos)) => ProgressView::Connect {
            known: CredentialsView { username: anonymous_name(nanos), ..known },
            save: true,
        },
        (PhaseView::Capture, ReplyView::Captured(token)) => match token {
            Some(raw) => at(
                force,
                CredentialsView { oauth_token: prefixed(raw), ..known },
                PhaseView::Name,
            ),
            None => ProgressView::Connect { known, save: false },
        },
        (PhaseView::Name, ReplyView::Username(name)) => ProgressView::Connect {
            known: named(known, name),
            save: true,
        },
        _ => ProgressView::Wait(setup),
    }
}

// ---------------------------------------------------------------------------
// Going the way
// ---------------------------------------------------------------------------
fn wait(force_prompt: bool, known: Credentials, phase: Phase) -> (r: Progress)
    ensures
        r@ == at(force_prompt, known@, phase@),
{
    Progress::Wait(Setup { force_prompt, known, phase })
}

fn go_with_channel(force_prompt: bool, known: Credentials) -> (r: Progress)
    ensures
        r@ == with_channel(force_prompt, known@),
{
    if known.oauth_token.as_str().is_empty() && !known.client_id.as_str().is_empty() {
        wait(force_prompt, known, Phase::Capture)
    } else {
        Progress::Connect { known, save: false }
    }
}

fn go_find_channel(force_prompt: bool, known: Credentials) -> (r: Progress)
    ensures
        r@ == find_channel(force_prompt, known@),
{
    if !known.channel.as_str().is_empty() {
        go_with_channel(force_prompt, known)
    } else {
        wait(force_prompt, known, Phase::Offer)
    }
}

fn go_with_answers(force_prompt: bool, known: Credentials) -> (r: Progress)
    ensures
        r@ == with_answers(force_prompt, known@),
{
    if !known.username.as_str().is_empty() {
        Progress::Connect { known, save: true }
    } else if known.oauth_token.as_str().is_empty() {
        wait(force_prompt, known, Phase::MakeName)
    } else {
        let mut known = known;
        known.username = known.channel.clone();
        Progress::Connect { known, save: true }
    }
}

fn recall(saved: TwitchAdapterConfig) -> (r: Credentials)
    ensures
        r@ == recalled(saved@),
{
    Credentials {
        channel: settings::or_empty(saved.channel),
        oauth_token: settings::or_empty(saved.oauth_token),
        username: settings::or_empty(saved.username),
        client_id: settings::or_empty(saved.client_id),
    }
}

fn name_user(known: Credentials, name: Option<String>) -> (r: Credentials)
    ensures
        r@ == named(known@, chars_in(name)),
{
    let mut known = known;
    match name {
        Some(name) => {
            known.username = name;
        },
        None => {
            known.username = known.channel.clone();
        },
    }
    known
}

/// Whether the operator's answer is a yes.
pub fn is_yes(answer: &Option<String>) -> (r: bool)
    ensures
        r == agrees(chars_in(*answer)),
{
    match answer {
        Some(choice) => {
            let word = text::trim(choice.as_str());
            text::same_ignoring_case(word, "y") || text::same_ignoring_case(word, "yes")
        },
        None => false,
    }
}

/// The channel that the operator names, by its name or by a link to it.
pub fn channel_from_input(input: &str) -> (r: String)
    ensures
        r@ == channel_in(input@),
{
    let name = text::trim(input);
    match text::find(name, "twitch.tv/") {
        Some(at) => {
            let len: usize = name.unicode_len();
            let path = text::cut(name, at + "twitch.tv/".unicode_len(), len);
            assert(path@ =~= name@.skip(at + "twitch.tv/"@.len()));
            let parts = text::split(path, '/');
            proof {
                text::lemma_pieces_some(path@, is_char('/'));
                assert(views(parts@).len() == parts@.len());
                assert(views(parts@)[0] == parts@[0]@);
            }
            parts[0].to_string()
        },
        None => name.to_string(),
    }
}

/// The name of an anonymous reader, by the nanoseconds of the clock.
pub fn make_name(nanos: u32) -> (r: String)
    ensures
        r@ == anonymous_name(nanos),
{
    "justinfan".to_string().concat(text::decimal_text((nanos % 10000) as u64).as_str())
}

/// What is known at the start: each public setting from the environment or
/// else from `config.json`, each secret from the environment.
pub open spec fn known_at_start(
    env_channel: Option<Seq<char>>,
    env_token: Option<Seq<char>>,
    env_username: Option<Seq<char>>,
    env_client_id: Option<Seq<char>>,
    root: Option<Json>,
) -> CredentialsView {
    CredentialsView {
        channel: setting_in(env_channel, root, "channel"@),
        oauth_token: chars_or_empty(env_token),
        username: setting_in(env_username, root, "username"@),
        client_id: chars_or_empty(env_client_id),
    }
}

/// What is known at the start, from the environment and the text of
/// `config.json`.
pub fn initial_credentials(
    env_channel: Option<String>,
    env_token: Option<String>,
    env_username: Option<String>,
    env_client_id: Option<String>,
    config: Option<&str>,
) -> (r: Credentials)
    ensures
        r@ == known_at_start(
            chars_in(env_channel),
            chars_in(env_token),
            chars_in(env_username),
            chars_in(env_client_id),
            root_of(config),
        ),
{
    Credentials {
        channel: settings::initial_setting(env_channel, config, "channel"),
        oauth_token: settings::or_empty(env_token),
        username: settings::initial_setting(env_username, config, "username"),
        client_id: settings::or_empty(env_client_id),
    }
}

impl Setup {
    /// Begins a setup with what is known at the start. `force_prompt` is set
    /// after Twitch rejected credentials: what is known did not do, and the
    /// operator is asked for everything anew.
    pub fn begin(known: &Credentials, force_prompt: bool) -> (r: Progress)
        ensures
            r@ == begun(known@, force_prompt),
    {
        if force_prompt {
            let none = Credentials {
                channel: String::new(),
                oauth_token: String::new(),
                username: String::new(),
                client_id: String::new(),
            };
            assert(none@ =~= nothing_known());
            return wait(force_prompt, none, Phase::AskChannel);
        }
        let known = known.copy();
        if known.channel.as_str().is_empty()
            && known.oauth_token.as_str().is_empty() && known.username.as_str().is_empty()
            && known.client_id.as_str().is_empty() {
            wait(force_prompt, known, Phase::Recall)
        } else {
            go_find_channel(force_prompt, known)
        }
    }

    /// What the setup needs next.
    pub fn request(&self) -> (r: Request)
        ensures
            match self.phase {
                Phase::Recall => r is LoadSaved,
                Phase::Offer => r is LoadSaved,
                Phase::Confirm(saved) => r matches Request::Ask(Topic::UseSaved(channel))
                    && channel@ == chars_or_empty(chars_in(saved.channel)),
                Phase::AskChannel => r == Request::Ask(Topic::Channel),
                Phase::AskClientId => r == Request::Ask(Topic::ClientId),
                Phase::FirstCapture => r matches Request::CaptureToken { client_id, seconds }
                    && client_id@ == self.known.client_id@ && seconds is None,
                Phase::FirstName => r matches Request::FetchUsername(token) && token@ == bare(
                    self.known.oauth_token@,
                ),
                Phase::MakeName => r is ClockNanos,
                Phase::Capture => r matches Request::CaptureToken { client_id, seconds }
                    && client_id@ == self.known.client_id@ && seconds == Some(CAPTURE_SECS),
                Phase::Name => r matches Request::FetchUsername(token) && token@ == bare(
                    self.known.oauth_token@,
                ),
            },
    {
        match &self.phase {
            Phase::Recall => Request::LoadSaved,
            Phase::Offer => Request::LoadSaved,
            Phase::Confirm(saved) => {
                let channel = match &saved.channel {
                    Some(channel) => channel.clone(),
                    None => String::new(),
                };
                Request::Ask(Topic::UseSaved(channel))
            },
            Phase::AskChannel => Request::Ask(Topic::Channel),
            Phase::AskClientId => Request::Ask(Topic::ClientId),
            Phase::FirstCapture => Request::CaptureToken {
                client_id: self.known.client_id.clone(),
                seconds: None,
            },
            Phase::FirstName => Request::FetchUsername(
                oauth::bare_token(self.known.oauth_token.as_str()),
            ),
            Phase::MakeName => Request::ClockNanos,
            Phase::Capture => Request::CaptureToken {
                client_id: self.known.client_id.clone(),
                seconds: Some(CAPTURE_SECS),
            },
            Phase::Name => Request::FetchUsername(
                oauth::bare_token(self.known.oauth_token.as_str()),
            ),
        }
    }

    /// Goes on with what came of the request.
    pub fn advance(self, reply: Reply) -> (r: Progress)
        ensures
            r@ == advanced(self@, reply@),
    {
        let Setup { force_prompt, known, phase } = self;
        match (phase, reply) {
            (Phase::Recall, Reply::Saved(Some(saved))) => {
                let fresh = recall(saved);
                if fresh.channel.as_str().is_empty() {
                    go_find_channel(force_prompt, known)
                } else {
                    go_find_channel(force_prompt, fresh)
                }
            },
            (Phase::Recall, Reply::Saved(None)) => go_find_channel(force_prompt, known),
            (Phase::Offer, Reply::Saved(Some(saved))) => if saved.channel.is_some() {
                wait(force_prompt, known, Phase::Confirm(saved))
            } else {
                wait(force_prompt, known, Phase::AskChannel)
            },
            (Phase::Offer, Reply::Saved(None)) => wait(force_prompt, known, Phase::AskChannel),
            (Phase::Confirm(saved), Reply::Answer(answer)) => if is_yes(&answer) {
                let fresh = recall(saved);
                if fresh.channel.as_str().is_empty() {
                    wait(force_prompt, fresh, Phase::AskChannel)
                } else {
                    go_with_channel(force_prompt, fresh)
                }
            } else {
                wait(force_prompt, known, Phase::AskChannel)
            },
            (Phase::AskChannel, Reply::Answer(None)) => Progress::Retry,
            (Phase::AskChannel, Reply::Answer(Some(input))) => {
                let mut known = known;
                known.channel = channel_from_input(input.as_str());
                if known.oauth_token.as_str().is_empty() {
                    wait(force_prompt, known, Phase::AskClientId)
                } else {
                    go_with_answers(force_prompt, known)
                }
            },
            (Phase::AskClientId, Reply::Answer(answer)) => {
                let mut known = known;
                let input = settings::or_empty(answer);
                known.client_id = text::trim(input.as_str()).to_string();
                if known.client_id.as_str().is_empty() {
                    go_with_answers(force_prompt, known)
                } else {
                    wait(force_prompt, known, Phase::FirstCapture)
                }
            },
            (Phase::FirstCapture, Reply::Captured(Some(raw))) => {
                let mut known = known;
                known.oauth_token = oauth::prefixed_token(raw.as_str());
                wait(force_prompt, known, Phase::FirstName)
            },
            (Phase::FirstCapture, Reply::Captured(None)) => go_with_answers(force_prompt, known),
            (Phase::FirstName, Reply::Username(name)) => go_with_answers(
                force_prompt,
                name_user(known, name),
            ),
            (Phase::MakeName, Reply::ClockNanos(nanos)) => {
                let mut known = known;
                known.username = make_name(nanos);
                Progress::Connect { known, save: true }
            },
            (Phase::Capture, Reply::Captured(Some(raw))) => {
                let mut known = known;
                known.oauth_token = oauth::prefixed_token(raw.as_str());
                wait(force_prompt, known, Phase::Name)
            },
            (Phase::Capture, Reply::Captured(None)) => Progress::Connect { known, save: false },
            (Phase::Name, Reply::Username(name)) => Progress::Connect {
                known: name_user(known, name),
                save: true,
            },
            (phase, _) => Progress::Wait(Setup { force_prompt, known, phase }),
        }
    }
}

// ---------------------------------------------------------------------------
// Laws
// ---------------------------------------------------------------------------
/// How many replies a setup at `phase` can take at most.
pub open spec fn distance(phase: PhaseView) -> nat {
    match phase {
        PhaseView::Recall => 8,
        PhaseView::Offer => 7,
        PhaseView::Confirm(_) => 6,
        PhaseView::AskChannel => 5,
        PhaseView::AskClientId => 4,
        PhaseView::FirstCapture => 3,
        PhaseView::FirstName => 2,
        PhaseView::MakeName => 1,
        PhaseView::Capture => 2,
        PhaseView::Name => 1,
    }
}

/// Where `replies` lead, one after the other.
pub open spec fn walked(progress: ProgressView, replies: Seq<ReplyView>) -> ProgressView
    decreases replies.len(),
{
    match progress {
        ProgressView::Wait(setup) => if replies.len() == 0 {
            progress
        } else {
            walked(advanced(setup, replies[0]), replies.drop_first())
        },
        _ => progress,
    }
}

/// Each of `replies` is one to what is needed when it comes.
pub open spec fn all_fit(progress: ProgressView, replies: Seq<ReplyView>) -> bool
    decreases replies.len(),
{
    match progress {
        ProgressView::Wait(setup) => replies.len() == 0 || (fits(setup.phase, replies[0])
            && all_fit(advanced(setup, replies[0]), replies.drop_first())),
        _ => true,
    }
}

/// Each reply brings a setup nearer to its end.
pub proof fn law_replies_bring_nearer(setup: SetupView, reply: ReplyView)
    requires
        fits(setup.phase, reply),
    ensures
        advanced(setup, reply) matches ProgressView::Wait(next) ==> distance(next.phase)
            < distance(setup.phase),
{
}

/// A setup always comes to its end: after as many replies as its distance, it
/// waits for nothing more.
pub proof fn law_setup_ends(setup: SetupView, replies: Seq<ReplyView>)
    requires
        all_fit(ProgressView::Wait(setup), replies),
        replies.len() >= distance(setup.phase),
    ensures
        !(walked(ProgressView::Wait(setup), replies) is Wait),
    decreases replies.len(),
{
    reveal_with_fuel(walked, 2);
    let next = advanced(setup, replies[0]);
    law_replies_bring_nearer(setup, replies[0]);
    if let ProgressView::Wait(setup) = next {
        law_setup_ends(setup, replies.drop_first());
    }
}

/// What an earlier run saved plays a part at `phase`.
pub open spec fn looks_back(phase: PhaseView) -> bool {
    phase is Recall || phase is Offer || phase is Confirm
}

/// After a rejection the operator is asked at once, and nothing that was known
/// before is used again.
pub proof fn law_rejection_asks_the_operator(known: CredentialsView)
    ensures
        begun(known, true) == at(true, nothing_known(), PhaseView::AskChannel),
{
}

/// After a rejection a setup never turns to what an earlier run saved, and
/// where it leads rests on the replies alone, not on the settings.
pub proof fn law_rejection_ignores_what_was_saved(
    known: CredentialsView,
    other: CredentialsView,
    replies: Seq<ReplyView>,
)
    ensures
        walked(begun(known, true), replies) == walked(begun(other, true), replies),
        walked(begun(known, true), replies) matches ProgressView::Wait(setup)
            ==> setup.force_prompt && !looks_back(setup.phase),
{
    lemma_never_looks_back(begun(known, true), replies);
}

proof fn lemma_never_looks_back(progress: ProgressView, replies: Seq<ReplyView>)
    requires
        progress matches ProgressView::Wait(setup) ==> setup.force_prompt && !looks_back(
            setup.phase,
        ),
    ensures
        walked(progress, replies) matches ProgressView::Wait(setup) ==> setup.force_prompt
            && !looks_back(setup.phase),
    decreases replies.len(),
{
    if let ProgressView::Wait(setup) = progress {
        if replies.len() > 0 {
            lemma_never_looks_back(advanced(setup, replies[0]), replies.drop_first());
        }
    }
}

/// Settings with a channel, and with a token or no client to get one for, are
/// used as they are, unless Twitch rejected credentials before: nobody is asked
/// and nothing is saved.
pub proof fn law_full_settings_connect(known: CredentialsView)
    requires
        known.channel.len() > 0,
        known.oauth_token.len() > 0 || known.client_id.len() == 0,
    ensures
        begun(known, false) == (ProgressView::Connect { known, save: false }),
{
}

/// Where no setting is known, what an earlier run saved for a channel is used
/// without a question.
pub proof fn law_saved_settings_connect(
    known: CredentialsView,
    root: Option<Json>,
    env_username: Option<Seq<char>>,
    env_token: Option<Seq<char>>,
    env_client_id: Option<Seq<char>>,
    saved: ConfigView,
)
    requires
        knows_nothing(known),
        settings::config_in(root, env_username, env_token, env_client_id) == Some(saved),
        chars_or_empty(saved.channel).len() > 0,
    ensures
        walked(begun(known, false), seq![ReplyView::Saved(Some(saved))]) == (
        ProgressView::Connect { known: recalled(saved), save: false }),
{
    let replies = seq![ReplyView::Saved(Some(saved))];
    reveal_with_fuel(walked, 3);
    assert(replies[0] == ReplyView::Saved(Some(saved)));
}

/// What one run saves, the next run joins the chat with, without a question.
/// `back` is what is read of the `config.json` that was written.
pub proof fn law_next_run_connects(known: CredentialsView, root: Json, back: Json)
    requires
        same_but_floats(
            settings::with_settings(root, known.channel, known.username),
            back,
            max_depth(),
        ),
        known.channel.len() > 0,
        known.oauth_token.len() > 0 || known.client_id.len() == 0,
    ensures
        begun(
            known_at_start(
                None,
                Some(known.oauth_token),
                None,
                Some(known.client_id),
                Some(back),
            ),
            false,
        ) == (ProgressView::Connect { known, save: false }),
{
    settings::law_saved_public_settings_are_found(root, back, known.channel, known.username);
}

/// With a channel and a client but no token, the client is authorized first.
/// Where that fails the chat is joined all the same, for reading only, and
/// nothing is saved.
pub proof fn law_failed_authorization_still_connects(known: CredentialsView)
    requires
        known.channel.len() > 0,
        known.oauth_token.len() == 0,
        known.client_id.len() > 0,
    ensures
        begun(known, false) == at(false, known, PhaseView::Capture),
        walked(begun(known, false), seq![ReplyView::Captured(None)]) == (
        ProgressView::Connect { known, save: false }),
{
    reveal_with_fuel(walked, 3);
    assert(seq![ReplyView::Captured(None)][0] == ReplyView::Captured(None));
}

/// Where the authorization succeeds, the token is kept with its prefix, under
/// the name that Twitch gives for it or else the channel's, and saved.
pub proof fn law_authorization_is_saved(
    known: CredentialsView,
    raw: Seq<char>,
    name: Option<Seq<char>>,
)
    requires
        known.channel.len() > 0,
        known.oauth_token.len() == 0,
        known.client_id.len() > 0,
    ensures
        walked(
            begun(known, false),
            seq![ReplyView::Captured(Some(raw)), ReplyView::Username(name)],
        ) == (ProgressView::Connect {
            known: named(CredentialsView { oauth_token: prefixed(raw), ..known }, name),
            save: true,
        }),
{
    let replies = seq![ReplyView::Captured(Some(raw)), ReplyView::Username(name)];
    reveal_with_fuel(walked, 4);
    assert(replies[0] == ReplyView::Captured(Some(raw)));
    assert(replies.drop_first()[0] == ReplyView::Username(name));
}

/// An operator who gives a channel and a client, and authorizes it, sets all
/// of the credentials, and they are saved. `name` is what Twitch says of the
/// token, if anything.
pub proof fn law_operator_sets_up(
    setup: SetupView,
    channel: Seq<char>,
    client_id: Seq<char>,
    raw: Seq<char>,
    name: Option<Seq<char>>,
)
    requires
        setup.phase is AskChannel,
        setup.known.oauth_token.len() == 0,
        channel_in(channel).len() > 0,
        trimmed(client_id).len() > 0,
        name matches Some(name) ==> name.len() > 0,
    ensures
        walked(
            ProgressView::Wait(setup),
            seq![
                ReplyView::Answer(Some(channel)),
                ReplyView::Answer(Some(client_id)),
                ReplyView::Captured(Some(raw)),
                ReplyView::Username(name),
            ],
        ) == (ProgressView::Connect {
            known: CredentialsView {
                channel: channel_in(channel),
                oauth_token: prefixed(raw),
                username: match name {
                    Some(name) => name,
                    None => channel_in(channel),
                },
                client_id: trimmed(client_id),
            },
            save: true,
        }),
{
    let replies = seq![
        ReplyView::Answer(Some(channel)),
        ReplyView::Answer(Some(client_id)),
        ReplyView::Captured(Some(raw)),
        ReplyView::Username(name),
    ];
    reveal_with_fuel(walked, 6);
    let second = replies.drop_first();
    let third = second.drop_first();
    assert(replies[0] == ReplyView::Answer(Some(channel)));
    assert(second[0] == ReplyView::Answer(Some(client_id)));
    assert(third[0] == ReplyView::Captured(Some(raw)));
    assert(third.drop_first()[0] == ReplyView::Username(name));
}

/// An operator who gives a channel but leaves the client blank reads the chat
/// without a token, under a made-up name where none is known, and that is
/// saved.
pub proof fn law_operator_stays_anonymous(
    setup: SetupView,
    channel: Seq<char>,
    client_id: Option<Seq<char>>,
    nanos: u32,
)
    requires
        setup.phase is AskChannel,
        setup.known.oauth_token.len() == 0,
        setup.known.username.len() == 0,
        trimmed(chars_or_empty(client_id)).len() == 0,
    ensures
        walked(
            ProgressView::Wait(setup),
            seq![
                ReplyView::Answer(Some(channel)),
                ReplyView::Answer(client_id),
                ReplyView::ClockNanos(nanos),
            ],
        ) == (ProgressView::Connect {
            known: CredentialsView {
                channel: channel_in(channel),
                oauth_token: Seq::empty(),
                username: anonymous_name(nanos),
                client_id: Seq::empty(),
            },
            save: true,
        }),
{
    let replies = seq![
        ReplyView::Answer(Some(channel)),
        ReplyView::Answer(client_id),
        ReplyView::ClockNanos(nanos),
    ];
    reveal_with_fuel(walked, 5);
    let second = replies.drop_first();
    assert(replies[0] == ReplyView::Answer(Some(channel)));
    assert(second[0] == ReplyView::Answer(client_id));
    assert(second.drop_first()[0] == ReplyView::ClockNanos(nanos));
    assert(setup.known.oauth_token =~= Seq::empty());
    assert(trimmed(chars_or_empty(client_id)) =~= Seq::empty());
}

/// A link to a channel names it, whether its path goes on or not: the channel
/// is what stands behind the first `twitch.tv/` up to the next slash.
pub proof fn law_link_names_the_channel(before: Seq<char>, name: Seq<char>, after: Seq<char>)
    requires
        !text::contains_text(before + "twitch.tv"@, "twitch.tv/"@),
        before.len() > 0 ==> !text::white_space(before[0]),
        !name.contains('/'),
        name.len() > 0 ==> !text::white_space(name.last()),
        after.len() > 0 ==> !text::white_space(after.last()),
    ensures
        channel_in(before + "twitch.tv/"@ + name) == name,
        channel_in(before + "twitch.tv/"@ + name + seq!['/'] + after) == name,
{
    let key = "twitch.tv/"@;
    let path = name + seq!['/'] + after;
    assert(path.last() == if after.len() > 0 { after.last() } else { '/' });
    assert(before + key + name + seq!['/'] + after =~= before + key + path);
    lemma_link(before, name);
    lemma_link(before, path);
    assert forall|j: int| 0 <= j < name.len() implies !(is_char('/')(#[trigger] name[j])) by {
        assert(name.contains(name[j]));
    }
    text::lemma_one_piece(name, is_char('/'));
    text::lemma_pieces_concat(name, '/', after, is_char('/'));
}

/// A link names the first part of its path.
proof fn lemma_link(before: Seq<char>, path: Seq<char>)
    requires
        !text::contains_text(before + "twitch.tv"@, "twitch.tv/"@),
        before.len() > 0 ==> !text::white_space(before[0]),
        path.len() > 0 ==> !text::white_space(path.last()),
    ensures
        channel_in(before + "twitch.tv/"@ + path) == pieces(path, is_char('/'))[0],
{
    reveal_strlit("twitch.tv/");
    reveal_strlit("twitch.tv");
    let key = "twitch.tv/"@;
    let n = before.len() as int;
    let link = before + key + path;
    assert(link[0] == if n > 0 { before[0] } else { 't' });
    assert(link.last() == if path.len() > 0 { path.last() } else { '/' });
    text::law_trim_keeps_what_has_no_white_ends(link);
    assert(link.subrange(n, n + key.len()) =~= key);
    assert(link.take(n + key.len() - 1) =~= before + "twitch.tv"@);
    text::law_found_where_it_stands(link, key, n);
    assert(link.skip(n + key.len()) =~= path);
}

/// White space around what the operator typed does not matter.
pub proof fn law_channel_is_named_without_white_ends(
    before: Seq<char>,
    input: Seq<char>,
    after: Seq<char>,
)
    requires
        text::all_white(before),
        text::all_white(after),
    ensures
        channel_in(before + input + after) == channel_in(input),
{
    text::law_white_ends_are_trimmed(before, input, after);
}

/// What is no link is the name of the channel.
pub proof fn law_name_names_the_channel(name: Seq<char>)
    requires
        !text::contains_text(trimmed(name), "twitch.tv/"@),
    ensures
        channel_in(name) == trimmed(name),
{
    text::lemma_position_of_some(trimmed(name), "twitch.tv/"@);
}

/// A setup begins anew only where the operator gives no channel.
pub proof fn law_only_silence_begins_anew(setup: SetupView, reply: ReplyView)
    ensures
        advanced(setup, reply) is Retry <==> setup.phase is AskChannel && reply
            == ReplyView::Answer(None),
{
}

/// Credentials that are saved bear a name wherever they bear a channel, unless
/// Twitch gives an empty one.
pub proof fn law_saved_credentials_have_a_name(setup: SetupView, reply: ReplyView)
    requires
        reply != ReplyView::Username(Some(Seq::empty())),
    ensures
        advanced(setup, reply) matches ProgressView::Connect { known, save: true }
            ==> known.username.len() > 0 || known.channel.len() == 0,
{
    reveal_strlit("justinfan");
    if let ReplyView::Username(Some(name)) = reply {
        if name.len() == 0 {
            assert(name =~= Seq::empty());
        }
    }
}

/// A token that was caught is asked about without the prefix of chat, and
/// kept with it.
pub proof fn law_caught_token_has_its_prefix(setup: SetupView, raw: Seq<char>)
    requires
        setup.phase is FirstCapture || setup.phase is Capture,
    ensures
        advanced(setup, ReplyView::Captured(Some(raw))) matches ProgressView::Wait(next)
            && next.known.oauth_token == "oauth:"@ + bare(raw) && bare(next.known.oauth_token)
            == bare(raw),
{
    oauth::law_prefix_stands_once(raw);
}

/// The environment comes first at the start: a channel or a user name there
/// that holds more than white space is taken as it is, whatever `config.json`
/// holds. Else what was saved is, and else it is empty. The secrets are the
/// environment's.
pub proof fn law_environment_is_known_at_the_start(
    env_channel: Option<String>,
    env_token: Option<String>,
    env_username: Option<String>,
    env_client_id: Option<String>,
    config: Option<&str>,
    r: Credentials,
)
    requires
        call_ensures(
            initial_credentials,
            (env_channel, env_token, env_username, env_client_id, config),
            r,
        ),
    ensures
        env_channel is Some && !text::all_white(env_channel->0@) ==> r.channel@ == env_channel->0@,
        env_username is Some && !text::all_white(env_username->0@) ==> r.username@
            == env_username->0@,
        env_channel is None || text::all_white(env_channel->0@) ==> r.channel@ == chars_or_empty(
            settings::saved_text(root_of(config), "channel"@),
        ),
        env_username is None || text::all_white(env_username->0@) ==> r.username@
            == chars_or_empty(settings::saved_text(root_of(config), "username"@)),
        env_token is Some ==> r.oauth_token@ == env_token->0@,
        env_token is None ==> r.oauth_token@.len() == 0,
        env_client_id is Some ==> r.client_id@ == env_client_id->0@,
        env_client_id is None ==> r.client_id@.len() == 0,
{
    assert(r@.channel == r.channel@ && r@.username == r.username@);
    assert(r@.oauth_token == r.oauth_token@ && r@.client_id == r.client_id@);
    settings::law_environment_goes_first(chars_in(env_channel), root_of(config), "channel"@);
    settings::law_environment_goes_first(chars_in(env_username), root_of(config), "username"@);
    if settings::saved_text(root_of(config), "channel"@) is None {
        assert(setting_in(chars_in(env_channel), root_of(config), "channel"@).len() == 0
            || !(env_channel is None || text::all_white(env_channel->0@)));
        if env_channel is None || text::all_white(env_channel->0@) {
            assert(r.channel@ =~= Seq::empty());
        }
    }
    if settings::saved_text(root_of(config), "username"@) is None {
        if env_username is None || text::all_white(env_username->0@) {
            assert(r.username@ =~= Seq::empty());
        }
    }
}

/// An answer is a yes exactly where it is `y` or `yes` in any case, with white
/// space around it or not.
pub proof fn law_yes_is_understood(answer: &Option<String>, r: bool)
    requires
        call_ensures(is_yes, (answer,), r),
    ensures
        r <==> answer is Some && exists|
            before: Seq<char>,
            word: Seq<char>,
            after: Seq<char>,
        | answer->0@ == #[trigger] (before + word + after) && text::all_white(before)
            && text::all_white(after) && (ascii_lowered(word) == "y"@ || ascii_lowered(word)
            == "yes"@),
{
    reveal_strlit("y");
    reveal_strlit("yes");
    assert(ascii_lowered("y"@) =~= "y"@);
    assert(ascii_lowered("yes"@) =~= "yes"@);
    if let Some(choice) = answer {
        let said = choice@;
        text::lemma_trimmed_stands_in(said);
        if r {
            let (before, after) = choose|before: Seq<char>, after: Seq<char>|
                #![trigger text::all_white(before), text::all_white(after)]
                text::all_white(before) && text::all_white(after) && said == before + trimmed(said)
                    + after;
            assert(said == before + trimmed(said) + after);
        }
        if exists|before: Seq<char>, word: Seq<char>, after: Seq<char>|
            said == #[trigger] (before + word + after) && text::all_white(before)
                && text::all_white(after) && (ascii_lowered(word) == "y"@ || ascii_lowered(word)
                == "yes"@) {
            let (before, word, after) = choose|
                before: Seq<char>,
                word: Seq<char>,
                after: Seq<char>,
            |
                said == #[trigger] (before + word + after) && text::all_white(before)
                    && text::all_white(after) && (ascii_lowered(word) == "y"@ || ascii_lowered(word)
                    == "yes"@);
            let low = ascii_lowered(word);
            assert(low.len() == word.len());
            assert forall|j: int| 0 <= j < word.len() implies !text::white_space(
                #[trigger] word[j],
            ) by {
                assert(low[j] == text::ascii_lower(word[j]));
                assert('a' <= low[j] <= 'z');
            }
            text::law_white_ends_are_trimmed(before, word, after);
            text::law_trim_keeps_what_has_no_white_ends(word);
        }
    }
}

/// The name of an anonymous reader counts the nanoseconds up to ten thousand
/// and then anew.
pub proof fn law_made_up_name_counts_the_clock(nanos: u32, rounds: nat, count: nat, r: String)
    requires
        call_ensures(make_name, (nanos,), r),
        nanos == 10000 * rounds + count,
        count < 10000,
    ensures
        r@ == "justinfan"@ + decimal(count),
{
    assert(nanos % 10000 == count);
}

/// Where a setup begins without a rejection: with a channel it needs a token
/// for the client that lacks one and nothing else; without one it turns to
/// what was saved, first to use it where nothing at all is known, else to offer
/// it.
pub proof fn law_setup_begins(known: CredentialsView)
    ensures
        known.channel.len() > 0 && known.oauth_token.len() == 0 && known.client_id.len() > 0
            ==> begun(known, false) == at(false, known, PhaseView::Capture),
        known.channel.len() > 0 && !(known.oauth_token.len() == 0 && known.client_id.len() > 0)
            ==> begun(known, false) == (ProgressView::Connect { known, save: false }),
        known.channel.len() == 0 && (known.oauth_token.len() > 0 || known.username.len() > 0
            || known.client_id.len() > 0) ==> begun(known, false) == at(
            false,
            known,
            PhaseView::Offer,
        ),
        known.channel.len() == 0 && known.oauth_token.len() == 0 && known.username.len() == 0
            && known.client_id.len() == 0 ==> begun(known, false) == at(
            false,
            known,
            PhaseView::Recall,
        ),
{
}

/// What was saved without a channel is no help where nothing is known: it is
/// looked for once more, to be offered.
pub proof fn law_saved_without_channel_is_no_help(setup: SetupView, saved: Option<ConfigView>)
    requires
        setup.phase is Recall,
        setup.known.channel.len() == 0,
        saved is None || saved->0.channel is None || saved->0.channel->0.len() == 0,
    ensures
        advanced(setup, ReplyView::Saved(saved)) == at(
            setup.force_prompt,
            setup.known,
            PhaseView::Offer,
        ),
{
}

/// A saved channel is offered to the operator, and without one the operator is
/// asked for a channel. What is known stays known.
pub proof fn law_saved_channel_is_offered(setup: SetupView, saved: Option<ConfigView>)
    requires
        setup.phase is Offer,
    ensures
        saved is Some && saved->0.channel is Some ==> advanced(setup, ReplyView::Saved(saved))
            == at(setup.force_prompt, setup.known, PhaseView::Confirm(saved->0)),
        saved is None || saved->0.channel is None ==> advanced(setup, ReplyView::Saved(saved))
            == at(setup.force_prompt, setup.known, PhaseView::AskChannel),
{
}

/// An offer that the operator takes up is used, with a token caught first
/// where only a client was saved; one that names no channel still has the
/// operator name it. An offer that is turned down leaves what was known, and
/// the operator names the channel.
pub proof fn law_offer_is_taken_or_left(
    setup: SetupView,
    saved: ConfigView,
    answer: Option<Seq<char>>,
)
    requires
        setup.phase == PhaseView::Confirm(saved),
        saved.channel is Some,
    ensures
        ({
            let taken = CredentialsView {
                channel: saved.channel->0,
                oauth_token: if saved.oauth_token is Some {
                    saved.oauth_token->0
                } else {
                    Seq::empty()
                },
                username: if saved.username is Some {
                    saved.username->0
                } else {
                    Seq::empty()
                },
                client_id: if saved.client_id is Some {
                    saved.client_id->0
                } else {
                    Seq::empty()
                },
            };
            let next = advanced(setup, ReplyView::Answer(answer));
            &&& agrees(answer) && taken.channel.len() > 0 && (taken.oauth_token.len() > 0
                || taken.client_id.len() == 0) ==> next == (ProgressView::Connect {
                known: taken,
                save: false,
            })
            &&& agrees(answer) && taken.channel.len() > 0 && taken.oauth_token.len() == 0
                && taken.client_id.len() > 0 ==> next == at(
                setup.force_prompt,
                taken,
                PhaseView::Capture,
            )
            &&& agrees(answer) && taken.channel.len() == 0 ==> next == at(
                setup.force_prompt,
                taken,
                PhaseView::AskChannel,
            )
            &&& !agrees(answer) ==> next == at(
                setup.force_prompt,
                setup.known,
                PhaseView::AskChannel,
            )
        }),
{
}

/// What was saved without a user name counts as one without a name.
pub proof fn law_saved_without_a_name_is_used(saved: ConfigView, known: CredentialsView)
    requires
        saved.channel is Some && saved.channel->0.len() > 0,
        saved.oauth_token is Some && saved.oauth_token->0.len() > 0,
        saved.client_id is Some,
        knows_nothing(known),
    ensures
        walked(begun(known, false), seq![ReplyView::Saved(Some(saved))]) == (
        ProgressView::Connect {
            known: CredentialsView {
                channel: saved.channel->0,
                oauth_token: saved.oauth_token->0,
                username: if saved.username is Some {
                    saved.username->0
                } else {
                    Seq::empty()
                },
                client_id: saved.client_id->0,
            },
            save: false,
        }),
{
    let replies = seq![ReplyView::Saved(Some(saved))];
    reveal_with_fuel(walked, 3);
    assert(replies[0] == ReplyView::Saved(Some(saved)));
}

/// With a token at hand, a channel from the operator is all that was missing:
/// it is used and saved with the rest, and lends its name where there is none.
pub proof fn law_token_only_lacks_a_channel(setup: SetupView, input: Seq<char>)
    requires
        setup.phase is AskChannel,
        setup.known.oauth_token.len() > 0,
    ensures
        advanced(setup, ReplyView::Answer(Some(input))) == (ProgressView::Connect {
            known: CredentialsView {
                channel: channel_in(input),
                oauth_token: setup.known.oauth_token,
                username: if setup.known.username.len() > 0 {
                    setup.known.username
                } else {
                    channel_in(input)
                },
                client_id: setup.known.client_id,
            },
            save: true,
        }),
{
}

/// Without a token, the operator who named the channel is asked for a client.
pub proof fn law_client_is_asked_for(setup: SetupView, input: Seq<char>)
    requires
        setup.phase is AskChannel,
        setup.known.oauth_token.len() == 0,
    ensures
        advanced(setup, ReplyView::Answer(Some(input))) == at(
            setup.force_prompt,
            CredentialsView {
                channel: channel_in(input),
                oauth_token: setup.known.oauth_token,
                username: setup.known.username,
                client_id: setup.known.client_id,
            },
            PhaseView::AskClientId,
        ),
{
}

/// A client that the operator gives is authorized; without one the chat is
/// joined, under the known name or one that is made up.
pub proof fn law_client_is_authorized(setup: SetupView, answer: Option<Seq<char>>)
    requires
        setup.phase is AskClientId,
        setup.known.oauth_token.len() == 0,
    ensures
        ({
            let next = advanced(setup, ReplyView::Answer(answer));
            let without = CredentialsView {
                channel: setup.known.channel,
                oauth_token: setup.known.oauth_token,
                username: setup.known.username,
                client_id: Seq::empty(),
            };
            let blank = answer is None || text::all_white(answer->0);
            &&& !blank ==> next == at(
                setup.force_prompt,
                CredentialsView {
                    channel: setup.known.channel,
                    oauth_token: setup.known.oauth_token,
                    username: setup.known.username,
                    client_id: trimmed(answer->0),
                },
                PhaseView::FirstCapture,
            )
            &&& blank && setup.known.username.len() > 0 ==> next == (ProgressView::Connect {
                known: without,
                save: true,
            })
            &&& blank && setup.known.username.len() == 0 ==> next == at(
                setup.force_prompt,
                without,
                PhaseView::MakeName,
            )
        }),
{
    let none = Seq::<char>::empty();
    text::law_trim_keeps_what_has_no_white_ends(none);
    if let Some(input) = answer {
        settings::lemma_blank(input);
        if text::all_white(input) {
            assert(trimmed(input) =~= none);
        }
    }
}

/// A first authorization that fails leaves the chat to be joined without a
/// token, under the known name or one that is made up, and that is saved.
pub proof fn law_failed_first_authorization_is_saved(setup: SetupView, nanos: u32)
    requires
        setup.phase is FirstCapture,
        setup.known.oauth_token.len() == 0,
    ensures
        setup.known.username.len() > 0 ==> advanced(setup, ReplyView::Captured(None)) == (
        ProgressView::Connect { known: setup.known, save: true }),
        setup.known.username.len() == 0 ==> walked(
            ProgressView::Wait(setup),
            seq![ReplyView::Captured(None), ReplyView::ClockNanos(nanos)],
        ) == (ProgressView::Connect {
            known: CredentialsView {
                channel: setup.known.channel,
                oauth_token: setup.known.oauth_token,
                username: "justinfan"@ + decimal((nanos % 10000) as nat),
                client_id: setup.known.client_id,
            },
            save: true,
        }),
{
    let replies = seq![ReplyView::Captured(None), ReplyView::ClockNanos(nanos)];
    reveal_with_fuel(walked, 4);
    assert(replies[0] == ReplyView::Captured(None));
    assert(replies.drop_first()[0] == ReplyView::ClockNanos(nanos));
}

/// A token that was caught changes nothing but the token, and whose it is is
/// asked next.
pub proof fn law_caught_token_changes_nothing_else(setup: SetupView, raw: Seq<char>)
    requires
        setup.phase is FirstCapture || setup.phase is Capture,
    ensures
        advanced(setup, ReplyView::Captured(Some(raw))) == at(
            setup.force_prompt,
            CredentialsView {
                channel: setup.known.channel,
                oauth_token: prefixed(raw),
                username: setup.known.username,
                client_id: setup.known.client_id,
            },
            if setup.phase is Capture {
                PhaseView::Name
            } else {
                PhaseView::FirstName
            },
        ),
{
}

/// With the answer to whose a token is the setup is done, and saved: under the
/// name that Twitch gave, else under the channel's. An empty name counts as
/// none where the settings are new.
pub proof fn law_name_ends_the_setup(setup: SetupView, name: Option<Seq<char>>)
    requires
        setup.phase is Name || (setup.phase is FirstName && setup.known.oauth_token.len() > 0),
    ensures
        advanced(setup, ReplyView::Username(name)) == (ProgressView::Connect {
            known: CredentialsView {
                channel: setup.known.channel,
                oauth_token: setup.known.oauth_token,
                username: if name is Some && (name->0.len() > 0 || setup.phase is Name) {
                    name->0
                } else {
                    setup.known.channel
                },
                client_id: setup.known.client_id,
            },
            save: true,
        }),
{
}

/// With a made-up name the setup is done, and saved.
pub proof fn law_made_up_name_ends_the_setup(setup: SetupView, nanos: u32)
    requires
        setup.phase is MakeName,
    ensures
        advanced(setup, ReplyView::ClockNanos(nanos)) == (ProgressView::Connect {
            known: CredentialsView {
                channel: setup.known.channel,
                oauth_token: setup.known.oauth_token,
                username: "justinfan"@ + decimal((nanos % 10000) as nat),
                client_id: setup.known.client_id,
            },
            save: true,
        }),
{
}

/// A token that cannot be caught for a client in the settings changes nothing:
/// the chat is joined with what is known.
pub proof fn law_uncaught_token_changes_nothing(setup: SetupView)
    requires
        setup.phase is Capture,
    ensures
        advanced(setup, ReplyView::Captured(None)) == (ProgressView::Connect {
            known: setup.known,
            save: false,
        }),
{
}

/// A reply that is none to what is needed leaves the setup where it stands.
pub proof fn law_other_replies_change_nothing(setup: SetupView, reply: ReplyView)
    requires
        match setup.phase {
            PhaseView::Recall => !(reply is Saved),
            PhaseView::Offer => !(reply is Saved),
            PhaseView::Confirm(_) => !(reply is Answer),
            PhaseView::AskChannel => !(reply is Answer),
            PhaseView::AskClientId => !(reply is Answer),
            PhaseView::FirstCapture => !(reply is Captured),
            PhaseView::FirstName => !(reply is Username),
            PhaseView::MakeName => !(reply is ClockNanos),
            PhaseView::Capture => !(reply is Captured),
            PhaseView::Name => !(reply is Username),
        },
    ensures
        advanced(setup, reply) == ProgressView::Wait(setup),
{
}

/// Views show all that there is.
pub proof fn law_views_show_everything(
    known: Credentials,
    setup: Setup,
    progress: Progress,
    reply: Reply,
)
    ensures
        known@.channel == known.channel@ && known@.oauth_token == known.oauth_token@
            && known@.username == known.username@ && known@.client_id == known.client_id@,
        setup@.force_prompt == setup.force_prompt && setup@.known == setup.known@ && setup@.phase
            == setup.phase@,
        setup.phase matches Phase::Confirm(saved) ==> setup@.phase == PhaseView::Confirm(saved@),
        progress matches Progress::Wait(next) ==> progress@ == ProgressView::Wait(next@),
        progress matches Progress::Connect { known, save } ==> progress@ == (
        ProgressView::Connect { known: known@, save }),
        progress is Retry ==> progress@ is Retry,
        reply matches Reply::Answer(Some(s)) ==> reply@ == ReplyView::Answer(Some(s@)),
        reply matches Reply::Captured(Some(s)) ==> reply@ == ReplyView::Captured(Some(s@)),
        reply matches Reply::Username(Some(s)) ==> reply@ == ReplyView::Username(Some(s@)),
        reply matches Reply::ClockNanos(n) ==> reply@ == ReplyView::ClockNanos(n),
        reply matches Reply::Saved(Some(config)) ==> reply@ == ReplyView::Saved(Some(config@)),
        reply == Reply::Answer(None) ==> reply@ == ReplyView::Answer(None),
        reply == Reply::Captured(None) ==> reply@ == ReplyView::Captured(None),
        reply == Reply::Username(None) ==> reply@ == ReplyView::Username(None),
        reply == Reply::Saved(None) ==> reply@ == ReplyView::Saved(None),
{
}

} // verus!
