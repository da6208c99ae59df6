//! Twitch chat: the lines that come in over IRC, and the lines that go out.
use vstd::prelude::*;
use vstd::utf8::is_ascii_chars;

use crate::setup::Credentials;
use crate::text;
use crate::text::{
    ascii_lowered, contains_text, is_char, lines_of, lowercase_of, occurs_at, on_one_line, pieces,
    position_of, position_of_char, trimmed, views,
};

verus! {

broadcast use vstd::string::group_string_axioms;

// ---------------------------------------------------------------------------
// A chat message in a line
// ---------------------------------------------------------------------------
/// The tags at the front of a line: between an at sign and the first space.
pub open spec fn tags_of(line: Seq<char>) -> Option<Seq<char>> {
    match position_of_char(line, ' ') {
        Some(end) => if line[0] == '@' {
            Some(line.subrange(1, end))
        } else {
            None
        },
        None => None,
    }
}

/// The name that a tag gives, where it is a display name and not empty.
pub open spec fn name_in_tag(tag: Seq<char>) -> Option<Seq<char>> {
    if "display-name="@.is_prefix_of(tag) && tag.len() > "display-name="@.len() {
        Some(tag.skip("display-name="@.len() as int))
    } else {
        None
    }
}

/// The name that the last of the `tags` with a display name gives.
pub open spec fn name_in_tags(tags: Seq<Seq<char>>) -> Option<Seq<char>>
    decreases tags.len(),
{
    if tags.len() == 0 {
        None
    } else if name_in_tag(tags.last()) is Some {
        name_in_tag(tags.last())
    } else {
        name_in_tags(tags.drop_last())
    }
}

/// The display name in the tags of a line.
pub open spec fn display_name_of(line: Seq<char>) -> Option<Seq<char>> {
    match tags_of(line) {
        Some(tags) => name_in_tags(pieces(tags, is_char(';'))),
        None => None,
    }
}

/// The nick name in a line: between its first colon and its first
/// exclamation mark.
pub open spec fn nick_of(line: Seq<char>) -> Option<Seq<char>> {
    match (position_of_char(line, ':'), position_of_char(line, '!')) {
        (Some(start), Some(end)) => if start < end {
            Some(line.subrange(start + 1, end))
        } else {
            None
        },
        _ => None,
    }
}

/// Who wrote a line: the display name, else the nick name, else nobody known.
pub open spec fn author_of(line: Seq<char>) -> Seq<char> {
    match display_name_of(line) {
        Some(name) => name,
        None => match nick_of(line) {
            Some(nick) => nick,
            None => "Unknown"@,
        },
    }
}

/// The message in a line: behind the first colon that follows its ` PRIVMSG `,
/// without white space at its ends.
pub open spec fn message_of(line: Seq<char>) -> Option<Seq<char>> {
    match position_of(line, " PRIVMSG "@) {
        Some(at) => {
            let rest = line.skip(at + " PRIVMSG "@.len());
            match position_of_char(rest, ':') {
                Some(colon) => Some(trimmed(rest.skip(colon + 1))),
                None => None,
            }
        },
        None => None,
    }
}

fn tag_name<'a>(tag: &'a str) -> (r: Option<&'a str>)
    ensures
        r is Some <==> name_in_tag(tag@) is Some,
        r matches Some(name) ==> name_in_tag(tag@) == Some(name@),
{
    if text::starts_with(tag, "display-name=") {
        let len: usize = tag.unicode_len();
        let from: usize = "display-name=".unicode_len();
        if len > from {
            let name = text::cut(tag, from, len);
            assert(name@ =~= tag@.skip(from as int));
            return Some(name);
        }
    }
    None
}

fn display_name(line: &str) -> (r: Option<String>)
    ensures
        r is Some <==> display_name_of(line@) is Some,
        r matches Some(name) ==> display_name_of(line@) == Some(name@),
{
    let end: usize = match text::find_char(line, ' ') {
        Some(end) => end,
        None => {
            return None;
        },
    };
    proof {
        text::lemma_position_of_char_some(line@, ' ');
    }
    if line.get_char(0) != '@' {
        return None;
    }
    assert(line@[0] == '@');
    let tags = text::split(text::cut(line, 1, end), ';');
    let ghost all = views(tags@);
    let mut found: Option<String> = None;
    for i in 0..tags.len()
        invariant
            all == views(tags@),
            found is Some <==> name_in_tags(all.take(i as int)) is Some,
            found matches Some(name) ==> name_in_tags(all.take(i as int)) == Some(name@),
    {
        proof {
            assert(all.take(i + 1).drop_last() =~= all.take(i as int));
            assert(all.take(i + 1).last() == tags@[i as int]@);
        }
        if let Some(name) = tag_name(tags[i]) {
            found = Some(name.to_string());
        }
    }
    assert(all.take(tags@.len() as int) =~= all);
    found
}

fn nick_name(line: &str) -> (r: Option<String>)
    ensures
        r is Some <==> nick_of(line@) is Some,
        r matches Some(nick) ==> nick_of(line@) == Some(nick@),
{
    if let Some(end) = text::find_char(line, '!') {
        if let Some(start) = text::find_char(line, ':') {
            if start < end {
                return Some(text::cut(line, start + 1, end).to_string());
            }
        }
    }
    None
}

fn author(line: &str) -> (r: String)
    ensures
        r@ == author_of(line@),
{
    if let Some(name) = display_name(line) {
        return name;
    }
    match nick_name(line) {
        Some(nick) => nick,
        None => "Unknown".to_string(),
    }
}

/// Parses a Twitch IRC `PRIVMSG` line: the author's name and the message
/// text.
pub fn parse_twitch_privmsg(line: &str) -> (r: Option<(String, String)>)
    ensures
        r is Some <==> message_of(line@) is Some,
        r matches Some(chat) ==> chat.0@ == author_of(line@) && message_of(line@) == Some(chat.1@),
{
    if !text::contains(line, "PRIVMSG") {
        proof {
            lemma_names_privmsg(line@);
        }
        return None;
    }
    if let Some(at) = text::find(line, " PRIVMSG ") {
        let len: usize = line.unicode_len();
        let rest = text::cut(line, at + " PRIVMSG ".unicode_len(), len);
        assert(rest@ =~= line@.skip(at + " PRIVMSG "@.len()));
        if let Some(colon) = text::find_char(rest, ':') {
            let tail = text::cut(rest, colon + 1, rest.unicode_len());
            assert(tail@ =~= rest@.skip(colon + 1));
            return Some((author(line), text::trim(tail).to_string()));
        }
    }
    None
}

/// A line with a message names `PRIVMSG`.
proof fn lemma_names_privmsg(line: Seq<char>)
    ensures
        message_of(line) is Some ==> contains_text(line, "PRIVMSG"@),
{
    if message_of(line) is Some {
        reveal_strlit(" PRIVMSG ");
        reveal_strlit("PRIVMSG");
        text::lemma_position_of_some(line, " PRIVMSG "@);
        let i = position_of(line, " PRIVMSG "@)->0;
        assert(occurs_at(line, " PRIVMSG "@, i));
        assert forall|k: int| 0 <= k < 7 implies line.subrange(i + 1, i + 8)[k]
            == "PRIVMSG"@[k] by {
            assert(line.subrange(i, i + 9)[k + 1] == " PRIVMSG "@[k + 1]);
        }
        assert(occurs_at(line, "PRIVMSG"@, i + 1));
    }
}

// ---------------------------------------------------------------------------
// Lines that come in
// ---------------------------------------------------------------------------
/// Twitch rejects the token or the name that the adapter logged in with.
pub open spec fn rejects(line: Seq<char>) -> bool {
    ||| contains_text(line, "Login authentication failed"@)
    ||| contains_text(line, "Improperly formatted auth"@)
    ||| contains_text(line, "Login unsuccessful"@)
    ||| contains_text(line, "authentication failed"@)
}

/// What a line from Twitch means to the adapter.
#[derive(Debug)]
pub enum ChatEvent {
    /// The credentials were rejected, in these words.
    Rejected { line: String },
    /// Twitch wants a sign of life.
    Ping,
    /// `author` wrote `message`; `line` is all that came.
    Message { line: String, author: String, message: String },
}

/// What a line means, over characters.
pub enum ChatEventView {
    Rejected { line: Seq<char> },
    Ping,
    Message { line: Seq<char>, author: Seq<char>, message: Seq<char> },
}

impl View for ChatEvent {
    type V = ChatEventView;

    open spec fn view(&self) -> ChatEventView {
        match self {
            ChatEvent::Rejected { line } => ChatEventView::Rejected { line: line@ },
            ChatEvent::Ping => ChatEventView::Ping,
            ChatEvent::Message { line, author, message } => ChatEventView::Message {
                line: line@,
                author: author@,
                message: message@,
            },
        }
    }
}

/// What a line means, if anything. A rejection goes before a ping, and a ping
/// before a message.
pub open spec fn event_in(line: Seq<char>) -> Option<ChatEventView> {
    if rejects(line) {
        Some(ChatEventView::Rejected { line })
    } else if "PING"@.is_prefix_of(line) {
        Some(ChatEventView::Ping)
    } else {
        match message_of(line) {
            Some(message) => Some(
                ChatEventView::Message { line, author: author_of(line), message },
            ),
            None => None,
        }
    }
}

/// What lines mean, one after the other, up to the first rejection.
pub open spec fn events_in(lines: Seq<Seq<char>>) -> Seq<ChatEventView>
    decreases lines.len(),
{
    if lines.len() == 0 {
        Seq::empty()
    } else {
        match event_in(lines[0]) {
            None => events_in(lines.drop_first()),
            Some(event) => if event is Rejected {
                seq![event]
            } else {
                seq![event] + events_in(lines.drop_first())
            },
        }
    }
}

/// The characters of each event.
pub open spec fn event_views(events: Seq<ChatEvent>) -> Seq<ChatEventView> {
    events.map_values(|event: ChatEvent| event@)
}

fn is_rejection(line: &str) -> (r: bool)
    ensures
        r == rejects(line@),
{
    text::contains(line, "Login authentication failed") || text::contains(
        line,
        "Improperly formatted auth",
    ) || text::contains(line, "Login unsuccessful") || text::contains(
        line,
        "authentication failed",
    )
}

/// What a line from Twitch means, if anything.
pub fn read_line(line: &str) -> (r: Option<ChatEvent>)
    ensures
        r is Some <==> event_in(line@) is Some,
        r matches Some(event) ==> event_in(line@) == Some(event@),
{
    if is_rejection(line) {
        return Some(ChatEvent::Rejected { line: line.to_string() });
    }
    if text::starts_with(line, "PING") {
        return Some(ChatEvent::Ping);
    }
    match parse_twitch_privmsg(line) {
        Some((author, message)) => Some(
            ChatEvent::Message { line: line.to_string(), author, message },
        ),
        None => None,
    }
}

/// What a text from Twitch means, line by line, up to the first rejection.
pub fn read_text(text: &str) -> (r: Vec<ChatEvent>)
    ensures
        event_views(r@) == events_in(lines_of(text@)),
{
    let lines = text::lines(text);
    let ghost all = lines_of(text@);
    let mut out: Vec<ChatEvent> = Vec::new();
    proof {
        assert(all.skip(0) =~= all);
        assert(event_views(out@) + events_in(all) =~= events_in(all));
    }
    for i in 0..lines.len()
        invariant
            all == views(lines@),
            all == lines_of(text@),
            event_views(out@) + events_in(all.skip(i as int)) == events_in(all),
    {
        let ghost before = out@;
        proof {
            assert(all.skip(i as int)[0] == lines@[i as int]@);
            assert(all.skip(i as int).drop_first() =~= all.skip(i as int + 1));
        }
        if let Some(event) = read_line(lines[i]) {
            let ghost view = event@;
            let last = matches!(event, ChatEvent::Rejected { .. });
            out.push(event);
            assert(event_views(out@) =~= event_views(before).push(view));
            if last {
                assert(event_views(out@) =~= event_views(before) + seq![view]);
                return out;
            }
            assert(event_views(before) + (seq![view] + events_in(all.skip(i as int + 1)))
                =~= event_views(out@) + events_in(all.skip(i as int + 1)));
        }
    }
    assert(event_views(out@) + events_in(all.skip(lines@.len() as int)) =~= event_views(out@));
    out
}

// ---------------------------------------------------------------------------
// Lines that go out
// ---------------------------------------------------------------------------
/// The token to log in with; without one, any will do for reading.
pub open spec fn pass_of(oauth_token: Seq<char>) -> Seq<char> {
    if oauth_token.len() == 0 {
        "oauth:123456"@
    } else {
        oauth_token
    }
}

/// The name to log in with; without one, that of an anonymous reader.
pub open spec fn nick_for(username: Seq<char>) -> Seq<char> {
    if username.len() == 0 {
        "justinfan123"@
    } else {
        lowercase_of(username)
    }
}

/// The lines with which the adapter logs in and joins the channel.
pub fn greeting(known: &Credentials) -> (r: Vec<String>)
    ensures
        r@.len() == 4,
        r@[0]@ == "PASS "@ + pass_of(known.oauth_token@),
        r@[1]@ == "NICK "@ + nick_for(known.username@),
        r@[2]@ == "JOIN #"@ + lowercase_of(known.channel@),
        r@[3]@ == "CAP req :twitch.tv/tags twitch.tv/commands"@,
        known.username@.len() > 0 && is_ascii_chars(known.username@) ==> lowercase_of(
            known.username@,
        ) == ascii_lowered(known.username@),
        is_ascii_chars(known.channel@) ==> lowercase_of(known.channel@) == ascii_lowered(
            known.channel@,
        ),
{
    let pass = if known.oauth_token.as_str().is_empty() {
        "oauth:123456"
    } else {
        known.oauth_token.as_str()
    };
    let nick = if known.username.as_str().is_empty() {
        "justinfan123".to_string()
    } else {
        known.username.as_str().to_lowercase()
    };
    let channel = known.channel.as_str().to_lowercase();
    let mut lines: Vec<String> = Vec::new();
    lines.push("PASS ".to_string().concat(pass));
    lines.push("NICK ".to_string().concat(nick.as_str()));
    lines.push("JOIN #".to_string().concat(channel.as_str()));
    lines.push("CAP req :twitch.tv/tags twitch.tv/commands".to_string());
    lines
}

/// The answer to a ping.
pub fn pong() -> (r: String)
    ensures
        r@ == "PONG :tmi.twitch.tv"@,
{
    "PONG :tmi.twitch.tv".to_string()
}

/// The line that says `message` in the channel named `channel` in lower case.
pub open spec fn say_line(channel: Seq<char>, message: Seq<char>) -> Seq<char> {
    "PRIVMSG #"@ + channel + " :"@ + on_one_line(message)
}

/// The line that says `message` in `channel`. A message of several lines is
/// said on one.
pub fn say(channel: &str, message: &str) -> (r: String)
    ensures
        r@ == say_line(lowercase_of(channel@), message@),
        is_ascii_chars(channel@) ==> lowercase_of(channel@) == ascii_lowered(channel@),
{
    let name = channel.to_lowercase();
    let safe = text::one_line(message);
    "PRIVMSG #".to_string().concat(name.as_str()).concat(" :").concat(safe.as_str())
}

/// What happens on the connection to Twitch, or is to be said there.
#[derive(Debug)]
pub enum ChatInput {
    /// Text came in.
    Text(String),
    /// Something else came in.
    Other,
    /// The connection was closed, failed or ended.
    Lost,
    /// The engine has something to say, or never will again.
    Outbound(Option<String>),
}

/// What the adapter does about it.
#[derive(Debug)]
pub enum ChatAction {
    /// Deals with these events, in order.
    Handle(Vec<ChatEvent>),
    /// Sends a line.
    Send(String),
    Ignore,
    /// Connects anew after a pause.
    Reconnect,
}

/// Decides what to do about `input`, in the chat of `channel`.
pub fn on_chat_input(channel: &str, input: ChatInput) -> (action: ChatAction)
    ensures
        match input {
            ChatInput::Text(text) => action matches ChatAction::Handle(events) && event_views(
                events@,
            ) == events_in(lines_of(text@)),
            ChatInput::Other => action == ChatAction::Ignore,
            ChatInput::Lost => action == ChatAction::Reconnect,
            ChatInput::Outbound(Some(message)) => action matches ChatAction::Send(line) && line@
                == say_line(lowercase_of(channel@), message@) && (is_ascii_chars(channel@)
                ==> lowercase_of(channel@) == ascii_lowered(channel@)),
            ChatInput::Outbound(None) => action == ChatAction::Reconnect,
        },
{
    match input {
        ChatInput::Text(text) => ChatAction::Handle(read_text(text.as_str())),
        ChatInput::Other => ChatAction::Ignore,
        ChatInput::Lost => ChatAction::Reconnect,
        ChatInput::Outbound(Some(message)) => ChatAction::Send(say(channel, message.as_str())),
        ChatInput::Outbound(None) => ChatAction::Reconnect,
    }
}

// ---------------------------------------------------------------------------
// Laws
// ---------------------------------------------------------------------------
/// The message is what stands behind the colon that follows ` PRIVMSG ` and
/// the channel, whatever stands in front.
pub proof fn law_message_is_found(head: Seq<char>, target: Seq<char>, message: Seq<char>)
    requires
        !contains_text(head + " "@, " PRIVMSG "@),
        !target.contains(':'),
    ensures
        message_of(head + " PRIVMSG "@ + target + ":"@ + message) == Some(trimmed(message)),
{
    reveal_strlit(" PRIVMSG ");
    reveal_strlit(" ");
    reveal_strlit(":");
    let p = " PRIVMSG "@;
    let line = head + p + target + ":"@ + message;
    let n = head.len() as int;
    assert(line.subrange(n, n + 9) =~= p);
    assert forall|j: int| 0 <= j < n implies !occurs_at(line, p, j) by {
        if occurs_at(line, p, j) {
            let found = line.subrange(j, j + 9);
            if j + 9 <= n + 1 {
                assert((head + " "@).subrange(j, j + 9) =~= found);
                assert(occurs_at(head + " "@, p, j));
            } else {
                // The space in front of the word would be one of its letters.
                assert(found[n - j] == line[n]);
                assert(line[n] == p[0]);
                assert(1 <= n - j < 8);
                assert(p[n - j] != ' ');
            }
        }
    }
    text::lemma_position_of(line, p, n);
    let rest = line.skip(n + 9);
    let colon = target.len() as int;
    assert(rest =~= target + ":"@ + message);
    assert(rest[colon] == ':');
    assert forall|j: int| 0 <= j < colon implies rest[j] != ':' by {
        assert(rest[j] == target[j]);
    }
    text::lemma_position_of_char(rest, ':', colon);
    assert(rest.skip(colon + 1) =~= message);
}

/// The message does not change who wrote it, where a display name or an
/// exclamation mark stands before it, or no exclamation mark in it.
pub proof fn law_message_does_not_change_the_author(
    head: Seq<char>,
    target: Seq<char>,
    message: Seq<char>,
    other: Seq<char>,
)
    requires
        ({
            let front = head + " PRIVMSG "@ + target + ":"@;
            ||| display_name_of(front) is Some
            ||| front.contains('!')
            ||| !message.contains('!') && !other.contains('!')
        }),
    ensures
        author_of(head + " PRIVMSG "@ + target + ":"@ + message) == author_of(
            head + " PRIVMSG "@ + target + ":"@ + other,
        ),
{
    let front = head + " PRIVMSG "@ + target + ":"@;
    reveal_strlit(" PRIVMSG ");
    reveal_strlit(":");
    assert(front[head.len() as int] == ' ');
    assert(front.last() == ':');
    lemma_author_in_front(front, message);
    lemma_author_in_front(front, other);
}

/// The author of a line whose front holds a space and a colon.
proof fn lemma_author_in_front(front: Seq<char>, rest: Seq<char>)
    requires
        front.contains(' '),
        front.contains(':'),
    ensures
        display_name_of(front + rest) == display_name_of(front),
        front.contains('!') || !rest.contains('!') ==> nick_of(front + rest) == nick_of(front),
{
    let line = front + rest;
    lemma_char_in_front(front, rest, ' ');
    lemma_char_in_front(front, rest, ':');
    text::lemma_position_of_char_some(front, ' ');
    let end = position_of_char(front, ' ')->0;
    assert(line[0] == front[0]);
    if end > 0 {
        assert(line.subrange(1, end) =~= front.subrange(1, end));
    }
    if front.contains('!') {
        lemma_char_in_front(front, rest, '!');
        text::lemma_position_of_char_some(front, ':');
        text::lemma_position_of_char_some(front, '!');
        let start = position_of_char(front, ':')->0;
        let stop = position_of_char(front, '!')->0;
        if start < stop {
            assert(line.subrange(start + 1, stop) =~= front.subrange(start + 1, stop));
        }
    } else if !rest.contains('!') {
        text::lemma_position_of_char_some(front, '!');
        text::lemma_position_of_char_some(line, '!');
        if line.contains('!') {
            let i = choose|i: int| 0 <= i < line.len() && line[i] == '!';
            if i < front.len() {
                assert(front[i] == '!');
            } else {
                assert(rest[i - front.len()] == '!');
            }
        }
    }
}

/// A character that the front holds is found there.
proof fn lemma_char_in_front(front: Seq<char>, rest: Seq<char>, c: char)
    requires
        front.contains(c),
    ensures
        position_of_char(front + rest, c) == position_of_char(front, c),
{
    text::lemma_position_of_char_some(front, c);
    let i = position_of_char(front, c)->0;
    assert((front + rest)[i] == c);
    assert forall|j: int| 0 <= j < i implies (front + rest)[j] != c by {
        assert((front + rest)[j] == front[j]);
    }
    text::lemma_position_of_char(front + rest, c, i);
}

/// In a line without tags, the author is the nick name in front of the
/// exclamation mark.
pub proof fn law_nick_name_is_the_author(nick: Seq<char>, rest: Seq<char>)
    requires
        !nick.contains('!'),
    ensures
        author_of(":"@ + nick + "!"@ + rest) == nick,
{
    reveal_strlit(":");
    reveal_strlit("!");
    let line = ":"@ + nick + "!"@ + rest;
    let end = nick.len() as int + 1;
    assert(line[0] == ':');
    assert(line[end] == '!');
    text::lemma_position_of_char(line, ':', 0);
    assert forall|j: int| 0 <= j < end implies line[j] != '!' by {
        if j > 0 {
            assert(line[j] == nick[j - 1]);
        }
    }
    text::lemma_position_of_char(line, '!', end);
    assert(line.subrange(1, end) =~= nick);
}

/// In a line with tags, the author is the display name of the last tag that
/// gives one.
pub proof fn law_display_name_is_the_author(
    tags: Seq<Seq<char>>,
    at: int,
    name: Seq<char>,
    rest: Seq<char>,
)
    requires
        0 <= at < tags.len(),
        tags[at] == "display-name="@ + name,
        name.len() > 0,
        forall|i: int|
            at < i < tags.len() ==> !("display-name="@.is_prefix_of(#[trigger] tags[i]))
                || tags[i] == "display-name="@,
        forall|i: int, j: int|
            0 <= i < tags.len() && 0 <= j < tags[i].len() ==> (#[trigger] tags[i][j]) != ';'
                && tags[i][j] != ' ',
    ensures
        author_of("@"@ + text::joined(tags, ";"@) + " "@ + rest) == name,
{
    reveal_strlit("@");
    reveal_strlit(" ");
    reveal_strlit(";");
    assert(";"@ =~= seq![';']);
    let body = text::joined(tags, ";"@);
    let line = "@"@ + body + " "@ + rest;
    let end = body.len() as int + 1;
    lemma_joined_lacks(tags, ' ');
    assert(line[0] == '@');
    assert(line[end] == ' ');
    assert forall|j: int| 0 <= j < end implies line[j] != ' ' by {
        if j > 0 {
            assert(line[j] == body[j - 1]);
        }
    }
    text::lemma_position_of_char(line, ' ', end);
    assert(line.subrange(1, end) =~= body);
    assert forall|i: int, j: int| 0 <= i < tags.len() && 0 <= j < tags[i].len() implies !(is_char(
        ';',
    )(#[trigger] tags[i][j])) by {}
    text::law_joined_pieces_come_apart(tags, ';', is_char(';'));
    assert forall|i: int| at < i < tags.len() implies name_in_tag(#[trigger] tags[i]) is None by {}
    lemma_last_name(tags, at, name);
}

proof fn lemma_joined_lacks(parts: Seq<Seq<char>>, c: char)
    requires
        c != ';',
        forall|i: int, j: int|
            0 <= i < parts.len() && 0 <= j < parts[i].len() ==> (#[trigger] parts[i][j]) != c,
    ensures
        forall|j: int|
            0 <= j < text::joined(parts, ";"@).len() ==> #[trigger] text::joined(parts, ";"@)[j]
                != c,
    decreases parts.len(),
{
    reveal_strlit(";");
    if parts.len() > 1 {
        let front = parts.drop_last();
        assert forall|i: int, j: int| 0 <= i < front.len() && 0 <= j < front[i].len() implies (
        #[trigger] front[i][j]) != c by {
            assert(parts[i][j] != c);
        }
        lemma_joined_lacks(front, c);
        let whole = text::joined(parts, ";"@);
        let before = text::joined(front, ";"@);
        assert forall|j: int| 0 <= j < whole.len() implies #[trigger] whole[j] != c by {
            if j < before.len() {
                assert(whole[j] == before[j]);
            } else if j > before.len() {
                assert(whole[j] == parts[parts.len() - 1][j - before.len() - 1]);
            }
        }
    } else if parts.len() == 1 {
        assert forall|j: int| 0 <= j < parts[0].len() implies parts[0][j] != c by {}
    }
}

proof fn lemma_last_name(tags: Seq<Seq<char>>, at: int, name: Seq<char>)
    requires
        0 <= at < tags.len(),
        tags[at] == "display-name="@ + name,
        name.len() > 0,
        forall|i: int| at < i < tags.len() ==> name_in_tag(#[trigger] tags[i]) is None,
    ensures
        name_in_tags(tags) == Some(name),
    decreases tags.len(),
{
    if at == tags.len() - 1 {
        let tag = tags.last();
        let p = "display-name="@;
        assert(tag.subrange(0, p.len() as int) =~= p);
        assert(tag.skip(p.len() as int) =~= name);
    } else {
        assert(name_in_tag(tags[tags.len() - 1]) is None);
        lemma_last_name(tags.drop_last(), at, name);
    }
}

/// A chat line without tags is read as the message that it carries, under the
/// nick name of its sender.
pub proof fn law_plain_line_is_read(
    nick: Seq<char>,
    host: Seq<char>,
    target: Seq<char>,
    message: Seq<char>,
)
    requires
        !nick.contains('!'),
        !contains_text(":"@ + nick + "!"@ + host + " "@, " PRIVMSG "@),
        !target.contains(':'),
        ({
            let line = ":"@ + nick + "!"@ + host + " PRIVMSG "@ + target + ":"@ + message;
            &&& !contains_text(line, "Login authentication failed"@)
            &&& !contains_text(line, "Improperly formatted auth"@)
            &&& !contains_text(line, "Login unsuccessful"@)
            &&& !contains_text(line, "authentication failed"@)
        }),
    ensures
        ({
            let line = ":"@ + nick + "!"@ + host + " PRIVMSG "@ + target + ":"@ + message;
            event_in(line) == Some(
                ChatEventView::Message { line, author: nick, message: trimmed(message) },
            )
        }),
{
    reveal_strlit("PING");
    reveal_strlit(":");
    let line = ":"@ + nick + "!"@ + host + " PRIVMSG "@ + target + ":"@ + message;
    let rest = host + " PRIVMSG "@ + target + ":"@ + message;
    law_message_is_found(":"@ + nick + "!"@ + host, target, message);
    assert(":"@ + nick + "!"@ + rest =~= line);
    law_nick_name_is_the_author(nick, rest);
    assert(line[0] == ':');
    assert(!("PING"@.is_prefix_of(line))) by {
        if "PING"@.is_prefix_of(line) {
            assert(line.subrange(0, 4)[0] == line[0]);
        }
    }
}

/// A chat line with tags is read as the message that it carries, under the
/// display name in its tags.
pub proof fn law_tagged_line_is_read(
    tags: Seq<Seq<char>>,
    at: int,
    name: Seq<char>,
    source: Seq<char>,
    target: Seq<char>,
    message: Seq<char>,
)
    requires
        0 <= at < tags.len(),
        tags[at] == "display-name="@ + name,
        name.len() > 0,
        forall|i: int|
            at < i < tags.len() ==> !("display-name="@.is_prefix_of(#[trigger] tags[i]))
                || tags[i] == "display-name="@,
        forall|i: int, j: int|
            0 <= i < tags.len() && 0 <= j < tags[i].len() ==> (#[trigger] tags[i][j]) != ';'
                && tags[i][j] != ' ',
        !contains_text("@"@ + text::joined(tags, ";"@) + " "@ + source + " "@, " PRIVMSG "@),
        !target.contains(':'),
        ({
            let line = "@"@ + text::joined(tags, ";"@) + " "@ + source + " PRIVMSG "@ + target
                + ":"@ + message;
            &&& !contains_text(line, "Login authentication failed"@)
            &&& !contains_text(line, "Improperly formatted auth"@)
            &&& !contains_text(line, "Login unsuccessful"@)
            &&& !contains_text(line, "authentication failed"@)
        }),
    ensures
        ({
            let line = "@"@ + text::joined(tags, ";"@) + " "@ + source + " PRIVMSG "@ + target
                + ":"@ + message;
            event_in(line) == Some(
                ChatEventView::Message { line, author: name, message: trimmed(message) },
            )
        }),
{
    reveal_strlit("PING");
    reveal_strlit("@");
    let front = "@"@ + text::joined(tags, ";"@) + " "@;
    let line = front + source + " PRIVMSG "@ + target + ":"@ + message;
    let rest = source + " PRIVMSG "@ + target + ":"@ + message;
    law_message_is_found(front + source, target, message);
    assert(front + rest =~= line);
    law_display_name_is_the_author(tags, at, name, rest);
    assert(line[0] == '@');
    assert(!("PING"@.is_prefix_of(line))) by {
        if "PING"@.is_prefix_of(line) {
            assert(line.subrange(0, 4)[0] == line[0]);
        }
    }
}

/// Without a rejection among the first of them, lines mean what their two
/// parts mean.
pub proof fn law_lines_mean_what_their_parts_mean(a: Seq<Seq<char>>, b: Seq<Seq<char>>)
    requires
        forall|i: int| 0 <= i < a.len() ==> !rejects(#[trigger] a[i]),
    ensures
        events_in(a + b) == events_in(a) + events_in(b),
    decreases a.len(),
{
    if a.len() == 0 {
        assert(a + b =~= b);
        assert(events_in(a) + events_in(b) =~= events_in(b));
    } else {
        let rest = a.drop_first();
        assert(!rejects(a[0]));
        assert forall|i: int| 0 <= i < rest.len() implies !rejects(#[trigger] rest[i]) by {
            assert(rest[i] == a[i + 1]);
        }
        assert((a + b)[0] == a[0]);
        assert((a + b).drop_first() =~= rest + b);
        law_lines_mean_what_their_parts_mean(rest, b);
        assert(events_in(a + b) =~= events_in(a) + events_in(b));
    }
}

/// A rejection among the lines is always the last event, and nothing behind
/// it counts.
pub proof fn law_rejection_comes_last(
    before: Seq<Seq<char>>,
    line: Seq<char>,
    after: Seq<Seq<char>>,
)
    requires
        forall|i: int| 0 <= i < before.len() ==> !rejects(#[trigger] before[i]),
        rejects(line),
    ensures
        events_in(before + seq![line] + after) == events_in(before).push(
            ChatEventView::Rejected { line },
        ),
{
    let tail = seq![line] + after;
    assert(before + seq![line] + after =~= before + tail);
    law_lines_mean_what_their_parts_mean(before, tail);
    assert(tail[0] == line);
    assert(events_in(tail) =~= seq![ChatEventView::Rejected { line }]);
    assert(events_in(before) + seq![ChatEventView::Rejected { line }] =~= events_in(before).push(
        ChatEventView::Rejected { line },
    ));
}

/// What is said is one line, however many the message has, where the channel
/// holds no line break.
pub proof fn law_said_on_one_line(channel: Seq<char>, message: Seq<char>)
    requires
        !channel.contains('\n') && !channel.contains('\r'),
    ensures
        !say_line(channel, message).contains('\n'),
        !say_line(channel, message).contains('\r'),
{
    reveal_strlit("PRIVMSG #");
    reveal_strlit(" :");
    let line = say_line(channel, message);
    let safe = on_one_line(message);
    assert forall|i: int| 0 <= i < line.len() implies line[i] != '\n' && line[i] != '\r' by {
        let k = i - "PRIVMSG #"@.len();
        let m = k - channel.len();
        if k < 0 {
            assert(line[i] == "PRIVMSG #"@[i]);
        } else if m < 0 {
            assert(line[i] == channel[k]);
        } else if m < " :"@.len() {
            assert(line[i] == " :"@[m]);
        } else {
            assert(line[i] == safe[m - " :"@.len()]);
        }
    }
}

/// A message of one line is said as it is.
pub proof fn law_one_line_is_said_as_it_is(channel: Seq<char>, message: Seq<char>)
    requires
        !message.contains('\n') && !message.contains('\r'),
    ensures
        say_line(channel, message) == "PRIVMSG #"@ + channel + " :"@ + message,
{
    assert forall|i: int| 0 <= i < message.len() implies on_one_line(message)[i] == message[i] by {
        assert(message.contains(message[i]));
    }
    assert(on_one_line(message) =~= message);
}

/// Twitch rejects the credentials exactly in a line that holds one of its four
/// wordings.
pub proof fn law_rejections_have_their_words(line: &str, r: Option<ChatEvent>)
    requires
        call_ensures(read_line, (line,), r),
    ensures
        r matches Some(ChatEvent::Rejected { line: told }) ==> told@ == line@,
        (r matches Some(ChatEvent::Rejected { .. })) <==> {
            ||| exists|a: Seq<char>, b: Seq<char>|
                line@ == #[trigger] (a + "Login authentication failed"@ + b)
            ||| exists|a: Seq<char>, b: Seq<char>|
                line@ == #[trigger] (a + "Improperly formatted auth"@ + b)
            ||| exists|a: Seq<char>, b: Seq<char>|
                line@ == #[trigger] (a + "Login unsuccessful"@ + b)
            ||| exists|a: Seq<char>, b: Seq<char>|
                line@ == #[trigger] (a + "authentication failed"@ + b)
        },
{
    text::law_contained_text_stands_between(line@, "Login authentication failed"@);
    text::law_contained_text_stands_between(line@, "Improperly formatted auth"@);
    text::law_contained_text_stands_between(line@, "Login unsuccessful"@);
    text::law_contained_text_stands_between(line@, "authentication failed"@);
}

/// A line is a ping exactly where it begins in `PING` and is no rejection.
pub proof fn law_pings_begin_in_their_word(line: &str, r: Option<ChatEvent>)
    requires
        call_ensures(read_line, (line,), r),
    ensures
        r == Some(ChatEvent::Ping) <==> {
            &&& !contains_text(line@, "Login authentication failed"@)
            &&& !contains_text(line@, "Improperly formatted auth"@)
            &&& !contains_text(line@, "Login unsuccessful"@)
            &&& !contains_text(line@, "authentication failed"@)
            &&& exists|rest: Seq<char>| line@ == #[trigger] ("PING"@ + rest)
        },
{
    lemma_prefix_stands_in_front("PING"@, line@);
}

proof fn lemma_prefix_stands_in_front(p: Seq<char>, s: Seq<char>)
    ensures
        p.is_prefix_of(s) <==> exists|rest: Seq<char>| s == #[trigger] (p + rest),
{
    if p.is_prefix_of(s) {
        assert(s =~= p + s.skip(p.len() as int)) by {
            assert forall|j: int| 0 <= j < p.len() implies s[j] == p[j] by {
                assert(s.subrange(0, p.len() as int)[j] == p[j]);
            }
        }
    }
    if exists|rest: Seq<char>| s == #[trigger] (p + rest) {
        let rest = choose|rest: Seq<char>| s == #[trigger] (p + rest);
        assert(s.subrange(0, p.len() as int) =~= p);
    }
}

/// A line that is neither a rejection nor a ping is the message that it
/// carries, whatever that says.
pub proof fn law_chat_line_is_its_message(
    line: &str,
    r: Option<ChatEvent>,
    head: Seq<char>,
    target: Seq<char>,
    message: Seq<char>,
)
    requires
        call_ensures(read_line, (line,), r),
        line@ == head + " PRIVMSG "@ + target + ":"@ + message,
        !contains_text(head + " "@, " PRIVMSG "@),
        !target.contains(':'),
        !contains_text(line@, "Login authentication failed"@),
        !contains_text(line@, "Improperly formatted auth"@),
        !contains_text(line@, "Login unsuccessful"@),
        !contains_text(line@, "authentication failed"@),
        forall|rest: Seq<char>| line@ != #[trigger] ("PING"@ + rest),
    ensures
        r matches Some(ChatEvent::Message { line: told, author, message: text }) && told@ == line@
            && author@ == author_of(line@) && text@ == trimmed(message),
{
    law_message_is_found(head, target, message);
    lemma_prefix_stands_in_front("PING"@, line@);
}

/// A line carries a message exactly where a colon stands somewhere behind
/// ` PRIVMSG `.
pub proof fn law_messages_stand_behind_their_word(line: &str, r: Option<(String, String)>)
    requires
        call_ensures(parse_twitch_privmsg, (line,), r),
    ensures
        r is Some <==> exists|head: Seq<char>, target: Seq<char>, message: Seq<char>|
            line@ == #[trigger] (head + " PRIVMSG "@ + target + ":"@ + message),
        r matches Some(chat) ==> chat.0@ == author_of(line@),
{
    let p = " PRIVMSG "@;
    reveal_strlit(" PRIVMSG ");
    reveal_strlit(":");
    text::lemma_position_of_some(line@, p);
    if r is Some {
        let at = position_of(line@, p)->0;
        let rest = line@.skip(at + p.len());
        text::lemma_position_of_char_some(rest, ':');
        let colon = position_of_char(rest, ':')->0;
        let head = line@.take(at);
        let target = rest.take(colon);
        let message = rest.skip(colon + 1);
        assert(occurs_at(line@, p, at));
        assert forall|j: int| 0 <= j < 9 implies line@[at + j] == p[j] by {
            assert(line@.subrange(at, at + 9)[j] == p[j]);
        }
        assert(line@ =~= head + p + target + ":"@ + message);
    }
    if exists|head: Seq<char>, target: Seq<char>, message: Seq<char>|
        line@ == #[trigger] (head + " PRIVMSG "@ + target + ":"@ + message) {
        let (head, target, message) = choose|head: Seq<char>, target: Seq<char>, message: Seq<char>|
            line@ == #[trigger] (head + " PRIVMSG "@ + target + ":"@ + message);
        let n = head.len() as int;
        assert(line@.subrange(n, n + 9) =~= p);
        assert(occurs_at(line@, p, n));
        let at = position_of(line@, p)->0;
        assert(at <= n);
        let rest = line@.skip(at + p.len());
        let place = n - at + target.len();
        assert(line@[n + 9 + target.len()] == ':');
        assert(rest[place] == ':');
        text::lemma_position_of_char_some(rest, ':');
    }
}

/// Without a display name in its tags, a line's author is what stands between
/// its first colon and the first exclamation mark behind that.
pub proof fn law_nick_name_stands_in_for_a_display_name(
    line: Seq<char>,
    tags: Seq<Seq<char>>,
    rest: Seq<char>,
    before: Seq<char>,
    nick: Seq<char>,
    after: Seq<char>,
)
    requires
        line.len() == 0 || line[0] != '@' || (tags.len() > 0 && line == "@"@ + text::joined(
            tags,
            ";"@,
        ) + " "@ + rest),
        forall|i: int|
            0 <= i < tags.len() ==> !("display-name="@.is_prefix_of(#[trigger] tags[i])) || tags[i]
                == "display-name="@,
        forall|i: int, j: int|
            0 <= i < tags.len() && 0 <= j < tags[i].len() ==> (#[trigger] tags[i][j]) != ';'
                && tags[i][j] != ' ',
        line == before + ":"@ + nick + "!"@ + after,
        !before.contains(':') && !before.contains('!') && !nick.contains('!'),
    ensures
        author_of(line) == nick,
{
    reveal_strlit(":");
    reveal_strlit("!");
    lemma_no_display_name(line, tags, rest);
    let start = before.len() as int;
    let stop = start + 1 + nick.len();
    assert(line[start] == ':');
    assert(line[stop] == '!');
    assert forall|j: int| 0 <= j < start implies line[j] != ':' && line[j] != '!' by {
        assert(before.contains(before[j]));
        assert(line[j] == before[j]);
    }
    assert forall|j: int| start < j < stop implies line[j] != '!' by {
        assert(nick.contains(nick[j - start - 1]));
        assert(line[j] == nick[j - start - 1]);
    }
    text::lemma_position_of_char(line, ':', start);
    text::lemma_position_of_char(line, '!', stop);
    assert(line.subrange(start + 1, stop) =~= nick);
}

/// Without a display name, and without an exclamation mark behind a colon,
/// nobody is known to have written a line.
pub proof fn law_nobody_known_is_unknown(
    line: Seq<char>,
    tags: Seq<Seq<char>>,
    rest: Seq<char>,
)
    requires
        line.len() == 0 || line[0] != '@' || (tags.len() > 0 && line == "@"@ + text::joined(
            tags,
            ";"@,
        ) + " "@ + rest),
        forall|i: int|
            0 <= i < tags.len() ==> !("display-name="@.is_prefix_of(#[trigger] tags[i])) || tags[i]
                == "display-name="@,
        forall|i: int, j: int|
            0 <= i < tags.len() && 0 <= j < tags[i].len() ==> (#[trigger] tags[i][j]) != ';'
                && tags[i][j] != ' ',
        !line.contains(':') || !line.contains('!') || exists|before: Seq<char>, after: Seq<char>|
            line == #[trigger] (before + "!"@ + after) && !before.contains(':'),
    ensures
        author_of(line) == "Unknown"@,
{
    reveal_strlit("!");
    lemma_no_display_name(line, tags, rest);
    text::lemma_position_of_char_some(line, ':');
    text::lemma_position_of_char_some(line, '!');
    if line.contains(':') && line.contains('!') {
        let (before, after) = choose|before: Seq<char>, after: Seq<char>|
            line == #[trigger] (before + "!"@ + after) && !before.contains(':');
        let start = position_of_char(line, ':')->0;
        let stop = position_of_char(line, '!')->0;
        let n = before.len() as int;
        assert(line[n] == '!');
        assert(stop <= n);
        if start < n {
            assert(before[start] == ':');
        }
        assert(start != stop);
    }
}

proof fn lemma_no_display_name(line: Seq<char>, tags: Seq<Seq<char>>, rest: Seq<char>)
    requires
        line.len() == 0 || line[0] != '@' || (tags.len() > 0 && line == "@"@ + text::joined(
            tags,
            ";"@,
        ) + " "@ + rest),
        forall|i: int|
            0 <= i < tags.len() ==> !("display-name="@.is_prefix_of(#[trigger] tags[i])) || tags[i]
                == "display-name="@,
        forall|i: int, j: int|
            0 <= i < tags.len() && 0 <= j < tags[i].len() ==> (#[trigger] tags[i][j]) != ';'
                && tags[i][j] != ' ',
    ensures
        display_name_of(line) is None,
{
    text::lemma_position_of_char_some(line, ' ');
    if line.len() > 0 && line[0] == '@' {
        reveal_strlit("@");
        reveal_strlit(" ");
        reveal_strlit(";");
        assert(";"@ =~= seq![';']);
        let body = text::joined(tags, ";"@);
        let end = body.len() as int + 1;
        lemma_joined_lacks(tags, ' ');
        assert(line[end] == ' ');
        assert forall|j: int| 0 <= j < end implies line[j] != ' ' by {
            if j > 0 {
                assert(line[j] == body[j - 1]);
            }
        }
        text::lemma_position_of_char(line, ' ', end);
        assert(line.subrange(1, end) =~= body);
        assert forall|i: int, j: int| 0 <= i < tags.len() && 0 <= j < tags[i].len() implies !(
        is_char(';')(#[trigger] tags[i][j])) by {}
        text::law_joined_pieces_come_apart(tags, ';', is_char(';'));
        assert forall|i: int| 0 <= i < tags.len() implies name_in_tag(
            #[trigger] tags[i],
        ) is None by {}
        lemma_no_name(tags);
    }
}

proof fn lemma_no_name(tags: Seq<Seq<char>>)
    requires
        forall|i: int| 0 <= i < tags.len() ==> name_in_tag(#[trigger] tags[i]) is None,
    ensures
        name_in_tags(tags) is None,
    decreases tags.len(),
{
    if tags.len() > 0 {
        assert(name_in_tag(tags[tags.len() - 1]) is None);
        lemma_no_name(tags.drop_last());
    }
}

/// A single line means one event or none, the one that is read of it.
pub proof fn law_one_line_is_one_event(line: &str, r: Option<ChatEvent>)
    requires
        call_ensures(read_line, (line,), r),
    ensures
        r matches Some(event) ==> events_in(seq![line@]) == seq![event@],
        r is None ==> events_in(seq![line@]) == Seq::<ChatEventView>::empty(),
{
    let lines = seq![line@];
    assert(lines.drop_first() =~= Seq::empty());
    assert(events_in(lines.drop_first()) =~= Seq::<ChatEventView>::empty());
    assert(lines[0] == line@);
    if let Some(event) = r {
        assert(seq![event@] + Seq::<ChatEventView>::empty() =~= seq![event@]);
    }
}

/// A text is read as the one line after the other that make it up: the first
/// line's events come first, and unless it is a rejection the others follow.
pub proof fn law_text_is_read_line_by_line(
    text: &str,
    r: Vec<ChatEvent>,
    line: Seq<char>,
    rest: Seq<char>,
)
    requires
        call_ensures(read_text, (text,), r),
        !line.contains('\n'),
        text@ == line + "\r\n"@ + rest,
    ensures
        event_in(line) matches Some(ChatEventView::Rejected { .. }) ==> event_views(r@) == seq![
            event_in(line)->0,
        ],
        !(event_in(line) matches Some(ChatEventView::Rejected { .. })) ==> event_views(r@)
            == events_in(seq![line]) + events_in(lines_of(rest)),
{
    text::law_lines_come_one_by_one(line, rest);
    let lines = seq![line] + lines_of(rest);
    assert(lines[0] == line);
    assert(lines.drop_first() =~= lines_of(rest));
    assert(seq![line].drop_first() =~= Seq::empty());
    assert(events_in(Seq::<Seq<char>>::empty()) =~= Seq::<ChatEventView>::empty());
    assert(seq![line][0] == line);
    match event_in(line) {
        Some(event) => {
            assert(seq![event] + Seq::<ChatEventView>::empty() =~= seq![event]);
        },
        None => {
            assert(Seq::<ChatEventView>::empty() + events_in(lines_of(rest)) =~= events_in(
                lines_of(rest),
            ));
        },
    }
}

/// The adapter logs in with the very token and name that it has, in lower case
/// the name, and anonymously with what it lacks; it joins the very channel.
pub proof fn law_greeting_tells_the_credentials(known: &Credentials, r: Vec<String>)
    requires
        call_ensures(greeting, (known,), r),
    ensures
        r@.len() == 4,
        known.oauth_token@.len() > 0 ==> r@[0]@ == "PASS "@ + known.oauth_token@,
        known.oauth_token@.len() == 0 ==> r@[0]@ == "PASS "@ + "oauth:123456"@,
        known.username@.len() > 0 ==> r@[1]@ == "NICK "@ + lowercase_of(known.username@),
        known.username@.len() == 0 ==> r@[1]@ == "NICK "@ + "justinfan123"@,
        r@[2]@ == "JOIN #"@ + lowercase_of(known.channel@),
        r@[3]@ == "CAP req :twitch.tv/tags twitch.tv/commands"@,
{
}

/// What is said is the message, character by character, with a space for each
/// line break.
pub proof fn law_said_character_by_character(channel: &str, message: &str, r: String)
    requires
        call_ensures(say, (channel, message), r),
    ensures
        exists|said: Seq<char>|
            {
                &&& r@ == #[trigger] ("PRIVMSG #"@ + lowercase_of(channel@) + " :"@ + said)
                &&& said.len() == message@.len()
                &&& forall|i: int|
                    0 <= i < said.len() ==> said[i] == (if #[trigger] message@[i] == '\n'
                        || message@[i] == '\r' {
                        ' '
                    } else {
                        message@[i]
                    })
            },
{
    let said = on_one_line(message@);
    assert(r@ == "PRIVMSG #"@ + lowercase_of(channel@) + " :"@ + said);
}

/// Only a line that carries a message is one, and what it says is what stands
/// behind the first colon that follows the first ` PRIVMSG `.
pub proof fn law_only_messages_are_messages(line: &str, r: Option<ChatEvent>)
    requires
        call_ensures(read_line, (line,), r),
        r matches Some(ChatEvent::Message { .. }),
    ensures
        r matches Some(ChatEvent::Message { line: told, author, message }) && told@ == line@
            && author@ == author_of(line@) && exists|
            head: Seq<char>,
            target: Seq<char>,
            text: Seq<char>,
        |
            {
                &&& line@ == #[trigger] (head + " PRIVMSG "@ + target + ":"@ + text)
                &&& !contains_text(head + " "@, " PRIVMSG "@)
                &&& !target.contains(':')
                &&& message@ == trimmed(text)
            },
{
    let p = " PRIVMSG "@;
    reveal_strlit(" PRIVMSG ");
    reveal_strlit(":");
    reveal_strlit(" ");
    text::lemma_position_of_some(line@, p);
    let at = position_of(line@, p)->0;
    let rest = line@.skip(at + p.len());
    text::lemma_position_of_char_some(rest, ':');
    let colon = position_of_char(rest, ':')->0;
    let head = line@.take(at);
    let target = rest.take(colon);
    let text = rest.skip(colon + 1);
    assert(occurs_at(line@, p, at));
    assert forall|j: int| 0 <= j < 9 implies line@[at + j] == p[j] by {
        assert(line@.subrange(at, at + 9)[j] == p[j]);
    }
    assert(line@ =~= head + p + target + ":"@ + text);
    if contains_text(head + " "@, p) {
        let i = choose|i: int| occurs_at(head + " "@, p, i);
        assert(line@.subrange(i, i + 9) =~= (head + " "@).subrange(i, i + 9));
        assert(occurs_at(line@, p, i));
    }
    if target.contains(':') {
        let j = choose|j: int| 0 <= j < target.len() && target[j] == ':';
        assert(rest[j] == ':');
    }
}

/// Views show all that there is to an event, and one view stands for each.
pub proof fn law_views_show_the_events(events: Seq<ChatEvent>, i: int)
    requires
        0 <= i < events.len(),
    ensures
        event_views(events).len() == events.len(),
        event_views(events)[i] == events[i]@,
        events[i] matches ChatEvent::Rejected { line } ==> events[i]@ == (
        ChatEventView::Rejected { line: line@ }),
        events[i] is Ping ==> events[i]@ is Ping,
        events[i] matches ChatEvent::Message { line, author, message } ==> events[i]@ == (
        ChatEventView::Message { line: line@, author: author@, message: message@ }),
{
}

} // verus!
