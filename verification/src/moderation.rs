//! Moderator commands in chat: `!ban` and `!timeout`.
use vstd::prelude::*;

use crate::json;
use crate::json::{json_of, Json};
use crate::text;
use crate::text::{
    ascii_lowered, begins_ignoring_case, i64_of, is_char, joined, skip_run, split_first_word,
    trimmed, words_of,
};

verus! {

broadcast use vstd::string::group_string_axioms;

/// A moderator's command.
pub enum ModCommand {
    /// Shut `target` out of the chat.
    Ban { target: String, reason: String },
    /// Silence `target` for `duration_secs` seconds.
    Timeout { target: String, duration_secs: i64, reason: String },
}

/// What a command orders.
pub enum Order {
    Ban { target: Seq<char>, reason: Seq<char> },
    Timeout { target: Seq<char>, duration_secs: i64, reason: Seq<char> },
}

impl View for ModCommand {
    type V = Order;

    open spec fn view(&self) -> Order {
        match self {
            ModCommand::Ban { target, reason } => Order::Ban { target: target@, reason: reason@ },
            ModCommand::Timeout { target, duration_secs, reason } => Order::Timeout {
                target: target@,
                duration_secs: *duration_secs,
                reason: reason@,
            },
        }
    }
}

/// The seconds of a timeout that names none.
pub const DEFAULT_TIMEOUT_SECS: i64 = 300;

/// The name without the at signs in front of it.
pub open spec fn handle(word: Seq<char>) -> Seq<char> {
    skip_run(word, is_char('@'))
}

/// What the arguments of a ban order: a target, then the reason.
pub open spec fn ban_order(args: Seq<char>) -> Option<Order> {
    let (word, rest) = split_first_word(args);
    if handle(word).len() == 0 {
        None
    } else {
        Some(Order::Ban { target: handle(word), reason: trimmed(rest) })
    }
}

/// What the arguments of a timeout order: a target, then the seconds if the
/// next word is an integer, then the words of the reason.
pub open spec fn timeout_order(args: Seq<char>) -> Option<Order> {
    let words = words_of(args);
    if words.len() == 0 || handle(words[0]).len() == 0 {
        None
    } else if words.len() > 1 && i64_of(words[1]) is Some {
        Some(
            Order::Timeout {
                target: handle(words[0]),
                duration_secs: i64_of(words[1])->0,
                reason: joined(words.skip(2), " "@),
            },
        )
    } else {
        Some(
            Order::Timeout {
                target: handle(words[0]),
                duration_secs: DEFAULT_TIMEOUT_SECS,
                reason: joined(words.skip(1), " "@),
            },
        )
    }
}

/// The arguments behind a command's name of `len` characters: one character
/// stands between them, and a text that ends before has none.
pub open spec fn arguments(text: Seq<char>, len: int) -> Seq<char> {
    if len < text.len() {
        trimmed(text.skip(len + 1))
    } else {
        Seq::empty()
    }
}

/// The order in the message `text`, which has no white space at its ends. The
/// name of the command may stand in any case.
pub open spec fn order_in(text: Seq<char>) -> Option<Order> {
    if begins_ignoring_case(text, "!ban"@) {
        ban_order(arguments(text, 4))
    } else if begins_ignoring_case(text, "!timeout"@) {
        timeout_order(arguments(text, 8))
    } else {
        None
    }
}

fn read_ban(args: &str) -> (r: Option<ModCommand>)
    ensures
        r is Some <==> ban_order(args@) is Some,
        r matches Some(command) ==> ban_order(args@) == Some(command@),
{
    let (word, rest) = text::cut_first_word(args);
    let target = text::strip_leading(word, '@');
    if target.is_empty() {
        return None;
    }
    Some(ModCommand::Ban { target: target.to_string(), reason: text::trim(rest).to_string() })
}

fn read_timeout(args: &str) -> (r: Option<ModCommand>)
    ensures
        r is Some <==> timeout_order(args@) is Some,
        r matches Some(command) ==> timeout_order(args@) == Some(command@),
{
    let words = text::words(args);
    let ghost all = words_of(args@);
    assert(all.len() == words@.len());
    if words.len() == 0 {
        return None;
    }
    assert(all[0] == words@[0]@);
    let target = text::strip_leading(words[0], '@');
    if target.is_empty() {
        return None;
    }
    let mut duration_secs: i64 = DEFAULT_TIMEOUT_SECS;
    let mut reason_from: usize = 1;
    if words.len() > 1 {
        assert(all[1] == words@[1]@);
        if let Some(secs) = text::parse_i64(words[1]) {
            duration_secs = secs;
            reason_from = 2;
        }
    }
    let reason = text::join_from(&words, reason_from, " ");
    Some(ModCommand::Timeout { target: target.to_string(), duration_secs, reason })
}

fn cut_arguments<'a>(text: &'a str, len: usize) -> (r: &'a str)
    ensures
        r@ == arguments(text@, len as int),
{
    let end: usize = text.unicode_len();
    if len < end {
        let rest = text::cut(text, len + 1, end);
        assert(rest@ =~= text@.skip(len + 1));
        text::trim(rest)
    } else {
        let none = text::cut(text, end, end);
        assert(none@ =~= Seq::empty());
        none
    }
}

/// Reads a moderator's command in the message `text`, which has no white
/// space at its ends.
///
/// The names hold ASCII letters only, and no character beyond ASCII has a
/// lower case that spells a part of them, so that the case of ASCII letters is
/// all that has to be looked past.
pub fn read_command(text: &str) -> (r: Option<ModCommand>)
    ensures
        r is Some <==> order_in(text@) is Some,
        r matches Some(command) ==> order_in(text@) == Some(command@),
{
    if text::starts_with_ignoring_case(text, "!ban") {
        return read_ban(cut_arguments(text, 4));
    }
    if text::starts_with_ignoring_case(text, "!timeout") {
        return read_timeout(cut_arguments(text, 8));
    }
    None
}

/// The name under which the engine knows an order.
pub open spec fn query_id_of(order: Order) -> Seq<char> {
    match order {
        Order::Ban { .. } => "mod_ban"@,
        Order::Timeout { .. } => "mod_timeout"@,
    }
}

/// An integer as a JSON value.
pub open spec fn integer(n: i64) -> Json {
    if n >= 0 {
        Json::Unsigned(n as u64)
    } else {
        Json::Negative(n)
    }
}

/// Someone on Twitch, as a JSON value.
pub open spec fn actor_of(author: Seq<char>) -> Json {
    Json::Object(map!["platform"@ => Json::Text("twitch"@), "handle"@ => Json::Text(author)])
}

/// An order that `author` gave, as the JSON value that the engine takes.
pub open spec fn payload_of(order: Order, author: Seq<char>) -> Json {
    match order {
        Order::Ban { target, reason } => Json::Object(
            map![
                "platform"@ => Json::Text("twitch"@),
                "handle"@ => Json::Text(target),
                "reason"@ => Json::Text(reason),
                "actor"@ => actor_of(author),
            ],
        ),
        Order::Timeout { target, duration_secs, reason } => Json::Object(
            map![
                "platform"@ => Json::Text("twitch"@),
                "handle"@ => Json::Text(target),
                "duration_secs"@ => integer(duration_secs),
                "reason"@ => Json::Text(reason),
                "actor"@ => actor_of(author),
            ],
        ),
    }
}

/// The JSON value that tells the engine of `command`, given by `author`.
pub fn payload(command: &ModCommand, author: &str) -> (r: serde_json::Value)
    ensures
        json_of(r) == payload_of(command@, author@),
{
    let mut actor = json::empty_object();
    json::set(&mut actor, "platform", json::from_text("twitch"));
    json::set(&mut actor, "handle", json::from_text(author));
    let mut value = json::empty_object();
    json::set(&mut value, "platform", json::from_text("twitch"));
    match command {
        ModCommand::Ban { target, reason } => {
            json::set(&mut value, "handle", json::from_text(target.as_str()));
            json::set(&mut value, "reason", json::from_text(reason.as_str()));
        },
        ModCommand::Timeout { target, duration_secs, reason } => {
            json::set(&mut value, "handle", json::from_text(target.as_str()));
            json::set(&mut value, "duration_secs", json::from_integer(*duration_secs));
            json::set(&mut value, "reason", json::from_text(reason.as_str()));
        },
    }
    json::set(&mut value, "actor", actor);
    value
}

/// The name under which the engine knows `command`.
pub fn query_id(command: &ModCommand) -> (r: String)
    ensures
        r@ == query_id_of(command@),
{
    match command {
        ModCommand::Ban { .. } => "mod_ban".to_string(),
        ModCommand::Timeout { .. } => "mod_timeout".to_string(),
    }
}

/// The order in the chat message `message`.
pub open spec fn order_of(message: Seq<char>) -> Option<Order> {
    order_in(trimmed(message))
}

/// Parses a moderator command (`!ban` or `!timeout`) from a chat message.
/// Returns the query's name and its payload where there is one; a command
/// without a target is none.
pub fn parse_mod_command(message: &str, author: &str) -> (r: Option<(String, serde_json::Value)>)
    ensures
        r is Some <==> order_of(message@) is Some,
        r matches Some(query) ==> order_of(message@) matches Some(order) && query.0@
            == query_id_of(order) && json_of(query.1) == payload_of(order, author@),
{
    match read_command(text::trim(message)) {
        None => None,
        Some(command) => Some((query_id(&command), payload(&command, author))),
    }
}

// ---------------------------------------------------------------------------
// Laws
// ---------------------------------------------------------------------------
/// A payload is shallow and has no number but integers, so that its text can
/// be read without loss.
pub proof fn law_payload_reads_back(order: Order, author: Seq<char>)
    ensures
        json::nested(payload_of(order, author), json::max_depth()),
        json::without_floats(payload_of(order, author), json::max_depth()),
{
    let value = payload_of(order, author);
    let actor = actor_of(author);
    assert forall|key: Seq<char>| json::members_of(actor).dom().contains(key) implies (
    #[trigger] json::members_of(actor)[key]) is Text by {}
    assert(json::nested(actor, 126) && json::without_floats(actor, 126)) by {
        assert forall|key: Seq<char>| json::members_of(actor).dom().contains(key) implies (
        json::nested(#[trigger] json::members_of(actor)[key], 125) && json::without_floats(
            json::members_of(actor)[key],
            125,
        )) by {}
    }
    assert forall|key: Seq<char>| json::members_of(value).dom().contains(key) implies (
    json::nested(#[trigger] json::members_of(value)[key], 126) && json::without_floats(
        json::members_of(value)[key],
        126,
    )) by {
        let member = json::members_of(value)[key];
        assert(member is Text || member is Unsigned || member is Negative || member == actor);
    }
}

/// Who an order is about.
pub open spec fn target_of(order: Order) -> Seq<char> {
    match order {
        Order::Ban { target, .. } => target,
        Order::Timeout { target, .. } => target,
    }
}

/// An order is always about someone: its target is a word without an at sign
/// in front.
pub proof fn law_target_is_a_name(message: Seq<char>)
    ensures
        order_of(message) matches Some(order) ==> text::is_word(target_of(order)) && target_of(
            order,
        )[0] != '@',
{
    if let Some(order) = order_of(message) {
        let text = trimmed(message);
        if begins_ignoring_case(text, "!ban"@) {
            let args = arguments(text, 4);
            let word = split_first_word(args).0;
            text::lemma_run_len_is(args, text::not_white());
            assert forall|j: int| 0 <= j < word.len() implies !text::white_space(
                #[trigger] word[j],
            ) by {
                assert(text::not_white()(args[j]));
            }
            lemma_handle(word);
        } else {
            let args = arguments(text, 8);
            lemma_words_are_words(args);
            lemma_handle(words_of(args)[0]);
        }
    }
}

/// The words of a text are words.
proof fn lemma_words_are_words(s: Seq<char>)
    ensures
        forall|i: int| 0 <= i < words_of(s).len() ==> text::is_word(#[trigger] words_of(s)[i]),
{
    let parts = text::pieces(s, text::white());
    let words = words_of(s);
    lemma_pieces_lack(s, text::white());
    assert forall|i: int| 0 <= i < words.len() implies text::is_word(#[trigger] words[i]) by {
        parts.lemma_filter_contains_rev(text::not_empty(), words[i]);
        parts.lemma_filter_pred(text::not_empty(), i);
        let k = choose|k: int| 0 <= k < parts.len() && parts[k] == words[i];
        assert forall|j: int| 0 <= j < words[i].len() implies !text::white_space(
            #[trigger] words[i][j],
        ) by {
            assert(!(text::white()(parts[k][j])));
        }
    }
}

/// No piece holds a separator.
proof fn lemma_pieces_lack(s: Seq<char>, p: spec_fn(char) -> bool)
    ensures
        forall|i: int, j: int|
            0 <= i < text::pieces(s, p).len() && 0 <= j < text::pieces(s, p)[i].len() ==> !p(
                #[trigger] text::pieces(s, p)[i][j],
            ),
    decreases s.len(),
{
    if s.len() > 0 {
        let rest = text::pieces(s.drop_first(), p);
        lemma_pieces_lack(s.drop_first(), p);
        text::lemma_pieces_some(s.drop_first(), p);
        let all = text::pieces(s, p);
        assert forall|i: int, j: int| 0 <= i < all.len() && 0 <= j < all[i].len() implies !p(
            #[trigger] all[i][j],
        ) by {
            if p(s[0]) {
                assert(all[i] == rest[i - 1]);
                assert(!p(rest[i - 1][j]));
            } else if i == 0 {
                assert(all[0] =~= seq![s[0]] + rest[0]);
                if j > 0 {
                    assert(!p(rest[0][j - 1]));
                }
            } else {
                assert(all[i] == rest[i]);
                assert(!p(rest[i][j]));
            }
        }
    }
}

/// Taking the at signs off a word leaves a word, or nothing.
proof fn lemma_handle(word: Seq<char>)
    requires
        forall|j: int| 0 <= j < word.len() ==> !text::white_space(#[trigger] word[j]),
    ensures
        handle(word).len() > 0 ==> text::is_word(handle(word)) && handle(word)[0] != '@',
{
    text::lemma_run_len_is(word, is_char('@'));
    let n = text::run_len(word, is_char('@')) as int;
    let rest = handle(word);
    assert forall|j: int| 0 <= j < rest.len() implies !text::white_space(#[trigger] rest[j]) by {
        assert(rest[j] == word[n + j]);
    }
    if rest.len() > 0 {
        assert(rest[0] == word[n]);
        assert(!(is_char('@')(word[n])));
    }
}

/// `name` is the name of a command in some case.
pub open spec fn names_command(name: Seq<char>) -> bool {
    ascii_lowered(name) == "!ban"@ || ascii_lowered(name) == "!timeout"@
}

/// The name of a command is a word.
proof fn lemma_name_is_word(name: Seq<char>)
    requires
        names_command(name),
    ensures
        text::is_word(name),
{
    reveal_strlit("!ban");
    reveal_strlit("!timeout");
    let low = ascii_lowered(name);
    assert(low.len() == name.len());
    assert forall|j: int| 0 <= j < name.len() implies !text::white_space(#[trigger] name[j]) by {
        assert(low[j] == text::ascii_lower(name[j]));
        assert(low[j] == '!' || 'a' <= low[j] <= 'z');
    }
}

/// What a text that begins in a command's name orders.
proof fn lemma_order_behind(name: Seq<char>, rest: Seq<char>)
    requires
        names_command(name),
    ensures
        ascii_lowered(name) == "!ban"@ ==> order_in(name + rest) == ban_order(
            arguments(name + rest, 4),
        ),
        ascii_lowered(name) == "!timeout"@ ==> order_in(name + rest) == timeout_order(
            arguments(name + rest, 8),
        ),
        arguments(name + rest, name.len() as int) == if rest.len() > 0 {
            trimmed(rest.skip(1))
        } else {
            Seq::empty()
        },
{
    reveal_strlit("!ban");
    reveal_strlit("!timeout");
    let text = name + rest;
    let low = ascii_lowered(name);
    assert(low.len() == name.len());
    assert(ascii_lowered("!ban"@) =~= "!ban"@);
    assert(ascii_lowered("!timeout"@) =~= "!timeout"@);
    assert(text.take(name.len() as int) =~= name);
    if low == "!timeout"@ {
        assert(ascii_lowered(text.take(4))[1] == low[1]);
        assert("!ban"@[1] != low[1]);
    }
    if rest.len() > 0 {
        assert(text.skip(name.len() as int + 1) =~= rest.skip(1));
    }
}

/// Neither white space around a message nor the case of the command's name
/// matters to what the message orders: two that differ in these alone order
/// the same.
pub proof fn law_ends_and_case_do_not_matter(
    name: Seq<char>,
    other: Seq<char>,
    rest: Seq<char>,
    ends: (Seq<char>, Seq<char>),
    other_ends: (Seq<char>, Seq<char>),
)
    requires
        names_command(name),
        ascii_lowered(other) == ascii_lowered(name),
        text::all_white(ends.0) && text::all_white(ends.1),
        text::all_white(other_ends.0) && text::all_white(other_ends.1),
    ensures
        order_of(other_ends.0 + (other + rest) + other_ends.1) == order_of(
            ends.0 + (name + rest) + ends.1,
        ),
{
    reveal_strlit("!ban");
    reveal_strlit("!timeout");
    text::law_white_ends_are_trimmed(ends.0, name + rest, ends.1);
    text::law_white_ends_are_trimmed(other_ends.0, other + rest, other_ends.1);
    lemma_name_is_word(name);
    lemma_name_is_word(other);
    text::lemma_trim_behind_word(name, rest);
    text::lemma_trim_behind_word(other, rest);
    let tail = text::trimmed_end(rest);
    lemma_order_behind(name, tail);
    lemma_order_behind(other, tail);
    assert(ascii_lowered(name).len() == name.len());
    assert(ascii_lowered(other).len() == other.len());
}

/// White space around a message never matters to what the message orders.
pub proof fn law_white_ends_do_not_matter(
    before: Seq<char>,
    message: Seq<char>,
    after: Seq<char>,
)
    requires
        text::all_white(before),
        text::all_white(after),
    ensures
        order_of(before + message + after) == order_of(message),
{
    text::law_white_ends_are_trimmed(before, message, after);
}

/// A command with nothing but white space behind its name orders nothing.
pub proof fn law_command_alone_orders_nothing(name: Seq<char>, rest: Seq<char>)
    requires
        names_command(name),
        text::all_white(rest),
    ensures
        order_of(name + rest) is None,
{
    reveal_strlit("!ban");
    reveal_strlit("!timeout");
    let none = Seq::<char>::empty();
    lemma_name_is_word(name);
    text::law_white_ends_are_trimmed(none, name, rest);
    assert(none + name + rest =~= name + rest);
    text::law_trim_keeps_what_has_no_white_ends(name);
    lemma_order_behind(name, none);
    assert(name + none =~= name);
    assert(ascii_lowered(name).len() == name.len());
    text::lemma_run_len(none, text::not_white(), 0);
    text::lemma_run_len(none, is_char('@'), 0);
    text::law_joined_words_come_apart(Seq::empty());
    assert(joined(Seq::empty(), " "@) =~= none);
}

/// What stands behind a command's name and one more character is what the
/// command is read from, without white space at its ends.
proof fn lemma_said(name: Seq<char>, gap: char, args: Seq<char>)
    requires
        names_command(name),
    ensures
        ascii_lowered(name) == "!ban"@ ==> order_of(name + (seq![gap] + args)) == ban_order(
            trimmed(args),
        ),
        ascii_lowered(name) == "!timeout"@ ==> order_of(name + (seq![gap] + args))
            == timeout_order(trimmed(args)),
{
    reveal_strlit("!ban");
    reveal_strlit("!timeout");
    let rest = seq![gap] + args;
    lemma_name_is_word(name);
    text::lemma_trim_behind_word(name, rest);
    text::lemma_trim_behind_char(gap, args);
    lemma_order_behind(name, text::trimmed_end(rest));
    assert(ascii_lowered(name).len() == name.len());
}

/// There is nothing but at signs.
pub open spec fn all_at_signs(s: Seq<char>) -> bool {
    forall|j: int| 0 <= j < s.len() ==> #[trigger] s[j] == '@'
}

/// Behind `!ban` in any case and one more character, a name, with any number
/// of at signs in front, and any text behind white space order that exactly
/// this name be banned, for the reason that the text gives.
pub proof fn law_ban_is_understood(
    name: Seq<char>,
    gap: char,
    lead: Seq<char>,
    ats: Seq<char>,
    target: Seq<char>,
    space: char,
    reason: Seq<char>,
)
    requires
        ascii_lowered(name) == "!ban"@,
        text::all_white(lead),
        all_at_signs(ats),
        text::is_word(target),
        target[0] != '@',
        text::white_space(space),
    ensures
        order_of(name + (seq![gap] + (lead + (ats + target + (seq![space] + reason))))) == Some(
            Order::Ban { target, reason: trimmed(reason) },
        ),
{
    let none = Seq::<char>::empty();
    let word = ats + target;
    let behind = seq![space] + reason;
    let args = lead + (word + behind);
    lemma_at_signs_come_off(ats, target);
    lemma_said(name, gap, args);
    text::law_white_ends_are_trimmed(lead, word + behind, none);
    assert(lead + (word + behind) + none =~= args);
    text::lemma_trim_behind_word(word, behind);
    text::lemma_trim_behind_char(space, reason);
    text::law_trim_keeps_what_has_no_white_ends(none);
    let tail = text::trimmed_end(behind);
    lemma_ban_words(word, tail);
}

/// Behind `!ban` in any case and one more character, a name alone, with any
/// number of at signs in front, orders that exactly this name be banned for no
/// stated reason.
pub proof fn law_ban_without_reason_is_understood(
    name: Seq<char>,
    gap: char,
    lead: Seq<char>,
    ats: Seq<char>,
    target: Seq<char>,
)
    requires
        ascii_lowered(name) == "!ban"@,
        text::all_white(lead),
        all_at_signs(ats),
        text::is_word(target),
        target[0] != '@',
    ensures
        order_of(name + (seq![gap] + (lead + (ats + target)))) == Some(
            Order::Ban { target, reason: Seq::empty() },
        ),
{
    let none = Seq::<char>::empty();
    let word = ats + target;
    lemma_at_signs_come_off(ats, target);
    lemma_said(name, gap, lead + word);
    text::law_white_ends_are_trimmed(lead, word, none);
    assert(lead + word + none =~= lead + word);
    text::law_trim_keeps_what_has_no_white_ends(word);
    text::law_trim_keeps_what_has_no_white_ends(none);
    lemma_ban_words(word, none);
    assert(word + none =~= word);
}

/// What the arguments of a ban order that begin in a word.
proof fn lemma_ban_words(word: Seq<char>, tail: Seq<char>)
    requires
        text::is_word(word),
        tail.len() > 0 ==> text::white_space(tail[0]),
    ensures
        handle(word).len() == 0 ==> ban_order(word + tail) is None,
        handle(word).len() > 0 ==> ban_order(word + tail) == Some(
            Order::Ban {
                target: handle(word),
                reason: if tail.len() > 0 {
                    trimmed(tail.skip(1))
                } else {
                    trimmed(Seq::empty())
                },
            },
        ),
{
    let args = word + tail;
    let n = word.len() as int;
    assert forall|j: int| 0 <= j < n implies text::not_white()(#[trigger] args[j]) by {
        assert(args[j] == word[j]);
    }
    if tail.len() > 0 {
        assert(args[n] == tail[0]);
    }
    text::lemma_run_len(args, text::not_white(), n);
    assert(args.take(n) =~= word);
    if tail.len() > 0 {
        assert(args.skip(n + 1) =~= tail.skip(1));
    }
}

/// A name without an at sign in front is its own handle.
proof fn lemma_handle_is_whole(target: Seq<char>)
    requires
        target.len() > 0,
        target[0] != '@',
    ensures
        handle(target) == target,
{
    text::lemma_run_len(target, is_char('@'), 0);
    assert(handle(target) =~= target);
}

/// Taking off the at signs in front is all that is done to a name.
proof fn lemma_at_signs_come_off(ats: Seq<char>, target: Seq<char>)
    requires
        all_at_signs(ats),
        target.len() > 0 ==> target[0] != '@',
        forall|j: int| 0 <= j < target.len() ==> !text::white_space(#[trigger] target[j]),
    ensures
        handle(ats + target) == target,
        target.len() > 0 ==> handle(ats + target) == handle(target),
        ats.len() + target.len() > 0 ==> text::is_word(ats + target),
{
    let word = ats + target;
    let n = ats.len() as int;
    assert forall|j: int| 0 <= j < n implies is_char('@')(#[trigger] word[j]) by {
        assert(word[j] == ats[j]);
    }
    if target.len() > 0 {
        assert(word[n] == target[0]);
        lemma_handle_is_whole(target);
    }
    text::lemma_run_len(word, is_char('@'), n);
    assert(handle(word) =~= target);
    assert forall|j: int| 0 <= j < word.len() implies !text::white_space(#[trigger] word[j]) by {
        if j < n {
            assert(word[j] == ats[j]);
        } else {
            assert(word[j] == target[j - n]);
        }
    }
}

/// Behind `!timeout` in any case and one more character, a name, with any
/// number of at signs in front, an integer and any text behind white space
/// order that exactly this name be silenced for so many seconds, for the reason
/// that the words of the text make.
pub proof fn law_timeout_is_understood(
    name: Seq<char>,
    gap: char,
    lead: Seq<char>,
    ats: Seq<char>,
    target: Seq<char>,
    space: Seq<char>,
    number: Seq<char>,
    seconds: i64,
    tail: Seq<char>,
)
    requires
        ascii_lowered(name) == "!timeout"@,
        text::all_white(lead),
        all_at_signs(ats),
        text::is_word(target),
        target[0] != '@',
        space.len() > 0,
        text::all_white(space),
        i64_of(number) == Some(seconds),
        tail.len() > 0 ==> text::white_space(tail[0]),
    ensures
        order_of(
            name + (seq![gap] + (lead + (ats + target + (space + (number + tail))))),
        ) == Some(
            Order::Timeout {
                target,
                duration_secs: seconds,
                reason: joined(words_of(tail), " "@),
            },
        ),
{
    let none = Seq::<char>::empty();
    let word = ats + target;
    let behind = space + (number + tail);
    assert(behind[0] == space[0]);
    lemma_at_signs_come_off(ats, target);
    lemma_timeout_words(name, gap, lead, word, behind);
    text::law_white_ends_hold_no_words(space, number + tail, none);
    assert(space + (number + tail) + none =~= behind);
    text::lemma_integer_is_word(number);
    text::law_first_word_comes_first(number, tail);
    let words = seq![word] + (seq![number] + words_of(tail));
    assert(words[1] == number);
    assert(words.skip(2) =~= words_of(tail));
}

/// Behind `!timeout` in any case and one more character, a name, with any
/// number of at signs in front, and any text behind white space that begins in
/// no integer order that exactly this name be silenced for three hundred
/// seconds, for the reason that the words of the text make.
pub proof fn law_timeout_without_seconds_is_understood(
    name: Seq<char>,
    gap: char,
    lead: Seq<char>,
    ats: Seq<char>,
    target: Seq<char>,
    tail: Seq<char>,
)
    requires
        ascii_lowered(name) == "!timeout"@,
        text::all_white(lead),
        all_at_signs(ats),
        text::is_word(target),
        target[0] != '@',
        tail.len() > 0 ==> text::white_space(tail[0]),
        words_of(tail).len() > 0 ==> i64_of(words_of(tail)[0]) is None,
    ensures
        order_of(name + (seq![gap] + (lead + (ats + target + tail)))) == Some(
            Order::Timeout { target, duration_secs: 300, reason: joined(words_of(tail), " "@) },
        ),
{
    let word = ats + target;
    lemma_at_signs_come_off(ats, target);
    lemma_timeout_words(name, gap, lead, word, tail);
    let words = seq![word] + words_of(tail);
    if words_of(tail).len() > 0 {
        assert(words[1] == words_of(tail)[0]);
    }
    assert(words.skip(1) =~= words_of(tail));
}

/// The words that a timeout is read from.
proof fn lemma_timeout_words(
    name: Seq<char>,
    gap: char,
    lead: Seq<char>,
    word: Seq<char>,
    tail: Seq<char>,
)
    requires
        ascii_lowered(name) == "!timeout"@,
        text::all_white(lead),
        text::is_word(word),
        tail.len() > 0 ==> text::white_space(tail[0]),
    ensures
        order_of(name + (seq![gap] + (lead + (word + tail)))) == timeout_order(
            trimmed(lead + (word + tail)),
        ),
        words_of(trimmed(lead + (word + tail))) == seq![word] + words_of(tail),
{
    let none = Seq::<char>::empty();
    let args = lead + (word + tail);
    lemma_said(name, gap, args);
    text::law_trimming_keeps_the_words(args);
    text::law_white_ends_hold_no_words(lead, word + tail, none);
    assert(lead + (word + tail) + none =~= args);
    text::law_first_word_comes_first(word, tail);
}

/// At signs, or nothing at all, in the place of a name order nothing, whatever
/// stands behind them.
pub proof fn law_no_name_orders_nothing(
    name: Seq<char>,
    gap: char,
    lead: Seq<char>,
    ats: Seq<char>,
    tail: Seq<char>,
)
    requires
        names_command(name),
        text::all_white(lead),
        all_at_signs(ats),
        ats.len() == 0 ==> tail.len() == 0,
        tail.len() > 0 ==> text::white_space(tail[0]),
    ensures
        order_of(name + (seq![gap] + (lead + (ats + tail)))) is None,
{
    let none = Seq::<char>::empty();
    let args = lead + (ats + tail);
    lemma_at_signs_come_off(ats, none);
    assert(ats + none =~= ats);
    lemma_said(name, gap, args);
    text::law_white_ends_are_trimmed(lead, ats + tail, none);
    assert(lead + (ats + tail) + none =~= args);
    text::law_trimming_keeps_the_words(args);
    text::law_white_ends_hold_no_words(lead, ats + tail, none);
    text::lemma_no_words();
    if ats.len() > 0 {
        text::lemma_trim_behind_word(ats, tail);
        let end = text::trimmed_end(tail);
        text::lemma_tail_len_is(tail, text::white());
        if end.len() > 0 {
            assert(end[0] == tail[0]);
        }
        lemma_ban_words(ats, end);
        text::law_first_word_comes_first(ats, tail);
    } else {
        assert(ats + tail =~= none);
        text::law_trim_keeps_what_has_no_white_ends(none);
        text::lemma_run_len(none, text::not_white(), 0);
        text::lemma_run_len(none, is_char('@'), 0);
    }
}

/// A message that begins, behind white space, in neither command's name orders
/// nothing.
pub proof fn law_other_messages_order_nothing(message: Seq<char>)
    requires
        forall|a: Seq<char>, b: Seq<char>|
            trimmed(message) == #[trigger] (a + b) ==> ascii_lowered(a) != "!ban"@ && ascii_lowered(
                a,
            ) != "!timeout"@,
    ensures
        order_of(message) is None,
{
    reveal_strlit("!ban");
    reveal_strlit("!timeout");
    let text = trimmed(message);
    assert(ascii_lowered("!ban"@) =~= "!ban"@);
    assert(ascii_lowered("!timeout"@) =~= "!timeout"@);
    if text.len() >= 4 {
        assert(text =~= text.take(4) + text.skip(4));
    }
    if text.len() >= 8 {
        assert(text =~= text.take(8) + text.skip(8));
    }
}

/// The query for an order bears its name, and its payload tells the order and
/// who gave it, and nothing else; without an order there is no query.
pub proof fn law_query_tells_the_order(
    message: &str,
    author: &str,
    r: Option<(String, serde_json::Value)>,
)
    requires
        call_ensures(parse_mod_command, (message, author), r),
    ensures
        order_of(message@) is None ==> r is None,
        order_of(message@) matches Some(Order::Ban { target, reason }) ==> {
            &&& r matches Some(query)
            &&& query.0@ == "mod_ban"@
            &&& json_of(query.1) == Json::Object(
                map![
                    "platform"@ => Json::Text("twitch"@),
                    "handle"@ => Json::Text(target),
                    "reason"@ => Json::Text(reason),
                    "actor"@ => Json::Object(
                        map!["platform"@ => Json::Text("twitch"@), "handle"@ => Json::Text(author@)],
                    ),
                ],
            )
        },
        order_of(message@) matches Some(Order::Timeout { target, duration_secs, reason }) ==> {
            &&& r matches Some(query)
            &&& query.0@ == "mod_timeout"@
            &&& json_of(query.1) == Json::Object(
                map![
                    "platform"@ => Json::Text("twitch"@),
                    "handle"@ => Json::Text(target),
                    "duration_secs"@ => if duration_secs >= 0 {
                        Json::Unsigned(duration_secs as u64)
                    } else {
                        Json::Negative(duration_secs)
                    },
                    "reason"@ => Json::Text(reason),
                    "actor"@ => Json::Object(
                        map!["platform"@ => Json::Text("twitch"@), "handle"@ => Json::Text(author@)],
                    ),
                ],
            )
        },
{
}

/// A payload names the target, the reason and who gave the order.
pub proof fn law_payload_tells_the_order(order: Order, author: Seq<char>)
    ensures
        json::member(payload_of(order, author), "handle"@) == Some(Json::Text(target_of(order))),
        json::member(payload_of(order, author), "actor"@) == Some(actor_of(author)),
        json::member(actor_of(author), "handle"@) == Some(Json::Text(author)),
        json::member(payload_of(order, author), "platform"@) == Some(Json::Text("twitch"@)),
        order matches Order::Timeout { duration_secs, .. } ==> json::member(
            payload_of(order, author),
            "duration_secs"@,
        ) == Some(integer(duration_secs)),
        match order {
            Order::Ban { reason, .. } => json::member(payload_of(order, author), "reason"@) == Some(
                Json::Text(reason),
            ),
            Order::Timeout { reason, .. } => json::member(payload_of(order, author), "reason"@)
                == Some(Json::Text(reason)),
        },
{
    reveal_strlit("platform");
    reveal_strlit("handle");
    reveal_strlit("reason");
    reveal_strlit("actor");
    reveal_strlit("duration_secs");
    assert("platform"@.len() == 8 && "actor"@.len() == 5 && "duration_secs"@.len() == 13);
    assert("handle"@[0] == 'h' && "reason"@[0] == 'r');
    assert("handle"@ != "reason"@);
}

/// A view shows all that there is to a command.
pub proof fn law_view_shows_the_command(command: ModCommand)
    ensures
        command matches ModCommand::Ban { target, reason } ==> command@ == (Order::Ban {
            target: target@,
            reason: reason@,
        }),
        command matches ModCommand::Timeout { target, duration_secs, reason } ==> command@ == (
        Order::Timeout { target: target@, duration_secs, reason: reason@ }),
{
}

} // verus!
