//! What the adapter keeps between runs: public settings in `config.json`,
//! secrets in the environment.
use vstd::prelude::*;

use crate::json;
use crate::json::{
    json_of, json_pretty, json_read, json_read_bytes, max_depth, member, members_of, nested,
    same_but_floats, takes_members, text_in, without_floats, Json,
};
use crate::text;
use crate::text::trimmed;

verus! {

broadcast use vstd::string::group_string_axioms;

/// The settings that an earlier run left.
#[derive(Debug, Clone)]
pub struct TwitchAdapterConfig {
    pub channel: Option<String>,
    pub oauth_token: Option<String>,
    pub username: Option<String>,
    pub client_id: Option<String>,
}

/// The characters of each setting.
pub struct ConfigView {
    pub channel: Option<Seq<char>>,
    pub oauth_token: Option<Seq<char>>,
    pub username: Option<Seq<char>>,
    pub client_id: Option<Seq<char>>,
}

/// The characters of a string that may be missing.
pub open spec fn chars_in(s: Option<String>) -> Option<Seq<char>> {
    match s {
        Some(text) => Some(text@),
        None => None,
    }
}

/// The characters of a string that may be missing; none where it is.
pub open spec fn chars_or_empty(s: Option<Seq<char>>) -> Seq<char> {
    match s {
        Some(text) => text,
        None => Seq::empty(),
    }
}

impl View for TwitchAdapterConfig {
    type V = ConfigView;

    open spec fn view(&self) -> ConfigView {
        ConfigView {
            channel: chars_in(self.channel),
            oauth_token: chars_in(self.oauth_token),
            username: chars_in(self.username),
            client_id: chars_in(self.client_id),
        }
    }
}

/// The string, or an empty one where it is missing.
pub fn or_empty(s: Option<String>) -> (r: String)
    ensures
        r@ == chars_or_empty(chars_in(s)),
{
    match s {
        Some(text) => text,
        None => String::new(),
    }
}

/// What a configuration file holds: nothing where there is no file or its
/// text is no JSON.
pub open spec fn root_of(config: Option<&str>) -> Option<Json> {
    match config {
        Some(data) => json_read(data@),
        None => None,
    }
}

/// What a value that may be missing holds.
pub open spec fn held(value: Option<serde_json::Value>) -> Option<Json> {
    match value {
        Some(value) => Some(json_of(value)),
        None => None,
    }
}

fn read_config(config: Option<&str>) -> (r: Option<serde_json::Value>)
    ensures
        held(r) == root_of(config),
{
    match config {
        Some(data) => json::parse(data),
        None => None,
    }
}

// ---------------------------------------------------------------------------
// The port of the OAuth redirect
// ---------------------------------------------------------------------------
/// The port where the configuration names none.
pub const DEFAULT_REDIRECT_PORT: u16 = 3000;

/// The loopback port for the OAuth redirect: the top-level
/// `oauth_redirect_port` where it is a port number, else the default.
pub open spec fn redirect_port_in(root: Option<Json>) -> u16 {
    match root {
        Some(value) => match member(value, "oauth_redirect_port"@) {
            Some(Json::Unsigned(port)) => if 1 <= port <= u16::MAX {
                port as u16
            } else {
                DEFAULT_REDIRECT_PORT
            },
            _ => DEFAULT_REDIRECT_PORT,
        },
        None => DEFAULT_REDIRECT_PORT,
    }
}

/// The loopback port that the value of a configuration file names.
pub fn redirect_port(root: &Option<serde_json::Value>) -> (port: u16)
    ensures
        port == redirect_port_in(held(*root)),
{
    if let Some(value) = root {
        if let Some(found) = json::get(value, "oauth_redirect_port") {
            if let Some(port) = found.as_u64() {
                if 1 <= port && port <= 0xffff {
                    return port as u16;
                }
            }
        }
    }
    DEFAULT_REDIRECT_PORT
}

/// Loopback port for the OAuth redirect listener, from the text of
/// `config.json`.
pub fn load_oauth_redirect_port(config: Option<&str>) -> (port: u16)
    ensures
        port == redirect_port_in(root_of(config)),
{
    redirect_port(&read_config(config))
}

// ---------------------------------------------------------------------------
// Saved settings
// ---------------------------------------------------------------------------
/// The adapter's own member of a configuration file.
pub open spec fn module_settings(root: Option<Json>) -> Json {
    match root {
        Some(value) => match member(value, "module_specific"@) {
            Some(saved) => saved,
            None => Json::Object(Map::empty()),
        },
        None => Json::Object(Map::empty()),
    }
}

/// The text of a setting that was saved under `key`.
pub open spec fn saved_text(root: Option<Json>, key: Seq<char>) -> Option<Seq<char>> {
    match member(module_settings(root), key) {
        Some(value) => text_in(value),
        None => None,
    }
}

/// `first` unless it is missing or empty, else `second` unless that is.
pub open spec fn first_not_empty(
    first: Option<Seq<char>>,
    second: Option<Seq<char>>,
) -> Option<Seq<char>> {
    if chars_or_empty(first).len() > 0 {
        first
    } else if chars_or_empty(second).len() > 0 {
        second
    } else {
        None
    }
}

/// The settings of an earlier run, from what `config.json` holds and from the
/// environment. Without a token or a client there are none.
pub open spec fn config_in(
    root: Option<Json>,
    env_username: Option<Seq<char>>,
    env_token: Option<Seq<char>>,
    env_client_id: Option<Seq<char>>,
) -> Option<ConfigView> {
    let token = chars_or_empty(env_token);
    let client_id = chars_or_empty(env_client_id);
    if token.len() == 0 || client_id.len() == 0 {
        None
    } else {
        Some(
            ConfigView {
                channel: saved_text(root, "channel"@),
                oauth_token: Some(token),
                username: first_not_empty(saved_text(root, "username"@), env_username),
                client_id: Some(client_id),
            },
        )
    }
}

fn saved_module(root: Option<serde_json::Value>) -> (r: serde_json::Value)
    ensures
        json_of(r) == module_settings(held(root)),
{
    if let Some(value) = root {
        if let Some(saved) = json::get(&value, "module_specific") {
            return saved.clone();
        }
    }
    json::empty_object()
}

fn not_empty(s: Option<String>) -> (r: Option<String>)
    ensures
        chars_in(r) == first_not_empty(chars_in(s), None),
{
    match s {
        Some(text) => if text.as_str().is_empty() {
            None
        } else {
            Some(text)
        },
        None => None,
    }
}

/// The settings of an earlier run, from the value of `config.json` and from
/// the environment.
pub fn adapter_config(
    root: Option<serde_json::Value>,
    env_username: Option<String>,
    env_token: Option<String>,
    env_client_id: Option<String>,
) -> (r: Option<TwitchAdapterConfig>)
    ensures
        r is Some <==> config_in(
            held(root),
            chars_in(env_username),
            chars_in(env_token),
            chars_in(env_client_id),
        ) is Some,
        r matches Some(config) ==> config_in(
            held(root),
            chars_in(env_username),
            chars_in(env_token),
            chars_in(env_client_id),
        ) == Some(config@),
{
    let saved = saved_module(root);
    let channel = match json::get(&saved, "channel") {
        Some(value) => match json::into_string(value.clone()) {
            Ok(channel) => Some(channel),
            Err(_) => None,
        },
        None => None,
    };
    let saved_name = match json::get(&saved, "username") {
        Some(value) => match value.as_str() {
            Some(name) => not_empty(Some(name.to_string())),
            None => None,
        },
        None => None,
    };
    let username = match saved_name {
        Some(name) => Some(name),
        None => not_empty(env_username),
    };
    let oauth_token = or_empty(env_token);
    let client_id = or_empty(env_client_id);
    if oauth_token.as_str().is_empty() || client_id.as_str().is_empty() {
        return None;
    }
    Some(
        TwitchAdapterConfig {
            channel,
            oauth_token: Some(oauth_token),
            username,
            client_id: Some(client_id),
        },
    )
}

/// The settings of an earlier run, from the text of `config.json` and from
/// the environment.
pub fn load_adapter_config(
    config: Option<&str>,
    env_username: Option<String>,
    env_token: Option<String>,
    env_client_id: Option<String>,
) -> (r: Option<TwitchAdapterConfig>)
    ensures
        r is Some <==> config_in(
            root_of(config),
            chars_in(env_username),
            chars_in(env_token),
            chars_in(env_client_id),
        ) is Some,
        r matches Some(found) ==> config_in(
            root_of(config),
            chars_in(env_username),
            chars_in(env_token),
            chars_in(env_client_id),
        ) == Some(found@),
{
    adapter_config(read_config(config), env_username, env_token, env_client_id)
}

/// A setting at the start: the environment's unless it is blank, else the
/// text saved under `key`, else an empty one.
pub open spec fn setting_in(
    env: Option<Seq<char>>,
    root: Option<Json>,
    key: Seq<char>,
) -> Seq<char> {
    if trimmed(chars_or_empty(env)).len() > 0 {
        env->0
    } else {
        chars_or_empty(saved_text(root, key))
    }
}

/// A setting at the start, from the environment and the value of
/// `config.json`.
pub fn initial_setting_in(env: Option<String>, root: Option<serde_json::Value>, key: &str) -> (r:
    String)
    ensures
        r@ == setting_in(chars_in(env), held(root), key@),
{
    let ghost env_chars = chars_in(env);
    if let Some(value) = env {
        if !text::trim(value.as_str()).is_empty() {
            return value;
        }
    }
    assert(trimmed(chars_or_empty(env_chars)).len() == 0) by {
        if env_chars is None {
            text::lemma_run_len_is(Seq::empty(), text::white());
            text::lemma_tail_len_is(Seq::empty(), text::white());
        }
    }
    let saved = saved_module(root);
    match json::get(&saved, key) {
        Some(found) => match found.as_str() {
            Some(value) => value.to_string(),
            None => String::new(),
        },
        None => String::new(),
    }
}

/// A setting at the start, from the environment and the text of
/// `config.json`.
pub fn initial_setting(env: Option<String>, config: Option<&str>, key: &str) -> (r: String)
    ensures
        r@ == setting_in(chars_in(env), root_of(config), key@),
{
    initial_setting_in(env, read_config(config), key)
}

// ---------------------------------------------------------------------------
// Saving
// ---------------------------------------------------------------------------
/// What becomes of `config.json`.
#[derive(Debug)]
pub enum ConfigUpdate {
    /// It is missing or no JSON, and stays as it is.
    Leave,
    /// It is written anew with this text.
    Write(String),
    /// It holds a value that takes no members.
    NotAnObject,
}

/// What is to be written for a later run.
#[derive(Debug)]
pub struct SavePlan {
    /// The secrets, by the name of their variable.
    pub env: Vec<(String, String)>,
    pub config: ConfigUpdate,
}

/// The public settings as a JSON value.
pub open spec fn settings_value(channel: Seq<char>, username: Seq<char>) -> Json {
    Json::Object(
        map!["channel"@ => Json::Text(channel), "username"@ => Json::Text(username)],
    )
}

/// A configuration with the adapter's own member replaced.
pub open spec fn with_settings(root: Json, channel: Seq<char>, username: Seq<char>) -> Json {
    Json::Object(
        members_of(root).insert("module_specific"@, settings_value(channel, username)),
    )
}

/// Puts the public settings into the value of `config.json`.
pub fn put_settings(root: serde_json::Value, channel: &str, username: &str) -> (r:
    serde_json::Value)
    requires
        takes_members(json_of(root)),
    ensures
        json_of(r) == with_settings(json_of(root), channel@, username@),
{
    let mut saved = json::empty_object();
    json::set(&mut saved, "channel", json::from_text(channel));
    json::set(&mut saved, "username", json::from_text(username));
    let mut value = root;
    json::set(&mut value, "module_specific", saved);
    value
}

/// The new settings stand in `root` under the adapter's own member.
proof fn lemma_settings_stand(root: Json, channel: Seq<char>, username: Seq<char>)
    ensures
        saved_text(Some(with_settings(root, channel, username)), "channel"@) == Some(channel),
        saved_text(Some(with_settings(root, channel, username)), "username"@) == Some(username),
{
    reveal_strlit("channel");
    reveal_strlit("username");
    assert("channel"@.len() != "username"@.len());
}

/// They are still there where only numbers that are no integers changed.
proof fn lemma_settings_last(root: Json, back: Json, channel: Seq<char>, username: Seq<char>)
    requires
        same_but_floats(with_settings(root, channel, username), back, max_depth()),
    ensures
        saved_text(Some(back), "channel"@) == Some(channel),
        saved_text(Some(back), "username"@) == Some(username),
{
    lemma_settings_stand(root, channel, username);
    let whole = with_settings(root, channel, username);
    let saved = settings_value(channel, username);
    let key = "module_specific"@;
    assert(members_of(whole)[key] == saved);
    assert(same_but_floats(saved, members_of(back)[key], (max_depth() - 1) as nat));
    let saved_back = members_of(back)[key];
    assert(members_of(saved)["channel"@] == Json::Text(channel));
    assert(members_of(saved)["username"@] == Json::Text(username));
    assert(same_but_floats(
        members_of(saved)["channel"@],
        members_of(saved_back)["channel"@],
        (max_depth() - 2) as nat,
    ));
    assert(same_but_floats(
        members_of(saved)["username"@],
        members_of(saved_back)["username"@],
        (max_depth() - 2) as nat,
    ));
}

/// Putting the settings in keeps the depth and adds no such number.
proof fn lemma_settings_plain(root: Json, channel: Seq<char>, username: Seq<char>)
    ensures
        nested(root, max_depth()) ==> nested(with_settings(root, channel, username), max_depth()),
        without_floats(root, max_depth()) ==> without_floats(
            with_settings(root, channel, username),
            max_depth(),
        ),
{
    let saved = settings_value(channel, username);
    assert(nested(saved, (max_depth() - 1) as nat)) by {
        assert forall|key: Seq<char>| members_of(saved).dom().contains(key) implies nested(
            #[trigger] members_of(saved)[key],
            (max_depth() - 2) as nat,
        ) by {}
    }
    assert(without_floats(saved, (max_depth() - 1) as nat)) by {
        assert forall|key: Seq<char>| members_of(saved).dom().contains(key) implies without_floats(
            #[trigger] members_of(saved)[key],
            (max_depth() - 2) as nat,
        ) by {}
    }
}

/// What the configuration file holds after `update`, where its text was
/// `config` before.
pub open spec fn root_after(config: Option<&str>, update: ConfigUpdate) -> Option<Json> {
    match update {
        ConfigUpdate::Write(text) => json_read(text@),
        _ => root_of(config),
    }
}

/// The settings to write for a later run, where `config` is the text of
/// `config.json`. The secrets go to the environment file, the public settings
/// into the adapter's own member of `config.json`.
///
/// What is written can be read: `load_adapter_config` finds the same settings
/// in it, and `load_oauth_redirect_port` the same port.
pub fn save_adapter_config(
    config: Option<&str>,
    channel: &str,
    oauth_token: &str,
    username: &str,
    client_id: &str,
) -> (plan: SavePlan)
    ensures
        plan.env@.len() == 2,
        plan.env@[0].0@ == "TWITCH_OAUTH_TOKEN"@ && plan.env@[0].1@ == oauth_token@,
        plan.env@[1].0@ == "TWITCH_CLIENT_ID"@ && plan.env@[1].1@ == client_id@,
        plan.config is Leave <==> root_of(config) is None,
        plan.config is Write <==> root_of(config) is Some && takes_members(root_of(config)->0),
        plan.config matches ConfigUpdate::Write(text) ==> {
            let whole = with_settings(root_of(config)->0, channel@, username@);
            &&& text@ == json_pretty(whole)
            &&& without_floats(root_of(config)->0, max_depth()) ==> json_read(text@) == Some(whole)
            &&& json_read(text@) matches Some(back) && same_but_floats(whole, back, max_depth())
            &&& saved_text(json_read(text@), "channel"@) == Some(channel@)
            &&& saved_text(json_read(text@), "username"@) == Some(username@)
        },
        plan.config is Write && oauth_token@.len() > 0 && client_id@.len() > 0 ==> forall|
            env_username: Option<Seq<char>>,
        |
            #[trigger] config_in(
                root_after(config, plan.config),
                env_username,
                Some(oauth_token@),
                Some(client_id@),
            ) == Some(
                ConfigView {
                    channel: Some(channel@),
                    oauth_token: Some(oauth_token@),
                    username: first_not_empty(Some(username@), env_username),
                    client_id: Some(client_id@),
                },
            ),
        redirect_port_in(root_after(config, plan.config)) == redirect_port_in(root_of(config)),
{
    let mut env: Vec<(String, String)> = Vec::new();
    env.push(("TWITCH_OAUTH_TOKEN".to_string(), oauth_token.to_string()));
    env.push(("TWITCH_CLIENT_ID".to_string(), client_id.to_string()));
    let update = match config {
        None => ConfigUpdate::Leave,
        Some(data) => match json::parse(data) {
            None => ConfigUpdate::Leave,
            Some(root) => {
                let ghost before = json_of(root);
                if root.is_object() || root.is_null() {
                    let value = put_settings(root, channel, username);
                    proof {
                        lemma_settings_plain(before, channel@, username@);
                    }
                    match json::write_pretty(&value) {
                        Ok(text) => {
                            proof {
                                let back = json_read(text@)->0;
                                lemma_settings_last(before, back, channel@, username@);
                                law_saving_keeps_the_port(before, back, channel@, username@);
                            }
                            ConfigUpdate::Write(text)
                        },
                        Err(_) => ConfigUpdate::Leave,
                    }
                } else {
                    ConfigUpdate::NotAnObject
                }
            },
        },
    };
    SavePlan { env, config: update }
}

// ---------------------------------------------------------------------------
// The name that belongs to a token
// ---------------------------------------------------------------------------
/// The user name in the answer to a token's validation.
pub open spec fn login_in(root: Option<Json>) -> Option<Seq<char>> {
    match root {
        Some(value) => match member(value, "login"@) {
            Some(login) => text_in(login),
            None => None,
        },
        None => None,
    }
}

/// The user name in the value of an answer to a token's validation.
pub fn login(root: &Option<serde_json::Value>) -> (r: Option<String>)
    ensures
        chars_in(r) == login_in(held(*root)),
{
    if let Some(value) = root {
        if let Some(found) = json::get(value, "login") {
            if let Some(name) = found.as_str() {
                return Some(name.to_string());
            }
        }
    }
    None
}

/// An HTTP status that tells of success.
pub open spec fn tells_success(status: u16) -> bool {
    200 <= status <= 299
}

/// The user name that Twitch's answer to a token's validation gives, by its
/// status and by what it holds.
pub fn fetched_username(status: u16, body: &[u8]) -> (r: Option<String>)
    ensures
        tells_success(status) ==> chars_in(r) == login_in(json_read_bytes(body@)),
        !tells_success(status) ==> r is None,
{
    if status < 200 || 299 < status {
        return None;
    }
    let root = match json::read_bytes(body) {
        Ok(value) => Some(value),
        Err(_) => None,
    };
    login(&root)
}

/// The value of the `Authorization` header that asks Twitch about a token.
pub fn validation_header(raw_token: &str) -> (r: String)
    ensures
        r@ == "OAuth "@ + raw_token@,
{
    "OAuth ".to_string().concat(raw_token)
}

// ---------------------------------------------------------------------------
// Laws
// ---------------------------------------------------------------------------
/// The channel and the user name that one run saves are what the next finds
/// in `config.json`. `back` is what is read of the file that was written.
pub proof fn law_saved_public_settings_are_found(
    root: Json,
    back: Json,
    channel: Seq<char>,
    username: Seq<char>,
)
    requires
        same_but_floats(with_settings(root, channel, username), back, max_depth()),
    ensures
        setting_in(None, Some(back), "channel"@) == channel,
        setting_in(None, Some(back), "username"@) == username,
{
    lemma_settings_last(root, back, channel, username);
    text::law_trim_keeps_what_has_no_white_ends(Seq::empty());
}

/// What one run saves, the next finds: the channel and the user name come
/// from `config.json`, the token and the client from the environment, which
/// also names the user where no name was saved. `back` is what is read of the
/// file that was written.
pub proof fn law_saved_settings_are_found(
    root: Json,
    back: Json,
    channel: Seq<char>,
    oauth_token: Seq<char>,
    username: Seq<char>,
    client_id: Seq<char>,
    env_username: Option<Seq<char>>,
)
    requires
        same_but_floats(with_settings(root, channel, username), back, max_depth()),
        oauth_token.len() > 0,
        client_id.len() > 0,
    ensures
        config_in(Some(back), env_username, Some(oauth_token), Some(client_id)) == Some(
            ConfigView {
                channel: Some(channel),
                oauth_token: Some(oauth_token),
                username: first_not_empty(Some(username), env_username),
                client_id: Some(client_id),
            },
        ),
{
    lemma_settings_last(root, back, channel, username);
}

/// Saving leaves the other members of `config.json` alone.
pub proof fn law_saving_keeps_the_rest(
    root: Json,
    channel: Seq<char>,
    username: Seq<char>,
    key: Seq<char>,
)
    requires
        takes_members(root),
        key != "module_specific"@,
    ensures
        member(with_settings(root, channel, username), key) == member(root, key),
{
}

/// Saving again is as if only the last had been saved.
pub proof fn law_last_saving_counts(
    root: Json,
    channel: Seq<char>,
    username: Seq<char>,
    new_channel: Seq<char>,
    new_username: Seq<char>,
)
    ensures
        with_settings(with_settings(root, channel, username), new_channel, new_username)
            == with_settings(root, new_channel, new_username),
{
    assert(members_of(
        with_settings(with_settings(root, channel, username), new_channel, new_username),
    ) =~= members_of(with_settings(root, new_channel, new_username)));
}

/// Saving does not move the port of the OAuth redirect, neither in the value
/// that is written nor in `back`, what is read of the file that was written.
pub proof fn law_saving_keeps_the_port(
    root: Json,
    back: Json,
    channel: Seq<char>,
    username: Seq<char>,
)
    requires
        takes_members(root),
        same_but_floats(with_settings(root, channel, username), back, max_depth()),
    ensures
        redirect_port_in(Some(with_settings(root, channel, username))) == redirect_port_in(
            Some(root),
        ),
        redirect_port_in(Some(back)) == redirect_port_in(Some(root)),
{
    reveal_strlit("oauth_redirect_port");
    reveal_strlit("module_specific");
    let key = "oauth_redirect_port"@;
    assert(key.len() != "module_specific"@.len());
    law_saving_keeps_the_rest(root, channel, username, key);
    let whole = with_settings(root, channel, username);
    if members_of(whole).dom().contains(key) {
        assert(same_but_floats(
            members_of(whole)[key],
            members_of(back)[key],
            (max_depth() - 1) as nat,
        ));
    }
}

/// The port of the OAuth redirect is always one that can be listened on.
pub proof fn law_port_is_never_zero(root: Option<Json>)
    ensures
        redirect_port_in(root) > 0,
{
}

/// The port is the top-level `oauth_redirect_port` of the configuration's
/// object where that is an integer that a port can be, and else 3000.
pub proof fn law_configured_port_is_used(config: Option<&str>, port: u16)
    requires
        call_ensures(load_oauth_redirect_port, (config,), port),
    ensures
        config is Some && (json_read(config->0@) matches Some(Json::Object(members))
            && members.dom().contains("oauth_redirect_port"@) && (
        members["oauth_redirect_port"@] matches Json::Unsigned(n) && 1 <= n <= 65535 && port == n))
            || port == 3000,
        config matches Some(data) ==> (json_read(data@) matches Some(Json::Object(members)) ==> (
        members.dom().contains("oauth_redirect_port"@) ==> (
        members["oauth_redirect_port"@] matches Json::Unsigned(n) ==> (1 <= n <= 65535 ==> port
            == n)))),
{
}

/// A setting that was saved is the text under its key in the adapter's own
/// object, whatever else the configuration holds.
pub proof fn law_saved_text_is_read(
    members: Map<Seq<char>, Json>,
    own: Map<Seq<char>, Json>,
    key: Seq<char>,
    text: Seq<char>,
)
    requires
        members.dom().contains("module_specific"@),
        members["module_specific"@] == Json::Object(own),
        own.dom().contains(key),
        own[key] == Json::Text(text),
    ensures
        saved_text(Some(Json::Object(members)), key) == Some(text),
{
}

/// Nothing else is a saved setting: not without a configuration, not without
/// the adapter's own object, and not a value that is no text.
pub proof fn law_only_text_is_a_saved_setting(root: Option<Json>, key: Seq<char>)
    requires
        saved_text(root, key) is Some,
    ensures
        root matches Some(Json::Object(members)) && members.dom().contains("module_specific"@) && (
        members["module_specific"@] matches Json::Object(own) && own.dom().contains(key)
            && own[key] == Json::Text(saved_text(root, key)->0)),
{
}

/// The settings of an earlier run are there exactly with a token and a client
/// in the environment, which they bear as they are. The channel is the saved
/// one. The user name is the saved one unless that is missing or empty, else
/// the environment's unless that is.
pub proof fn law_earlier_settings_are_loaded(
    config: Option<&str>,
    env_username: Option<String>,
    env_token: Option<String>,
    env_client_id: Option<String>,
    r: Option<TwitchAdapterConfig>,
)
    requires
        call_ensures(
            load_adapter_config,
            (config, env_username, env_token, env_client_id),
            r,
        ),
    ensures
        r is Some <==> env_token is Some && env_token->0@.len() > 0 && env_client_id is Some
            && env_client_id->0@.len() > 0,
        r matches Some(found) ==> {
            let saved_name = saved_text(root_of(config), "username"@);
            &&& found.oauth_token matches Some(token) && token@ == env_token->0@
            &&& found.client_id matches Some(client_id) && client_id@ == env_client_id->0@
            &&& found.channel is Some <==> saved_text(root_of(config), "channel"@) is Some
            &&& found.channel matches Some(channel) ==> saved_text(root_of(config), "channel"@)
                == Some(channel@)
            &&& saved_name is Some && saved_name->0.len() > 0 ==> (found.username matches Some(name)
                && name@ == saved_name->0)
            &&& (saved_name is None || saved_name->0.len() == 0) && env_username is Some
                && env_username->0@.len() > 0 ==> (found.username matches Some(name) && name@
                == env_username->0@)
            &&& (saved_name is None || saved_name->0.len() == 0) && (env_username is None
                || env_username->0@.len() == 0) ==> found.username is None
        },
{
    if let Some(found) = r {
        assert(chars_in(found.oauth_token) == found@.oauth_token);
        assert(chars_in(found.client_id) == found@.client_id);
        assert(chars_in(found.channel) == found@.channel);
        assert(chars_in(found.username) == found@.username);
    }
}

/// Text holds more than white space exactly where trimming leaves something.
pub proof fn lemma_blank(s: Seq<char>)
    ensures
        text::all_white(s) <==> trimmed(s).len() == 0,
{
    let none = Seq::<char>::empty();
    text::law_trim_keeps_what_has_no_white_ends(none);
    if text::all_white(s) {
        text::law_white_ends_are_trimmed(s, none, none);
        assert(s + none + none =~= s);
    }
    if trimmed(s).len() == 0 {
        text::lemma_trimmed_stands_in(s);
        let (before, after) = choose|before: Seq<char>, after: Seq<char>|
            #![trigger text::all_white(before), text::all_white(after)]
            text::all_white(before) && text::all_white(after) && s == before + trimmed(s) + after;
        assert(s =~= before + after);
        assert forall|j: int| 0 <= j < s.len() implies text::white_space(#[trigger] s[j]) by {
            if j < before.len() {
                assert(s[j] == before[j]);
            } else {
                assert(s[j] == after[j - before.len()]);
            }
        }
    }
}

/// At the start a setting of the environment that holds more than white space
/// is taken as it is, whatever the configuration says; else the saved text is;
/// and where there is none, the setting is empty.
pub proof fn law_environment_goes_first(env: Option<Seq<char>>, root: Option<Json>, key: Seq<char>)
    ensures
        env is Some && !text::all_white(env->0) ==> setting_in(env, root, key) == env->0,
        (env matches Some(value) ==> text::all_white(value)) && saved_text(root, key) is Some
            ==> setting_in(env, root, key) == saved_text(root, key)->0,
        (env matches Some(value) ==> text::all_white(value)) && saved_text(root, key) is None
            ==> setting_in(env, root, key).len() == 0,
{
    lemma_blank(chars_or_empty(env));
    if let Some(value) = env {
        lemma_blank(value);
    }
}

/// A missing string counts as empty, and any other as itself.
pub proof fn law_missing_is_empty(s: Option<String>, r: String)
    requires
        call_ensures(or_empty, (s,), r),
    ensures
        s matches Some(text) ==> r@ == text@,
        s is None ==> r@.len() == 0,
{
}

/// Of the settings, the channel and the user name stand in the adapter's own
/// object and nothing else does; every other member stays.
pub proof fn law_only_public_settings_are_written(
    root: Json,
    channel: Seq<char>,
    username: Seq<char>,
)
    requires
        root is Object || root is Null,
    ensures
        with_settings(root, channel, username) matches Json::Object(members) && {
            &&& members.dom().contains("module_specific"@)
            &&& members["module_specific"@] == Json::Object(
                map!["channel"@ => Json::Text(channel), "username"@ => Json::Text(username)],
            )
            &&& root is Null ==> forall|key: Seq<char>|
                #[trigger] members.dom().contains(key) ==> key == "module_specific"@
            &&& root matches Json::Object(old_members) ==> forall|key: Seq<char>|
                key != "module_specific"@ ==> (#[trigger] members.dom().contains(key)
                    <==> old_members.dom().contains(key)) && (old_members.dom().contains(key)
                    ==> members[key] == old_members[key])
        },
{
}

/// Settings can be put into an object and into `null`, and the file of any
/// other value is not written.
pub proof fn law_settings_need_an_object(
    config: Option<&str>,
    channel: &str,
    oauth_token: &str,
    username: &str,
    client_id: &str,
    plan: SavePlan,
)
    requires
        call_ensures(
            save_adapter_config,
            (config, channel, oauth_token, username, client_id),
            plan,
        ),
    ensures
        plan.config is Write <==> exists|data: &str|
            config == Some(data) && (#[trigger] json_read(data@) is Some) && (
            json_read(data@)->0 is Object || json_read(data@)->0 is Null),
        plan.config is Leave <==> config is None || json_read(config->0@) is None,
        plan.env@.len() == 2,
        plan.env@[0].0@ == "TWITCH_OAUTH_TOKEN"@ && plan.env@[0].1@ == oauth_token@,
        plan.env@[1].0@ == "TWITCH_CLIENT_ID"@ && plan.env@[1].1@ == client_id@,
{
    if plan.config is Write {
        assert(json_read(config->0@) is Some);
    }
}

/// The name that is fetched is the text of the answer's member `login`, in
/// whatever company, where the status is one of success; no other answer gives
/// a name.
pub proof fn law_login_is_the_fetched_name(status: u16, body: &[u8], r: Option<String>)
    requires
        call_ensures(fetched_username, (status, body), r),
    ensures
        r matches Some(found) ==> 200 <= status < 300 && (
        json_read_bytes(body@) matches Some(Json::Object(members)) && members.dom().contains(
            "login"@,
        ) && members["login"@] == Json::Text(found@)),
        r is None && 200 <= status < 300 ==> {
            ||| !(json_read_bytes(body@) matches Some(Json::Object(_)))
            ||| json_read_bytes(body@) matches Some(Json::Object(members)) && (
            !members.dom().contains("login"@) || !(members["login"@] is Text))
        },
{
    if let Some(found) = r {
        assert(chars_in(r) == Some(found@));
    }
}

/// No member but `login` has a say in the name.
pub proof fn law_other_members_do_not_change_the_name(
    members: Map<Seq<char>, Json>,
    key: Seq<char>,
    value: Json,
)
    requires
        key != "login"@,
    ensures
        login_in(Some(Json::Object(members.insert(key, value)))) == login_in(
            Some(Json::Object(members)),
        ),
        login_in(Some(Json::Object(members.remove(key)))) == login_in(
            Some(Json::Object(members)),
        ),
{
}

/// A view shows each of the settings.
pub proof fn law_view_shows_the_settings(config: TwitchAdapterConfig)
    ensures
        config.channel matches Some(s) ==> config@.channel == Some(s@),
        config.oauth_token matches Some(s) ==> config@.oauth_token == Some(s@),
        config.username matches Some(s) ==> config@.username == Some(s@),
        config.client_id matches Some(s) ==> config@.client_id == Some(s@),
        config.channel is None ==> config@.channel is None,
        config.oauth_token is None ==> config@.oauth_token is None,
        config.username is None ==> config@.username is None,
        config.client_id is None ==> config@.client_id is None,
{
}

/// What a configuration holds is what is read in its text.
pub proof fn law_configuration_is_what_is_read(data: &str, value: serde_json::Value, s: String)
    ensures
        root_of(Some(data)) == json_read(data@),
        root_of(None) is None,
        held(Some(value)) == Some(json_of(value)),
        held(None) is None,
        root_after(Some(data), ConfigUpdate::Write(s)) == json_read(s@),
        root_after(Some(data), ConfigUpdate::Leave) == json_read(data@),
        root_after(Some(data), ConfigUpdate::NotAnObject) == json_read(data@),
{
}

} // verus!
