use twitch_adapter::prompt::Topic;
use twitch_adapter::settings::{load_adapter_config, save_adapter_config, ConfigUpdate, TwitchAdapterConfig};
use twitch_adapter::setup::{
    channel_from_input, initial_credentials, is_yes, make_name, Credentials, Progress, Reply,
    Request, Setup,
};

fn text(s: &str) -> Option<String> {
    Some(s.to_string())
}

fn creds(channel: &str, token: &str, username: &str, client_id: &str) -> Credentials {
    Credentials {
        channel: channel.to_string(),
        oauth_token: token.to_string(),
        username: username.to_string(),
        client_id: client_id.to_string(),
    }
}

fn saved(channel: Option<&str>) -> TwitchAdapterConfig {
    TwitchAdapterConfig {
        channel: channel.map(|c| c.to_string()),
        oauth_token: text("oauth:t"),
        username: text("u"),
        client_id: text("i"),
    }
}

fn waiting(progress: Progress) -> Setup {
    match progress {
        Progress::Wait(setup) => setup,
        other => panic!("not waiting: {:?}", other),
    }
}

fn assert_connects(progress: Progress, want: (&str, &str, &str, &str), save_want: bool) {
    match progress {
        Progress::Connect { known, save } => {
            assert_eq!(
                (
                    known.channel.as_str(),
                    known.oauth_token.as_str(),
                    known.username.as_str(),
                    known.client_id.as_str()
                ),
                want
            );
            assert_eq!(save, save_want);
        }
        other => panic!("not connecting: {:?}", other),
    }
}

fn asks_channel(setup: &Setup) -> bool {
    matches!(setup.request(), Request::Ask(Topic::Channel))
}

#[test]
fn full_settings_connect_at_once() {
    assert_connects(Setup::begin(&creds("c", "t", "u", "i"), false), ("c", "t", "u", "i"), false);
    assert_connects(Setup::begin(&creds("c", "", "", ""), false), ("c", "", "", ""), false);
}

#[test]
fn what_was_saved_connects_where_nothing_is_known() {
    let setup = waiting(Setup::begin(&creds("", "", "", ""), false));
    assert!(matches!(setup.request(), Request::LoadSaved));
    assert_connects(setup.advance(Reply::Saved(Some(saved(Some("c"))))), ("c", "oauth:t", "u", "i"), false);
}

#[test]
fn what_was_saved_is_offered_where_no_channel_is_known() {
    let setup = waiting(Setup::begin(&creds("", "t", "", ""), false));
    assert!(matches!(setup.request(), Request::LoadSaved));
    let setup = waiting(setup.advance(Reply::Saved(Some(saved(Some("c"))))));
    assert!(matches!(setup.request(), Request::Ask(Topic::UseSaved(c)) if c == "c"));
    assert_connects(setup.advance(Reply::Answer(text(" YES "))), ("c", "oauth:t", "u", "i"), false);

    let setup = waiting(Setup::begin(&creds("", "t", "", ""), false));
    let setup = waiting(setup.advance(Reply::Saved(Some(saved(Some("c"))))));
    let setup = waiting(setup.advance(Reply::Answer(text("no"))));
    assert!(asks_channel(&setup));
    assert_connects(setup.advance(Reply::Answer(text("d"))), ("d", "t", "d", ""), true);

    let setup = waiting(Setup::begin(&creds("", "t", "", ""), false));
    let setup = waiting(setup.advance(Reply::Saved(Some(saved(Some(""))))));
    assert!(matches!(setup.request(), Request::Ask(Topic::UseSaved(c)) if c.is_empty()));
    let setup = waiting(setup.advance(Reply::Answer(text("y"))));
    assert!(asks_channel(&setup));
    assert_connects(setup.advance(Reply::Answer(text("d"))), ("d", "oauth:t", "u", "i"), true);
}

#[test]
fn without_anything_saved_the_operator_is_asked() {
    for reply in [None, Some(saved(None))] {
        let setup = waiting(Setup::begin(&creds("", "", "", ""), false));
        let setup = waiting(setup.advance(Reply::Saved(reply.clone())));
        assert!(matches!(setup.request(), Request::LoadSaved));
        assert!(asks_channel(&waiting(setup.advance(Reply::Saved(reply)))));
    }
}

#[test]
fn after_a_rejection_the_operator_is_asked_at_once() {
    for known in [
        creds("", "", "", ""),
        creds("", "t", "u", "i"),
        creds("c", "", "u", "i"),
        creds("c", "t", "u", "i"),
    ] {
        let setup = waiting(Setup::begin(&known, true));
        assert!(asks_channel(&setup));
        assert!(setup.force_prompt);
        assert!(setup.known.channel.is_empty());
        assert!(setup.known.oauth_token.is_empty());
        assert!(setup.known.username.is_empty());
        assert!(setup.known.client_id.is_empty());
        let setup = waiting(setup.advance(Reply::Answer(text("d"))));
        let setup = waiting(setup.advance(Reply::Answer(None)));
        assert_connects(setup.advance(Reply::ClockNanos(5)), ("d", "", "justinfan5", ""), true);
    }
}

#[test]
fn an_operator_sets_everything_up() {
    let setup = waiting(Setup::begin(&creds("", "", "", ""), true));
    let setup = waiting(setup.advance(Reply::Answer(text("https://www.twitch.tv/chan/videos"))));
    assert!(matches!(setup.request(), Request::Ask(Topic::ClientId)));
    let setup = waiting(setup.advance(Reply::Answer(text(" cid "))));
    assert!(matches!(
        setup.request(),
        Request::CaptureToken { client_id, seconds: None } if client_id == "cid"
    ));
    let setup = waiting(setup.advance(Reply::Captured(text("oauth:raw"))));
    assert!(matches!(setup.request(), Request::FetchUsername(token) if token == "raw"));
    assert_connects(setup.advance(Reply::Username(text("bot"))), ("chan", "oauth:raw", "bot", "cid"), true);
}

#[test]
fn without_a_name_from_twitch_the_channel_lends_its_own() {
    for name in [None, text("")] {
        let setup = waiting(Setup::begin(&creds("", "", "", ""), true));
        let setup = waiting(setup.advance(Reply::Answer(text("chan"))));
        let setup = waiting(setup.advance(Reply::Answer(text("cid"))));
        let setup = waiting(setup.advance(Reply::Captured(text("raw"))));
        assert_connects(setup.advance(Reply::Username(name)), ("chan", "oauth:raw", "chan", "cid"), true);
    }
}

#[test]
fn an_operator_may_stay_anonymous() {
    for answer in [None, text(""), text("  ")] {
        let setup = waiting(Setup::begin(&creds("", "", "", ""), true));
        let setup = waiting(setup.advance(Reply::Answer(text("chan"))));
        let setup = waiting(setup.advance(Reply::Answer(answer)));
        assert!(matches!(setup.request(), Request::ClockNanos));
        assert_connects(
            setup.advance(Reply::ClockNanos(123_456_789)),
            ("chan", "", "justinfan6789", ""),
            true,
        );
    }
}

#[test]
fn a_failed_first_capture_is_saved_without_a_token() {
    let setup = waiting(Setup::begin(&creds("", "", "", ""), true));
    let setup = waiting(setup.advance(Reply::Answer(text("chan"))));
    let setup = waiting(setup.advance(Reply::Answer(text("cid"))));
    let setup = waiting(setup.advance(Reply::Captured(None)));
    assert_connects(
        setup.advance(Reply::ClockNanos(999_990_000)),
        ("chan", "", "justinfan0", "cid"),
        true,
    );
}

#[test]
fn silence_begins_anew() {
    let setup = waiting(Setup::begin(&creds("", "", "", ""), true));
    assert!(matches!(setup.advance(Reply::Answer(None)), Progress::Retry));
}

#[test]
fn a_client_in_the_settings_is_authorized() {
    let setup = waiting(Setup::begin(&creds("c", "", "u", "i"), false));
    assert!(matches!(
        setup.request(),
        Request::CaptureToken { client_id, seconds: Some(90) } if client_id == "i"
    ));
    let setup = waiting(setup.advance(Reply::Captured(text("raw"))));
    assert!(matches!(setup.request(), Request::FetchUsername(token) if token == "raw"));
    assert_connects(setup.advance(Reply::Username(text("bot"))), ("c", "oauth:raw", "bot", "i"), true);

    let setup = waiting(Setup::begin(&creds("c", "", "u", "i"), false));
    let setup = waiting(setup.advance(Reply::Captured(text("raw"))));
    assert_connects(setup.advance(Reply::Username(None)), ("c", "oauth:raw", "c", "i"), true);
}

#[test]
fn a_failed_authorization_connects_all_the_same() {
    let setup = waiting(Setup::begin(&creds("c", "", "u", "i"), false));
    assert_connects(setup.advance(Reply::Captured(None)), ("c", "", "u", "i"), false);
}

#[test]
fn a_reply_to_something_else_changes_nothing() {
    let setup = waiting(Setup::begin(&creds("", "", "", ""), true));
    let setup = waiting(setup.advance(Reply::ClockNanos(1)));
    assert!(asks_channel(&setup));
}

#[test]
fn a_yes_is_understood() {
    for yes in ["y", "Y", "yes", "YeS", "  yes\n"] {
        assert!(is_yes(&text(yes)), "{:?}", yes);
    }
    for no in ["", "n", "no", "yeah", "yes!", "y es"] {
        assert!(!is_yes(&text(no)), "{:?}", no);
    }
    assert!(!is_yes(&None));
}

#[test]
fn channels_are_named_or_linked() {
    assert_eq!(channel_from_input(" chan "), "chan");
    assert_eq!(channel_from_input("https://twitch.tv/chan"), "chan");
    assert_eq!(channel_from_input("twitch.tv/chan/about?x=y"), "chan");
    assert_eq!(channel_from_input("https://twitch.tv/"), "");
    assert_eq!(channel_from_input("twitch.tv/a/twitch.tv/b"), "a");
    assert_eq!(channel_from_input("   "), "");
    assert_eq!(make_name(10_007), "justinfan7");
}

#[test]
fn the_next_run_connects_with_what_was_saved() {
    let plan = save_adapter_config(Some("{}"), "chan", "oauth:t", "bot", "cid");
    let file = match plan.config {
        ConfigUpdate::Write(file) => file,
        other => panic!("{:?}", other),
    };
    let known = initial_credentials(None, text("oauth:t"), None, text("cid"), Some(&file));
    assert_connects(Setup::begin(&known, false), ("chan", "oauth:t", "bot", "cid"), false);
    let config = load_adapter_config(Some(&file), None, text("oauth:t"), text("cid"));
    let setup = waiting(Setup::begin(&creds("", "", "", ""), false));
    assert_connects(setup.advance(Reply::Saved(config)), ("chan", "oauth:t", "bot", "cid"), false);
}

#[test]
fn the_environment_is_known_at_the_start() {
    let file = "{\"module_specific\":{\"channel\":\"saved\",\"username\":\"name\"}}";
    let known = initial_credentials(text("env"), None, text(" "), text("cid"), Some(file));
    assert_eq!(known.channel, "env");
    assert_eq!(known.oauth_token, "");
    assert_eq!(known.username, "name");
    assert_eq!(known.client_id, "cid");
    assert_eq!(known.copy().channel, "env");
}
