use twitch_adapter::json::parse;
use twitch_adapter::settings::{
    adapter_config, fetched_username, initial_setting, initial_setting_in, load_adapter_config,
    load_oauth_redirect_port, login, or_empty, put_settings, redirect_port, save_adapter_config,
    validation_header, ConfigUpdate,
};

fn s(text: &str) -> Option<String> {
    Some(text.to_string())
}

fn written(update: ConfigUpdate) -> String {
    match update {
        ConfigUpdate::Write(text) => text,
        other => panic!("not written: {:?}", other),
    }
}

#[test]
fn the_port_is_read_from_the_configuration() {
    assert_eq!(load_oauth_redirect_port(Some("{\"oauth_redirect_port\": 4100}")), 4100);
    assert_eq!(load_oauth_redirect_port(Some("{\"oauth_redirect_port\": 1}")), 1);
    assert_eq!(load_oauth_redirect_port(Some("{\"oauth_redirect_port\": 65535}")), 65535);
    assert_eq!(redirect_port(&parse("{\"oauth_redirect_port\":80}")), 80);
}

#[test]
fn the_port_is_3000_by_default() {
    for config in [
        None,
        Some(""),
        Some("no json"),
        Some("[4100]"),
        Some("{}"),
        Some("{\"oauth_redirect_port\": 0}"),
        Some("{\"oauth_redirect_port\": 65536}"),
        Some("{\"oauth_redirect_port\": -1}"),
        Some("{\"oauth_redirect_port\": 4100.0}"),
        Some("{\"oauth_redirect_port\": \"4100\"}"),
        Some("{\"oauth_redirect_port\": null}"),
        Some("{\"module_specific\": {\"oauth_redirect_port\": 4100}}"),
    ] {
        assert_eq!(load_oauth_redirect_port(config), 3000, "{:?}", config);
    }
    assert_eq!(redirect_port(&None), 3000);
}

#[test]
fn saved_settings_need_a_token_and_a_client() {
    let config = Some("{\"module_specific\":{\"channel\":\"chan\",\"username\":\"bot\"}}");
    assert!(load_adapter_config(config, None, None, None).is_none());
    assert!(load_adapter_config(config, None, s("tok"), None).is_none());
    assert!(load_adapter_config(config, None, s("tok"), s("")).is_none());
    assert!(load_adapter_config(config, None, s(""), s("cid")).is_none());
    let found = load_adapter_config(config, None, s("tok"), s("cid")).unwrap();
    assert_eq!(found.channel, s("chan"));
    assert_eq!(found.oauth_token, s("tok"));
    assert_eq!(found.username, s("bot"));
    assert_eq!(found.client_id, s("cid"));
    assert_eq!(found.clone().channel, s("chan"));
}

#[test]
fn saved_settings_may_lack_the_public_ones() {
    for config in [
        None,
        Some("broken"),
        Some("{}"),
        Some("{\"module_specific\":7}"),
        Some("{\"module_specific\":{\"channel\":7,\"username\":[]}}"),
    ] {
        let found = load_adapter_config(config, s("env"), s("tok"), s("cid")).unwrap();
        assert_eq!(found.channel, None);
        assert_eq!(found.username, s("env"));
        let found = load_adapter_config(config, s(""), s("tok"), s("cid")).unwrap();
        assert_eq!(found.username, None);
    }
    let empty = parse("{\"module_specific\":{\"channel\":\"\",\"username\":\"\"}}");
    let found = adapter_config(empty, s("env"), s("tok"), s("cid")).unwrap();
    assert_eq!(found.channel, s(""));
    assert_eq!(found.username, s("env"));
}

#[test]
fn the_environment_goes_before_the_file_unless_blank() {
    let config = Some("{\"module_specific\":{\"channel\":\"saved\",\"n\":1}}");
    assert_eq!(initial_setting(s(" env "), config, "channel"), " env ");
    assert_eq!(initial_setting(s(" \t"), config, "channel"), "saved");
    assert_eq!(initial_setting(s(""), config, "channel"), "saved");
    assert_eq!(initial_setting(None, config, "channel"), "saved");
    assert_eq!(initial_setting(None, config, "username"), "");
    assert_eq!(initial_setting(None, config, "n"), "");
    assert_eq!(initial_setting(None, None, "channel"), "");
    assert_eq!(initial_setting_in(None, parse("5"), "channel"), "");
    assert_eq!(or_empty(None), "");
    assert_eq!(or_empty(s("x")), "x");
}

#[test]
fn saving_writes_secrets_and_public_settings_apart() {
    let plan = save_adapter_config(Some("{\"b\":1,\"a\":[true]}"), "chan", "tok", "bot", "cid");
    assert_eq!(
        plan.env,
        vec![
            ("TWITCH_OAUTH_TOKEN".to_string(), "tok".to_string()),
            ("TWITCH_CLIENT_ID".to_string(), "cid".to_string()),
        ]
    );
    let text = written(plan.config);
    assert_eq!(
        text,
        "{\n  \"a\": [\n    true\n  ],\n  \"b\": 1,\n  \"module_specific\": {\n    \"channel\": \"chan\",\n    \"username\": \"bot\"\n  }\n}"
    );
    assert!(!text.contains("tok"));
    assert!(!text.contains("cid"));
}

#[test]
fn saving_replaces_what_was_saved_and_keeps_the_rest() {
    let before = "{\"oauth_redirect_port\":4100,\"module_specific\":{\"channel\":\"old\",\"x\":1},\"z\":-7}";
    let once = written(save_adapter_config(Some(before), "one", "t", "u", "c").config);
    let twice = written(save_adapter_config(Some(&once), "two", "t", "v", "c").config);
    let direct = written(save_adapter_config(Some(before), "two", "t", "v", "c").config);
    assert_eq!(twice, direct);
    assert_eq!(load_oauth_redirect_port(Some(&twice)), 4100);
    let with_float = written(
        save_adapter_config(Some("{\"oauth_redirect_port\":80,\"f\":0.1}"), "c", "t", "u", "i").config,
    );
    assert_eq!(load_oauth_redirect_port(Some(&with_float)), 80);
    let root = parse(&twice).unwrap();
    assert_eq!(root.get("z").and_then(|z| z.as_i64()), Some(-7));
    assert_eq!(root.get("module_specific").and_then(|m| m.get("x")), None);
}

#[test]
fn what_is_saved_is_found() {
    for before in ["{}", "null", "{\"f\": 0.1, \"g\": [1e300, -2.5]}"] {
        let plan = save_adapter_config(Some(before), "chän \"x\"\n", "tok", "böt", "cid");
        let text = written(plan.config);
        let found = load_adapter_config(Some(&text), None, s("tok"), s("cid")).unwrap();
        assert_eq!(found.channel, s("chän \"x\"\n"));
        assert_eq!(found.username, s("böt"));
        assert_eq!(initial_setting(None, Some(&text), "channel"), "chän \"x\"\n");
        assert_eq!(initial_setting(None, Some(&text), "username"), "böt");
    }
}

#[test]
fn a_file_with_extreme_numbers_can_be_read_again() {
    for number in [
        "1.7976931348623157e308",
        "-1.7976931348623157e308",
        "1.7976931348623155e308",
        "1.797693134862315e308",
        "1e308",
        "9.999999999999999e307",
        "5e-324",
        "2.2250738585072014e-308",
        "-0.0",
        "1e16",
        "123456789012345680.0",
        "18446744073709551616",
        "0.1",
    ] {
        let before = format!("{{\"oauth_redirect_port\":4100,\"n\":[{}]}}", number);
        let mut text = before.clone();
        for round in 0..5 {
            assert!(parse(&text).is_some(), "{} in round {}", number, round);
            text = written(save_adapter_config(Some(&text), "c", "t", "u", "i").config);
        }
        assert_eq!(load_oauth_redirect_port(Some(&text)), 4100);
        let found = load_adapter_config(Some(&text), None, s("t"), s("i")).unwrap();
        assert_eq!((found.channel, found.username), (s("c"), s("u")));
    }
}

#[test]
fn doubles_next_to_the_largest_are_read_again() {
    for steps in 0..20_000_u64 {
        let n = f64::from_bits(f64::MAX.to_bits() - steps * steps);
        let text = serde_json::Value::from(n).to_string();
        assert!(parse(&text).is_some(), "{}", text);
    }
}

#[test]
fn a_missing_or_broken_file_is_left_alone() {
    assert!(matches!(save_adapter_config(None, "c", "t", "u", "i").config, ConfigUpdate::Leave));
    assert!(matches!(
        save_adapter_config(Some("{\"a\":"), "c", "t", "u", "i").config,
        ConfigUpdate::Leave
    ));
}

#[test]
fn a_file_that_takes_no_members_is_told_apart() {
    for text in ["7", "[]", "\"text\"", "true"] {
        assert!(matches!(
            save_adapter_config(Some(text), "c", "t", "u", "i").config,
            ConfigUpdate::NotAnObject
        ));
    }
    let value = put_settings(parse("null").unwrap(), "c", "u");
    assert_eq!(
        value.to_string(),
        "{\"module_specific\":{\"channel\":\"c\",\"username\":\"u\"}}"
    );
}

#[test]
fn texts_that_nest_too_deep_are_no_json() {
    let nested = |n: usize| format!("{}{}", "[".repeat(n), "]".repeat(n));
    assert!(parse(&nested(127)).is_some());
    assert!(parse(&nested(128)).is_none());
}

#[test]
fn the_login_is_taken_from_a_successful_answer() {
    let body = "{\"client_id\":\"x\",\"login\":\"bot\\u00e9\"}".as_bytes();
    assert_eq!(fetched_username(200, body), s("boté"));
    assert_eq!(fetched_username(299, body), s("boté"));
    for status in [0, 199, 300, 401, 500, 65535] {
        assert_eq!(fetched_username(status, body), None);
    }
    assert_eq!(fetched_username(200, b"{\"login\":5}"), None);
    assert_eq!(fetched_username(200, b"{}"), None);
    assert_eq!(fetched_username(200, b"\xff"), None);
    assert_eq!(fetched_username(200, b"{\"login\":\"\xff\"}"), None);
    assert_eq!(login(&parse("{\"login\":\"bot\"}")), s("bot"));
    assert_eq!(login(&None), None);
    assert_eq!(validation_header("abc"), "OAuth abc");
}
