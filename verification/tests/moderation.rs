use twitch_adapter::moderation::{parse_mod_command, read_command, ModCommand};

fn parsed(message: &str) -> Option<(String, String)> {
    parse_mod_command(message, "mod").map(|(id, payload)| (id, payload.to_string()))
}

#[test]
fn a_ban_has_a_target_and_a_reason() {
    assert_eq!(
        parsed("  !ban @bob  for being rude "),
        Some((
            "mod_ban".to_string(),
            "{\"actor\":{\"handle\":\"mod\",\"platform\":\"twitch\"},\"handle\":\"bob\",\"platform\":\"twitch\",\"reason\":\"for being rude\"}".to_string()
        ))
    );
}

#[test]
fn a_ban_may_lack_its_reason() {
    let (id, payload) = parse_mod_command("!BAN bob", "mod").unwrap();
    assert_eq!(id, "mod_ban");
    assert_eq!(payload.get("handle").and_then(|v| v.as_str()), Some("bob"));
    assert_eq!(payload.get("reason").and_then(|v| v.as_str()), Some(""));
    assert_eq!(payload.get("duration_secs"), None);
}

#[test]
fn one_character_behind_the_name_is_skipped() {
    let (_, payload) = parse_mod_command("!banx bob", "mod").unwrap();
    assert_eq!(payload.get("handle").and_then(|v| v.as_str()), Some("bob"));
    let (_, payload) = parse_mod_command("!banbob", "mod").unwrap();
    assert_eq!(payload.get("handle").and_then(|v| v.as_str()), Some("ob"));
    let (_, payload) = parse_mod_command("!ban\u{3000}bob é", "mod").unwrap();
    assert_eq!(payload.get("handle").and_then(|v| v.as_str()), Some("bob"));
    assert_eq!(payload.get("reason").and_then(|v| v.as_str()), Some("é"));
}

#[test]
fn a_command_without_a_target_orders_nothing() {
    assert_eq!(parsed("!banx"), None);
    assert_eq!(parsed("!ban @@ reason"), None);
    assert_eq!(parsed("!timeoutx"), None);
    assert_eq!(parsed("!timeout @"), None);
}

#[test]
fn a_timeout_has_seconds_and_a_reason() {
    let (id, payload) = parse_mod_command("!TimeOut @@bob 60 being   rude", "mod").unwrap();
    assert_eq!(id, "mod_timeout");
    assert_eq!(payload.get("handle").and_then(|v| v.as_str()), Some("bob"));
    assert_eq!(payload.get("duration_secs").and_then(|v| v.as_i64()), Some(60));
    assert_eq!(payload.get("reason").and_then(|v| v.as_str()), Some("being rude"));
    assert_eq!(payload.get("platform").and_then(|v| v.as_str()), Some("twitch"));
}

#[test]
fn a_timeout_may_lack_its_seconds() {
    let (_, payload) = parse_mod_command("!timeout bob being rude", "mod").unwrap();
    assert_eq!(payload.get("duration_secs").and_then(|v| v.as_i64()), Some(300));
    assert_eq!(payload.get("reason").and_then(|v| v.as_str()), Some("being rude"));
    let (_, payload) = parse_mod_command("!timeout bob", "mod").unwrap();
    assert_eq!(payload.get("duration_secs").and_then(|v| v.as_i64()), Some(300));
    assert_eq!(payload.get("reason").and_then(|v| v.as_str()), Some(""));
}

#[test]
fn seconds_may_be_below_zero_but_not_too_many() {
    let (_, payload) = parse_mod_command("!timeout bob -5", "mod").unwrap();
    assert_eq!(payload.get("duration_secs").and_then(|v| v.as_i64()), Some(-5));
    let (_, payload) = parse_mod_command("!timeout bob 9223372036854775808 x", "mod").unwrap();
    assert_eq!(payload.get("duration_secs").and_then(|v| v.as_i64()), Some(300));
    assert_eq!(
        payload.get("reason").and_then(|v| v.as_str()),
        Some("9223372036854775808 x")
    );
}

#[test]
fn white_space_between_the_words_does_not_matter() {
    let (_, payload) = parse_mod_command("!timeout \t bob\u{3000} -7  been \n rude ", "mod").unwrap();
    assert_eq!(payload.get("handle").and_then(|v| v.as_str()), Some("bob"));
    assert_eq!(payload.get("duration_secs").and_then(|v| v.as_i64()), Some(-7));
    assert_eq!(payload.get("reason").and_then(|v| v.as_str()), Some("been rude"));
    let (_, payload) = parse_mod_command("!timeout  bob  been  rude", "mod").unwrap();
    assert_eq!(payload.get("duration_secs").and_then(|v| v.as_i64()), Some(300));
    assert_eq!(payload.get("reason").and_then(|v| v.as_str()), Some("been rude"));
    let (_, payload) = parse_mod_command("!ban  bob\t been  rude ", "mod").unwrap();
    assert_eq!(payload.get("handle").and_then(|v| v.as_str()), Some("bob"));
    assert_eq!(payload.get("reason").and_then(|v| v.as_str()), Some("been  rude"));
}

#[test]
fn other_messages_order_nothing() {
    assert_eq!(parsed("hello !ban bob"), None);
    assert_eq!(parsed(""), None);
    assert_eq!(parsed("!time bob"), None);
}

#[test]
fn a_command_alone_orders_nothing() {
    for message in ["!ban", " !ban  ", "!BAN\t", "!timeout", "!timeout ", " !TimeOut"] {
        assert_eq!(parsed(message), None, "{:?}", message);
    }
    assert!(parse_mod_command("!ban", "kate").is_none());
    assert!(parse_mod_command("!timeout ", "kate").is_none());
}

#[test]
fn ends_and_case_do_not_matter() {
    let plain = parsed("!timeout @bob 60 été");
    assert!(plain.is_some());
    for message in [" !timeout @bob 60 été", "!TIMEOUT @bob 60 été\n", "\u{3000}!tImEoUt @bob 60 été\r\n"] {
        assert_eq!(parsed(message), plain);
    }
    assert_eq!(parsed("\t!BaN bob é "), parsed("!ban bob é"));
}

#[test]
fn the_case_of_other_characters_never_spells_a_command() {
    for name in ["!ban", "!timeout"] {
        let letters: Vec<char> = name.chars().collect();
        for n in 0..=0x10ffff_u32 {
            if let Some(c) = char::from_u32(n) {
                let first: char = c.to_lowercase().next().unwrap();
                if !c.is_ascii() && !first.is_ascii() {
                    continue;
                }
                for at in 0..letters.len() {
                    let mut said = letters.clone();
                    said[at] = c;
                    let said: String = said.into_iter().collect::<String>() + " bob";
                    assert_eq!(
                        read_command(&said).is_some(),
                        said.to_lowercase().starts_with(name),
                        "{:?}",
                        said
                    );
                }
            }
        }
    }
}

#[test]
fn commands_are_read_with_their_parts() {
    assert!(matches!(
        read_command("!BAN bob"),
        Some(ModCommand::Ban { target, reason }) if target == "bob" && reason.is_empty()
    ));
    assert!(matches!(
        read_command("!Timeout bob 5 x"),
        Some(ModCommand::Timeout { target, duration_secs: 5, reason }) if target == "bob" && reason == "x"
    ));
    assert!(read_command("ban bob").is_none());
}
