use twitch_adapter::oauth::{
    answer_first, answer_first_bytes, answer_second, answer_second_bytes, auth_url, bare_token,
    listen_address, prefixed_token, redirect_uri, token_from_answer, CaptureError, FirstAnswer,
};

#[test]
fn addresses_name_the_port() {
    assert_eq!(redirect_uri(3000), "http://localhost:3000");
    assert_eq!(listen_address(65535), "127.0.0.1:65535");
    assert_eq!(
        auth_url("cid", "http://localhost:3000"),
        "https://id.twitch.tv/oauth2/authorize?client_id=cid&redirect_uri=http://localhost:3000&response_type=token&scope=chat:read+chat:edit"
    );
}

const SUCCESS: &str = "HTTP/1.1 200 OK\r\nContent-Type: text/html; charset=utf-8\r\n\r\n\
    <html><body style='background:#0e0e10;color:#efeff1;font-family:system-ui,sans-serif;text-align:center;padding-top:120px;'>\
    <h1 style='color:#a970ff;'>Twitch authentication successful!</h1>\
    <p>You can close this window and return to your terminal.</p>\
    </body></html>";

#[test]
fn a_first_request_may_bring_the_token() {
    match answer_first("GET /callback?token=abc HTTP/1.1\r\nHost: x\r\n\r\n", "uri") {
        FirstAnswer::Token { token, page } => {
            assert_eq!(token, "abc");
            assert_eq!(page, SUCCESS);
        }
        other => panic!("{:?}", other),
    }
    assert!(matches!(
        answer_first("GET /callback?token=abc&error=no", "uri"),
        FirstAnswer::Token { token, .. } if token == "abc&error=no"
    ));
    assert!(matches!(
        answer_first("GET /callback?token= HTTP/1.1", "uri"),
        FirstAnswer::Token { token, .. } if token.is_empty()
    ));
}

#[test]
fn a_first_request_may_tell_of_an_error() {
    match answer_first("GET /?error=redirect_mismatch HTTP/1.1", "http://localhost:3000") {
        FirstAnswer::Refused { error, page } => {
            assert_eq!(
                error.message(),
                "Twitch returned a redirect_mismatch error. Make sure http://localhost:3000 is added under Redirect URIs in your Twitch Console app settings."
            );
            assert_eq!(
                page,
                "HTTP/1.1 200 OK\r\nContent-Type: text/html; charset=utf-8\r\n\r\n\
                <html><body style='background:#0e0e10;color:#efeff1;font-family:system-ui,sans-serif;text-align:center;padding-top:120px;'>\
                <h1 style='color:#ff4f4f;'>Twitch Redirect Error (Mismatch)</h1>\
                <p>Please check that your Redirect URI in the Twitch Developer Console is set to exactly <b>http://localhost:3000</b>.</p>\
                </body></html>"
            );
        }
        other => panic!("{:?}", other),
    }
}

#[test]
fn any_other_first_request_gets_the_landing_page() {
    match answer_first("GET / HTTP/1.1\r\n\r\n", "uri") {
        FirstAnswer::Landing { page } => assert_eq!(
            page,
            "HTTP/1.1 200 OK\r\nContent-Type: text/html; charset=utf-8\r\n\r\n\
            <html>\
            <script>\
                if (window.location.hash) {\
                    const hashParams = new URLSearchParams(window.location.hash.substring(1));\
                    const token = hashParams.get('access_token');\
                    if (token) {\
                        window.location.href = '/callback?token=' + token;\
                    }\
                }\
            </script>\
            <body style='background:#0e0e10;color:#efeff1;font-family:system-ui,sans-serif;text-align:center;padding-top:120px;'>\
            <h1 style='color:#a970ff;'>Authenticating with Twitch...</h1>\
            <p>Processing authorization token...</p>\
            </body></html>"
        ),
        other => panic!("{:?}", other),
    }
}

#[test]
fn requests_are_read_off_the_wire() {
    assert!(matches!(
        answer_first_bytes(b"GET /callback?token=a\xffb HTTP/1.1", "uri"),
        FirstAnswer::Token { token, .. } if token == "a\u{fffd}b"
    ));
    assert!(matches!(
        answer_first_bytes("GET /?error=é".as_bytes(), "uri"),
        FirstAnswer::Refused { error: CaptureError::Redirect { redirect_uri }, .. } if redirect_uri == "uri"
    ));
    assert!(matches!(answer_first_bytes(b"", "uri"), FirstAnswer::Landing { .. }));
    let (token, page) = answer_second_bytes("GET /callback?token=é x".as_bytes()).unwrap();
    assert_eq!(token, "é");
    assert_eq!(page, SUCCESS);
    assert!(matches!(answer_second_bytes(b"GET /favicon.ico"), Err(CaptureError::NoToken)));
}

#[test]
fn a_second_request_must_bring_the_token() {
    let (token, page) = answer_second("GET /callback?token=xyz HTTP/1.1\r\n").unwrap();
    assert_eq!(token, "xyz");
    assert_eq!(page, SUCCESS);
    let error = answer_second("GET /?error=x HTTP/1.1").unwrap_err();
    assert!(matches!(error, CaptureError::NoToken));
    assert_eq!(error.message(), "Failed to capture token from browser redirect flow.");
}

fn pasted(input: &str) -> String {
    token_from_answer(Some(input), "uri").unwrap()
}

#[test]
fn the_operator_may_paste_an_address_or_a_token() {
    assert_eq!(pasted(" http://localhost:3000/#access_token=abc&scope=x "), "abc");
    assert_eq!(pasted("http://localhost:3000/#access_token=abc"), "abc");
    assert_eq!(pasted("http://localhost:3000/callback?token=abc&x=y"), "abc");
    assert_eq!(pasted("x?token=first&access_token=second&y"), "second");
    assert_eq!(pasted("  oauth:abc\n"), "oauth:abc");
}

#[test]
fn an_answer_without_a_token_is_an_error() {
    let error = token_from_answer(None, "uri").unwrap_err();
    assert!(matches!(error, CaptureError::NoAnswer));
    assert_eq!(
        error.message(),
        "Token capture failed: browser flow timed out and no redirect URL was provided"
    );
    for input in ["", "   ", "x#access_token=&scope=y", "token="] {
        let error = token_from_answer(Some(input), "uri").unwrap_err();
        assert!(matches!(error, CaptureError::EmptyToken));
        assert_eq!(error.message(), "Empty token provided");
    }
    let error = token_from_answer(Some(" x?error=denied&access_token=a "), "uri").unwrap_err();
    assert_eq!(
        error.message(),
        "Twitch auth error detected. Ensure your Redirect URI in the Twitch Console is set strictly to 'uri'. Details: x?error=denied&access_token=a"
    );
}

#[test]
fn the_prefix_stands_once() {
    assert_eq!(prefixed_token("abc"), "oauth:abc");
    assert_eq!(prefixed_token("oauth:abc"), "oauth:abc");
    assert_eq!(prefixed_token("oauth:oauth:abc"), "oauth:oauth:abc");
    assert_eq!(bare_token("oauth:abc"), "abc");
    assert_eq!(bare_token("abc"), "abc");
    assert_eq!(prefixed_token(&prefixed_token("abc")), prefixed_token("abc"));
}
