//! The OAuth flow: sending the operator's browser to Twitch, and catching the
//! token that it comes back with.
use vstd::prelude::*;
use vstd::utf8::{decode_utf8, valid_utf8};

use crate::text;
use crate::text::{
    contains_text, decimal, occurs_at, position_of, position_of_char, trimmed, without_prefix,
};

verus! {

broadcast use vstd::string::group_string_axioms;

// ---------------------------------------------------------------------------
// Addresses
// ---------------------------------------------------------------------------
/// Where the browser is sent back to.
pub open spec fn redirect_uri_at(port: u16) -> Seq<char> {
    "http://localhost:"@ + decimal(port as nat)
}

/// Where the browser is sent back to.
pub fn redirect_uri(port: u16) -> (r: String)
    ensures
        r@ == redirect_uri_at(port),
{
    "http://localhost:".to_string().concat(text::decimal_text(port as u64).as_str())
}

/// The address on which the adapter listens for the browser.
pub fn listen_address(port: u16) -> (r: String)
    ensures
        r@ == "127.0.0.1:"@ + decimal(port as nat),
{
    "127.0.0.1:".to_string().concat(text::decimal_text(port as u64).as_str())
}

/// The page on which the operator authorizes the client.
pub fn auth_url(client_id: &str, redirect_uri: &str) -> (r: String)
    ensures
        r@ == "https://id.twitch.tv/oauth2/authorize?client_id="@ + client_id@ + "&redirect_uri="@
            + redirect_uri@ + "&response_type=token&scope=chat:read+chat:edit"@,
{
    "https://id.twitch.tv/oauth2/authorize?client_id=".to_string().concat(client_id).concat(
        "&redirect_uri=",
    ).concat(redirect_uri).concat("&response_type=token&scope=chat:read+chat:edit")
}

// ---------------------------------------------------------------------------
// Pages
// ---------------------------------------------------------------------------
/// The page that tells of success.
pub const SUCCESS_PAGE: &'static str = "HTTP/1.1 200 OK\r\nContent-Type: text/html; charset=utf-8\r\n\r\n<html><body style='background:#0e0e10;color:#efeff1;font-family:system-ui,sans-serif;text-align:center;padding-top:120px;'><h1 style='color:#a970ff;'>Twitch authentication successful!</h1><p>You can close this window and return to your terminal.</p></body></html>";

/// The page that takes the token out of its own address and comes back with
/// it.
pub const LANDING_PAGE: &'static str = "HTTP/1.1 200 OK\r\nContent-Type: text/html; charset=utf-8\r\n\r\n<html><script>if (window.location.hash) {const hashParams = new URLSearchParams(window.location.hash.substring(1));const token = hashParams.get('access_token');if (token) {window.location.href = '/callback?token=' + token;}}</script><body style='background:#0e0e10;color:#efeff1;font-family:system-ui,sans-serif;text-align:center;padding-top:120px;'><h1 style='color:#a970ff;'>Authenticating with Twitch...</h1><p>Processing authorization token...</p></body></html>";

/// The page that tells of a redirect address that Twitch does not know, up to
/// that address.
pub const ERROR_PAGE_START: &'static str = "HTTP/1.1 200 OK\r\nContent-Type: text/html; charset=utf-8\r\n\r\n<html><body style='background:#0e0e10;color:#efeff1;font-family:system-ui,sans-serif;text-align:center;padding-top:120px;'><h1 style='color:#ff4f4f;'>Twitch Redirect Error (Mismatch)</h1><p>Please check that your Redirect URI in the Twitch Developer Console is set to exactly <b>";

/// The same page, behind the address.
pub const ERROR_PAGE_END: &'static str = "</b>.</p></body></html>";

/// The page that tells of a redirect address that Twitch does not know.
pub open spec fn error_page_text(redirect_uri: Seq<char>) -> Seq<char> {
    ERROR_PAGE_START@ + redirect_uri + ERROR_PAGE_END@
}

fn error_page(redirect_uri: &str) -> (r: String)
    ensures
        r@ == error_page_text(redirect_uri@),
{
    ERROR_PAGE_START.to_string().concat(redirect_uri).concat(ERROR_PAGE_END)
}

// ---------------------------------------------------------------------------
// What goes wrong
// ---------------------------------------------------------------------------
/// Why no token was caught.
#[derive(Debug)]
pub enum CaptureError {
    /// Twitch sent the browser back with an error.
    Redirect { redirect_uri: String },
    /// The browser came back a second time without a token.
    NoToken,
    /// The address that the operator gave tells of an error.
    Denied { redirect_uri: String, details: String },
    /// The operator gave an empty token.
    EmptyToken,
    /// The operator gave nothing.
    NoAnswer,
}

/// What an error tells the operator.
pub open spec fn error_text(error: CaptureError) -> Seq<char> {
    match error {
        CaptureError::Redirect { redirect_uri } =>
            "Twitch returned a redirect_mismatch error. Make sure "@ + redirect_uri@
            + " is added under Redirect URIs in your Twitch Console app settings."@,
        CaptureError::NoToken => "Failed to capture token from browser redirect flow."@,
        CaptureError::Denied { redirect_uri, details } =>
            "Twitch auth error detected. Ensure your Redirect URI in the Twitch Console is set strictly to '"@
            + redirect_uri@ + "'. Details: "@ + details@,
        CaptureError::EmptyToken => "Empty token provided"@,
        CaptureError::NoAnswer =>
            "Token capture failed: browser flow timed out and no redirect URL was provided"@,
    }
}

impl CaptureError {
    /// What the error tells the operator.
    pub fn message(&self) -> (r: String)
        ensures
            r@ == error_text(*self),
    {
        match self {
            CaptureError::Redirect { redirect_uri } =>
                "Twitch returned a redirect_mismatch error. Make sure ".to_string().concat(
                redirect_uri.as_str(),
            ).concat(" is added under Redirect URIs in your Twitch Console app settings."),
            CaptureError::NoToken =>
                "Failed to capture token from browser redirect flow.".to_string(),
            CaptureError::Denied { redirect_uri, details } =>
                "Twitch auth error detected. Ensure your Redirect URI in the Twitch Console is set strictly to '".to_string().concat(
            redirect_uri.as_str()).concat("'. Details: ").concat(details.as_str()),
            CaptureError::EmptyToken => "Empty token provided".to_string(),
            CaptureError::NoAnswer =>
                "Token capture failed: browser flow timed out and no redirect URL was provided".to_string(),
        }
    }
}

// ---------------------------------------------------------------------------
// What the browser asks for
// ---------------------------------------------------------------------------
/// What `String::from_utf8_lossy` makes of `bytes`.
pub uninterp spec fn lossy_text(bytes: Seq<u8>) -> Seq<char>;

/// `String::from_utf8_lossy` makes one text of bytes; bytes that are UTF-8
/// give the text that they encode.
#[verifier::external_body]
fn text_of_bytes(bytes: &[u8]) -> (r: String)
    ensures
        r@ == lossy_text(bytes@),
        valid_utf8(bytes@) ==> r@ == decode_utf8(bytes@),
{
    String::from_utf8_lossy(bytes).into_owned()
}

/// `s` up to the first `c`, or all of it.
pub open spec fn up_to(s: Seq<char>, c: char) -> Seq<char> {
    match position_of_char(s, c) {
        Some(end) => s.take(end),
        None => s,
    }
}

/// What stands in `s` behind the first `key`, up to the next `end`.
pub open spec fn value_behind(s: Seq<char>, key: Seq<char>, end: char) -> Option<Seq<char>> {
    match position_of(s, key) {
        Some(at) => Some(up_to(s.skip(at + key.len()), end)),
        None => None,
    }
}

/// The token in a request for the callback page.
pub open spec fn token_in_request(request: Seq<char>) -> Option<Seq<char>> {
    value_behind(request, "GET /callback?token="@, ' ')
}

fn cut_value(s: &str, key: &str, end: char) -> (r: Option<String>)
    ensures
        r is Some <==> value_behind(s@, key@, end) is Some,
        r matches Some(value) ==> value_behind(s@, key@, end) == Some(value@),
{
    match text::find(s, key) {
        None => None,
        Some(at) => {
            let len: usize = s.unicode_len();
            let rest = text::cut(s, at + key.unicode_len(), len);
            assert(rest@ =~= s@.skip(at + key@.len()));
            match text::find_char(rest, end) {
                None => Some(rest.to_string()),
                Some(stop) => {
                    let value = text::cut(rest, 0, stop);
                    assert(value@ =~= rest@.take(stop as int));
                    Some(value.to_string())
                },
            }
        },
    }
}

/// What the adapter does about the browser's first request.
#[derive(Debug)]
pub enum FirstAnswer {
    /// The token is here; show `page`.
    Token { token: String, page: String },
    /// Twitch refused; show `page`.
    Refused { error: CaptureError, page: String },
    /// Show `page`, with which the browser comes back a second time.
    Landing { page: String },
}

/// `answer` is the one to the first request: the token where the request is
/// for the callback page, else a refusal where it names an error, else the
/// landing page.
pub open spec fn answers_first(
    answer: FirstAnswer,
    request: Seq<char>,
    redirect_uri: Seq<char>,
) -> bool {
    match token_in_request(request) {
        Some(token) => answer matches FirstAnswer::Token { token: found, page } && found@ == token
            && page@ == SUCCESS_PAGE@,
        None => if contains_text(request, "error="@) {
            answer matches FirstAnswer::Refused { error, page } && (
            error matches CaptureError::Redirect { redirect_uri: uri } && uri@ == redirect_uri)
                && page@ == error_page_text(redirect_uri)
        } else {
            answer matches FirstAnswer::Landing { page } && page@ == LANDING_PAGE@
        },
    }
}

/// Decides about the browser's first request.
pub fn answer_first(request: &str, redirect_uri: &str) -> (r: FirstAnswer)
    ensures
        answers_first(r, request@, redirect_uri@),
{
    if let Some(token) = cut_value(request, "GET /callback?token=", ' ') {
        return FirstAnswer::Token { token, page: SUCCESS_PAGE.to_string() };
    }
    if text::contains(request, "error=") {
        return FirstAnswer::Refused {
            error: CaptureError::Redirect { redirect_uri: redirect_uri.to_string() },
            page: error_page(redirect_uri),
        };
    }
    FirstAnswer::Landing { page: LANDING_PAGE.to_string() }
}

/// Decides about the browser's first request, as it came over the wire.
pub fn answer_first_bytes(request: &[u8], redirect_uri: &str) -> (r: FirstAnswer)
    ensures
        answers_first(r, lossy_text(request@), redirect_uri@),
        valid_utf8(request@) ==> lossy_text(request@) == decode_utf8(request@),
{
    let text = text_of_bytes(request);
    answer_first(text.as_str(), redirect_uri)
}

/// `answer` is the one to the second request: the token and the page to show
/// where the request is for the callback page, else an error.
pub open spec fn answers_second(
    answer: Result<(String, String), CaptureError>,
    request: Seq<char>,
) -> bool {
    match token_in_request(request) {
        Some(token) => answer matches Ok((found, page)) && found@ == token && page@
            == SUCCESS_PAGE@,
        None => answer == Err::<(String, String), CaptureError>(CaptureError::NoToken),
    }
}

/// Decides about the browser's second request: the token and the page to
/// show, or that there is none.
pub fn answer_second(request: &str) -> (r: Result<(String, String), CaptureError>)
    ensures
        answers_second(r, request@),
{
    match cut_value(request, "GET /callback?token=", ' ') {
        Some(token) => Ok((token, SUCCESS_PAGE.to_string())),
        None => Err(CaptureError::NoToken),
    }
}

/// Decides about the browser's second request, as it came over the wire.
pub fn answer_second_bytes(request: &[u8]) -> (r: Result<(String, String), CaptureError>)
    ensures
        answers_second(r, lossy_text(request@)),
        valid_utf8(request@) ==> lossy_text(request@) == decode_utf8(request@),
{
    let text = text_of_bytes(request);
    answer_second(text.as_str())
}

// ---------------------------------------------------------------------------
// What the operator pastes
// ---------------------------------------------------------------------------
/// The token in an address that the operator pasted, or the token itself.
pub open spec fn pasted_token(input: Seq<char>) -> Seq<char> {
    match value_behind(input, "access_token="@, '&') {
        Some(token) => token,
        None => match value_behind(input, "token="@, '&') {
            Some(token) => token,
            None => input,
        },
    }
}

/// The token that the operator's answer to the prompt gives.
pub fn token_from_answer(answer: Option<&str>, redirect_uri: &str) -> (r: Result<
    String,
    CaptureError,
>)
    ensures
        match answer {
            None => r == Err::<String, CaptureError>(CaptureError::NoAnswer),
            Some(input) => if contains_text(trimmed(input@), "error="@) {
                r matches Err(CaptureError::Denied { redirect_uri: uri, details }) && uri@
                    == redirect_uri@ && details@ == trimmed(input@)
            } else if pasted_token(trimmed(input@)).len() == 0 {
                r == Err::<String, CaptureError>(CaptureError::EmptyToken)
            } else {
                r matches Ok(token) && token@ == pasted_token(trimmed(input@))
            },
        },
{
    let input = match answer {
        Some(input) => text::trim(input),
        None => {
            return Err(CaptureError::NoAnswer);
        },
    };
    if text::contains(input, "error=") {
        return Err(
            CaptureError::Denied {
                redirect_uri: redirect_uri.to_string(),
                details: input.to_string(),
            },
        );
    }
    let token = match cut_value(input, "access_token=", '&') {
        Some(token) => token,
        None => match cut_value(input, "token=", '&') {
            Some(token) => token,
            None => input.to_string(),
        },
    };
    if token.as_str().is_empty() {
        Err(CaptureError::EmptyToken)
    } else {
        Ok(token)
    }
}

// ---------------------------------------------------------------------------
// The token as chat takes it
// ---------------------------------------------------------------------------
/// A token without the prefix that chat wants.
pub open spec fn bare(token: Seq<char>) -> Seq<char> {
    without_prefix(token, "oauth:"@)
}

/// A token with the prefix that chat wants.
pub open spec fn prefixed(token: Seq<char>) -> Seq<char> {
    "oauth:"@ + bare(token)
}

/// A token without the prefix that chat wants.
pub fn bare_token(token: &str) -> (r: String)
    ensures
        r@ == bare(token@),
{
    text::strip_prefix(token, "oauth:").to_string()
}

/// A token with the prefix that chat wants.
pub fn prefixed_token(token: &str) -> (r: String)
    ensures
        r@ == prefixed(token@),
{
    "oauth:".to_string().concat(text::strip_prefix(token, "oauth:"))
}

// ---------------------------------------------------------------------------
// Laws
// ---------------------------------------------------------------------------
/// Putting the prefix on is the same once and twice, and taking it off gives
/// the bare token back.
pub proof fn law_prefix_stands_once(token: Seq<char>)
    ensures
        prefixed(prefixed(token)) == prefixed(token),
        bare(prefixed(token)) == bare(token),
        "oauth:"@.is_prefix_of(prefixed(token)),
{
    let p = "oauth:"@;
    assert(prefixed(token).subrange(0, p.len() as int) =~= p);
    assert(prefixed(token).skip(p.len() as int) =~= bare(token));
}

/// What stands behind a key up to its end is what was put there, where the
/// key does not stand before.
pub proof fn law_value_is_found(
    before: Seq<char>,
    key: Seq<char>,
    value: Seq<char>,
    end: char,
    after: Seq<char>,
)
    requires
        key.len() > 0,
        !contains_text(before + key.drop_last(), key),
        !value.contains(end),
    ensures
        value_behind(before + key + value + seq![end] + after, key, end) == Some(value),
        value_behind(before + key + value, key, end) == Some(value),
{
    let n = before.len() as int;
    let short = before + key + value;
    let long = before + key + value + seq![end] + after;
    assert(short.subrange(n, n + key.len()) =~= key);
    assert(long.subrange(n, n + key.len()) =~= key);
    assert(short.take(n + key.len() - 1) =~= before + key.drop_last());
    assert(long.take(n + key.len() - 1) =~= before + key.drop_last());
    text::law_found_where_it_stands(short, key, n);
    text::law_found_where_it_stands(long, key, n);
    let rest = long.skip(n + key.len());
    assert(rest =~= value + seq![end] + after);
    assert(rest[value.len() as int] == end);
    assert forall|j: int| 0 <= j < value.len() implies rest[j] != end by {
        assert(rest[j] == value[j]);
    }
    text::lemma_position_of_char(rest, end, value.len() as int);
    assert(rest.take(value.len() as int) =~= value);
    assert(short.skip(n + key.len()) =~= value);
    text::lemma_position_of_char_some(value, end);
}

/// The token with which the landing page sends the browser back is the one
/// that is caught.
pub proof fn law_callback_brings_the_token(token: Seq<char>, after: Seq<char>)
    requires
        !token.contains(' '),
    ensures
        token_in_request("GET /callback?token="@ + token + " "@ + after) == Some(token),
{
    reveal_strlit("GET /callback?token=");
    reveal_strlit(" ");
    let key = "GET /callback?token="@;
    let none = Seq::<char>::empty();
    assert(!contains_text(none + key.drop_last(), key)) by {
        if contains_text(none + key.drop_last(), key) {
            let i = choose|i: int| occurs_at(none + key.drop_last(), key, i);
            assert(i + key.len() <= key.len() - 1);
        }
    }
    law_value_is_found(none, key, token, ' ', after);
    assert(" "@ =~= seq![' ']);
    assert(none + key + token + seq![' '] + after =~= key + token + " "@ + after);
}

/// The token in the address of the browser after an authorization is the one
/// that is taken from it, whether more follows or not.
pub proof fn law_pasted_address_brings_the_token(
    before: Seq<char>,
    token: Seq<char>,
    after: Seq<char>,
)
    requires
        !contains_text(before + "access_token"@, "access_token="@),
        !token.contains('&'),
    ensures
        pasted_token(before + "access_token="@ + token + "&"@ + after) == token,
        pasted_token(before + "access_token="@ + token) == token,
{
    reveal_strlit("access_token=");
    reveal_strlit("access_token");
    reveal_strlit("&");
    assert("access_token="@.drop_last() =~= "access_token"@);
    assert("&"@ =~= seq!['&']);
    law_value_is_found(before, "access_token="@, token, '&', after);
}

/// What names no token is taken as the token itself.
pub proof fn law_pasted_token_is_taken_as_it_is(input: Seq<char>)
    requires
        !contains_text(input, "token="@),
    ensures
        pasted_token(input) == input,
{
    reveal_strlit("access_token=");
    reveal_strlit("token=");
    text::lemma_position_of_some(input, "token="@);
    text::lemma_position_of_some(input, "access_token="@);
    if contains_text(input, "access_token="@) {
        let i = choose|i: int| occurs_at(input, "access_token="@, i);
        assert forall|k: int| 0 <= k < 6 implies input.subrange(i + 7, i + 13)[k]
            == "token="@[k] by {
            assert(input.subrange(i, i + 13)[k + 7] == "access_token="@[k + 7]);
        }
        assert(occurs_at(input, "token="@, i + 7));
    }
}

/// The token is what stands behind the first key up to the next space,
/// wherever in the request that is; a request without the key has none.
pub proof fn law_request_brings_its_token(before: Seq<char>, token: Seq<char>, after: Seq<char>)
    requires
        !contains_text(before + "GET /callback?token"@, "GET /callback?token="@),
        !token.contains(' '),
    ensures
        token_in_request(before + "GET /callback?token="@ + token) == Some(token),
        token_in_request(before + "GET /callback?token="@ + token + seq![' '] + after) == Some(
            token,
        ),
{
    reveal_strlit("GET /callback?token=");
    reveal_strlit("GET /callback?token");
    assert("GET /callback?token="@.drop_last() =~= "GET /callback?token"@);
    law_value_is_found(before, "GET /callback?token="@, token, ' ', after);
}

/// The browser's first request brings the token exactly where it asks for the
/// callback page; any other is refused exactly where it tells of an error; and
/// all the rest gets the landing page, whatever else it holds.
pub proof fn law_first_request_is_answered(request: &str, uri: &str, r: FirstAnswer)
    requires
        call_ensures(answer_first, (request, uri), r),
    ensures
        r is Token <==> exists|a: Seq<char>, b: Seq<char>|
            request@ == #[trigger] (a + "GET /callback?token="@ + b),
        r is Refused <==> !(r is Token) && exists|a: Seq<char>, b: Seq<char>|
            request@ == #[trigger] (a + "error="@ + b),
        r matches FirstAnswer::Token { token, page } ==> token_in_request(request@) == Some(token@)
            && page@ == SUCCESS_PAGE@,
        r matches FirstAnswer::Refused { error, page } ==> {
            &&& error matches CaptureError::Redirect { redirect_uri }
            &&& redirect_uri@ == uri@
            &&& page@ == ERROR_PAGE_START@ + uri@ + ERROR_PAGE_END@
        },
        r matches FirstAnswer::Landing { page } ==> page@ == LANDING_PAGE@,
{
    text::lemma_position_of_some(request@, "GET /callback?token="@);
    text::law_contained_text_stands_between(request@, "GET /callback?token="@);
    text::law_contained_text_stands_between(request@, "error="@);
}

/// A first request off the wire is answered as the text that it is.
pub proof fn law_first_bytes_are_answered(request: &[u8], uri: &str, r: FirstAnswer)
    requires
        call_ensures(answer_first_bytes, (request, uri), r),
    ensures
        r is Token <==> exists|a: Seq<char>, b: Seq<char>|
            lossy_text(request@) == #[trigger] (a + "GET /callback?token="@ + b),
        r is Refused <==> !(r is Token) && exists|a: Seq<char>, b: Seq<char>|
            lossy_text(request@) == #[trigger] (a + "error="@ + b),
        r matches FirstAnswer::Token { token, page } ==> token_in_request(lossy_text(request@))
            == Some(token@) && page@ == SUCCESS_PAGE@,
        r matches FirstAnswer::Refused { error, page } ==> {
            &&& error matches CaptureError::Redirect { redirect_uri }
            &&& redirect_uri@ == uri@
            &&& page@ == ERROR_PAGE_START@ + uri@ + ERROR_PAGE_END@
        },
        r matches FirstAnswer::Landing { page } ==> page@ == LANDING_PAGE@,
        valid_utf8(request@) ==> lossy_text(request@) == decode_utf8(request@),
{
    let text = lossy_text(request@);
    text::lemma_position_of_some(text, "GET /callback?token="@);
    text::law_contained_text_stands_between(text, "GET /callback?token="@);
    text::law_contained_text_stands_between(text, "error="@);
}

/// The browser's second request brings the token exactly where it asks for the
/// callback page, and else there is none.
pub proof fn law_second_request_is_answered(
    request: &str,
    r: Result<(String, String), CaptureError>,
)
    requires
        call_ensures(answer_second, (request,), r),
    ensures
        r is Ok <==> exists|a: Seq<char>, b: Seq<char>|
            request@ == #[trigger] (a + "GET /callback?token="@ + b),
        r matches Ok((token, page)) ==> token_in_request(request@) == Some(token@) && page@
            == SUCCESS_PAGE@,
        r matches Err(error) ==> error is NoToken,
{
    text::lemma_position_of_some(request@, "GET /callback?token="@);
    text::law_contained_text_stands_between(request@, "GET /callback?token="@);
}

/// A second request off the wire is answered as the text that it is.
pub proof fn law_second_bytes_are_answered(
    request: &[u8],
    r: Result<(String, String), CaptureError>,
)
    requires
        call_ensures(answer_second_bytes, (request,), r),
    ensures
        r is Ok <==> exists|a: Seq<char>, b: Seq<char>|
            lossy_text(request@) == #[trigger] (a + "GET /callback?token="@ + b),
        r matches Ok((token, page)) ==> token_in_request(lossy_text(request@)) == Some(token@)
            && page@ == SUCCESS_PAGE@,
        r matches Err(error) ==> error is NoToken,
{
    text::lemma_position_of_some(lossy_text(request@), "GET /callback?token="@);
    text::law_contained_text_stands_between(lossy_text(request@), "GET /callback?token="@);
}

/// An address with a token under the shorter key brings it, where the longer
/// key stands nowhere.
pub proof fn law_pasted_short_key_brings_the_token(
    before: Seq<char>,
    token: Seq<char>,
    after: Seq<char>,
)
    requires
        !contains_text(before + "token"@, "token="@),
        !token.contains('&'),
    ensures
        !contains_text(before + "token="@ + token, "access_token="@) ==> pasted_token(
            before + "token="@ + token,
        ) == token,
        !contains_text(before + "token="@ + token + seq!['&'] + after, "access_token="@)
            ==> pasted_token(before + "token="@ + token + seq!['&'] + after) == token,
{
    reveal_strlit("token=");
    reveal_strlit("token");
    assert("token="@.drop_last() =~= "token"@);
    law_value_is_found(before, "token="@, token, '&', after);
    text::lemma_position_of_some(before + "token="@ + token, "access_token="@);
    text::lemma_position_of_some(
        before + "token="@ + token + seq!['&'] + after,
        "access_token="@,
    );
}

/// No answer gives no token; an answer that tells of an error is denied with
/// its own words; any other gives the token in it, unless that is empty.
pub proof fn law_answer_gives_the_token(
    answer: Option<&str>,
    uri: &str,
    r: Result<String, CaptureError>,
)
    requires
        call_ensures(token_from_answer, (answer, uri), r),
    ensures
        answer is None <==> r matches Err(CaptureError::NoAnswer),
        answer matches Some(input) ==> {
            &&& (r matches Err(CaptureError::Denied { .. })) <==> exists|
                a: Seq<char>,
                b: Seq<char>,
            | trimmed(input@) == #[trigger] (a + "error="@ + b)
            &&& r matches Err(CaptureError::Denied { redirect_uri, details }) ==> redirect_uri@
                == uri@ && details@ == trimmed(input@)
            &&& r matches Err(CaptureError::EmptyToken) ==> pasted_token(trimmed(input@)).len() == 0
            &&& r matches Ok(token) ==> token@ == pasted_token(trimmed(input@)) && token@.len() > 0
            &&& !(r matches Err(CaptureError::Redirect { .. })) && !(
            r matches Err(CaptureError::NoToken))
        },
{
    if let Some(input) = answer {
        text::law_contained_text_stands_between(trimmed(input@), "error="@);
    }
}

/// What each error tells the operator, with the addresses and the words that
/// it bears.
pub proof fn law_errors_are_told(error: &CaptureError, r: String)
    requires
        call_ensures(CaptureError::message, (error,), r),
    ensures
        error matches CaptureError::Redirect { redirect_uri } ==> r@
            == "Twitch returned a redirect_mismatch error. Make sure "@ + redirect_uri@
            + " is added under Redirect URIs in your Twitch Console app settings."@,
        error is NoToken ==> r@ == "Failed to capture token from browser redirect flow."@,
        error matches CaptureError::Denied { redirect_uri, details } ==> r@
            == "Twitch auth error detected. Ensure your Redirect URI in the Twitch Console is set strictly to '"@
            + redirect_uri@ + "'. Details: "@ + details@,
        error is EmptyToken ==> r@ == "Empty token provided"@,
        error is NoAnswer ==> r@
            == "Token capture failed: browser flow timed out and no redirect URL was provided"@,
{
}

/// The address that the browser is sent back to is one on this machine, at the
/// very port at which the adapter listens.
pub proof fn law_browser_comes_back_to_the_port(port: u16, uri: String, address: String)
    requires
        call_ensures(redirect_uri, (port,), uri),
        call_ensures(listen_address, (port,), address),
    ensures
        uri@ == "http://localhost:"@ + decimal(port as nat),
        address@ == "127.0.0.1:"@ + decimal(port as nat),
{
}

/// A token without the prefix of chat gets it, one that has it keeps it, and
/// nothing else about a token changes.
pub proof fn law_prefix_is_all_that_changes(token: Seq<char>)
    ensures
        bare("oauth:"@ + token) == token,
        prefixed("oauth:"@ + token) == "oauth:"@ + token,
        (forall|rest: Seq<char>| token != #[trigger] ("oauth:"@ + rest)) ==> bare(token) == token
            && prefixed(token) == "oauth:"@ + token,
{
    text::law_prefix_is_taken_off("oauth:"@, token);
}

} // verus!
