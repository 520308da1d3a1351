use mailbox::gmail::{
    clamp_limit, decode_base64url, extract_body, find_part, generate_code_challenge, generate_code_verifier,
    handle_callback, header, ids_to_fetch, listed_emails, oauth_url, AuthError, CallbackError, GmailBody,
    GmailHeader, GmailMessage, GmailPayload, GoogleAccount, GoogleTokenResponse,
};

fn leaf(mime: &str, data: Option<&str>) -> GmailPayload {
    GmailPayload {
        mime_type: Some(mime.to_string()),
        headers: None,
        body: Some(GmailBody { data: data.map(|d| d.to_string()) }),
        parts: None,
    }
}

fn node(mime: &str, parts: Vec<GmailPayload>) -> GmailPayload {
    GmailPayload { mime_type: Some(mime.to_string()), headers: None, body: None, parts: Some(parts) }
}

fn hdr(name: &str, value: &str) -> GmailHeader {
    GmailHeader { name: name.to_string(), value: value.to_string() }
}

fn tokens(refresh: Option<&str>, expires_in: u64) -> GoogleTokenResponse {
    GoogleTokenResponse {
        access_token: "access".to_string(),
        expires_in,
        refresh_token: refresh.map(|r| r.to_string()),
        scope: "s".to_string(),
        token_type: "Bearer".to_string(),
    }
}

#[test]
fn base64url_with_and_without_padding() {
    assert_eq!(decode_base64url("aGVsbG8"), Some("hello".to_string()));
    assert_eq!(decode_base64url("aGVsbG8="), Some("hello".to_string()));
    assert_eq!(decode_base64url("aGk=="), Some("hi".to_string()));
    assert_eq!(decode_base64url("w6k"), Some("é".to_string()));
    assert_eq!(decode_base64url("_-8"), Some("\u{FFFD}\u{FFFD}".to_string()));
    assert_eq!(decode_base64url("a"), None);
    assert_eq!(decode_base64url("aGk/"), None);
    assert_eq!(decode_base64url("aGl"), None);
    assert_eq!(decode_base64url(""), Some(String::new()));
}

#[test]
fn find_part_prefers_plain_text_depth_first() {
    let payload = node(
        "multipart/mixed",
        vec![
            node("multipart/alternative", vec![leaf("text/html", Some("PGI-aGk8L2I-")), leaf("TEXT/PLAIN", Some("cGxhaW4"))]),
            leaf("text/plain", Some("c2Vjb25k")),
        ],
    );
    assert_eq!(find_part(&payload, Some("text/plain")), Some("plain".to_string()));
    assert_eq!(find_part(&payload, Some("text/html")), Some("<b>hi</b>".to_string()));
    assert_eq!(find_part(&payload, None), Some("<b>hi</b>".to_string()));
    assert_eq!(extract_body(&payload), "plain");
}

#[test]
fn find_part_skips_blank_and_undecodable_parts() {
    let payload = node("multipart/alternative", vec![leaf("text/plain", Some("ICAg")), leaf("text/plain", Some("!!")), leaf("text/html", Some("aHRtbA"))]);
    assert_eq!(find_part(&payload, Some("text/plain")), None);
    assert_eq!(extract_body(&payload), "html");
    let empty = GmailPayload { mime_type: None, headers: None, body: None, parts: None };
    assert_eq!(extract_body(&empty), "");
    assert_eq!(find_part(&leaf("text/plain", None), None), None);
}

#[test]
fn headers_ignore_case_and_take_the_first() {
    let hs = vec![hdr("subject", "one"), hdr("From", "A <a@x>"), hdr("Subject", "two")];
    assert_eq!(header(&hs, "Subject"), "one");
    assert_eq!(header(&hs, "FROM"), "A <a@x>");
    assert_eq!(header(&hs, "To"), "");
}

#[test]
fn messages_become_emails() {
    let message = GmailMessage {
        id: "m1".to_string(),
        snippet: Some("preview".to_string()),
        payload: Some(GmailPayload {
            mime_type: Some("text/plain".to_string()),
            headers: Some(vec![hdr("From", "Ann <ann@x>"), hdr("Subject", "Hi")]),
            body: Some(GmailBody { data: Some("Ym9keQ".to_string()) }),
            parts: None,
        }),
        internal_date: Some("1700000000000".to_string()),
    };
    let e = message.to_email(true);
    assert_eq!((e.id.as_str(), e.from.as_str(), e.subject.as_str(), e.intro.as_str(), e.body.as_str()), ("m1", "Ann <ann@x>", "Hi", "preview", "body"));
    assert!(e.seen);
    assert_eq!(e.created_at, "1700000000000");
    let bare = GmailMessage { id: "m2".to_string(), snippet: None, payload: None, internal_date: None };
    let e = bare.to_email(false);
    assert_eq!((e.from.as_str(), e.intro.as_str(), e.created_at.as_str()), ("", "", ""));
}

#[test]
fn listed_emails_drop_failed_fetches_and_bodies() {
    let m = |id: &str| GmailMessage { id: id.to_string(), snippet: None, payload: Some(leaf("text/plain", Some("Ym9keQ"))), internal_date: None };
    let emails = listed_emails(vec![Some(m("a")), None, Some(m("b"))]);
    let ids: Vec<&str> = emails.iter().map(|e| e.id.as_str()).collect();
    assert_eq!(ids, vec!["a", "b"]);
    assert!(emails.iter().all(|e| e.body.is_empty()));
}

#[test]
fn list_limits() {
    assert_eq!(clamp_limit(0), 1);
    assert_eq!(clamp_limit(10), 10);
    assert_eq!(clamp_limit(100), 25);
    let ids: Vec<String> = (0..30).map(|i| i.to_string()).collect();
    assert_eq!(ids_to_fetch(Some(ids.clone()), 3).len(), 3);
    assert_eq!(ids_to_fetch(Some(ids.clone()), 0), vec!["0".to_string()]);
    assert_eq!(ids_to_fetch(Some(ids), 99).len(), 25);
    assert!(ids_to_fetch(None, 5).is_empty());
}

#[test]
fn pkce_challenge_matches_rfc7636() {
    assert_eq!(
        generate_code_challenge("dBjftJeZ4CVP-mB92K27uhbUJU1p1r_wW1gFWFOEjXk"),
        "E9Melhoa2OwvFrEMTJguCHaoeK1t8URWbuGJSstw-cM"
    );
    let verifier = generate_code_verifier();
    assert_eq!(verifier.chars().count(), 64);
    assert!(verifier.chars().all(|c| c.is_ascii_alphanumeric()));
    assert_eq!(generate_code_challenge(&verifier).len(), 43);
}

#[test]
fn oauth_url_is_encoded() {
    let url = oauth_url("abc-_");
    assert_eq!(
        url,
        "https://accounts.google.com/o/oauth2/v2/auth?client_id=830227318434-7mgfk7bucm5mt9sl8271oevg9bjj6vlu.apps.googleusercontent.com&redirect_uri=http%3A%2F%2F127.0.0.1%3A49152%2Fcallback&response_type=code&scope=https%3A%2F%2Fwww.googleapis.com%2Fauth%2Fgmail.readonly&access_type=offline&prompt=consent&code_challenge=abc-_&code_challenge_method=S256"
    );
}

#[test]
fn callback_outcomes() {
    let r = handle_callback(Some("c".to_string()), Some("access_denied".to_string()));
    assert_eq!(r.outcome, Err(CallbackError::Denied("access_denied".to_string())));
    assert_eq!(r.page, "<h2>Google login failed.</h2><p>You can close this window.</p>");
    assert_eq!(CallbackError::Denied("x".to_string()).message(), "Google OAuth error: x");
    let r = handle_callback(None, None);
    assert_eq!(r.outcome, Err(CallbackError::MissingCode));
    assert_eq!(r.page, "<h2>Google login failed.</h2><p>No authorization code was returned.</p>");
    assert_eq!(CallbackError::MissingCode.message(), "Google did not return an authorization code.");
    let r = handle_callback(Some("code".to_string()), None);
    assert_eq!(r.outcome, Ok("code".to_string()));
    assert!(r.page.starts_with("<h2>Gmail connected!</h2>"));
}

#[test]
fn tokens_make_accounts() {
    let a = GoogleAccount::from_tokens(tokens(Some("refresh"), 3600), 1000).unwrap();
    assert_eq!((a.email.as_str(), a.access_token.as_str(), a.refresh_token.as_str(), a.expires_at), ("", "access", "refresh", 4600));
    let e = GoogleAccount::from_tokens(tokens(None, 3600), 1000).unwrap_err();
    assert_eq!(e, AuthError::MissingRefreshToken);
    assert_eq!(e.message(), "Google did not return a refresh token");
}

#[test]
fn token_freshness_and_refresh() {
    let mut a = GoogleAccount::from_tokens(tokens(Some("r"), 100), 0).unwrap();
    assert!(a.token_is_fresh(39));
    assert!(!a.token_is_fresh(40));
    a.apply_refresh(tokens(Some("ignored"), 3600), 500);
    assert_eq!(a.expires_at, 4100);
    assert_eq!(a.refresh_token, "r");
    assert!(a.token_is_fresh(500));
}

#[test]
fn url_encoding_agrees_with_urlencoding() {
    for s in ["", "abcXYZ019-._~", "a b&c=d/e?f", "https://x.y/callback", "é€😀", "%", "+*'()!"] {
        assert_eq!(mailbox::encoding::url_encode(s), urlencoding::encode(s).into_owned(), "{s}");
    }
    assert_eq!(mailbox::encoding::url_encode("a b/é"), "a%20b%2F%C3%A9");
}
