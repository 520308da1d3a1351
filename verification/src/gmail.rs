//! Gmail: signing in with Google (OAuth with PKCE), keeping the access
//! token fresh, and turning Gmail API messages into emails.
use vstd::prelude::*;

use crate::encoding::{
    b64url_decode, b64url_encode, b64url_encode_bytes, decode_b64url, percent_encode, sha256,
    sha256_digest, url_encode, utf8_lossy, utf8_lossy_string,
};
use crate::mail::{all_alphanumeric, random_string, string_or_empty, unwrap_or_empty, Email};
use crate::text::{
    join_str, eq_ignore_ascii_case, eq_ignore_case, trim_both, trim_end, trim_end_str, trim_str, Trim,
};

verus! {

// ---------------------------------------------------------------------------
// Accounts and tokens

/// A signed-in Google account.
#[derive(Debug)]
pub struct GoogleAccount {
    pub email: String,
    pub access_token: String,
    pub refresh_token: String,
    /// Unix seconds at which `access_token` expires.
    pub expires_at: u64,
}

impl Clone for GoogleAccount {
    fn clone(&self) -> (r: Self)
        ensures
            r == *self,
    {
        GoogleAccount {
            email: self.email.clone(),
            access_token: self.access_token.clone(),
            refresh_token: self.refresh_token.clone(),
            expires_at: self.expires_at,
        }
    }
}

/// What the OAuth server answers to a code exchange or a refresh.
#[derive(Debug)]
pub struct GoogleTokenResponse {
    pub access_token: String,
    pub expires_in: u64,
    pub refresh_token: Option<String>,
    pub scope: String,
    pub token_type: String,
}

#[derive(Debug, PartialEq, Eq)]
pub enum AuthError {
    /// The code exchange gave no refresh token, so the account could not
    /// stay signed in.
    MissingRefreshToken,
}

impl AuthError {
    pub fn message(&self) -> (r: String)
        ensures
            r@ == "Google did not return a refresh token"@,
    {
        "Google did not return a refresh token".to_owned()
    }
}

/// The access token is good for more than another minute at Unix time
/// `now`.
pub open spec fn fresh_at(a: GoogleAccount, now: int) -> bool {
    now + 60 < a.expires_at
}

impl GoogleAccount {
    /// The account a code exchange signs in, at Unix time `now`; its email
    /// is filled in later from the profile.
    pub fn from_tokens(tokens: GoogleTokenResponse, now: u64) -> (r: Result<GoogleAccount, AuthError>)
        requires
            tokens.refresh_token is Some ==> now + tokens.expires_in <= u64::MAX,
        ensures
            match tokens.refresh_token {
                Some(refresh) => r matches Ok(a) && a.email@ == Seq::<char>::empty()
                    && a.access_token == tokens.access_token && a.refresh_token == refresh
                    && a.expires_at == now + tokens.expires_in,
                None => r == Err::<GoogleAccount, AuthError>(AuthError::MissingRefreshToken),
            },
    {
        match tokens.refresh_token {
            None => Err(AuthError::MissingRefreshToken),
            Some(refresh_token) => Ok(
                GoogleAccount {
                    email: String::new(),
                    access_token: tokens.access_token,
                    refresh_token,
                    expires_at: now + tokens.expires_in,
                },
            ),
        }
    }

    /// Whether the access token is still good for more than a minute at
    /// Unix time `now`; when it is not, it has to be refreshed first.
    pub fn token_is_fresh(&self, now: u64) -> (r: bool)
        requires
            now + 60 <= u64::MAX,
        ensures
            r == fresh_at(*self, now as int),
    {
        now + 60 < self.expires_at
    }

    /// Takes in a refreshed access token received at Unix time `now`. The
    /// refresh token and the email stay as they were.
    pub fn apply_refresh(&mut self, tokens: GoogleTokenResponse, now: u64)
        requires
            now + tokens.expires_in <= u64::MAX,
        ensures
            final(self).access_token == tokens.access_token,
            final(self).expires_at == now + tokens.expires_in,
            final(self).refresh_token == old(self).refresh_token,
            final(self).email == old(self).email,
    {
        self.access_token = tokens.access_token;
        self.expires_at = now + tokens.expires_in;
    }
}

// ---------------------------------------------------------------------------
// Messages

#[derive(Debug)]
pub struct GmailHeader {
    pub name: String,
    pub value: String,
}

#[derive(Debug)]
pub struct GmailBody {
    pub data: Option<String>,
}

/// A message part. Emails are a tree of parts, e.g. multipart/alternative
/// holding a text/plain part and a text/html part.
#[derive(Debug)]
pub struct GmailPayload {
    pub mime_type: Option<String>,
    pub headers: Option<Vec<GmailHeader>>,
    pub body: Option<GmailBody>,
    pub parts: Option<Vec<GmailPayload>>,
}

#[derive(Debug)]
pub struct GmailMessage {
    pub id: String,
    pub snippet: Option<String>,
    pub payload: Option<GmailPayload>,
    pub internal_date: Option<String>,
}

pub open spec fn opt_view(s: Option<&str>) -> Option<Seq<char>> {
    match s {
        Some(s) => Some(s@),
        None => None,
    }
}

/// Gmail's base64url body data as text: `=` padding is dropped, then the
/// rest must be unpadded base64url; the bytes are read as lossy UTF-8.
pub open spec fn decoded_text(data: Seq<char>) -> Option<Seq<char>> {
    match b64url_decode(trim_end(data, Trim::Exactly('='))) {
        Some(b) => Some(utf8_lossy(b)),
        None => None,
    }
}

/// The text a part carries itself: its body data decoded, if that is more
/// than whitespace.
pub open spec fn part_text(p: GmailPayload) -> Option<Seq<char>> {
    match p.body {
        Some(b) => match b.data {
            Some(d) => match decoded_text(d@) {
                Some(t) => if trim_both(t, Trim::Whitespace).len() > 0 {
                    Some(t)
                } else {
                    None
                },
                None => None,
            },
            None => None,
        },
        None => None,
    }
}

/// Whether a part is of the wanted type (any type when none is wanted),
/// ignoring ASCII case.
pub open spec fn mime_matches(p: GmailPayload, mime: Option<Seq<char>>) -> bool {
    match mime {
        None => true,
        Some(w) => match p.mime_type {
            Some(a) => eq_ignore_ascii_case(a@, w),
            None => false,
        },
    }
}

/// The text of the first part of the wanted type that has content,
/// searching the part itself before its children, depth first.
pub open spec fn find_part_text(p: GmailPayload, mime: Option<Seq<char>>) -> Option<Seq<char>>
    decreases p,
{
    if mime_matches(p, mime) && part_text(p) is Some {
        part_text(p)
    } else {
        match p.parts {
            Some(v) => find_in_parts(v@, mime),
            None => None,
        }
    }
}

/// The first of `ps` (in order) in which `find_part_text` finds text.
pub open spec fn find_in_parts(ps: Seq<GmailPayload>, mime: Option<Seq<char>>) -> Option<Seq<char>>
    decreases ps,
{
    if ps.len() == 0 {
        None
    } else {
        match find_part_text(ps[0], mime) {
            Some(t) => Some(t),
            None => find_in_parts(ps.drop_first(), mime),
        }
    }
}

pub open spec fn text_plain() -> Seq<char> {
    seq!['t', 'e', 'x', 't', '/', 'p', 'l', 'a', 'i', 'n']
}

pub open spec fn text_html() -> Seq<char> {
    seq!['t', 'e', 'x', 't', '/', 'h', 't', 'm', 'l']
}

/// The body to show: the text/plain part, else the text/html part, else
/// whatever part has content, else nothing.
pub open spec fn body_text(p: GmailPayload) -> Seq<char> {
    match find_part_text(p, Some(text_plain())) {
        Some(t) => t,
        None => match find_part_text(p, Some(text_html())) {
            Some(t) => t,
            None => match find_part_text(p, None) {
                Some(t) => t,
                None => Seq::empty(),
            },
        },
    }
}

/// The value of the first header with this name (ASCII case ignored), or
/// nothing.
pub open spec fn header_value(hs: Seq<GmailHeader>, name: Seq<char>) -> Seq<char>
    decreases hs.len(),
{
    if hs.len() == 0 {
        Seq::empty()
    } else if eq_ignore_ascii_case(hs[0].name@, name) {
        hs[0].value@
    } else {
        header_value(hs.drop_first(), name)
    }
}

pub open spec fn message_headers(m: GmailMessage) -> Seq<GmailHeader> {
    match m.payload {
        Some(p) => match p.headers {
            Some(hs) => hs@,
            None => Seq::empty(),
        },
        None => Seq::empty(),
    }
}

pub open spec fn from_header() -> Seq<char> {
    seq!['F', 'r', 'o', 'm']
}

pub open spec fn subject_header() -> Seq<char> {
    seq!['S', 'u', 'b', 'j', 'e', 'c', 't']
}

/// The email that a Gmail message stands for; the body only when asked for
/// (the list request does not carry it). Gmail messages count as seen.
pub open spec fn is_email_of(e: Email, m: GmailMessage, include_body: bool) -> bool {
    &&& e.id == m.id
    &&& e.from@ == header_value(message_headers(m), from_header())
    &&& e.subject@ == header_value(message_headers(m), subject_header())
    &&& e.intro@ == string_or_empty(m.snippet)
    &&& e.body@ == if include_body {
        match m.payload {
            Some(p) => body_text(p),
            None => Seq::empty(),
        }
    } else {
        Seq::empty()
    }
    &&& e.seen
    &&& e.created_at@ == string_or_empty(m.internal_date)
}

/// Decodes Gmail body data (base64url, sometimes with `=` padding, which
/// is stripped first).
pub fn decode_base64url(data: &str) -> (r: Option<String>)
    ensures
        match r {
            Some(t) => decoded_text(data@) == Some(t@),
            None => decoded_text(data@) is None,
        },
{
    let trimmed = trim_end_str(data, Trim::Exactly('='));
    match decode_b64url(trimmed.as_str()) {
        Some(bytes) => Some(utf8_lossy_string(bytes.as_slice())),
        None => None,
    }
}

/// The text a part carries itself, computed.
fn own_text(payload: &GmailPayload) -> (r: Option<String>)
    ensures
        match r {
            Some(t) => part_text(*payload) == Some(t@),
            None => part_text(*payload) is None,
        },
{
    match &payload.body {
        Some(b) => match &b.data {
            Some(d) => match decode_base64url(d.as_str()) {
                Some(t) => {
                    let trimmed = trim_str(t.as_str(), Trim::Whitespace);
                    if trimmed.as_str().is_empty() {
                        None
                    } else {
                        Some(t)
                    }
                },
                None => None,
            },
            None => None,
        },
        None => None,
    }
}

fn mime_matches_exec(payload: &GmailPayload, mime: Option<&str>) -> (r: bool)
    ensures
        r == mime_matches(*payload, opt_view(mime)),
{
    match mime {
        None => true,
        Some(wanted) => match &payload.mime_type {
            Some(actual) => eq_ignore_case(actual.as_str(), wanted),
            None => false,
        },
    }
}

/// Searches the tree of parts for the first part of the wanted type that
/// actually has content.
pub fn find_part(payload: &GmailPayload, mime: Option<&str>) -> (r: Option<String>)
    ensures
        match r {
            Some(t) => find_part_text(*payload, opt_view(mime)) == Some(t@),
            None => find_part_text(*payload, opt_view(mime)) is None,
        },
    decreases payload,
{
    if mime_matches_exec(payload, mime) {
        match own_text(payload) {
            Some(t) => return Some(t),
            None => {},
        }
    }
    match &payload.parts {
        None => None,
        Some(parts) => {
            let ghost ps = parts@;
            let mut i: usize = 0;
            assert(ps.skip(0) == ps);
            while i < parts.len()
                invariant
                    0 <= i <= parts.len(),
                    ps == parts@,
                    payload.parts == Some(*parts),
                    find_part_text(*payload, opt_view(mime)) == find_in_parts(ps, opt_view(mime)),
                    find_in_parts(ps, opt_view(mime)) == find_in_parts(ps.skip(i as int), opt_view(mime)),
                decreases parts.len() - i,
            {
                assert(ps.skip(i as int)[0] == ps[i as int]);
                assert(ps.skip(i as int).drop_first() == ps.skip(i + 1));
                proof {
                    assert(decreases_to!(*payload => ps[i as int]));
                }
                match find_part(&parts[i], mime) {
                    Some(t) => return Some(t),
                    None => {},
                }
                i = i + 1;
            }
            None
        },
    }
}

/// The body to show for a message part tree.
pub fn extract_body(payload: &GmailPayload) -> (r: String)
    ensures
        r@ == body_text(*payload),
{
    let plain = "text/plain";
    let html = "text/html";
    proof {
        reveal_strlit("text/plain");
        reveal_strlit("text/html");
    }
    assert(plain@ =~= text_plain());
    assert(html@ =~= text_html());
    match find_part(payload, Some(plain)) {
        Some(t) => t,
        None => match find_part(payload, Some(html)) {
            Some(t) => t,
            None => match find_part(payload, None) {
                Some(t) => t,
                None => String::new(),
            },
        },
    }
}

/// The value of the first header with this name, or an empty string.
pub fn header(headers: &Vec<GmailHeader>, name: &str) -> (r: String)
    ensures
        r@ == header_value(headers@, name@),
{
    let mut i: usize = 0;
    assert(headers@.skip(0) == headers@);
    while i < headers.len()
        invariant
            0 <= i <= headers.len(),
            header_value(headers@, name@) == header_value(headers@.skip(i as int), name@),
        decreases headers.len() - i,
    {
        assert(headers@.skip(i as int)[0] == headers@[i as int]);
        if eq_ignore_case(headers[i].name.as_str(), name) {
            return headers[i].value.clone();
        }
        assert(headers@.skip(i as int).drop_first() == headers@.skip(i + 1));
        i = i + 1;
    }
    String::new()
}

impl GmailMessage {
    /// The email this message stands for.
    pub fn to_email(self, include_body: bool) -> (e: Email)
        ensures
            is_email_of(e, self, include_body),
    {
        let from_name = "From";
        let subject_name = "Subject";
        proof {
            reveal_strlit("From");
            reveal_strlit("Subject");
        }
        assert(from_name@ =~= from_header());
        assert(subject_name@ =~= subject_header());
        let ghost m = self;
        let (from, subject, body) = match &self.payload {
            Some(p) => {
                let (from, subject) = match &p.headers {
                    Some(hs) => (header(hs, from_name), header(hs, subject_name)),
                    None => (String::new(), String::new()),
                };
                let body = if include_body {
                    extract_body(p)
                } else {
                    String::new()
                };
                (from, subject, body)
            },
            None => (String::new(), String::new(), String::new()),
        };
        Email {
            id: self.id,
            from,
            subject,
            intro: unwrap_or_empty(self.snippet),
            body,
            seen: true,
            created_at: unwrap_or_empty(self.internal_date),
        }
    }
}

/// The messages that could be fetched, in order.
pub open spec fn fetched_messages(f: Seq<Option<GmailMessage>>) -> Seq<GmailMessage>
    decreases f.len(),
{
    if f.len() == 0 {
        Seq::empty()
    } else {
        match f.last() {
            Some(m) => fetched_messages(f.drop_last()).push(m),
            None => fetched_messages(f.drop_last()),
        }
    }
}

/// The emails of the messages that could be fetched, in order; a message
/// whose request failed is left out. Bodies are not part of the list.
pub fn listed_emails(fetched: Vec<Option<GmailMessage>>) -> (r: Vec<Email>)
    ensures
        r.len() == fetched_messages(fetched@).len(),
        forall|i: int|
            0 <= i < r.len() ==> is_email_of(#[trigger] r@[i], fetched_messages(fetched@)[i], false),
{
    let ghost f = fetched@;
    let mut r: Vec<Email> = Vec::new();
    for m in it: fetched.into_iter()
        invariant
            it.seq() == f,
            r.len() == fetched_messages(f.take(it.index() as int)).len(),
            forall|i: int|
                0 <= i < r.len() ==> is_email_of(
                    #[trigger] r@[i],
                    fetched_messages(f.take(it.index() as int))[i],
                    false,
                ),
    {
        let ghost k = it.index();
        proof {
            assert(f.take(k + 1).drop_last() == f.take(k as int));
            assert(f.take(k + 1).last() == m);
        }
        match m {
            Some(message) => r.push(message.to_email(false)),
            None => {},
        }
    }
    assert(f.take(f.len() as int) == f);
    r
}

// ---------------------------------------------------------------------------
// Listing

/// How many messages a list request asks for: `limit` brought into 1..=25.
pub open spec fn clamped_limit(limit: usize) -> usize {
    if limit < 1 {
        1
    } else if limit > 25 {
        25
    } else {
        limit
    }
}

/// `limit.clamp(1, 25)`.
pub fn clamp_limit(limit: usize) -> (r: usize)
    ensures
        r == clamped_limit(limit),
{
    if limit < 1 {
        1
    } else if limit > 25 {
        25
    } else {
        limit
    }
}

/// The ids to fetch details for: the first `clamp_limit(limit)` of the
/// listed ones (none when the list has no `messages`).
pub fn ids_to_fetch(listed: Option<Vec<String>>, limit: usize) -> (r: Vec<String>)
    ensures
        r@ == match listed {
            Some(ids) => if ids@.len() <= clamped_limit(limit) {
                ids@
            } else {
                ids@.take(clamped_limit(limit) as int)
            },
            None => Seq::empty(),
        },
{
    let limit = clamp_limit(limit);
    match listed {
        None => Vec::new(),
        Some(ids) => {
            let mut ids = ids;
            if ids.len() > limit {
                ids.truncate(limit);
            }
            ids
        },
    }
}

// ---------------------------------------------------------------------------
// Sign-in (OAuth with PKCE)

pub const CLIENT_ID: &'static str = "830227318434-7mgfk7bucm5mt9sl8271oevg9bjj6vlu.apps.googleusercontent.com";

pub const REDIRECT_URI: &'static str = "http://127.0.0.1:49152/callback";

pub const SCOPE: &'static str = "https://www.googleapis.com/auth/gmail.readonly";

/// The server that holds the Google client secret and does the token
/// exchange and refresh.
pub const OAUTH_SERVER: &'static str = "https://mail-server-production-610b.up.railway.app";

/// A random secret kept by the app for one sign-in: 64 ASCII letters and
/// digits.
pub fn generate_code_verifier() -> (r: String)
    ensures
        r@.len() == 64,
        all_alphanumeric(r@),
{
    random_string(64)
}

/// The PKCE challenge sent to Google: the unpadded base64url of the
/// SHA-256 of the verifier's UTF-8 bytes.
pub fn generate_code_challenge(code_verifier: &str) -> (r: String)
    ensures
        r@ == b64url_encode(sha256(vstd::utf8::encode_utf8(code_verifier@))),
{
    let digest = sha256_digest(code_verifier.as_bytes());
    b64url_encode_bytes(digest.as_slice())
}

/// The Google sign-in page for a PKCE challenge.
pub open spec fn oauth_url_spec(code_challenge: Seq<char>) -> Seq<char> {
    "https://accounts.google.com/o/oauth2/v2/auth?client_id="@ + percent_encode(
        vstd::utf8::encode_utf8(CLIENT_ID@),
    ) + "&redirect_uri="@ + percent_encode(vstd::utf8::encode_utf8(REDIRECT_URI@))
        + "&response_type=code&scope="@ + percent_encode(vstd::utf8::encode_utf8(SCOPE@))
        + "&access_type=offline&prompt=consent&code_challenge="@ + percent_encode(
        vstd::utf8::encode_utf8(code_challenge),
    ) + "&code_challenge_method=S256"@
}

/// The URL of Google's sign-in page, asking for read access to Gmail with
/// offline access and the given PKCE challenge.
pub fn oauth_url(code_challenge: &str) -> (r: String)
    ensures
        r@ == oauth_url_spec(code_challenge@),
{
    let mut r = "https://accounts.google.com/o/oauth2/v2/auth?client_id=".to_owned();
    r.append(url_encode(CLIENT_ID).as_str());
    r.append("&redirect_uri=");
    r.append(url_encode(REDIRECT_URI).as_str());
    r.append("&response_type=code&scope=");
    r.append(url_encode(SCOPE).as_str());
    r.append("&access_type=offline&prompt=consent&code_challenge=");
    r.append(url_encode(code_challenge).as_str());
    r.append("&code_challenge_method=S256");
    r
}

/// Why the sign-in callback brought no code.
#[derive(Debug, PartialEq, Eq)]
pub enum CallbackError {
    /// Google reported this error (the user refused, ...).
    Denied(String),
    /// The redirect carried neither an error nor a code.
    MissingCode,
}

impl CallbackError {
    pub fn message(&self) -> (r: String)
        ensures
            r@ == match self {
                CallbackError::Denied(e) => "Google OAuth error: "@ + e@,
                CallbackError::MissingCode => "Google did not return an authorization code."@,
            },
    {
        match self {
            CallbackError::Denied(e) => join_str("Google OAuth error: ", e.as_str()),
            CallbackError::MissingCode => "Google did not return an authorization code.".to_owned(),
        }
    }
}

/// What the local callback server makes of Google's redirect: the outcome
/// handed to the sign-in, and the page shown in the browser.
#[derive(Debug)]
pub struct CallbackReply {
    pub outcome: Result<String, CallbackError>,
    pub page: String,
}

pub open spec fn failed_page() -> Seq<char> {
    "<h2>Google login failed.</h2><p>You can close this window.</p>"@
}

pub open spec fn no_code_page() -> Seq<char> {
    "<h2>Google login failed.</h2><p>No authorization code was returned.</p>"@
}

pub open spec fn connected_page() -> Seq<char> {
    "<h2>Gmail connected!</h2><p>You can close this window and return to Mail Box.</p>"@
}

/// Handles the `code` and `error` query parameters of the redirect: an
/// error wins; else the code is passed on; else the sign-in fails.
pub fn handle_callback(code: Option<String>, error: Option<String>) -> (r: CallbackReply)
    ensures
        match error {
            Some(e) => r.outcome == Err::<String, CallbackError>(CallbackError::Denied(e))
                && r.page@ == failed_page(),
            None => match code {
                Some(c) => r.outcome == Ok::<String, CallbackError>(c) && r.page@ == connected_page(),
                None => r.outcome == Err::<String, CallbackError>(CallbackError::MissingCode)
                    && r.page@ == no_code_page(),
            },
        },
{
    match error {
        Some(e) => CallbackReply {
            outcome: Err(CallbackError::Denied(e)),
            page: "<h2>Google login failed.</h2><p>You can close this window.</p>".to_owned(),
        },
        None => match code {
            Some(c) => CallbackReply {
                outcome: Ok(c),
                page: "<h2>Gmail connected!</h2><p>You can close this window and return to Mail Box.</p>".to_owned(),
            },
            None => CallbackReply {
                outcome: Err(CallbackError::MissingCode),
                page: "<h2>Google login failed.</h2><p>No authorization code was returned.</p>".to_owned(),
            },
        },
    }
}

} // verus!
