//! Emails and mail.tm temporary addresses (https://docs.mail.tm).
use vstd::prelude::*;

use rand::distr::Alphanumeric;
use rand::Rng;

use crate::text::{ascii_lower, lower_char, push_char};

verus! {

/// One email, used for both Gmail and temp mail. `body` is empty until the
/// full message has been fetched; `intro` is the short preview.
#[derive(Debug)]
pub struct Email {
    pub id: String,
    pub from: String,
    pub subject: String,
    pub intro: String,
    pub body: String,
    pub seen: bool,
    pub created_at: String,
}

impl Clone for Email {
    fn clone(&self) -> (r: Self)
        ensures
            r == *self,
    {
        Email {
            id: self.id.clone(),
            from: self.from.clone(),
            subject: self.subject.clone(),
            intro: self.intro.clone(),
            body: self.body.clone(),
            seen: self.seen,
            created_at: self.created_at.clone(),
        }
    }
}

/// A mail.tm account: its address, password, account id and the last
/// login token.
#[derive(Debug)]
pub struct TempEmail {
    pub address: String,
    pub password: String,
    pub id: String,
    pub token: String,
}

impl Clone for TempEmail {
    fn clone(&self) -> (r: Self)
        ensures
            r == *self,
    {
        TempEmail {
            address: self.address.clone(),
            password: self.password.clone(),
            id: self.id.clone(),
            token: self.token.clone(),
        }
    }
}

/// One entry of mail.tm's message list, as the API reports it.
#[derive(Debug)]
pub struct MailTmMessage {
    pub id: String,
    pub from_address: String,
    pub subject: String,
    pub intro: Option<String>,
    pub seen: bool,
    pub created_at: String,
}

pub open spec fn string_or_empty(s: Option<String>) -> Seq<char> {
    match s {
        Some(s) => s@,
        None => Seq::empty(),
    }
}

/// `Option<String>::unwrap_or_default`.
pub fn unwrap_or_empty(s: Option<String>) -> (r: String)
    ensures
        r@ == string_or_empty(s),
{
    match s {
        Some(s) => s,
        None => String::new(),
    }
}

impl MailTmMessage {
    /// The email a mail.tm list entry stands for. The list only carries the
    /// preview (`intro`), so the body stays empty.
    pub fn into_email(self) -> (e: Email)
        ensures
            e.id == self.id,
            e.from == self.from_address,
            e.subject == self.subject,
            e.intro@ == string_or_empty(self.intro),
            e.body@ == Seq::<char>::empty(),
            e.seen == self.seen,
            e.created_at == self.created_at,
    {
        Email {
            id: self.id,
            from: self.from_address,
            subject: self.subject,
            intro: unwrap_or_empty(self.intro),
            body: String::new(),
            seen: self.seen,
            created_at: self.created_at,
        }
    }
}

/// Every entry of a mail.tm message list, in order, as emails.
pub fn emails_from_mail_tm(messages: Vec<MailTmMessage>) -> (r: Vec<Email>)
    ensures
        r.len() == messages.len(),
        forall|i: int|
            0 <= i < r.len() ==> {
                let m = #[trigger] messages@[i];
                &&& r@[i].id == m.id
                &&& r@[i].from == m.from_address
                &&& r@[i].subject == m.subject
                &&& r@[i].intro@ == string_or_empty(m.intro)
                &&& r@[i].body@ == Seq::<char>::empty()
                &&& r@[i].seen == m.seen
                &&& r@[i].created_at == m.created_at
            },
{
    let mut r: Vec<Email> = Vec::new();
    let ghost ms = messages@;
    for m in it: messages.into_iter()
        invariant
            it.seq() == ms,
            r.len() == it.index(),
            forall|i: int|
                0 <= i < r.len() ==> {
                    let m = #[trigger] ms[i];
                    &&& r@[i].id == m.id
                    &&& r@[i].from == m.from_address
                    &&& r@[i].subject == m.subject
                    &&& r@[i].intro@ == string_or_empty(m.intro)
                    &&& r@[i].body@ == Seq::<char>::empty()
                    &&& r@[i].seen == m.seen
                    &&& r@[i].created_at == m.created_at
                },
    {
        r.push(m.into_email());
    }
    r
}

pub open spec fn is_ascii_alphanumeric(c: char) -> bool {
    ||| '0' <= c <= '9'
    ||| 'A' <= c <= 'Z'
    ||| 'a' <= c <= 'z'
}

pub open spec fn all_alphanumeric(s: Seq<char>) -> bool {
    forall|i: int| 0 <= i < s.len() ==> is_ascii_alphanumeric(#[trigger] s[i])
}

/// `length` characters drawn from rand's `Alphanumeric` distribution (the
/// 62 ASCII letters and digits) with the thread-local generator. Which
/// characters come out is chance; only their number and kind are stated.
#[verifier::external_body]
pub(crate) fn random_string(length: usize) -> (s: String)
    ensures
        s@.len() == length,
        all_alphanumeric(s@),
{
    rand::rng().sample_iter(&Alphanumeric).take(length).map(char::from).collect()
}

/// `s` with ASCII capitals made small (`str::to_lowercase` on ASCII text).
pub fn ascii_lowercase(s: &str) -> (r: String)
    ensures
        r@ == s@.map_values(|c: char| ascii_lower(c)),
{
    let v = crate::text::chars_of(s);
    let mut r = String::new();
    let mut i: usize = 0;
    while i < v.len()
        invariant
            v@ == s@,
            0 <= i <= v.len(),
            r@ == s@.take(i as int).map_values(|c: char| ascii_lower(c)),
        decreases v.len() - i,
    {
        push_char(&mut r, lower_char(v[i]));
        assert(s@.take(i + 1).map_values(|c: char| ascii_lower(c)) =~= s@.take(i as int).map_values(
            |c: char| ascii_lower(c),
        ).push(ascii_lower(v@[i as int])));
        i = i + 1;
    }
    assert(s@.take(v.len() as int) == s@);
    r
}

/// A fresh user name (12 small letters and digits) and password (20
/// letters and digits) for a new mail.tm account.
pub fn new_credentials() -> (r: (String, String))
    ensures
        r.0@.len() == 12,
        all_alphanumeric(r.0@),
        forall|i: int| 0 <= i < r.0@.len() ==> !('A' <= #[trigger] r.0@[i] <= 'Z'),
        r.1@.len() == 20,
        all_alphanumeric(r.1@),
{
    let name = random_string(12);
    let username = ascii_lowercase(name.as_str());
    let password = random_string(20);
    assert forall|i: int| 0 <= i < username@.len() implies is_ascii_alphanumeric(
        #[trigger] username@[i],
    ) && !('A' <= username@[i] <= 'Z') by {
        assert(username@[i] == ascii_lower(name@[i]));
        assert(is_ascii_alphanumeric(name@[i]));
    }
    (username, password)
}

/// The address of a new mail.tm account: `username@domain`.
pub fn temp_address(username: &str, domain: &str) -> (r: String)
    ensures
        r@ == username@ + seq!['@'] + domain@,
{
    let mut r = username.to_owned();
    push_char(&mut r, '@');
    r.append(domain);
    r
}

} // verus!
