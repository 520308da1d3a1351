//! The state that every view shares: accounts, cached mail, and what is
//! selected; with the changes that the sidebar, the tab bar and the
//! settings make to it, and the data saved on disk.
use vstd::prelude::*;

use crate::gmail::GoogleAccount;
use crate::keyed::{unique_keys, view_entries, StringMap};
use crate::mail::{Email, TempEmail};
use crate::text::join_str;

verus! {

/// Which mailbox tab is shown.
#[derive(Clone, Copy, Debug, PartialEq, Eq, Structural)]
pub enum MailFilter {
    Inbox,
    Starred,
    Drafts,
    Sent,
    Trash,
}

pub open spec fn gmail_label_of(f: MailFilter) -> Seq<char> {
    match f {
        MailFilter::Inbox => "INBOX"@,
        MailFilter::Starred => "STARRED"@,
        MailFilter::Drafts => "DRAFT"@,
        MailFilter::Sent => "SENT"@,
        MailFilter::Trash => "TRASH"@,
    }
}

impl MailFilter {
    /// The Gmail label a tab shows.
    pub fn gmail_label(self) -> (r: &'static str)
        ensures
            r@ == gmail_label_of(self),
    {
        match self {
            MailFilter::Inbox => "INBOX",
            MailFilter::Starred => "STARRED",
            MailFilter::Drafts => "DRAFT",
            MailFilter::Sent => "SENT",
            MailFilter::Trash => "TRASH",
        }
    }
}

/// The account selected in the sidebar, by its index in its list.
#[derive(Clone, Copy, Debug, PartialEq, Eq, Structural)]
pub enum SidebarEmail {
    Google(usize),
    Temp(usize),
}

/// What is saved on disk: the accounts, the mail cache (keyed
/// `temp:<account id>` or `google:<email address>`) and the starred temp
/// mail.
#[derive(Debug)]
pub struct StoredData {
    pub temp_email: Vec<TempEmail>,
    pub google_accounts: Vec<GoogleAccount>,
    pub emails: StringMap<Vec<Email>>,
    pub temp_starred: StringMap<Vec<String>>,
}

impl StoredData {
    /// Nothing saved yet.
    pub fn empty() -> (d: StoredData)
        ensures
            d.temp_email@.len() == 0,
            d.google_accounts@.len() == 0,
            d.emails.keys().len() == 0,
            d.temp_starred.keys().len() == 0,
    {
        StoredData {
            temp_email: Vec::new(),
            google_accounts: Vec::new(),
            emails: StringMap::new(),
            temp_starred: StringMap::new(),
        }
    }
}

/// Data shared by every view.
#[derive(Debug)]
pub struct AppState {
    pub temp_email: Vec<TempEmail>,
    pub google_accounts: Vec<GoogleAccount>,
    /// Key is `temp:<account id>` or `google:<email address>`.
    pub email_cache: StringMap<Vec<Email>>,
    pub temp_starred: StringMap<Vec<String>>,
    pub selected_email: Option<usize>,
    /// `Some` while an email is open.
    pub selected_message: Option<Email>,
    pub selected_sidebar_email: Option<SidebarEmail>,
    pub google_login_status: Option<String>,
    pub mail_filter: MailFilter,
}

/// The sidebar entry selected at start: the first Gmail account, else the
/// first temporary address, else none.
pub open spec fn initial_selection(google: nat, temp: nat) -> Option<SidebarEmail> {
    if google > 0 {
        Some(SidebarEmail::Google(0))
    } else if temp > 0 {
        Some(SidebarEmail::Temp(0))
    } else {
        None
    }
}

pub open spec fn opening_status() -> Seq<char> {
    "Opening Google login..."@
}

/// What a click on a sidebar row does.
#[derive(Debug, PartialEq, Eq)]
pub enum SidebarClick {
    /// The row was already selected: its address goes to the clipboard.
    CopyAddress(String),
    /// The row is now selected.
    Selected,
}

impl AppState {
    /// The state at start, from what was saved.
    pub fn from_storage(data: StoredData) -> (s: AppState)
        ensures
            s.temp_email == data.temp_email,
            s.google_accounts == data.google_accounts,
            s.email_cache == data.emails,
            s.temp_starred == data.temp_starred,
            s.selected_sidebar_email == initial_selection(
                data.google_accounts@.len(),
                data.temp_email@.len(),
            ),
            s.selected_email == match s.selected_sidebar_email {
                Some(SidebarEmail::Temp(i)) => Some(i),
                _ => None,
            },
            s.selected_message is None,
            s.google_login_status is None,
            s.mail_filter == MailFilter::Inbox,
    {
        let selected_sidebar_email = if data.google_accounts.len() > 0 {
            Some(SidebarEmail::Google(0))
        } else if data.temp_email.len() > 0 {
            Some(SidebarEmail::Temp(0))
        } else {
            None
        };
        AppState {
            temp_email: data.temp_email,
            google_accounts: data.google_accounts,
            email_cache: data.emails,
            temp_starred: data.temp_starred,
            selected_email: match selected_sidebar_email {
                Some(SidebarEmail::Temp(index)) => Some(index),
                _ => None,
            },
            selected_message: None,
            selected_sidebar_email,
            google_login_status: None,
            mail_filter: MailFilter::Inbox,
        }
    }

    /// Selects a temporary address in the sidebar; clicking the one already
    /// selected copies its address instead.
    pub fn click_temp(&mut self, index: usize) -> (r: SidebarClick)
        requires
            index < old(self).temp_email.len(),
        ensures
            old(self).selected_sidebar_email == Some(SidebarEmail::Temp(index)) ==> r
                == SidebarClick::CopyAddress(old(self).temp_email@[index as int].address)
                && *final(self) == *old(self),
            old(self).selected_sidebar_email != Some(SidebarEmail::Temp(index)) ==> r
                == SidebarClick::Selected && *final(self) == (AppState {
                selected_email: Some(index),
                selected_sidebar_email: Some(SidebarEmail::Temp(index)),
                ..*old(self)
            }),
    {
        if self.selected_sidebar_email == Some(SidebarEmail::Temp(index)) {
            return SidebarClick::CopyAddress(self.temp_email[index].address.clone());
        }
        self.selected_email = Some(index);
        self.selected_sidebar_email = Some(SidebarEmail::Temp(index));
        SidebarClick::Selected
    }

    /// Selects a Gmail account in the sidebar; clicking the one already
    /// selected copies its address, once that is known.
    pub fn click_google(&mut self, index: usize) -> (r: SidebarClick)
        requires
            index < old(self).google_accounts.len(),
        ensures
            old(self).selected_sidebar_email == Some(SidebarEmail::Google(index))
                && old(self).google_accounts@[index as int].email@.len() > 0 ==> r
                == SidebarClick::CopyAddress(old(self).google_accounts@[index as int].email)
                && *final(self) == *old(self),
            !(old(self).selected_sidebar_email == Some(SidebarEmail::Google(index))
                && old(self).google_accounts@[index as int].email@.len() > 0) ==> r
                == SidebarClick::Selected && *final(self) == (AppState {
                selected_email: None,
                selected_sidebar_email: Some(SidebarEmail::Google(index)),
                ..*old(self)
            }),
    {
        if self.selected_sidebar_email == Some(SidebarEmail::Google(index))
            && !self.google_accounts[index].email.as_str().is_empty() {
            return SidebarClick::CopyAddress(self.google_accounts[index].email.clone());
        }
        self.selected_email = None;
        self.selected_sidebar_email = Some(SidebarEmail::Google(index));
        SidebarClick::Selected
    }

    /// Marks a Google sign-in as started; `false` (and no change) when one
    /// is already being opened.
    pub fn begin_google_login(&mut self) -> (started: bool)
        ensures
            started == !(old(self).google_login_status matches Some(s) && s@ == opening_status()),
            started ==> *final(self) == (AppState {
                google_login_status: final(self).google_login_status,
                ..*old(self)
            }) && (final(self).google_login_status matches Some(s) && s@ == opening_status()),
            !started ==> *final(self) == *old(self),
    {
        let opening = "Opening Google login...";
        let opening = opening.to_owned();
        let busy = match &self.google_login_status {
            Some(status) => *status == opening,
            None => false,
        };
        if busy {
            return false;
        }
        self.google_login_status = Some(opening);
        true
    }

    /// A finished sign-in: the account is added and selected, or the error
    /// is shown. On success the state is to be saved.
    pub fn finish_google_login(&mut self, result: Result<GoogleAccount, String>)
        requires
            old(self).google_accounts.len() < usize::MAX,
        ensures
            match result {
                Ok(account) => *final(self) == (AppState {
                    google_accounts: final(self).google_accounts,
                    google_login_status: None,
                    selected_sidebar_email: Some(
                        SidebarEmail::Google(old(self).google_accounts.len() as usize),
                    ),
                    ..*old(self)
                }) && final(self).google_accounts@ == old(self).google_accounts@.push(account),
                Err(e) => *final(self) == (AppState {
                    google_login_status: final(self).google_login_status,
                    ..*old(self)
                }) && (final(self).google_login_status matches Some(s) && s@
                    == "Google login failed: "@ + e@),
            },
    {
        match result {
            Ok(account) => {
                self.google_accounts.push(account);
                self.google_login_status = None;
                self.selected_sidebar_email = Some(
                    SidebarEmail::Google(self.google_accounts.len() - 1),
                );
            },
            Err(e) => {
                self.google_login_status = Some(join_str("Google login failed: ", e.as_str()));
            },
        }
    }

    /// A newly created temporary address joins the list (and the state is
    /// to be saved).
    pub fn add_temp_email(&mut self, email: TempEmail)
        ensures
            *final(self) == (AppState { temp_email: final(self).temp_email, ..*old(self) }),
            final(self).temp_email@ == old(self).temp_email@.push(email),
    {
        self.temp_email.push(email);
    }

    /// Switches the mailbox tab. Leaving for another tab closes the open
    /// email, except for the starred tab, which keeps it.
    pub fn set_filter(&mut self, filter: MailFilter)
        ensures
            final(self).mail_filter == filter,
            filter == MailFilter::Starred ==> *final(self) == (AppState {
                mail_filter: filter,
                ..*old(self)
            }),
            filter != MailFilter::Starred ==> *final(self) == (AppState {
                mail_filter: filter,
                selected_message: None,
                ..*old(self)
            }),
    {
        self.mail_filter = filter;
        if filter != MailFilter::Starred {
            self.selected_message = None;
        }
    }

    /// "Delete all saved mail and accounts": forgets the accounts, the
    /// cached mail and every selection (the saved file goes too).
    pub fn clear_all(&mut self)
        ensures
            final(self).temp_email@.len() == 0,
            final(self).google_accounts@.len() == 0,
            final(self).email_cache.keys().len() == 0,
            forall|k: Seq<char>| final(self).email_cache.get_spec(k) is None,
            final(self).selected_email is None,
            final(self).selected_message is None,
            final(self).selected_sidebar_email is None,
            final(self).google_login_status is None,
            final(self).temp_starred == old(self).temp_starred,
            final(self).mail_filter == old(self).mail_filter,
    {
        self.temp_email.clear();
        self.google_accounts.clear();
        self.email_cache.clear();
        self.selected_email = None;
        self.selected_message = None;
        self.selected_sidebar_email = None;
        self.google_login_status = None;
    }

    /// Saves a (possibly token-refreshed) Google account back: it replaces
    /// the first account with the same email. Looking it up by email, not by
    /// index, keeps this safe when the list changed meanwhile.
    pub fn store_google_account(&mut self, account: GoogleAccount)
        ensures
            *final(self) == (AppState { google_accounts: final(self).google_accounts, ..*old(self) }),
            final(self).google_accounts@ == account_stored(old(self).google_accounts@, account),
    {
        let mut i: usize = 0;
        while i < self.google_accounts.len()
            invariant
                0 <= i <= self.google_accounts.len(),
                *self == *old(self),
                forall|k: int|
                    0 <= k < i ==> (#[trigger] self.google_accounts@[k]).email@ != account.email@,
            decreases self.google_accounts.len() - i,
        {
            if self.google_accounts[i].email == account.email {
                proof {
                    lemma_first_account_at(self.google_accounts@, account.email@, i as int);
                }
                self.google_accounts.set(i, account);
                return;
            }
            i = i + 1;
        }
        proof {
            lemma_first_account_none(self.google_accounts@, account.email@);
        }
    }

    /// Saves a fresh mail.tm token on the first temporary address with this
    /// account id.
    pub fn store_temp_token(&mut self, account_id: &str, token: String)
        ensures
            *final(self) == (AppState { temp_email: final(self).temp_email, ..*old(self) }),
            final(self).temp_email@ == token_stored(old(self).temp_email@, account_id@, token),
    {
        let wanted = account_id.to_owned();
        let mut i: usize = 0;
        while i < self.temp_email.len()
            invariant
                0 <= i <= self.temp_email.len(),
                *self == *old(self),
                wanted@ == account_id@,
                forall|k: int| 0 <= k < i ==> (#[trigger] self.temp_email@[k]).id@ != account_id@,
            decreases self.temp_email.len() - i,
        {
            if self.temp_email[i].id == wanted {
                proof {
                    lemma_first_temp_at(self.temp_email@, account_id@, i as int);
                }
                let old_entry = self.temp_email[i].clone();
                self.temp_email.set(i, TempEmail { token, ..old_entry });
                return;
            }
            i = i + 1;
        }
        proof {
            lemma_first_temp_none(self.temp_email@, account_id@);
        }
    }

    /// Caches the emails of an account (`temp:<id>` or `google:<email>`).
    pub fn cache_emails(&mut self, account_key: String, emails: Vec<Email>)
        ensures
            *final(self) == (AppState { email_cache: final(self).email_cache, ..*old(self) }),
            final(self).email_cache.get_spec(account_key@) == Some(emails),
            forall|k: Seq<char>|
                k != account_key@ ==> final(self).email_cache.get_spec(k)
                    == old(self).email_cache.get_spec(k),
    {
        self.email_cache.insert(account_key, emails);
    }

    /// What is written to disk.
    pub fn to_storage(&self) -> (d: StoredData)
        ensures
            d.temp_email@ == self.temp_email@,
            d.google_accounts@ == self.google_accounts@,
            view_entries(d.emails.entries()) == view_entries(self.email_cache.entries()),
            view_entries(d.temp_starred.entries()) == view_entries(self.temp_starred.entries()),
    {
        StoredData {
            temp_email: clone_temp_emails(&self.temp_email),
            google_accounts: clone_google_accounts(&self.google_accounts),
            emails: clone_email_cache(&self.email_cache),
            temp_starred: clone_starred(&self.temp_starred),
        }
    }
}

/// Index of the first Gmail account with this email address.
pub open spec fn first_account_with_email(s: Seq<GoogleAccount>, email: Seq<char>) -> Option<int>
    decreases s.len(),
{
    if s.len() == 0 {
        None
    } else if s[0].email@ == email {
        Some(0)
    } else {
        match first_account_with_email(s.drop_first(), email) {
            Some(i) => Some(i + 1),
            None => None,
        }
    }
}

/// The account list once `account` is saved back: it replaces the first
/// account with its email address; with none, the list stays as it was.
pub open spec fn account_stored(s: Seq<GoogleAccount>, account: GoogleAccount) -> Seq<
    GoogleAccount,
> {
    match first_account_with_email(s, account.email@) {
        Some(i) => s.update(i, account),
        None => s,
    }
}

/// The temporary addresses once a fresh token for account `id` is saved:
/// the first address with that id gets it.
pub open spec fn token_stored(s: Seq<TempEmail>, id: Seq<char>, token: String) -> Seq<TempEmail> {
    match first_temp_with_id(s, id) {
        Some(i) => s.update(i, TempEmail { token, ..s[i] }),
        None => s,
    }
}

/// Index of the first temporary address with this account id.
pub open spec fn first_temp_with_id(s: Seq<TempEmail>, id: Seq<char>) -> Option<int>
    decreases s.len(),
{
    if s.len() == 0 {
        None
    } else if s[0].id@ == id {
        Some(0)
    } else {
        match first_temp_with_id(s.drop_first(), id) {
            Some(i) => Some(i + 1),
            None => None,
        }
    }
}

proof fn lemma_first_account_at(s: Seq<GoogleAccount>, email: Seq<char>, i: int)
    requires
        0 <= i < s.len(),
        s[i].email@ == email,
        forall|k: int| 0 <= k < i ==> (#[trigger] s[k]).email@ != email,
    ensures
        first_account_with_email(s, email) == Some(i),
    decreases i,
{
    if i > 0 {
        lemma_first_account_at(s.drop_first(), email, i - 1);
    }
}

proof fn lemma_first_account_none(s: Seq<GoogleAccount>, email: Seq<char>)
    requires
        forall|k: int| 0 <= k < s.len() ==> (#[trigger] s[k]).email@ != email,
    ensures
        first_account_with_email(s, email) is None,
    decreases s.len(),
{
    if s.len() > 0 {
        lemma_first_account_none(s.drop_first(), email);
    }
}

proof fn lemma_first_temp_at(s: Seq<TempEmail>, id: Seq<char>, i: int)
    requires
        0 <= i < s.len(),
        s[i].id@ == id,
        forall|k: int| 0 <= k < i ==> (#[trigger] s[k]).id@ != id,
    ensures
        first_temp_with_id(s, id) == Some(i),
    decreases i,
{
    if i > 0 {
        lemma_first_temp_at(s.drop_first(), id, i - 1);
    }
}

proof fn lemma_first_temp_none(s: Seq<TempEmail>, id: Seq<char>)
    requires
        forall|k: int| 0 <= k < s.len() ==> (#[trigger] s[k]).id@ != id,
    ensures
        first_temp_with_id(s, id) is None,
    decreases s.len(),
{
    if s.len() > 0 {
        lemma_first_temp_none(s.drop_first(), id);
    }
}

/// A copy of a list of emails.
pub fn clone_emails(v: &Vec<Email>) -> (r: Vec<Email>)
    ensures
        r@ == v@,
{
    let mut r: Vec<Email> = Vec::new();
    let mut i: usize = 0;
    while i < v.len()
        invariant
            0 <= i <= v.len(),
            r@ == v@.take(i as int),
        decreases v.len() - i,
    {
        r.push(v[i].clone());
        assert(v@.take(i + 1) == v@.take(i as int).push(v@[i as int]));
        i = i + 1;
    }
    assert(v@.take(v.len() as int) == v@);
    r
}

fn clone_strings(v: &Vec<String>) -> (r: Vec<String>)
    ensures
        r@ == v@,
{
    let mut r: Vec<String> = Vec::new();
    let mut i: usize = 0;
    while i < v.len()
        invariant
            0 <= i <= v.len(),
            r@ == v@.take(i as int),
        decreases v.len() - i,
    {
        r.push(v[i].clone());
        assert(v@.take(i + 1) == v@.take(i as int).push(v@[i as int]));
        i = i + 1;
    }
    assert(v@.take(v.len() as int) == v@);
    r
}

fn clone_email_cache(m: &StringMap<Vec<Email>>) -> (r: StringMap<Vec<Email>>)
    ensures
        view_entries(r.entries()) == view_entries(m.entries()),
{
    let v = m.as_entries();
    let mut out: Vec<(String, Vec<Email>)> = Vec::new();
    let mut i: usize = 0;
    while i < v.len()
        invariant
            0 <= i <= v.len(),
            v@ == m.entries(),
            unique_keys(v@),
            out@.len() == i,
            view_entries(out@) == view_entries(v@.take(i as int)),
        decreases v.len() - i,
    {
        let ghost before = out@;
        let key = v[i].0.clone();
        let value = clone_emails(&v[i].1);
        out.push((key, value));
        assert forall|j: int| 0 <= j <= i implies #[trigger] view_entries(out@)[j] == view_entries(
            v@.take(i + 1),
        )[j] by {
            if j < i {
                assert(out@[j] == before[j]);
                assert(view_entries(before)[j] == view_entries(v@.take(i as int))[j]);
            }
        }
        assert(view_entries(out@) =~= view_entries(v@.take(i + 1)));
        i = i + 1;
    }
    assert(v@.take(v.len() as int) == v@);
    assert forall|a: int, b: int| 0 <= a < b < out@.len() implies (#[trigger] out@[a]).0@ != (
    #[trigger] out@[b]).0@ by {
        assert(view_entries(out@)[a] == view_entries(v@)[a]);
        assert(view_entries(out@)[b] == view_entries(v@)[b]);
    }
    StringMap::from_unique(out)
}

fn clone_starred(m: &StringMap<Vec<String>>) -> (r: StringMap<Vec<String>>)
    ensures
        view_entries(r.entries()) == view_entries(m.entries()),
{
    let v = m.as_entries();
    let mut out: Vec<(String, Vec<String>)> = Vec::new();
    let mut i: usize = 0;
    while i < v.len()
        invariant
            0 <= i <= v.len(),
            v@ == m.entries(),
            unique_keys(v@),
            out@.len() == i,
            view_entries(out@) == view_entries(v@.take(i as int)),
        decreases v.len() - i,
    {
        let ghost before = out@;
        let key = v[i].0.clone();
        let value = clone_strings(&v[i].1);
        out.push((key, value));
        assert forall|j: int| 0 <= j <= i implies #[trigger] view_entries(out@)[j] == view_entries(
            v@.take(i + 1),
        )[j] by {
            if j < i {
                assert(out@[j] == before[j]);
                assert(view_entries(before)[j] == view_entries(v@.take(i as int))[j]);
            }
        }
        assert(view_entries(out@) =~= view_entries(v@.take(i + 1)));
        i = i + 1;
    }
    assert(v@.take(v.len() as int) == v@);
    assert forall|a: int, b: int| 0 <= a < b < out@.len() implies (#[trigger] out@[a]).0@ != (
    #[trigger] out@[b]).0@ by {
        assert(view_entries(out@)[a] == view_entries(v@)[a]);
        assert(view_entries(out@)[b] == view_entries(v@)[b]);
    }
    StringMap::from_unique(out)
}

fn clone_temp_emails(v: &Vec<TempEmail>) -> (r: Vec<TempEmail>)
    ensures
        r@ == v@,
{
    let mut r: Vec<TempEmail> = Vec::new();
    let mut i: usize = 0;
    while i < v.len()
        invariant
            0 <= i <= v.len(),
            r@ == v@.take(i as int),
        decreases v.len() - i,
    {
        r.push(v[i].clone());
        assert(v@.take(i + 1) == v@.take(i as int).push(v@[i as int]));
        i = i + 1;
    }
    assert(v@.take(v.len() as int) == v@);
    r
}

fn clone_google_accounts(v: &Vec<GoogleAccount>) -> (r: Vec<GoogleAccount>)
    ensures
        r@ == v@,
{
    let mut r: Vec<GoogleAccount> = Vec::new();
    let mut i: usize = 0;
    while i < v.len()
        invariant
            0 <= i <= v.len(),
            r@ == v@.take(i as int),
        decreases v.len() - i,
    {
        r.push(v[i].clone());
        assert(v@.take(i + 1) == v@.take(i as int).push(v@[i as int]));
        i = i + 1;
    }
    assert(v@.take(v.len() as int) == v@);
    r
}

} // verus!
