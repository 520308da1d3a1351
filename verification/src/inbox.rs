//! The inbox: the list of emails of the selected account, how new mail is
//! merged into it, and the decisions taken when accounts are switched,
//! background results come back and emails are opened.
use vstd::prelude::*;

use crate::gmail::GoogleAccount;
use crate::mail::{Email, TempEmail};
use crate::sort::{lemma_insert_at, stable_sort};
use crate::state::{account_stored, clone_emails, token_stored, AppState, SidebarEmail};
use crate::text::{chars_of, join_str, seq_lt, str_lt};

verus! {

/// Newest first: `a` must precede `b` when its `created_at` sorts after
/// `b`'s (the order `right.created_at.cmp(&left.created_at)` gives).
pub open spec fn newer_first() -> spec_fn(Email, Email) -> bool {
    |a: Email, b: Email| seq_lt(b.created_at@, a.created_at@)
}

/// The index of the first email with this id.
pub open spec fn index_of_id(list: Seq<Email>, id: Seq<char>) -> Option<int>
    decreases list.len(),
{
    if list.len() == 0 {
        None
    } else if list[0].id@ == id {
        Some(0)
    } else {
        match index_of_id(list.drop_first(), id) {
            Some(i) => Some(i + 1),
            None => None,
        }
    }
}

/// One incoming email merged into the list: it replaces the first email
/// with its id unless that would throw away a fetched body, and is appended
/// when no email has its id.
pub open spec fn merge_one(list: Seq<Email>, e: Email) -> Seq<Email> {
    match index_of_id(list, e.id@) {
        Some(i) => if list[i].body@.len() == 0 || e.body@.len() > 0 {
            list.update(i, e)
        } else {
            list
        },
        None => list.push(e),
    }
}

/// The incoming emails merged in one by one, in their order.
pub open spec fn merge_all(list: Seq<Email>, incoming: Seq<Email>) -> Seq<Email>
    decreases incoming.len(),
{
    if incoming.len() == 0 {
        list
    } else {
        merge_one(merge_all(list, incoming.drop_last()), incoming.last())
    }
}

pub proof fn lemma_index_of_id_facts(list: Seq<Email>, id: Seq<char>)
    ensures
        match index_of_id(list, id) {
            Some(i) => 0 <= i < list.len() && list[i].id@ == id && forall|k: int|
                0 <= k < i ==> (#[trigger] list[k]).id@ != id,
            None => forall|k: int| 0 <= k < list.len() ==> (#[trigger] list[k]).id@ != id,
        },
    decreases list.len(),
{
    if list.len() > 0 {
        lemma_index_of_id_facts(list.drop_first(), id);
        if list[0].id@ != id {
            assert forall|k: int| 1 <= k < list.len() implies list[k] == list.drop_first()[k - 1] by {}
        }
    }
}

pub proof fn lemma_index_of_id_at(list: Seq<Email>, id: Seq<char>, i: int)
    requires
        0 <= i < list.len(),
        list[i].id@ == id,
        forall|k: int| 0 <= k < i ==> (#[trigger] list[k]).id@ != id,
    ensures
        index_of_id(list, id) == Some(i),
    decreases i,
{
    if i > 0 {
        lemma_index_of_id_at(list.drop_first(), id, i - 1);
    }
}

pub proof fn lemma_index_of_id_none(list: Seq<Email>, id: Seq<char>)
    requires
        forall|k: int| 0 <= k < list.len() ==> (#[trigger] list[k]).id@ != id,
    ensures
        index_of_id(list, id) is None,
    decreases list.len(),
{
    if list.len() > 0 {
        lemma_index_of_id_none(list.drop_first(), id);
    }
}

/// Where `x` goes among the already sorted `out`: before the first email
/// that is older than it.
fn newest_first_position(out: &Vec<Email>, x: &Email) -> (p: usize)
    ensures
        p <= out.len(),
        forall|k: int| 0 <= k < p ==> !(newer_first())(*x, #[trigger] out@[k]),
        p == out.len() || (newer_first())(*x, out@[p as int]),
{
    let key = chars_of(x.created_at.as_str());
    let mut p: usize = 0;
    while p < out.len()
        invariant
            key@ == x.created_at@,
            p <= out.len(),
            forall|k: int| 0 <= k < p ==> !(newer_first())(*x, #[trigger] out@[k]),
        decreases out.len() - p,
    {
        let other = chars_of(out[p].created_at.as_str());
        if str_lt(&other, &key) {
            return p;
        }
        p = p + 1;
    }
    p
}

/// A stable sort of `v`, newest first.
pub fn sort_newest_first(v: Vec<Email>) -> (r: Vec<Email>)
    ensures
        r@ == stable_sort(v@, newer_first()),
{
    let ghost s = v@;
    let mut out: Vec<Email> = Vec::new();
    for x in it: v.into_iter()
        invariant
            it.seq() == s,
            out@ == stable_sort(s.take(it.index() as int), newer_first()),
    {
        let ghost k = it.index();
        proof {
            assert(s.take(k + 1).drop_last() == s.take(k as int));
            assert(s.take(k + 1).last() == x);
        }
        let p = newest_first_position(&out, &x);
        proof {
            lemma_insert_at(out@, x, newer_first(), p as int);
        }
        out.insert(p, x);
    }
    assert(s.take(s.len() as int) == s);
    out
}

/// Merges freshly loaded emails into `list` (see `merge_one`), then sorts
/// the list newest first.
pub fn merge_emails(list: &mut Vec<Email>, incoming: Vec<Email>)
    ensures
        final(list)@ == stable_sort(merge_all(old(list)@, incoming@), newer_first()),
{
    let ghost start = list@;
    let ghost s = incoming@;
    for email in it: incoming.into_iter()
        invariant
            it.seq() == s,
            list@ == merge_all(start, s.take(it.index() as int)),
    {
        let ghost k = it.index();
        proof {
            assert(s.take(k + 1).drop_last() == s.take(k as int));
            assert(s.take(k + 1).last() == email);
        }
        let mut i: usize = 0;
        let mut found = false;
        while i < list.len()
            invariant_except_break
                !found,
            invariant
                0 <= i <= list.len(),
                forall|j: int| 0 <= j < i ==> (#[trigger] list@[j]).id@ != email.id@,
            ensures
                found ==> i < list.len() && list@[i as int].id@ == email.id@,
                !found ==> i == list.len(),
                forall|j: int| 0 <= j < i ==> (#[trigger] list@[j]).id@ != email.id@,
            decreases list.len() - i,
        {
            if list[i].id == email.id {
                found = true;
                break;
            }
            i = i + 1;
        }
        if found {
            proof {
                lemma_index_of_id_at(list@, email.id@, i as int);
            }
            if list[i].body.as_str().is_empty() || !email.body.as_str().is_empty() {
                list.set(i, email);
            }
        } else {
            proof {
                lemma_index_of_id_none(list@, email.id@);
            }
            list.push(email);
        }
    }
    assert(s.take(s.len() as int) == s);
    let mut merged: Vec<Email> = Vec::new();
    std::mem::swap(&mut merged, list);
    *list = sort_newest_first(merged);
}

// ---------------------------------------------------------------------------
// Accounts

/// The account shown in the inbox.
#[derive(Debug)]
pub enum Account {
    Temp(TempEmail),
    Google(GoogleAccount),
}

/// A unique string per account: `temp:<account id>` or
/// `google:<email address>`. Also the key of the mail cache.
pub open spec fn account_key_of(a: Account) -> Seq<char> {
    match a {
        Account::Temp(t) => "temp:"@ + t.id@,
        Account::Google(g) => "google:"@ + g.email@,
    }
}

impl Account {
    pub fn key(&self) -> (r: String)
        ensures
            r@ == account_key_of(*self),
    {
        match self {
            Account::Temp(account) => join_str("temp:", account.id.as_str()),
            Account::Google(account) => join_str("google:", account.email.as_str()),
        }
    }
}

/// The account selected in the sidebar, if its index is valid.
pub open spec fn selected_account_of(state: AppState) -> Option<Account> {
    match state.selected_sidebar_email {
        Some(SidebarEmail::Temp(i)) => if i < state.temp_email@.len() {
            Some(Account::Temp(state.temp_email@[i as int]))
        } else {
            None
        },
        Some(SidebarEmail::Google(i)) => if i < state.google_accounts@.len() {
            Some(Account::Google(state.google_accounts@[i as int]))
        } else {
            None
        },
        None => None,
    }
}

/// A copy of the account selected in the sidebar.
pub fn selected_account(state: &AppState) -> (r: Option<Account>)
    ensures
        r == selected_account_of(*state),
{
    match state.selected_sidebar_email {
        Some(SidebarEmail::Temp(index)) => if index < state.temp_email.len() {
            Some(Account::Temp(state.temp_email[index].clone()))
        } else {
            None
        },
        Some(SidebarEmail::Google(index)) => if index < state.google_accounts.len() {
            Some(Account::Google(state.google_accounts[index].clone()))
        } else {
            None
        },
        None => None,
    }
}

// ---------------------------------------------------------------------------
// The inbox

/// The emails of the account shown, and what is loading.
#[derive(Debug)]
pub struct Inbox {
    pub emails: Vec<Email>,
    pub loading: bool,
    /// The email whose full body is being fetched.
    pub opening_message_id: Option<String>,
    /// `Account::key` of the account whose mail is shown; background
    /// results for any other account are thrown away.
    pub active_account_id: Option<String>,
}

/// What the caller must do after the selection was checked.
#[derive(Debug)]
pub enum SyncAction {
    /// Nothing changed.
    Keep,
    /// Another account is shown now: cancel the old listener and start one
    /// for this account.
    Start(Account),
    /// No account is selected any more: cancel all background work.
    Stop,
}

/// A message from the temp-mail listener.
#[derive(Debug)]
pub enum TempMailEvent {
    /// A fresh login token.
    Token(String),
    /// The current message list.
    Emails(Vec<Email>),
    /// Loading the messages failed.
    Failed,
}

/// What applying a temp-mail event did.
#[derive(Debug, PartialEq, Eq)]
pub enum TempEventEffect {
    /// The event was for an account no longer shown, and was dropped.
    Ignored,
    /// Applied; the state is to be saved.
    AppliedSave,
    /// Applied; nothing to save.
    Applied,
}

/// What a click on an email row leads to.
#[derive(Debug)]
pub enum OpenAction {
    /// No email has that id (any more).
    Nothing,
    /// The email is shown at once (temp mail, or a Gmail message whose body
    /// is already here).
    Show(Email),
    /// That email is already being fetched.
    AlreadyOpening,
    /// Fetch the full message with this account (replacing any fetch under
    /// way).
    Fetch(GoogleAccount, String),
}

pub open spec fn is_active(inbox: Inbox, key: Seq<char>) -> bool {
    inbox.active_account_id matches Some(k) && k@ == key
}

pub open spec fn cached_emails(state: AppState, key: Seq<char>) -> Seq<Email> {
    match state.email_cache.get_spec(key) {
        Some(v) => v@,
        None => Seq::empty(),
    }
}

/// The first email with this id.
pub open spec fn email_with_id(list: Seq<Email>, id: Seq<char>) -> Option<Email> {
    match index_of_id(list, id) {
        Some(i) => Some(list[i]),
        None => None,
    }
}

/// The Gmail account selected in the sidebar, if that is one.
pub open spec fn selected_google_account(state: AppState) -> Option<GoogleAccount> {
    match state.selected_sidebar_email {
        Some(SidebarEmail::Google(i)) => if i < state.google_accounts@.len() {
            Some(state.google_accounts@[i as int])
        } else {
            None
        },
        _ => None,
    }
}

/// One check of the selected account (see `Inbox::sync_selected_account`):
/// from inbox `i0` and state `s0` to `i1` and `s1`, answering `r`.
pub open spec fn synced(i0: Inbox, s0: AppState, r: SyncAction, i1: Inbox, s1: AppState) -> bool {
    match selected_account_of(s0) {
        Some(a) => if is_active(i0, account_key_of(a)) {
            r is Keep && i1 == i0 && s1 == s0
        } else {
            &&& r == SyncAction::Start(a)
            &&& i1.opening_message_id is None
            &&& i1.active_account_id matches Some(k) && k@ == account_key_of(a)
            &&& i1.emails@ == cached_emails(s0, account_key_of(a))
            &&& i1.loading
            &&& s1 == (AppState { selected_message: None, ..s0 })
        },
        None => if i0.active_account_id is Some || i0.emails@.len() > 0 {
            &&& r is Stop
            &&& i1.opening_message_id is None
            &&& i1.active_account_id is None
            &&& i1.emails@.len() == 0
            &&& !i1.loading
            &&& s1 == (AppState { selected_message: None, ..s0 })
        } else {
            r is Keep && i1 == i0 && s1 == s0
        },
    }
}

/// One click on the email row with id `m` (see `Inbox::open_email`).
pub open spec fn opened(
    i0: Inbox,
    s0: AppState,
    m: Seq<char>,
    r: OpenAction,
    i1: Inbox,
    s1: AppState,
) -> bool {
    match email_with_id(i0.emails@, m) {
        None => r is Nothing && i1 == i0 && s1 == s0,
        Some(e) => {
            let shown = {
                &&& r == OpenAction::Show(e)
                &&& i1 == (Inbox { opening_message_id: None, ..i0 })
                &&& s1 == (AppState { selected_message: Some(e), ..s0 })
            };
            match selected_google_account(s0) {
                Some(g) => if e.body@.len() == 0 {
                    if i0.opening_message_id matches Some(o) && o@ == m {
                        r is AlreadyOpening && i1 == i0 && s1 == s0
                    } else {
                        &&& r == OpenAction::Fetch(g, e.id)
                        &&& s1 == s0
                        &&& i1.opening_message_id matches Some(o) && o@ == e.id@
                        &&& i1 == (Inbox { opening_message_id: i1.opening_message_id, ..i0 })
                    }
                } else {
                    shown
                },
                None => shown,
            }
        },
    }
}

impl Inbox {
    pub fn new() -> (r: Inbox)
        ensures
            r.emails@.len() == 0,
            !r.loading,
            r.opening_message_id is None,
            r.active_account_id is None,
    {
        Inbox { emails: Vec::new(), loading: false, opening_message_id: None, active_account_id: None }
    }

    fn active_is(&self, key: &str) -> (r: bool)
        ensures
            r == is_active(*self, key@),
    {
        match &self.active_account_id {
            Some(k) => *k == key.to_owned(),
            None => false,
        }
    }

    /// Forgets the email being fetched.
    pub fn cancel_open(&mut self)
        ensures
            *final(self) == (Inbox { opening_message_id: None, ..*old(self) }),
    {
        self.opening_message_id = None;
    }

    /// Closes the open email.
    pub fn close_email(state: &mut AppState)
        ensures
            *final(state) == (AppState { selected_message: None, ..*old(state) }),
    {
        state.selected_message = None;
    }

    /// Opens an email in the email view.
    pub fn show_email(email: Email, state: &mut AppState)
        ensures
            *final(state) == (AppState { selected_message: Some(email), ..*old(state) }),
    {
        state.selected_message = Some(email);
    }

    /// Switching to an account: forget what was being opened, show the
    /// cached mail of the account at once, close the open email, and mark
    /// the inbox as loading.
    pub fn switch_to(&mut self, account_key: &str, state: &mut AppState)
        ensures
            final(self).opening_message_id is None,
            final(self).active_account_id matches Some(k) && k@ == account_key@,
            final(self).emails@ == cached_emails(*old(state), account_key@),
            final(self).loading,
            *final(state) == (AppState { selected_message: None, ..*old(state) }),
    {
        self.cancel_open();
        self.active_account_id = Some(account_key.to_owned());
        let key = account_key.to_owned();
        self.emails = match state.email_cache.get(&key) {
            Some(cached) => clone_emails(cached),
            None => Vec::new(),
        };
        Self::close_email(state);
        self.loading = true;
    }

    /// Checks the selected account, called at start and whenever the
    /// shared state changes. A different account is switched to; with no
    /// account selected the inbox is emptied and the open email closed.
    pub fn sync_selected_account(&mut self, state: &mut AppState) -> (r: SyncAction)
        ensures
            synced(*old(self), *old(state), r, *final(self), *final(state)),
    {
        match selected_account(state) {
            Some(account) => {
                let key = account.key();
                if self.active_is(key.as_str()) {
                    SyncAction::Keep
                } else {
                    self.switch_to(key.as_str(), state);
                    SyncAction::Start(account)
                }
            },
            None => {
                if self.active_account_id.is_some() || self.emails.len() > 0 {
                    self.cancel_open();
                    self.active_account_id = None;
                    self.emails.clear();
                    self.loading = false;
                    Self::close_email(state);
                    SyncAction::Stop
                } else {
                    SyncAction::Keep
                }
            },
        }
    }

    /// The Gmail list for `account_key` came back (`None` when it failed).
    /// A result for an account no longer shown is dropped; otherwise
    /// loading ends, and on success the refreshed account is saved and the
    /// emails merged in.
    pub fn handle_google_result(
        &mut self,
        account_key: &str,
        result: Option<(GoogleAccount, Vec<Email>)>,
        state: &mut AppState,
    ) -> (applied: bool)
        ensures
            applied == is_active(*old(self), account_key@),
            !applied ==> *final(self) == *old(self) && *final(state) == *old(state),
            applied ==> !final(self).loading && final(self).opening_message_id
                == old(self).opening_message_id && final(self).active_account_id
                == old(self).active_account_id,
            applied && result is None ==> final(self).emails == old(self).emails && *final(state)
                == *old(state),
            applied && result is Some ==> final(self).emails@ == stable_sort(
                merge_all(old(self).emails@, (result->0).1@),
                newer_first(),
            ) && *final(state) == (AppState {
                google_accounts: final(state).google_accounts,
                ..*old(state)
            }) && final(state).google_accounts@ == account_stored(
                old(state).google_accounts@,
                (result->0).0,
            ),
    {
        if !self.active_is(account_key) {
            return false;
        }
        self.loading = false;
        match result {
            Some((account, emails)) => {
                state.store_google_account(account);
                merge_emails(&mut self.emails, emails);
            },
            None => {},
        }
        true
    }

    /// Applies one event of the temp-mail listener of `account_key`
    /// (mail.tm account `account_id`).
    pub fn handle_temp_event(
        &mut self,
        account_key: &str,
        account_id: &str,
        event: TempMailEvent,
        state: &mut AppState,
    ) -> (r: TempEventEffect)
        ensures
            !is_active(*old(self), account_key@) ==> r == TempEventEffect::Ignored && *final(self)
                == *old(self) && *final(state) == *old(state),
            is_active(*old(self), account_key@) ==> match event {
                TempMailEvent::Token(t) => r == TempEventEffect::AppliedSave && *final(self)
                    == *old(self) && *final(state) == (AppState {
                    temp_email: final(state).temp_email,
                    ..*old(state)
                }) && final(state).temp_email@ == token_stored(
                    old(state).temp_email@,
                    account_id@,
                    t,
                ),
                TempMailEvent::Emails(es) => r == TempEventEffect::AppliedSave
                    && final(self).emails@ == stable_sort(
                    merge_all(old(self).emails@, es@),
                    newer_first(),
                ) && !final(self).loading && final(self).opening_message_id
                    == old(self).opening_message_id && final(self).active_account_id
                    == old(self).active_account_id && cached_emails(*final(state), account_key@)
                    == final(self).emails@ && *final(state) == (AppState {
                    email_cache: final(state).email_cache,
                    ..*old(state)
                }),
                TempMailEvent::Failed => r == TempEventEffect::Applied && *final(self) == (Inbox {
                    loading: false,
                    ..*old(self)
                }) && *final(state) == *old(state),
            },
    {
        if !self.active_is(account_key) {
            return TempEventEffect::Ignored;
        }
        match event {
            TempMailEvent::Token(token) => {
                state.store_temp_token(account_id, token);
                TempEventEffect::AppliedSave
            },
            TempMailEvent::Emails(emails) => {
                merge_emails(&mut self.emails, emails);
                self.persist_emails(state);
                self.loading = false;
                TempEventEffect::AppliedSave
            },
            TempMailEvent::Failed => {
                self.loading = false;
                TempEventEffect::Applied
            },
        }
    }

    /// Saves this account's emails into the mail cache; `false` when no
    /// account is shown.
    pub fn persist_emails(&self, state: &mut AppState) -> (saved: bool)
        ensures
            saved == self.active_account_id is Some,
            !saved ==> *final(state) == *old(state),
            saved ==> cached_emails(*final(state), self.active_account_id->0@) == self.emails@
                && *final(state) == (AppState { email_cache: final(state).email_cache, ..*old(state) })
                && forall|k: Seq<char>|
                k != self.active_account_id->0@ ==> final(state).email_cache.get_spec(k)
                    == old(state).email_cache.get_spec(k),
    {
        match &self.active_account_id {
            Some(key) => {
                let emails = clone_emails(&self.emails);
                state.cache_emails(key.clone(), emails);
                true
            },
            None => false,
        }
    }

    /// A click on the email row with this id. Temp mail, and Gmail messages
    /// whose body is already here, are shown at once; otherwise the full
    /// message is fetched, unless that one is being fetched already.
    pub fn open_email(&mut self, message_id: &str, state: &mut AppState) -> (r: OpenAction)
        ensures
            opened(*old(self), *old(state), message_id@, r, *final(self), *final(state)),
    {
        let wanted = message_id.to_owned();
        let mut i: usize = 0;
        while i < self.emails.len()
            invariant
                0 <= i <= self.emails.len(),
                wanted@ == message_id@,
                forall|k: int| 0 <= k < i ==> (#[trigger] self.emails@[k]).id@ != message_id@,
            ensures
                0 <= i <= self.emails.len(),
                forall|k: int| 0 <= k < i ==> (#[trigger] self.emails@[k]).id@ != message_id@,
                i < self.emails.len() ==> self.emails@[i as int].id@ == message_id@,
            decreases self.emails.len() - i,
        {
            if self.emails[i].id == wanted {
                break;
            }
            i = i + 1;
        }
        if i == self.emails.len() {
            proof {
                lemma_index_of_id_none(self.emails@, message_id@);
            }
            return OpenAction::Nothing;
        }
        proof {
            lemma_index_of_id_at(self.emails@, message_id@, i as int);
        }
        let email = self.emails[i].clone();
        let google_account = match state.selected_sidebar_email {
            Some(SidebarEmail::Google(index)) => if index < state.google_accounts.len() {
                Some(state.google_accounts[index].clone())
            } else {
                None
            },
            _ => None,
        };
        let account = match google_account {
            Some(account) => if email.body.as_str().is_empty() {
                account
            } else {
                self.cancel_open();
                Self::show_email(email.clone(), state);
                return OpenAction::Show(email);
            },
            None => {
                self.cancel_open();
                Self::show_email(email.clone(), state);
                return OpenAction::Show(email);
            },
        };
        let already = match &self.opening_message_id {
            Some(opening) => *opening == wanted,
            None => false,
        };
        if already {
            return OpenAction::AlreadyOpening;
        }
        self.opening_message_id = Some(email.id.clone());
        OpenAction::Fetch(account, email.id)
    }

    /// The full message came back (`None` when it failed): the fetch is
    /// over; on success the refreshed account is saved, the body kept in
    /// the list, and the email shown.
    pub fn handle_open_result(
        &mut self,
        result: Option<(GoogleAccount, Email)>,
        state: &mut AppState,
    ) -> (shown: Option<Email>)
        ensures
            final(self).opening_message_id is None,
            final(self).loading == old(self).loading,
            final(self).active_account_id == old(self).active_account_id,
            match result {
                None => shown is None && final(self).emails == old(self).emails && *final(state)
                    == *old(state),
                Some((account, full)) => shown == Some(full) && final(self).emails@ == stable_sort(
                    merge_all(old(self).emails@, seq![full]),
                    newer_first(),
                ) && *final(state) == (AppState {
                    google_accounts: final(state).google_accounts,
                    selected_message: Some(full),
                    ..*old(state)
                }) && final(state).google_accounts@ == account_stored(
                    old(state).google_accounts@,
                    account,
                ),
            },
    {
        self.opening_message_id = None;
        match result {
            Some((account, full_email)) => {
                state.store_google_account(account);
                let mut batch: Vec<Email> = Vec::new();
                batch.push(full_email.clone());
                assert(batch@ =~= seq![full_email]);
                merge_emails(&mut self.emails, batch);
                Self::show_email(full_email.clone(), state);
                Some(full_email)
            },
            None => None,
        }
    }
}

// ---------------------------------------------------------------------------
// The temp-mail listener

/// Where the temp-mail listener is; each stage names the outside work that
/// comes next.
#[derive(Clone, Copy, Debug, PartialEq, Eq, Structural)]
pub enum ListenerStage {
    /// Log in again for a fresh token.
    RefreshToken,
    /// Load the message list.
    LoadMail,
    /// Open mail.tm's live stream.
    OpenStream,
    /// Wait for the next event of the stream.
    Stream,
    /// The stream announced new mail: load the message list again.
    Reload,
    /// Done: close the stream, if one is open, and end.
    Stop,
}

/// What the outside work of a stage brought.
#[derive(Debug)]
pub enum ListenerInput {
    /// The token refresh: the fresh token, or `None` when it failed.
    Token(Option<String>),
    /// A message list load: the emails, or `None` when it failed.
    Mail(Option<Vec<Email>>),
    /// Whether the live stream could be opened.
    Opened(bool),
    /// The stream announced new mail.
    StreamMessage,
    /// The stream opened or reported an error (only logged).
    StreamOther,
    /// The stream ended.
    StreamEnded,
    /// The UI side is gone: an event could not be handed over, or the
    /// channel was found closed when a stream event came.
    Disconnected,
}

/// One step of the listener: the next stage, the event to hand to the UI,
/// and whether the listener must stop when that event cannot be handed
/// over.
#[derive(Debug)]
pub struct ListenerStep {
    pub stage: ListenerStage,
    pub send: Option<TempMailEvent>,
    pub stop_if_undelivered: bool,
}

/// The listener's transitions. It refreshes the token (a fresh one is
/// passed on), loads the mail (the list is passed on, a failure reported
/// but not insisted on), opens the stream (giving up when it cannot), then
/// reloads the mail on each stream message, passing on each list that
/// loads. It stops when the stream ends or the UI side is gone; an input
/// that does not belong to the stage changes nothing.
pub open spec fn listener_next(stage: ListenerStage, input: ListenerInput) -> ListenerStep {
    let step = |stage: ListenerStage, send: Option<TempMailEvent>, insist: bool|
        ListenerStep { stage, send, stop_if_undelivered: insist };
    match input {
        ListenerInput::Disconnected => step(ListenerStage::Stop, None, false),
        ListenerInput::Token(t) => if stage == ListenerStage::RefreshToken {
            match t {
                Some(token) => step(ListenerStage::LoadMail, Some(TempMailEvent::Token(token)), true),
                None => step(ListenerStage::LoadMail, None, false),
            }
        } else {
            step(stage, None, false)
        },
        ListenerInput::Mail(m) => if stage == ListenerStage::LoadMail {
            match m {
                Some(es) => step(ListenerStage::OpenStream, Some(TempMailEvent::Emails(es)), true),
                None => step(ListenerStage::OpenStream, Some(TempMailEvent::Failed), false),
            }
        } else if stage == ListenerStage::Reload {
            match m {
                Some(es) => step(ListenerStage::Stream, Some(TempMailEvent::Emails(es)), true),
                None => step(ListenerStage::Stream, None, false),
            }
        } else {
            step(stage, None, false)
        },
        ListenerInput::Opened(ok) => if stage == ListenerStage::OpenStream {
            step(if ok { ListenerStage::Stream } else { ListenerStage::Stop }, None, false)
        } else {
            step(stage, None, false)
        },
        ListenerInput::StreamMessage => if stage == ListenerStage::Stream {
            step(ListenerStage::Reload, None, false)
        } else {
            step(stage, None, false)
        },
        ListenerInput::StreamOther => step(stage, None, false),
        ListenerInput::StreamEnded => if stage == ListenerStage::Stream {
            step(ListenerStage::Stop, None, false)
        } else {
            step(stage, None, false)
        },
    }
}

/// One step of the temp-mail listener (see `listener_next`).
pub fn listener_step(stage: ListenerStage, input: ListenerInput) -> (r: ListenerStep)
    ensures
        r == listener_next(stage, input),
{
    let step = |stage: ListenerStage, send: Option<TempMailEvent>, insist: bool| -> (r: ListenerStep)
        ensures
            r == (ListenerStep { stage, send, stop_if_undelivered: insist }),
        { ListenerStep { stage, send, stop_if_undelivered: insist } };
    match input {
        ListenerInput::Disconnected => step(ListenerStage::Stop, None, false),
        ListenerInput::Token(t) => if stage == ListenerStage::RefreshToken {
            match t {
                Some(token) => step(ListenerStage::LoadMail, Some(TempMailEvent::Token(token)), true),
                None => step(ListenerStage::LoadMail, None, false),
            }
        } else {
            step(stage, None, false)
        },
        ListenerInput::Mail(m) => if stage == ListenerStage::LoadMail {
            match m {
                Some(es) => step(ListenerStage::OpenStream, Some(TempMailEvent::Emails(es)), true),
                None => step(ListenerStage::OpenStream, Some(TempMailEvent::Failed), false),
            }
        } else if stage == ListenerStage::Reload {
            match m {
                Some(es) => step(ListenerStage::Stream, Some(TempMailEvent::Emails(es)), true),
                None => step(ListenerStage::Stream, None, false),
            }
        } else {
            step(stage, None, false)
        },
        ListenerInput::Opened(ok) => if stage == ListenerStage::OpenStream {
            step(if ok { ListenerStage::Stream } else { ListenerStage::Stop }, None, false)
        } else {
            step(stage, None, false)
        },
        ListenerInput::StreamMessage => if stage == ListenerStage::Stream {
            step(ListenerStage::Reload, None, false)
        } else {
            step(stage, None, false)
        },
        ListenerInput::StreamOther => step(stage, None, false),
        ListenerInput::StreamEnded => if stage == ListenerStage::Stream {
            step(ListenerStage::Stop, None, false)
        } else {
            step(stage, None, false)
        },
    }
}

} // verus!
