use mailbox::gmail::GoogleAccount;
use mailbox::keyed::StringMap;
use mailbox::mail::{Email, TempEmail};
use mailbox::state::{AppState, MailFilter, SidebarClick, SidebarEmail, StoredData};

fn temp(id: &str) -> TempEmail {
    TempEmail { address: format!("{id}@mail.tm"), password: "pw".to_string(), id: id.to_string(), token: "t".to_string() }
}

fn google(email: &str) -> GoogleAccount {
    GoogleAccount { email: email.to_string(), access_token: "a".to_string(), refresh_token: "r".to_string(), expires_at: 0 }
}

fn state() -> AppState {
    let mut data = StoredData::empty();
    data.temp_email = vec![temp("t0"), temp("t1")];
    data.google_accounts = vec![google("g@x"), google("")];
    AppState::from_storage(data)
}

#[test]
fn gmail_labels() {
    assert_eq!(MailFilter::Inbox.gmail_label(), "INBOX");
    assert_eq!(MailFilter::Starred.gmail_label(), "STARRED");
    assert_eq!(MailFilter::Drafts.gmail_label(), "DRAFT");
    assert_eq!(MailFilter::Sent.gmail_label(), "SENT");
    assert_eq!(MailFilter::Trash.gmail_label(), "TRASH");
}

#[test]
fn sidebar_clicks_select_then_copy() {
    let mut s = state();
    assert_eq!(s.click_temp(1), SidebarClick::Selected);
    assert_eq!(s.selected_sidebar_email, Some(SidebarEmail::Temp(1)));
    assert_eq!(s.selected_email, Some(1));
    assert_eq!(s.click_temp(1), SidebarClick::CopyAddress("t1@mail.tm".to_string()));
    assert_eq!(s.click_google(0), SidebarClick::Selected);
    assert_eq!(s.selected_email, None);
    assert_eq!(s.click_google(0), SidebarClick::CopyAddress("g@x".to_string()));
    assert_eq!(s.click_google(1), SidebarClick::Selected);
    assert_eq!(s.click_google(1), SidebarClick::Selected);
}

#[test]
fn google_login_status() {
    let mut s = state();
    assert!(s.begin_google_login());
    assert_eq!(s.google_login_status.as_deref(), Some("Opening Google login..."));
    assert!(!s.begin_google_login());
    s.finish_google_login(Err("denied".to_string()));
    assert_eq!(s.google_login_status.as_deref(), Some("Google login failed: denied"));
    assert!(s.begin_google_login());
    s.finish_google_login(Ok(google("new@x")));
    assert_eq!(s.google_login_status, None);
    assert_eq!(s.google_accounts.len(), 3);
    assert_eq!(s.selected_sidebar_email, Some(SidebarEmail::Google(2)));
}

#[test]
fn tabs_close_the_open_email_except_starred() {
    let mut s = state();
    let open = Email { id: "e".into(), from: String::new(), subject: String::new(), intro: String::new(), body: String::new(), seen: true, created_at: String::new() };
    s.selected_message = Some(open);
    s.set_filter(MailFilter::Starred);
    assert!(s.selected_message.is_some());
    s.set_filter(MailFilter::Trash);
    assert!(s.selected_message.is_none());
    assert_eq!(s.mail_filter, MailFilter::Trash);
}

#[test]
fn delete_all_forgets_accounts_and_mail() {
    let mut s = state();
    s.cache_emails("temp:t0".to_string(), Vec::new());
    s.google_login_status = Some("x".to_string());
    s.set_filter(MailFilter::Sent);
    s.clear_all();
    assert!(s.temp_email.is_empty() && s.google_accounts.is_empty());
    assert_eq!(s.email_cache.len(), 0);
    assert_eq!(s.selected_sidebar_email, None);
    assert_eq!(s.selected_email, None);
    assert_eq!(s.google_login_status, None);
    assert_eq!(s.mail_filter, MailFilter::Sent);
}

#[test]
fn accounts_are_stored_by_email() {
    let mut s = state();
    let mut updated = google("g@x");
    updated.access_token = "fresh".to_string();
    s.store_google_account(updated);
    assert_eq!(s.google_accounts[0].access_token, "fresh");
    s.store_google_account(google("unknown@x"));
    assert_eq!(s.google_accounts.len(), 2);
    s.store_temp_token("t1", "tok".to_string());
    assert_eq!(s.temp_email[1].token, "tok");
    assert_eq!(s.temp_email[0].token, "t");
}

#[test]
fn cache_read_after_write() {
    let mut m: StringMap<Vec<String>> = StringMap::new();
    m.insert("a".to_string(), vec!["1".to_string()]);
    m.insert("b".to_string(), vec![]);
    m.insert("a".to_string(), vec!["2".to_string()]);
    assert_eq!(m.get(&"a".to_string()), Some(&vec!["2".to_string()]));
    assert_eq!(m.get(&"b".to_string()), Some(&vec![]));
    assert_eq!(m.get(&"c".to_string()), None);
    assert_eq!(m.len(), 2);
    let keys: Vec<String> = m.into_entries().into_iter().map(|(k, _)| k).collect();
    assert_eq!(keys, vec!["a".to_string(), "b".to_string()]);
    let m = StringMap::from_entries(vec![("k".to_string(), 1), ("k".to_string(), 2)]);
    assert_eq!(m.get(&"k".to_string()), Some(&2));
}

#[test]
fn storage_round_trip() {
    let mut s = state();
    s.cache_emails("temp:t0".to_string(), Vec::new());
    let d = s.to_storage();
    assert_eq!(d.temp_email.len(), 2);
    assert_eq!(d.google_accounts[0].email, "g@x");
    assert_eq!(d.emails.len(), 1);
    let back = AppState::from_storage(d);
    assert_eq!(back.selected_sidebar_email, Some(SidebarEmail::Google(0)));
}
