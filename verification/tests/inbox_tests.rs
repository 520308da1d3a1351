use mailbox::gmail::GoogleAccount;
use mailbox::inbox::{listener_step, ListenerInput, ListenerStage, merge_emails, selected_account, sort_newest_first, Account, Inbox, OpenAction, SyncAction, TempEventEffect, TempMailEvent};
use mailbox::keyed::StringMap;
use mailbox::mail::{Email, TempEmail};
use mailbox::state::{AppState, MailFilter, SidebarEmail, StoredData};

fn email(id: &str, created_at: &str, body: &str) -> Email {
    Email {
        id: id.to_string(),
        from: format!("{id}@example.com"),
        subject: format!("subject {id}"),
        intro: format!("intro {id}"),
        body: body.to_string(),
        seen: false,
        created_at: created_at.to_string(),
    }
}

fn ids(list: &[Email]) -> Vec<&str> {
    list.iter().map(|e| e.id.as_str()).collect()
}

fn temp(id: &str) -> TempEmail {
    TempEmail { address: format!("{id}@mail.tm"), password: "pw".to_string(), id: id.to_string(), token: "t0".to_string() }
}

fn google(email: &str) -> GoogleAccount {
    GoogleAccount { email: email.to_string(), access_token: "a".to_string(), refresh_token: "r".to_string(), expires_at: 100 }
}

fn state_with(temp_accounts: Vec<TempEmail>, google_accounts: Vec<GoogleAccount>) -> AppState {
    let mut data = StoredData::empty();
    data.temp_email = temp_accounts;
    data.google_accounts = google_accounts;
    AppState::from_storage(data)
}

#[test]
fn merge_orders_newest_first() {
    let mut list = vec![email("a", "2024-01-01", "")];
    merge_emails(&mut list, vec![email("b", "2024-03-01", ""), email("c", "2024-02-01", "")]);
    assert_eq!(ids(&list), vec!["b", "c", "a"]);
}

#[test]
fn merge_keeps_a_fetched_body() {
    let mut list = vec![email("a", "1", "full body")];
    merge_emails(&mut list, vec![email("a", "1", "")]);
    assert_eq!(list.len(), 1);
    assert_eq!(list[0].body, "full body");
    merge_emails(&mut list, vec![email("a", "1", "newer body")]);
    assert_eq!(list[0].body, "newer body");
}

#[test]
fn merge_replaces_an_email_without_body() {
    let mut list = vec![email("a", "1", "")];
    let mut update = email("a", "1", "");
    update.seen = true;
    merge_emails(&mut list, vec![update]);
    assert!(list[0].seen);
}

#[test]
fn merge_is_stable_for_equal_dates() {
    let list = vec![email("x", "5", ""), email("y", "5", ""), email("z", "9", "")];
    let sorted = sort_newest_first(list);
    assert_eq!(ids(&sorted), vec!["z", "x", "y"]);
}

#[test]
fn merge_twice_adds_nothing() {
    let mut list = Vec::new();
    let batch = vec![email("a", "2", ""), email("b", "1", "")];
    merge_emails(&mut list, batch.clone());
    merge_emails(&mut list, batch);
    assert_eq!(ids(&list), vec!["a", "b"]);
}

#[test]
fn account_keys() {
    assert_eq!(Account::Temp(temp("42")).key(), "temp:42");
    assert_eq!(Account::Google(google("me@gmail.com")).key(), "google:me@gmail.com");
}

#[test]
fn initial_selection_prefers_gmail() {
    let s = state_with(vec![temp("t")], vec![google("g@x")]);
    assert_eq!(s.selected_sidebar_email, Some(SidebarEmail::Google(0)));
    assert_eq!(s.selected_email, None);
    let s = state_with(vec![temp("t")], vec![]);
    assert_eq!(s.selected_sidebar_email, Some(SidebarEmail::Temp(0)));
    assert_eq!(s.selected_email, Some(0));
    let s = state_with(vec![], vec![]);
    assert_eq!(s.selected_sidebar_email, None);
    assert!(selected_account(&s).is_none());
    assert_eq!(s.mail_filter, MailFilter::Inbox);
}

#[test]
fn sync_starts_once_then_keeps() {
    let mut state = state_with(vec![temp("t")], vec![]);
    let mut cached = StringMap::new();
    cached.insert("temp:t".to_string(), vec![email("c", "1", "")]);
    state.email_cache = cached;
    let mut inbox = Inbox::new();
    match inbox.sync_selected_account(&mut state) {
        SyncAction::Start(Account::Temp(t)) => assert_eq!(t.id, "t"),
        other => panic!("unexpected {other:?}"),
    }
    assert_eq!(inbox.active_account_id.as_deref(), Some("temp:t"));
    assert!(inbox.loading);
    assert_eq!(ids(&inbox.emails), vec!["c"]);
    assert!(matches!(inbox.sync_selected_account(&mut state), SyncAction::Keep));
}

#[test]
fn sync_stops_when_nothing_is_selected() {
    let mut state = state_with(vec![temp("t")], vec![]);
    let mut inbox = Inbox::new();
    inbox.sync_selected_account(&mut state);
    state.clear_all();
    assert!(matches!(inbox.sync_selected_account(&mut state), SyncAction::Stop));
    assert!(inbox.active_account_id.is_none());
    assert!(inbox.emails.is_empty());
    assert!(!inbox.loading);
    assert!(matches!(inbox.sync_selected_account(&mut state), SyncAction::Keep));
}

#[test]
fn stale_temp_events_are_ignored() {
    let mut state = state_with(vec![temp("t")], vec![]);
    let mut inbox = Inbox::new();
    inbox.sync_selected_account(&mut state);
    let effect = inbox.handle_temp_event("temp:other", "other", TempMailEvent::Emails(vec![email("x", "1", "")]), &mut state);
    assert_eq!(effect, TempEventEffect::Ignored);
    assert!(inbox.emails.is_empty());
    assert!(inbox.loading);
}

#[test]
fn temp_events_update_state() {
    let mut state = state_with(vec![temp("t")], vec![]);
    let mut inbox = Inbox::new();
    inbox.sync_selected_account(&mut state);
    assert_eq!(inbox.handle_temp_event("temp:t", "t", TempMailEvent::Token("fresh".to_string()), &mut state), TempEventEffect::AppliedSave);
    assert_eq!(state.temp_email[0].token, "fresh");
    assert_eq!(inbox.handle_temp_event("temp:t", "t", TempMailEvent::Emails(vec![email("m", "1", "")]), &mut state), TempEventEffect::AppliedSave);
    assert!(!inbox.loading);
    assert_eq!(ids(state.email_cache.get(&"temp:t".to_string()).unwrap()), vec!["m"]);
    inbox.loading = true;
    assert_eq!(inbox.handle_temp_event("temp:t", "t", TempMailEvent::Failed, &mut state), TempEventEffect::Applied);
    assert!(!inbox.loading);
}

#[test]
fn google_results_for_other_accounts_are_dropped() {
    let mut state = state_with(vec![], vec![google("g@x")]);
    let mut inbox = Inbox::new();
    inbox.sync_selected_account(&mut state);
    assert!(!inbox.handle_google_result("google:other@x", Some((google("other@x"), vec![email("a", "1", "")])), &mut state));
    assert!(inbox.emails.is_empty());
    let mut refreshed = google("g@x");
    refreshed.access_token = "new".to_string();
    assert!(inbox.handle_google_result("google:g@x", Some((refreshed, vec![email("a", "1", "")])), &mut state));
    assert_eq!(state.google_accounts[0].access_token, "new");
    assert_eq!(ids(&inbox.emails), vec!["a"]);
    assert!(!inbox.loading);
}

#[test]
fn opening_temp_mail_shows_it_at_once() {
    let mut state = state_with(vec![temp("t")], vec![]);
    let mut inbox = Inbox::new();
    inbox.sync_selected_account(&mut state);
    merge_emails(&mut inbox.emails, vec![email("a", "1", "")]);
    match inbox.open_email("a", &mut state) {
        OpenAction::Show(e) => assert_eq!(e.id, "a"),
        other => panic!("unexpected {other:?}"),
    }
    assert_eq!(state.selected_message.as_ref().map(|e| e.id.as_str()), Some("a"));
    assert!(matches!(inbox.open_email("zz", &mut state), OpenAction::Nothing));
}

#[test]
fn opening_gmail_fetches_once() {
    let mut state = state_with(vec![], vec![google("g@x")]);
    let mut inbox = Inbox::new();
    inbox.sync_selected_account(&mut state);
    merge_emails(&mut inbox.emails, vec![email("a", "1", ""), email("b", "2", "cached body")]);
    match inbox.open_email("a", &mut state) {
        OpenAction::Fetch(account, id) => {
            assert_eq!(account.email, "g@x");
            assert_eq!(id, "a");
        }
        other => panic!("unexpected {other:?}"),
    }
    assert!(matches!(inbox.open_email("a", &mut state), OpenAction::AlreadyOpening));
    assert!(state.selected_message.is_none());
    assert!(matches!(inbox.open_email("b", &mut state), OpenAction::Show(_)));
    assert!(inbox.opening_message_id.is_none());
    let shown = inbox.handle_open_result(Some((google("g@x"), email("a", "1", "full"))), &mut state);
    assert_eq!(shown.map(|e| e.body), Some("full".to_string()));
    assert_eq!(state.selected_message.as_ref().map(|e| e.body.as_str()), Some("full"));
    assert_eq!(inbox.emails.iter().find(|e| e.id == "a").map(|e| e.body.as_str()), Some("full"));
}

#[test]
fn failed_open_only_ends_the_fetch() {
    let mut state = state_with(vec![], vec![google("g@x")]);
    let mut inbox = Inbox::new();
    inbox.opening_message_id = Some("a".to_string());
    assert!(inbox.handle_open_result(None, &mut state).is_none());
    assert!(inbox.opening_message_id.is_none());
    assert!(state.selected_message.is_none());
}

#[test]
fn results_after_delete_all_are_dropped() {
    let mut state = state_with(vec![], vec![google("g@x")]);
    let mut inbox = Inbox::new();
    inbox.sync_selected_account(&mut state);
    state.clear_all();
    assert!(matches!(inbox.sync_selected_account(&mut state), SyncAction::Stop));
    assert!(!inbox.handle_google_result("google:g@x", Some((google("g@x"), vec![email("a", "1", "")])), &mut state));
    assert!(inbox.emails.is_empty());
    assert!(state.google_accounts.is_empty());
    let effect = inbox.handle_temp_event("temp:t", "t", TempMailEvent::Token("t1".to_string()), &mut state);
    assert_eq!(effect, TempEventEffect::Ignored);
}

#[test]
fn merge_grows_by_the_new_ids() {
    let mut list = vec![email("a", "1", ""), email("b", "2", "")];
    merge_emails(&mut list, vec![email("b", "2", "x"), email("c", "3", ""), email("c", "3", "y"), email("d", "4", "")]);
    // Two ids were new (c, d): two more emails, none twice.
    assert_eq!(list.len(), 4);
    assert_eq!(ids(&list), vec!["d", "c", "b", "a"]);
    assert_eq!(list[1].body, "y");
}

#[test]
fn listener_runs_through_its_stages() {
    let step = listener_step(ListenerStage::RefreshToken, ListenerInput::Token(Some("tok".to_string())));
    assert_eq!(step.stage, ListenerStage::LoadMail);
    assert!(matches!(step.send, Some(TempMailEvent::Token(ref t)) if t == "tok"));
    assert!(step.stop_if_undelivered);

    let step = listener_step(ListenerStage::RefreshToken, ListenerInput::Token(None));
    assert_eq!(step.stage, ListenerStage::LoadMail);
    assert!(step.send.is_none());

    let step = listener_step(ListenerStage::LoadMail, ListenerInput::Mail(None));
    assert_eq!(step.stage, ListenerStage::OpenStream);
    assert!(matches!(step.send, Some(TempMailEvent::Failed)));
    assert!(!step.stop_if_undelivered);

    let step = listener_step(ListenerStage::LoadMail, ListenerInput::Mail(Some(vec![email("a", "1", "")])));
    assert_eq!(step.stage, ListenerStage::OpenStream);
    assert!(matches!(step.send, Some(TempMailEvent::Emails(ref es)) if es.len() == 1));
    assert!(step.stop_if_undelivered);

    assert_eq!(listener_step(ListenerStage::OpenStream, ListenerInput::Opened(false)).stage, ListenerStage::Stop);
    assert_eq!(listener_step(ListenerStage::OpenStream, ListenerInput::Opened(true)).stage, ListenerStage::Stream);
    assert_eq!(listener_step(ListenerStage::Stream, ListenerInput::StreamOther).stage, ListenerStage::Stream);
    assert_eq!(listener_step(ListenerStage::Stream, ListenerInput::StreamMessage).stage, ListenerStage::Reload);

    let step = listener_step(ListenerStage::Reload, ListenerInput::Mail(None));
    assert_eq!(step.stage, ListenerStage::Stream);
    assert!(step.send.is_none());
    let step = listener_step(ListenerStage::Reload, ListenerInput::Mail(Some(vec![])));
    assert_eq!(step.stage, ListenerStage::Stream);
    assert!(step.stop_if_undelivered);

    assert_eq!(listener_step(ListenerStage::Stream, ListenerInput::StreamEnded).stage, ListenerStage::Stop);
    assert_eq!(listener_step(ListenerStage::Stream, ListenerInput::Disconnected).stage, ListenerStage::Stop);
    let step = listener_step(ListenerStage::Stop, ListenerInput::Mail(Some(vec![])));
    assert_eq!(step.stage, ListenerStage::Stop);
    assert!(step.send.is_none());
}
