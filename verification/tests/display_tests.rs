use mailbox::dates::{date_label, email_date, parse_i64, reading_label, LocalTime};
use mailbox::display::{body_source, google_account_label, inbox_placeholder, row_text, sender_name, truncate_text, visible_rows};
use mailbox::gmail::GoogleAccount;
use mailbox::inbox::Inbox;
use mailbox::mail::{Email, TempEmail};
use mailbox::state::{AppState, SidebarEmail, StoredData};

fn email(from: &str, subject: &str, body: &str, intro: &str) -> Email {
    Email { id: "id".into(), from: from.into(), subject: subject.into(), intro: intro.into(), body: body.into(), seen: false, created_at: "not a date".into() }
}

#[test]
fn sender_names() {
    assert_eq!(sender_name("\"Ann Lee\" <ann@x.com>"), "Ann Lee");
    assert_eq!(sender_name("  Bob <bob@x.com>"), "Bob");
    assert_eq!(sender_name("<carol@x.com>"), "<carol");
    assert_eq!(sender_name("dave@x.com"), "dave");
    assert_eq!(sender_name("plain name"), "plain name");
    assert_eq!(sender_name("\" \" <e@x>"), " ");
}

#[test]
fn truncation() {
    assert_eq!(truncate_text("short", 28), "short");
    assert_eq!(truncate_text("exactly5", 8), "exactly5");
    assert_eq!(truncate_text("abcdefghij", 4), "abcd...");
    assert_eq!(truncate_text("ééééé", 2), "éé...");
    assert_eq!(truncate_text("", 0), "");
}

#[test]
fn placeholders() {
    let mut data = StoredData::empty();
    data.temp_email = vec![TempEmail { address: "t@mail.tm".into(), password: String::new(), id: "t".into(), token: String::new() }];
    let mut state = AppState::from_storage(data);
    let mut inbox = Inbox::new();
    inbox.loading = true;
    assert_eq!(inbox_placeholder(&state, &inbox), Some("Loading t@mail.tm".to_string()));
    state.selected_sidebar_email = Some(SidebarEmail::Google(3));
    assert_eq!(inbox_placeholder(&state, &inbox), Some("Loading Gmail".to_string()));
    state.selected_sidebar_email = Some(SidebarEmail::Temp(9));
    assert_eq!(inbox_placeholder(&state, &inbox), Some("Loading temporary email".to_string()));
    inbox.loading = false;
    assert_eq!(inbox_placeholder(&state, &inbox), Some("No messages".to_string()));
    inbox.emails.push(email("a", "b", "", ""));
    assert_eq!(inbox_placeholder(&state, &inbox), None);
    state.selected_sidebar_email = None;
    assert_eq!(inbox_placeholder(&state, &inbox), Some("Select an inbox".to_string()));
    state.google_accounts.push(GoogleAccount { email: "g@x".into(), access_token: String::new(), refresh_token: String::new(), expires_at: 0 });
    state.selected_sidebar_email = Some(SidebarEmail::Google(0));
    inbox.emails.clear();
    inbox.loading = true;
    assert_eq!(inbox_placeholder(&state, &inbox), Some("Loading g@x".to_string()));
}

#[test]
fn rows_and_labels() {
    assert_eq!(visible_rows(10, 2, 5), (2, 5));
    assert_eq!(visible_rows(3, 2, 8), (2, 3));
    assert_eq!(visible_rows(3, 5, 8), (3, 3));
    assert_eq!(visible_rows(3, 8, 5), (3, 3));
    assert_eq!(google_account_label(""), "Gmail");
    assert_eq!(google_account_label("me@x"), "me@x");
    let e = email("\"A Very Long Sender Name That Goes On\" <a@x>", "s", "", "");
    let r = row_text(&e, &None);
    assert_eq!(r.sender, "A Very Long Sender Name That...");
    assert_eq!(r.subject, "s");
    assert_eq!(r.date, "");
    let r = row_text(&e, &Some("id".to_string()));
    assert_eq!(r.date, "Opening\u{2026}");
}

#[test]
fn body_or_preview() {
    let e = email("a", "s", "  \n", "preview");
    assert_eq!(body_source(&e), "preview");
    let e = email("a", "s", "body", "preview");
    assert_eq!(body_source(&e), "body");
}

#[test]
fn parse_i64_matches_std() {
    let samples = ["0", "-0", "+7", "-", "+", "", "12a", "9223372036854775807", "9223372036854775808", "-9223372036854775808", "-9223372036854775809", "00042", " 1", "1700000000000", "99999999999999999999"];
    for s in samples {
        assert_eq!(parse_i64(s), s.parse::<i64>().ok(), "{s:?}");
    }
}

fn t(year: i32, month: u32, day: u32, hour: u32, minute: u32) -> LocalTime {
    LocalTime { year, month, day, hour, minute }
}

#[test]
fn date_labels() {
    let now = t(2024, 3, 5, 18, 0);
    assert_eq!(date_label(Some(t(2024, 3, 5, 9, 5)), now), "9:05 AM");
    assert_eq!(date_label(Some(t(2024, 3, 5, 0, 30)), now), "12:30 AM");
    assert_eq!(date_label(Some(t(2024, 3, 5, 12, 0)), now), "12:00 PM");
    assert_eq!(date_label(Some(t(2024, 3, 5, 23, 59)), now), "11:59 PM");
    assert_eq!(date_label(Some(t(2024, 3, 4, 9, 5)), now), "4 Mar");
    assert_eq!(date_label(Some(t(2023, 12, 25, 9, 5)), now), "25 Dec");
    assert_eq!(date_label(None, now), "");
}

#[test]
fn email_dates_read_several_formats() {
    assert_eq!(email_date("nonsense"), "");
    assert_eq!(email_date(""), "");
    for value in ["1700000000000", "2023-11-14T22:13:20+00:00", "2023-11-14T22:13:20.000Z"] {
        let label = email_date(value);
        assert!(!label.is_empty(), "{value}");
    }
}

#[test]
fn first_successful_reading_is_labelled() {
    let now = t(2024, 3, 5, 18, 0);
    let today = Some(t(2024, 3, 5, 21, 7));
    let other = Some(t(2024, 1, 9, 8, 0));
    assert_eq!(reading_label(today, other, other, now), "9:07 PM");
    assert_eq!(reading_label(None, other, today, now), "9 Jan");
    assert_eq!(reading_label(None, None, today, now), "9:07 PM");
    assert_eq!(reading_label(None, None, None, now), "");
}

#[test]
fn millisecond_readings_stay_in_chrono_range() {
    // The ends of chrono's range, as `min_millis` and `max_millis` state them.
    assert!(chrono::DateTime::from_timestamp_millis(8210266876799999).is_some());
    assert!(chrono::DateTime::from_timestamp_millis(8210266876800000).is_none());
    assert!(chrono::DateTime::from_timestamp_millis(-8334601228800000).is_some());
    assert!(chrono::DateTime::from_timestamp_millis(-8334601228800001).is_none());
    // Out of range: no reading, whatever the time zone.
    assert_eq!(email_date("8210266876800000"), "");
    assert_eq!(email_date("-8334601228800001"), "");
    // At the very ends the local shift may leave the range: no panic.
    let _ = email_date("8210266876799999");
    let _ = email_date("-8334601228800000");
    // More than a day inside: always a label.
    assert!(!email_date("8210266790399999").is_empty());
    assert!(!email_date("-8334601142400000").is_empty());
    assert!(!email_date("0").is_empty());
}
