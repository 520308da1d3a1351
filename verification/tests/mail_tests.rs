use mailbox::assets::{AssetFile, Assets};
use mailbox::mail::{ascii_lowercase, emails_from_mail_tm, new_credentials, temp_address, unwrap_or_empty, MailTmMessage};

#[test]
fn mail_tm_messages_become_emails() {
    let messages = vec![
        MailTmMessage { id: "1".into(), from_address: "a@x".into(), subject: "S".into(), intro: Some("hi".into()), seen: true, created_at: "2024".into() },
        MailTmMessage { id: "2".into(), from_address: "b@x".into(), subject: "T".into(), intro: None, seen: false, created_at: "2025".into() },
    ];
    let emails = emails_from_mail_tm(messages);
    assert_eq!(emails.len(), 2);
    assert_eq!((emails[0].id.as_str(), emails[0].from.as_str(), emails[0].intro.as_str(), emails[0].body.as_str()), ("1", "a@x", "hi", ""));
    assert!(emails[0].seen && !emails[1].seen);
    assert_eq!(emails[1].intro, "");
    assert_eq!(emails[1].created_at, "2025");
    assert_eq!(unwrap_or_empty(None), "");
}

#[test]
fn credentials_and_addresses() {
    let (user, password) = new_credentials();
    assert_eq!(user.chars().count(), 12);
    assert!(user.chars().all(|c| c.is_ascii_digit() || c.is_ascii_lowercase()));
    assert_eq!(password.chars().count(), 20);
    assert!(password.chars().all(|c| c.is_ascii_alphanumeric()));
    assert_eq!(temp_address("user", "mail.tm"), "user@mail.tm");
    assert_eq!(ascii_lowercase("AbC9é"), "abc9é");
}

#[test]
fn assets_by_path() {
    let assets = Assets {
        files: vec![
            AssetFile { path: "images/add.svg".into(), data: vec![1, 2] },
            AssetFile { path: "themes/zed.json".into(), data: vec![3] },
            AssetFile { path: "images/close.svg".into(), data: vec![] },
        ],
    };
    assert_eq!(assets.load(""), None);
    assert_eq!(assets.load("images/add.svg"), Some(vec![1, 2]));
    assert_eq!(assets.load("missing"), None);
    assert_eq!(assets.list("images/"), vec!["images/add.svg".to_string(), "images/close.svg".to_string()]);
    assert_eq!(assets.list("").len(), 3);
    assert!(assets.list("fonts/").is_empty());
}
