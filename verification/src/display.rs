//! The text the views show: sender names, shortened subjects, the inbox
//! placeholder, sidebar labels and the body of an open email.
use vstd::prelude::*;

use crate::dates::{
    email_date, is_label_of_reading, millis_in_range, millis_well_inside, naive_parses, rfc3339_parses,
};
use crate::inbox::Inbox;
use crate::mail::Email;
use crate::state::{AppState, SidebarEmail};
use crate::text::{
    chars_of, join_str, find_char, first_index_of, lemma_first_index_facts, push_char, split_once,
    string_from, trim_both, trim_range, Trim,
};
use crate::theme::{seq_view, ThemeInfo};

verus! {

/// The name to show for a `From` value: the display name before `<` (its
/// whitespace and quotes trimmed) if there is one, else the part before
/// `@`, else the whole value.
pub open spec fn sender_name_spec(sender: Seq<char>) -> Seq<char> {
    let quoted = match split_once(sender, '<') {
        Some((n, _)) => trim_both(trim_both(n, Trim::Whitespace), Trim::Exactly('"')),
        None => Seq::empty(),
    };
    if split_once(sender, '<') is Some && quoted.len() > 0 {
        quoted
    } else {
        match split_once(sender, '@') {
            Some((n, _)) => n,
            None => sender,
        }
    }
}

/// The sender's name for the inbox row.
pub fn sender_name(sender: &str) -> (r: String)
    ensures
        r@ == sender_name_spec(sender@),
{
    let v = chars_of(sender);
    assert(v@.skip(0) == v@);
    proof {
        lemma_first_index_facts(v@, '<');
        lemma_first_index_facts(v@, '@');
    }
    match find_char(&v, 0, '<') {
        Some(lt) => {
            let (i, j) = trim_range(&v, 0, lt, Trim::Whitespace);
            assert(v@.subrange(0, lt as int) == v@.take(lt as int));
            let (k, l) = trim_range(&v, i, j, Trim::Exactly('"'));
            if k < l {
                return string_from(&v, k, l);
            }
        },
        None => {},
    }
    match find_char(&v, 0, '@') {
        Some(at) => {
            assert(v@.subrange(0, at as int) == v@.take(at as int));
            string_from(&v, 0, at)
        },
        None => {
            assert(v@.subrange(0, v@.len() as int) == v@);
            string_from(&v, 0, v.len())
        },
    }
}

/// At most `max_chars` characters of `value`, with `...` added when some
/// were cut.
pub open spec fn truncate_spec(value: Seq<char>, max_chars: nat) -> Seq<char> {
    if value.len() > max_chars {
        value.take(max_chars as int) + seq!['.', '.', '.']
    } else {
        value
    }
}

pub fn truncate_text(value: &str, max_chars: usize) -> (r: String)
    ensures
        r@ == truncate_spec(value@, max_chars as nat),
{
    let v = chars_of(value);
    if v.len() > max_chars {
        let mut r = string_from(&v, 0, max_chars);
        push_char(&mut r, '.');
        push_char(&mut r, '.');
        push_char(&mut r, '.');
        assert(v@.subrange(0, max_chars as int) == v@.take(max_chars as int));
        assert(r@ =~= v@.take(max_chars as int) + seq!['.', '.', '.']);
        r
    } else {
        assert(v@.subrange(0, v@.len() as int) == v@);
        string_from(&v, 0, v.len())
    }
}

/// The label of the selected account while its mail loads.
pub open spec fn loading_label(state: AppState) -> Seq<char> {
    match state.selected_sidebar_email {
        Some(SidebarEmail::Google(i)) => if i < state.google_accounts@.len() {
            state.google_accounts@[i as int].email@
        } else {
            "Gmail"@
        },
        Some(SidebarEmail::Temp(i)) => if i < state.temp_email@.len() {
            state.temp_email@[i as int].address@
        } else {
            "temporary email"@
        },
        None => "inbox"@,
    }
}

/// What the inbox shows instead of the list, if anything: a prompt when
/// no account is selected; while the list is empty, a loading notice or
/// "No messages".
pub open spec fn placeholder_spec(state: AppState, inbox: Inbox) -> Option<Seq<char>> {
    if state.selected_sidebar_email is None {
        Some("Select an inbox"@)
    } else if inbox.emails@.len() == 0 {
        if inbox.loading {
            Some("Loading "@ + loading_label(state))
        } else {
            Some("No messages"@)
        }
    } else {
        None
    }
}

pub fn inbox_placeholder(state: &AppState, inbox: &Inbox) -> (r: Option<String>)
    ensures
        match r {
            Some(t) => placeholder_spec(*state, *inbox) == Some(t@),
            None => placeholder_spec(*state, *inbox) is None,
        },
{
    match state.selected_sidebar_email {
        None => Some("Select an inbox".to_owned()),
        Some(selected) => {
            if inbox.emails.len() > 0 {
                None
            } else if inbox.loading {
                let label = match selected {
                    SidebarEmail::Google(index) => if index < state.google_accounts.len() {
                        state.google_accounts[index].email.clone()
                    } else {
                        "Gmail".to_owned()
                    },
                    SidebarEmail::Temp(index) => if index < state.temp_email.len() {
                        state.temp_email[index].address.clone()
                    } else {
                        "temporary email".to_owned()
                    },
                };
                Some(join_str("Loading ", label.as_str()))
            } else {
                Some("No messages".to_owned())
            }
        },
    }
}

/// The rows of a list of `len` rows that a range of row numbers asks for:
/// both ends brought within the list (which must leave the start no later
/// than the end).
pub fn visible_rows(len: usize, start: usize, end: usize) -> (r: (usize, usize))
    requires
        (if start < len {
            start
        } else {
            len
        }) <= (if end < len {
            end
        } else {
            len
        }),
    ensures
        r.0 == if start < len {
            start
        } else {
            len
        },
        r.1 == if end < len {
            end
        } else {
            len
        },
        r.0 <= r.1 <= len,
{
    let a = if start < len {
        start
    } else {
        len
    };
    let b = if end < len {
        end
    } else {
        len
    };
    (a, b)
}

/// The three columns of an inbox row.
#[derive(Debug)]
pub struct RowText {
    pub sender: String,
    pub subject: String,
    pub date: String,
}

/// The text of an email's row: the sender's name (28 characters at most)
/// and the subject (48 at most), then "Opening…" while this email is being
/// fetched, or else its date.
pub fn row_text(email: &Email, opening_message_id: &Option<String>) -> (r: RowText)
    ensures
        r.sender@ == truncate_spec(sender_name_spec(email.from@), 28),
        r.subject@ == truncate_spec(email.subject@, 48),
        (opening_message_id matches Some(o) && o@ == email.id@) ==> r.date@ == "Opening\u{2026}"@,
        !(opening_message_id matches Some(o) && o@ == email.id@) ==> {
            &&& is_label_of_reading(r.date@, email.created_at@)
            &&& millis_well_inside(email.created_at@) || rfc3339_parses(email.created_at@)
                ==> r.date@.len() > 0
            &&& r.date@.len() > 0 ==> millis_in_range(email.created_at@) || rfc3339_parses(
                email.created_at@,
            ) || naive_parses(email.created_at@)
        },
{
    let sender = truncate_text(sender_name(email.from.as_str()).as_str(), 28);
    let subject = truncate_text(email.subject.as_str(), 48);
    let is_opening = match opening_message_id {
        Some(o) => *o == email.id,
        None => false,
    };
    let date = if is_opening {
        "Opening\u{2026}".to_owned()
    } else {
        email_date(email.created_at.as_str())
    };
    RowText { sender, subject, date }
}

/// The sidebar label of a Gmail account: its address, or "Gmail" while
/// that is not known yet.
pub fn google_account_label(email: &str) -> (r: String)
    ensures
        r@ == if email@.len() == 0 {
            "Gmail"@
        } else {
            email@
        },
{
    if email.is_empty() {
        "Gmail".to_owned()
    } else {
        email.to_owned()
    }
}

/// The text an open email shows: its body, or its preview when the body
/// is only whitespace.
pub fn body_source(email: &Email) -> (r: &String)
    ensures
        *r == if trim_both(email.body@, Trim::Whitespace).len() == 0 {
            email.intro
        } else {
            email.body
        },
{
    let trimmed = crate::text::trim_str(email.body.as_str(), Trim::Whitespace);
    if trimmed.as_str().is_empty() {
        &email.intro
    } else {
        &email.body
    }
}

/// The name of the selected theme in the settings, or "Unknown theme".
pub open spec fn theme_label_spec(themes: Seq<crate::theme::ThemeInfoView>, selected: Seq<char>) -> Seq<
    char,
>
    decreases themes.len(),
{
    if themes.len() == 0 {
        "Unknown theme"@
    } else if themes[0].id == selected {
        themes[0].name
    } else {
        theme_label_spec(themes.drop_first(), selected)
    }
}

pub fn selected_theme_label(themes: &Vec<ThemeInfo>, selected: &String) -> (r: String)
    ensures
        r@ == theme_label_spec(seq_view(themes@), selected@),
{
    let ghost vs = seq_view(themes@);
    let mut i: usize = 0;
    assert(vs.skip(0) == vs);
    while i < themes.len()
        invariant
            0 <= i <= themes.len(),
            vs == seq_view(themes@),
            theme_label_spec(vs, selected@) == theme_label_spec(vs.skip(i as int), selected@),
        decreases themes.len() - i,
    {
        assert(vs.skip(i as int)[0] == vs[i as int]);
        if themes[i].id == *selected {
            return themes[i].name.clone();
        }
        assert(vs.skip(i as int).drop_first() == vs.skip(i + 1));
        i = i + 1;
    }
    "Unknown theme".to_owned()
}

} // verus!
