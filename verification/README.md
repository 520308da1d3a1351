# mailbox

The logic of a desktop mail client for Gmail accounts and mail.tm temporary
addresses, written in Verus: the functions in `src/` carry contracts that
Verus proves. The exceptions are a few small wrappers marked
`#[verifier::external_body]` around outside code (rand, base64, sha2, chrono,
and std's `String::push` and `String::from_utf8_lossy`): their contracts say
what that code does and are trusted, not proved.

- `src/` — the verified library
  - `text.rs`, `sort.rs`: string helpers and a stable insertion sort, with
    their specifications
  - `mail.rs`: emails, mail.tm accounts and fresh credentials
  - `inbox.rs`: merging new mail into the inbox (newest first, fetched bodies
    kept), and the inbox's reactions to account switches, background results
    and clicks
  - `state.rs`: the shared state (accounts, mail cache, selection) and what
    the sidebar, tab bar and settings do to it
  - `gmail.rs`: Google sign-in (OAuth with PKCE), token freshness, and Gmail
    messages turned into emails
  - `encoding.rs`: base64url, percent-encoding, SHA-256 and lossy UTF-8
  - `theme.rs`: theme discovery, default choice and loading
  - `keyed.rs`: a string-keyed map with unique keys
  - `dates.rs`, `display.rs`: the text the views show
  - `assets.rs`: the embedded files by path
  - `laws.rs`: properties that span several functions
- `tests/` — tests of the library on concrete values
- `app/` — the program around it: the gpui window and views, the network
  requests, and saving to disk
