//! Mailbox: the logic of a desktop mail client for Gmail and mail.tm
//! temporary addresses, with its contracts.
pub mod text;
pub mod sort;
pub mod mail;
pub mod inbox;
pub mod theme;
pub mod encoding;
pub mod gmail;
pub mod keyed;
pub mod state;
pub mod dates;
pub mod display;
pub mod assets;
pub mod laws;
