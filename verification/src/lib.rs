//! Core logic of a Telegram bot that sends canteen menus and HTWK grade updates:
//! Telegram MarkdownV2 escaping, German date lines, the registration book-keeping
//! behind the scheduler's tasks, the database rows that mirror it, the broadcast of
//! meal plan changes, and the grade notifications.

pub mod broadcast;
mod clock;
pub mod date;
pub mod db;
pub mod grades;
pub mod markdown;
pub mod registrations;
pub mod text;
pub mod types;
