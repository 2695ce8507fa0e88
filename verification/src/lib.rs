//! A natural-language due-date parser with a small todo-list core built on it.
//!
//! The heart of the crate is [`parser::parse_due_date`]: it turns a free-text
//! phrase such as "tomorrow", "next friday 15:30", "in 2 days 3 hours" or
//! "03-15" into a normalized calendar timestamp string, anchored at a
//! caller-supplied reference instant, and rejects results that lie in the
//! past. All calendar arithmetic is done on the crate's own proleptic
//! Gregorian model, so every step of the computation carries a proved
//! contract.

pub mod absolute;
pub mod app;
pub mod calendar;
pub mod duration;
pub mod errors;
pub mod guard;
pub mod laws;
pub mod parser;
pub mod text;
pub mod todo;
pub mod weekday;
