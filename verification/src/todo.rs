//! A stored todo record.

use vstd::prelude::*;

verus! {

/// One todo entry: a description, its completion flag, the creation date
/// and an optional normalized due-date string.
#[derive(Debug, Clone, PartialEq, Eq)]
pub struct Todo {
    pub id: u32,
    pub description: String,
    pub done: bool,
    pub created_at: String,
    pub due_date: Option<String>,
}

} // verus!
