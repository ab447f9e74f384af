//! The record model: a todo item used as the payload the driver stores.

use vstd::prelude::*;

verus! {

/// Mathematical view of a stored record: the id, the title's characters,
/// and the completion flag.
pub ghost struct TodoView {
    pub id: u64,
    pub title: Seq<char>,
    pub completed: bool,
}

/// A todo item: the domain entity persisted by the storage driver.
/// It is a plain data holder; all mutation happens in the caller, which
/// re-inserts the whole record.
#[derive(Debug, Clone, PartialEq)]
pub struct Todo {
    pub id: u64,
    pub title: String,
    pub completed: bool,
}

impl View for Todo {
    type V = TodoView;

    open spec fn view(&self) -> TodoView {
        TodoView { id: self.id, title: self.title@, completed: self.completed }
    }
}

impl Todo {
    /// Builds a record with the given id and title; a fresh record is not
    /// yet completed.
    pub fn new(id: u64, title: String) -> (r: Self)
        ensures
            r@ == (TodoView { id, title: title@, completed: false }),
    {
        Self { id, title, completed: false }
    }
}

} // verus!
