//! The todo item: one task record.
use vstd::prelude::*;
use crate::timestamp::Timestamp;

verus! {

/// One task. It holds no id: the store assigns ids.
#[derive(Clone, Debug, PartialEq, Eq)]
pub struct TodoItem {
    pub title: String,
    pub description: String,
    pub due_date: Timestamp,
    pub created_at: Timestamp,
    pub completed: bool,
}

impl TodoItem {
    /// A copy equal to `self` in every field.
    pub fn duplicate(&self) -> (r: TodoItem)
        ensures
            r == *self,
    {
        TodoItem {
            title: self.title.clone(),
            description: self.description.clone(),
            due_date: self.due_date,
            created_at: self.created_at,
            completed: self.completed,
        }
    }

    /// The same item with its completion flag set to `completed`.
    pub fn with_completed(self, completed: bool) -> (r: TodoItem)
        ensures
            r == (TodoItem { completed, ..self }),
    {
        TodoItem { completed, ..self }
    }
}

} // verus!
