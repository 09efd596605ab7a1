use vstd::prelude::*;

verus! {

/// One task record as the remote endpoint reports it: an owner identifier,
/// an identifier unique within the fetched set, a title and a completion flag.
/// The fetched collection is held immutably; every filter pass derives a new
/// collection from it.
#[derive(Debug, PartialEq, Eq)]
pub struct Todo {
    pub user_id: i64,
    pub id: i64,
    pub title: String,
    pub completed: bool,
}

impl Clone for Todo {
    /// Cloning a record keeps every field.
    fn clone(&self) -> (r: Self)
        ensures
            r == *self,
    {
        Todo {
            user_id: self.user_id,
            id: self.id,
            title: self.title.clone(),
            completed: self.completed,
        }
    }
}

} // verus!
