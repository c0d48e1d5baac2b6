//! The in-memory, insertion-ordered collection of todo records.
use vstd::prelude::*;

use crate::ids::IdGenerator;
use crate::todo::{create_todo, update_todo, updated, Todo, TodoView};

verus! {

/// Why an operation on a record could not be carried out.
#[derive(PartialEq, Eq, Structural, Debug, Clone, Copy)]
pub enum StoreError {
    /// No record in the store carries this id.
    NotFound(u64),
}

/// The mathematical content of a store: its records in storage order, and
/// the id that the next created record will get.
pub ghost struct StoreView {
    pub records: Seq<TodoView>,
    pub next_id: nat,
}

/// Some record in `records` carries `id`.
pub open spec fn has_id(records: Seq<TodoView>, id: nat) -> bool {
    exists|i: int| 0 <= i < records.len() && #[trigger] records[i].id == id
}

/// The ids strictly increase along the sequence; in particular no two
/// records share an id.
pub open spec fn ids_increasing(records: Seq<TodoView>) -> bool {
    forall|i: int, j: int|
        0 <= i < j < records.len() ==> #[trigger] records[i].id < #[trigger] records[j].id
}

/// The position of the record that carries `id` (meaningful when `has_id`).
pub open spec fn index_of(records: Seq<TodoView>, id: nat) -> int {
    choose|i: int| 0 <= i < records.len() && #[trigger] records[i].id == id
}

impl StoreView {
    /// Ids increase in storage order, and every id ever issued lies below
    /// `next_id`.
    pub open spec fn wf(self) -> bool {
        &&& self.next_id >= 1
        &&& ids_increasing(self.records)
        &&& forall|i: int| 0 <= i < self.records.len() ==> #[trigger] self.records[i].id < self.next_id
    }

    /// `after` and `r` are what `create(text)` makes of `self`.
    pub open spec fn create_post(self, text: Seq<char>, after: StoreView, r: TodoView) -> bool {
        &&& r == TodoView { id: self.next_id, text, completed: false }
        &&& after.records == self.records.push(r)
        &&& after.next_id == self.next_id + 1
    }

    /// `after` and `r` are what `update(id, new_text, new_completed)` makes
    /// of `self`.
    pub open spec fn update_post(
        self,
        id: nat,
        new_text: Option<Seq<char>>,
        new_completed: Option<bool>,
        after: StoreView,
        r: Result<TodoView, StoreError>,
    ) -> bool {
        &&& after.next_id == self.next_id
        &&& if has_id(self.records, id) {
            let i = index_of(self.records, id);
            let t = updated(self.records[i], new_text, new_completed);
            &&& r == Ok::<TodoView, StoreError>(t)
            &&& after.records == self.records.update(i, t)
        } else {
            &&& r == Err::<TodoView, StoreError>(StoreError::NotFound(id as u64))
            &&& after.records == self.records
        }
    }

    /// `after` and `r` are what `delete(id)` makes of `self`.
    pub open spec fn delete_post(
        self,
        id: nat,
        after: StoreView,
        r: Result<(), StoreError>,
    ) -> bool {
        &&& after.next_id == self.next_id
        &&& if has_id(self.records, id) {
            &&& r == Ok::<(), StoreError>(())
            &&& after.records == self.records.remove(index_of(self.records, id))
        } else {
            &&& r == Err::<(), StoreError>(StoreError::NotFound(id as u64))
            &&& after.records == self.records
        }
    }
}

/// In a sequence without repeated ids, the record at `i` is the one that
/// `index_of` picks for its id.
pub proof fn lemma_index_of_unique(records: Seq<TodoView>, id: nat, i: int)
    requires
        ids_increasing(records),
        0 <= i < records.len(),
        records[i].id == id,
    ensures
        has_id(records, id),
        index_of(records, id) == i,
{
    let k = index_of(records, id);
    assert(0 <= k < records.len() && records[k].id == id);
    if k < i {
        assert(records[k].id < records[i].id);
    } else if i < k {
        assert(records[i].id < records[k].id);
    }
}

/// The records of one session, with the generator of their ids.
pub struct TodoStore {
    todos: Vec<Todo>,
    ids: IdGenerator,
}

impl View for TodoStore {
    type V = StoreView;

    closed spec fn view(&self) -> StoreView {
        StoreView { records: self.todos@.map_values(|t: Todo| t@), next_id: self.ids.peek() }
    }
}

impl TodoStore {
    pub closed spec fn wf(&self) -> bool {
        self.ids.wf() && self@.wf()
    }

    /// An empty store whose first record will get id 1.
    pub fn new() -> (r: TodoStore)
        ensures
            r.wf(),
            r@.records == Seq::<TodoView>::empty(),
            r@.next_id == 1,
    {
        let r = TodoStore { todos: Vec::new(), ids: IdGenerator::new() };
        assert(r@.records =~= Seq::<TodoView>::empty());
        r
    }

    /// The number of records held.
    pub fn len(&self) -> (r: usize)
        ensures
            r == self@.records.len(),
    {
        self.todos.len()
    }

    /// The id that the next created record will get.
    pub fn next_id(&self) -> (r: u64)
        ensures
            r as nat == self@.next_id,
    {
        self.ids.upcoming()
    }

    /// All records, in storage order.
    pub fn list(&self) -> (r: &Vec<Todo>)
        ensures
            r@.map_values(|t: Todo| t@) == self@.records,
    {
        &self.todos
    }

    /// The position of the first record that carries `id`, or `None` where
    /// no record does.
    pub fn find_index_by_id(&self, id: u64) -> (r: Option<usize>)
        ensures
            match r {
                Some(i) => {
                    &&& i < self@.records.len()
                    &&& self@.records[i as int].id == id
                    &&& forall|j: int| 0 <= j < i ==> #[trigger] self@.records[j].id != id
                },
                None => !has_id(self@.records, id as nat),
            },
    {
        let mut i: usize = 0;
        while i < self.todos.len()
            invariant
                i <= self.todos@.len(),
                forall|j: int| 0 <= j < i ==> #[trigger] self@.records[j].id != id,
            decreases self.todos@.len() - i,
        {
            if self.todos[i].id == id {
                return Some(i);
            }
            i = i + 1;
        }
        None
    }

    /// Appends a new record with a fresh id, the given text, and
    /// `completed` false, and returns it.
    pub fn create(&mut self, text: String) -> (r: Todo)
        requires
            old(self).wf(),
            old(self)@.next_id < u64::MAX,
        ensures
            final(self).wf(),
            old(self)@.create_post(text@, final(self)@, r@),
    {
        let t = create_todo(&mut self.ids, text);
        let r = t.clone();
        self.todos.push(t);
        assert(self@.records =~= old(self)@.records.push(r@));
        r
    }

    /// Replaces the text and the flag of the record that carries `id` by the
    /// values supplied, and returns the record as it now stands.
    pub fn update(
        &mut self,
        id: u64,
        new_text: Option<String>,
        new_completed: Option<bool>,
    ) -> (r: Result<Todo, StoreError>)
        requires
            old(self).wf(),
        ensures
            final(self).wf(),
            old(self)@.update_post(
                id as nat,
                match new_text {
                    Some(s) => Some(s@),
                    None => None,
                },
                new_completed,
                final(self)@,
                match r {
                    Ok(t) => Ok(t@),
                    Err(e) => Err(e),
                },
            ),
    {
        match self.find_index_by_id(id) {
            None => Err(StoreError::NotFound(id)),
            Some(i) => {
                proof {
                    lemma_index_of_unique(self@.records, id as nat, i as int);
                }
                let t = update_todo(&self.todos[i], new_text, new_completed);
                let r = t.clone();
                self.todos[i] = t;
                assert(self@.records =~= old(self)@.records.update(i as int, r@));
                Ok(r)
            },
        }
    }

    /// Removes the record that carries `id`, keeping the others in order.
    pub fn delete(&mut self, id: u64) -> (r: Result<(), StoreError>)
        requires
            old(self).wf(),
        ensures
            final(self).wf(),
            old(self)@.delete_post(id as nat, final(self)@, r),
    {
        match self.find_index_by_id(id) {
            None => Err(StoreError::NotFound(id)),
            Some(i) => {
                proof {
                    lemma_index_of_unique(self@.records, id as nat, i as int);
                }
                self.todos.remove(i);
                assert(self@.records =~= old(self)@.records.remove(i as int));
                Ok(())
            },
        }
    }
}

} // verus!
