//! The table of stored rows, keyed by an id that the table assigns.
//!
//! Ids are handed out in increasing order, starting at 1, and never again
//! after a row is gone. The rows are kept in the order of their ids, so no id
//! occurs twice.
use crate::error::VaultError;
use crate::records::{copy_row, EntryRow, RowView};
use vstd::prelude::*;

verus! {

/// The values of a vector of rows, in order.
pub open spec fn row_views(rows: Seq<EntryRow>) -> Seq<RowView> {
    rows.map_values(|row: EntryRow| row@)
}

/// The ids grow strictly along `rows`.
pub open spec fn ids_ascending(rows: Seq<RowView>) -> bool {
    forall|i: int, j: int| 0 <= i < j < rows.len() ==> rows[i].id < rows[j].id
}

/// Every id of `rows` lies from 1 up to, and not including, `next_id`.
pub open spec fn ids_below(rows: Seq<RowView>, next_id: i64) -> bool {
    forall|i: int| 0 <= i < rows.len() ==> 1 <= #[trigger] rows[i].id < next_id
}

/// What a table must satisfy: ids ascending, all of them assigned already.
pub open spec fn rows_valid(rows: Seq<RowView>, next_id: i64) -> bool {
    &&& 1 <= next_id
    &&& ids_ascending(rows)
    &&& ids_below(rows, next_id)
}

/// Some row of `rows` has this id.
pub open spec fn has_id(rows: Seq<RowView>, id: i64) -> bool {
    exists|i: int| 0 <= i < rows.len() && #[trigger] rows[i].id == id
}

/// The place of a row with this id in `rows`.
pub open spec fn index_of(rows: Seq<RowView>, id: i64) -> int {
    choose|i: int| 0 <= i < rows.len() && #[trigger] rows[i].id == id
}

/// The rows as a map from id to row.
pub open spec fn as_map(rows: Seq<RowView>) -> Map<i64, RowView> {
    Map::new(|id: i64| has_id(rows, id), |id: i64| rows[index_of(rows, id)])
}

/// In a table with ascending ids, the row at place `i` is the row that the
/// map holds for its id.
pub proof fn lemma_map_at(rows: Seq<RowView>, i: int)
    requires
        ids_ascending(rows),
        0 <= i < rows.len(),
    ensures
        as_map(rows).contains_key(rows[i].id),
        as_map(rows)[rows[i].id] == rows[i],
        index_of(rows, rows[i].id) == i,
{
    let id = rows[i].id;
    let j = index_of(rows, id);
    assert(0 <= j < rows.len() && rows[j].id == id);
    if j < i {
        assert(rows[j].id < rows[i].id);
    }
    if i < j {
        assert(rows[i].id < rows[j].id);
    }
}

/// Appending a row whose id lies above all others adds it to the map.
pub proof fn lemma_map_push(rows: Seq<RowView>, row: RowView)
    requires
        ids_ascending(rows),
        forall|i: int| 0 <= i < rows.len() ==> #[trigger] rows[i].id < row.id,
    ensures
        ids_ascending(rows.push(row)),
        as_map(rows.push(row)) == as_map(rows).insert(row.id, row),
{
    let after = rows.push(row);
    assert forall|id: i64| #[trigger] has_id(after, id) <==> (id == row.id || has_id(rows, id)) by {
        if has_id(after, id) {
            let i = index_of(after, id);
            if i < rows.len() {
                assert(rows[i].id == id);
            }
        }
        if id == row.id {
            assert(after[rows.len() as int].id == id);
        }
        if has_id(rows, id) {
            let i = index_of(rows, id);
            assert(after[i].id == id);
        }
    }
    assert forall|id: i64| has_id(after, id) implies #[trigger] as_map(after)[id] == as_map(
        rows,
    ).insert(row.id, row)[id] by {
        let i = index_of(after, id);
        lemma_map_at(after, i);
        if i < rows.len() {
            lemma_map_at(rows, i);
        }
    }
    assert(as_map(after) =~= as_map(rows).insert(row.id, row));
}

/// Replacing the row at place `i` by one with the same id replaces it in the
/// map.
pub proof fn lemma_map_update(rows: Seq<RowView>, i: int, row: RowView)
    requires
        ids_ascending(rows),
        0 <= i < rows.len(),
        row.id == rows[i].id,
    ensures
        ids_ascending(rows.update(i, row)),
        as_map(rows.update(i, row)) == as_map(rows).insert(row.id, row),
{
    let after = rows.update(i, row);
    assert forall|id: i64| #[trigger] has_id(after, id) <==> has_id(rows, id) by {
        if has_id(after, id) {
            let j = index_of(after, id);
            assert(rows[j].id == id);
        }
        if has_id(rows, id) {
            let j = index_of(rows, id);
            assert(after[j].id == id);
        }
    }
    assert(has_id(rows, row.id)) by {
        assert(rows[i].id == row.id);
    }
    assert forall|id: i64| has_id(after, id) implies #[trigger] as_map(after)[id] == as_map(
        rows,
    ).insert(row.id, row)[id] by {
        let j = index_of(after, id);
        lemma_map_at(after, j);
        lemma_map_at(rows, j);
    }
    assert(as_map(after) =~= as_map(rows).insert(row.id, row));
}

/// Taking the row at place `i` out takes its id out of the map.
pub proof fn lemma_map_remove(rows: Seq<RowView>, i: int)
    requires
        ids_ascending(rows),
        0 <= i < rows.len(),
    ensures
        ids_ascending(rows.remove(i)),
        as_map(rows.remove(i)) == as_map(rows).remove(rows[i].id),
{
    let after = rows.remove(i);
    let gone = rows[i].id;
    assert forall|a: int, b: int| 0 <= a < b < after.len() implies after[a].id < after[b].id by {
        let a0 = if a < i { a } else { a + 1 };
        let b0 = if b < i { b } else { b + 1 };
        assert(after[a] == rows[a0] && after[b] == rows[b0]);
    }
    assert forall|id: i64| #[trigger] has_id(after, id) <==> (id != gone && has_id(rows, id)) by {
        if has_id(after, id) {
            let j = index_of(after, id);
            let j0 = if j < i { j } else { j + 1 };
            assert(rows[j0].id == id);
            lemma_map_at(rows, j0);
            lemma_map_at(rows, i);
        }
        if id != gone && has_id(rows, id) {
            let j = index_of(rows, id);
            let j1 = if j < i { j } else { j - 1 };
            assert(after[j1].id == id);
        }
    }
    assert forall|id: i64| has_id(after, id) implies #[trigger] as_map(after)[id] == as_map(
        rows,
    ).remove(gone)[id] by {
        let j = index_of(after, id);
        let j0 = if j < i { j } else { j + 1 };
        lemma_map_at(after, j);
        assert(after[j] == rows[j0]);
        lemma_map_at(rows, j0);
    }
    assert(as_map(after) =~= as_map(rows).remove(gone));
}

/// The stored rows with the counter that assigns their ids.
pub struct EntryTable {
    rows: Vec<EntryRow>,
    next_id: i64,
}

impl View for EntryTable {
    type V = Map<i64, RowView>;

    /// The rows by id.
    open spec fn view(&self) -> Map<i64, RowView> {
        as_map(self.rows())
    }
}

impl EntryTable {
    /// The rows in the order of their ids.
    pub closed spec fn rows(&self) -> Seq<RowView> {
        row_views(self.rows@)
    }

    /// The id that the next new row gets.
    pub closed spec fn upcoming_id(&self) -> i64 {
        self.next_id
    }

    /// The invariant of the table, which every table satisfies: see
    /// [`EntryTable::lemma_valid`] for what it says.
    #[verifier::type_invariant]
    pub closed spec fn wf(&self) -> bool {
        rows_valid(row_views(self.rows@), self.next_id)
    }

    /// What the invariant says: the ids ascend, and all of them were
    /// assigned already.
    pub proof fn lemma_valid(&self)
        requires
            self.wf(),
        ensures
            rows_valid(self.rows(), self.upcoming_id()),
    {
    }

    /// No id at or above the counter is in use.
    pub proof fn lemma_fresh(&self, id: i64)
        requires
            self.wf(),
            id >= self.upcoming_id(),
        ensures
            !self@.contains_key(id),
    {
        if has_id(self.rows(), id) {
            let i = index_of(self.rows(), id);
            assert(self.rows()[i].id < self.upcoming_id());
        }
    }

    /// An empty table whose first id is 1.
    pub fn new() -> (table: Self)
        ensures
            table.rows() == Seq::<RowView>::empty(),
            table@ == Map::<i64, RowView>::empty(),
            table.upcoming_id() == 1,
    {
        let table = EntryTable { rows: Vec::new(), next_id: 1 };
        proof {
            assert(table.rows() =~= Seq::<RowView>::empty());
            assert(table@ =~= Map::<i64, RowView>::empty());
        }
        table
    }

    /// A table over rows that were stored before, with the counter they were
    /// stored with; nothing where they break the invariant of a table.
    pub fn restore(rows: Vec<EntryRow>, next_id: i64) -> (r: Option<Self>)
        ensures
            match r {
                Some(table) => {
                    &&& rows_valid(row_views(rows@), next_id)
                    &&& table.rows() == row_views(rows@)
                    &&& table.upcoming_id() == next_id
                },
                None => !rows_valid(row_views(rows@), next_id),
            },
    {
        if next_id < 1 {
            return None;
        }
        let ghost views = row_views(rows@);
        let n: usize = rows.len();
        let mut i: usize = 0;
        while i < n
            invariant
                i <= n,
                n == rows.len(),
                views == row_views(rows@),
                1 <= next_id,
                forall|a: int| 0 <= a < i ==> 1 <= #[trigger] views[a].id < next_id,
                forall|a: int, b: int| 0 <= a < b < i ==> views[a].id < views[b].id,
                forall|a: int| 0 <= a < i && i < n ==> #[trigger] views[a].id <= views[i - 1].id,
            decreases n - i,
        {
            let id: i64 = rows[i].id;
            assert(views[i as int].id == id);
            if id < 1 || id >= next_id {
                return None;
            }
            if i > 0 {
                let before: i64 = rows[i - 1].id;
                assert(views[i - 1].id == before);
                if before >= id {
                    return None;
                }
            }
            proof {
                assert forall|a: int, b: int| 0 <= a < b < i + 1 implies views[a].id
                    < views[b].id by {
                    if b == i && a < i - 1 {
                        assert(views[a].id <= views[i - 1].id);
                    }
                }
                assert forall|a: int| 0 <= a < i + 1 implies #[trigger] views[a].id
                    <= views[i as int].id by {
                    if a < i - 1 {
                        assert(views[a].id <= views[i - 1].id);
                    }
                }
            }
            i = i + 1;
        }
        Some(EntryTable { rows, next_id })
    }

    /// The number of rows.
    pub fn len(&self) -> (n: usize)
        ensures
            n == self.rows().len(),
    {
        self.rows.len()
    }

    /// The row at place `i` in the order of the ids.
    pub(crate) fn row_at(&self, i: usize) -> (row: &EntryRow)
        requires
            i < self.rows().len(),
        ensures
            row@ == self.rows()[i as int],
    {
        &self.rows[i]
    }

    /// The id that the next new row gets.
    pub fn next_id(&self) -> (id: i64)
        ensures
            id == self.upcoming_id(),
    {
        self.next_id
    }

    /// The place of the row with this id, if there is one.
    pub fn find(&self, id: i64) -> (r: Option<usize>)
        ensures
            match r {
                Some(i) => {
                    &&& i < self.rows().len()
                    &&& self.rows()[i as int].id == id
                    &&& self@.contains_key(id)
                    &&& self@[id] == self.rows()[i as int]
                },
                None => !self@.contains_key(id),
            },
    {
        proof {
            use_type_invariant(self);
        }
        let n: usize = self.rows.len();
        let mut i: usize = 0;
        while i < n
            invariant
                i <= n,
                n == self.rows.len(),
                self.wf(),
                forall|k: int| 0 <= k < i ==> (#[trigger] self.rows()[k]).id != id,
            decreases n - i,
        {
            if self.rows[i].id == id {
                proof {
                    assert(self.rows()[i as int].id == id);
                    lemma_map_at(self.rows(), i as int);
                }
                return Some(i);
            }
            assert(self.rows()[i as int].id != id);
            i = i + 1;
        }
        None
    }

    /// The row with this id, if there is one.
    pub fn get(&self, id: i64) -> (r: Option<&EntryRow>)
        ensures
            match r {
                Some(row) => self@.contains_key(id) && self@[id] == row@,
                None => !self@.contains_key(id),
            },
    {
        match self.find(id) {
            Some(i) => Some(&self.rows[i]),
            None => None,
        }
    }

    /// Stores a new row under the next id and returns that id. The `id`
    /// field of `draft` is not read. Fails with [`VaultError::Storage`],
    /// changing nothing, exactly where no id is left to assign.
    pub fn insert(&mut self, draft: EntryRow) -> (r: Result<i64, VaultError>)
        ensures
            match r {
                Ok(id) => {
                    let row = RowView { id, ..draft@ };
                    &&& id == old(self).upcoming_id()
                    &&& id < i64::MAX
                    &&& final(self).upcoming_id() == id + 1
                    &&& final(self).rows() == old(self).rows().push(row)
                    &&& final(self)@ == old(self)@.insert(id, row)
                    &&& !old(self)@.contains_key(id)
                },
                Err(e) => {
                    &&& e == VaultError::Storage
                    &&& old(self).upcoming_id() == i64::MAX
                    &&& final(self).rows() == old(self).rows()
                    &&& final(self).upcoming_id() == old(self).upcoming_id()
                },
            },
    {
        proof {
            use_type_invariant(&*self);
        }
        if self.next_id == i64::MAX {
            return Err(VaultError::Storage);
        }
        let id: i64 = self.next_id;
        let mut row = draft;
        row.id = id;
        proof {
            old(self).lemma_fresh(id);
            lemma_map_push(self.rows(), row@);
            assert(row_views(self.rows@.push(row)) =~= self.rows().push(row@));
        }
        // The rows are taken out while they change, so that the table is
        // valid at every step.
        let mut rows: Vec<EntryRow> = Vec::new();
        core::mem::swap(&mut self.rows, &mut rows);
        rows.push(row);
        *self = EntryTable { rows, next_id: id + 1 };
        Ok(id)
    }

    /// Puts `row` in the place of the stored row with the same id. Returns
    /// whether there was one; nothing changes where there was none.
    pub fn replace(&mut self, row: EntryRow) -> (found: bool)
        ensures
            final(self).upcoming_id() == old(self).upcoming_id(),
            found == old(self)@.contains_key(row.id),
            found ==> final(self)@ == old(self)@.insert(row.id, row@),
            !found ==> final(self).rows() == old(self).rows(),
    {
        proof {
            use_type_invariant(&*self);
        }
        match self.find(row.id) {
            Some(i) => {
                proof {
                    lemma_map_update(self.rows(), i as int, row@);
                    assert(row_views(self.rows@.update(i as int, row)) =~= self.rows().update(
                        i as int,
                        row@,
                    ));
                }
                let mut rows: Vec<EntryRow> = Vec::new();
                core::mem::swap(&mut self.rows, &mut rows);
                rows[i] = row;
                *self = EntryTable { rows, next_id: self.next_id };
                true
            },
            None => false,
        }
    }

    /// Takes the row with this id out. Returns whether there was one; the
    /// id is not assigned again.
    pub fn remove(&mut self, id: i64) -> (found: bool)
        ensures
            final(self).upcoming_id() == old(self).upcoming_id(),
            found == old(self)@.contains_key(id),
            final(self)@ == old(self)@.remove(id),
            !found ==> final(self).rows() == old(self).rows(),
    {
        proof {
            use_type_invariant(&*self);
        }
        match self.find(id) {
            Some(i) => {
                proof {
                    lemma_map_remove(self.rows(), i as int);
                    assert(row_views(self.rows@.remove(i as int)) =~= self.rows().remove(i as int));
                }
                let mut rows: Vec<EntryRow> = Vec::new();
                core::mem::swap(&mut self.rows, &mut rows);
                rows.remove(i);
                *self = EntryTable { rows, next_id: self.next_id };
                true
            },
            None => {
                proof {
                    assert(self@.remove(id) =~= self@);
                }
                false
            },
        }
    }

    /// A copy of every stored row, in the order of the ids.
    pub fn snapshot(&self) -> (rows: Vec<EntryRow>)
        ensures
            row_views(rows@) == self.rows(),
    {
        let n: usize = self.rows.len();
        let mut rows: Vec<EntryRow> = Vec::new();
        let mut i: usize = 0;
        while i < n
            invariant
                i <= n,
                n == self.rows.len(),
                rows.len() == i,
                forall|k: int| 0 <= k < i ==> (#[trigger] rows@[k])@ == self.rows@[k]@,
            decreases n - i,
        {
            let copy = copy_row(&self.rows[i]);
            rows.push(copy);
            i = i + 1;
        }
        proof {
            assert(row_views(rows@) =~= self.rows());
        }
        rows
    }
}

} // verus!
