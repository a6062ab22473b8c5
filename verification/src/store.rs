//! The user store: what the service asks of it, what it answers, and a table
//! in memory that keeps the store's contract.
//!
//! The service never touches a database. It names a [`StoreCall`], the caller
//! performs it and hands back a [`StoreReply`]. [`UserTable`] performs the same
//! calls on rows in memory; ids are assigned as a table with an integer primary
//! key assigns them, one above the largest so far, starting at 1.

use crate::user::{user_views, User, UserView};
use vstd::prelude::*;

verus! {

/// Why a store call failed.
#[derive(Clone, Copy, Debug, PartialEq, Eq, Structural)]
pub enum StoreError {
    /// The store could not be reached.
    Connection,
    /// The store was reached and refused or failed the statement.
    Statement,
}

/// A call on the store. Each one is a single statement.
#[derive(Clone, Debug, PartialEq, Eq)]
pub enum StoreCall {
    /// Append one row with this name; the store assigns the id.
    Insert { name: String },
    /// Return every row, in whatever order the store keeps them.
    SelectAll,
}

/// The mathematical value of a [`StoreCall`].
pub enum StoreCallView {
    Insert { name: Seq<char> },
    SelectAll,
}

impl View for StoreCall {
    type V = StoreCallView;

    open spec fn view(&self) -> StoreCallView {
        match self {
            StoreCall::Insert { name } => StoreCallView::Insert { name: name@ },
            StoreCall::SelectAll => StoreCallView::SelectAll,
        }
    }
}

/// The outcome of a store call.
#[derive(Debug, PartialEq, Eq)]
pub enum StoreReply {
    /// The outcome of an insert.
    Inserted(Result<(), StoreError>),
    /// The outcome of a select: the rows as the store returned them.
    Selected(Result<Vec<User>, StoreError>),
}

/// The mathematical value of a [`StoreReply`].
pub enum StoreReplyView {
    Inserted(Result<(), StoreError>),
    Selected(Result<Seq<UserView>, StoreError>),
}

impl View for StoreReply {
    type V = StoreReplyView;

    open spec fn view(&self) -> StoreReplyView {
        match self {
            StoreReply::Inserted(outcome) => StoreReplyView::Inserted(*outcome),
            StoreReply::Selected(Ok(rows)) => StoreReplyView::Selected(Ok(user_views(rows@))),
            StoreReply::Selected(Err(error)) => StoreReplyView::Selected(Err(*error)),
        }
    }
}

/// The invariant of a table: every id is at least 1 and the ids strictly
/// increase along the rows, so no id occurs twice.
pub open spec fn ids_ascend(rows: Seq<UserView>) -> bool {
    &&& forall|i: int| 0 <= i < rows.len() ==> 1 <= (#[trigger] rows[i]).id
    &&& forall|i: int, j: int| 0 <= i < j < rows.len() ==> rows[i].id < rows[j].id
}

/// Whether some row has this id.
pub open spec fn has_id(rows: Seq<UserView>, id: int) -> bool {
    exists|i: int| 0 <= i < rows.len() && (#[trigger] rows[i]).id == id
}

/// The id that the next insert assigns: 1 for an empty table, else one above
/// the id of the last row.
pub open spec fn next_id(rows: Seq<UserView>) -> int {
    if rows.len() == 0 {
        1
    } else {
        rows.last().id + 1
    }
}

/// Whether the ids are used up, so that an insert fails.
pub open spec fn is_full(rows: Seq<UserView>) -> bool {
    next_id(rows) > i64::MAX
}

/// The rows after a successful insert of `name`.
pub open spec fn inserted(rows: Seq<UserView>, name: Seq<char>) -> Seq<UserView> {
    rows.push(UserView { id: next_id(rows) as i64, name })
}

/// The rows after all of `names` were inserted, one statement each, in the
/// order given.
pub open spec fn inserted_all(rows: Seq<UserView>, names: Seq<Seq<char>>) -> Seq<UserView>
    decreases names.len(),
{
    if names.len() == 0 {
        rows
    } else {
        inserted(inserted_all(rows, names.drop_last()), names.last())
    }
}

/// What a call does to the rows of a table, and the reply it gets.
pub open spec fn executed(rows: Seq<UserView>, call: StoreCallView) -> (
    Seq<UserView>,
    StoreReplyView,
) {
    match call {
        StoreCallView::Insert { name } => if is_full(rows) {
            (rows, StoreReplyView::Inserted(Err(StoreError::Statement)))
        } else {
            (inserted(rows, name), StoreReplyView::Inserted(Ok(())))
        },
        StoreCallView::SelectAll => (rows, StoreReplyView::Selected(Ok(rows))),
    }
}

/// In a table that keeps its invariant no two rows share an id.
pub proof fn lemma_ids_are_unique(rows: Seq<UserView>, i: int, j: int)
    requires
        ids_ascend(rows),
        0 <= i < rows.len(),
        0 <= j < rows.len(),
        rows[i].id == rows[j].id,
    ensures
        i == j,
{
    if i < j {
        assert(rows[i].id < rows[j].id);
    } else if j < i {
        assert(rows[j].id < rows[i].id);
    }
}

/// A successful insert adds exactly one row, at the end: the rows before are
/// untouched, the new row carries the given name, and its id is one that no
/// row had before.
pub proof fn lemma_insert_adds_one_row(rows: Seq<UserView>, name: Seq<char>)
    requires
        ids_ascend(rows),
        !is_full(rows),
    ensures
        inserted(rows, name).len() == rows.len() + 1,
        inserted(rows, name).drop_last() == rows,
        inserted(rows, name).last() == (UserView { id: next_id(rows) as i64, name }),
        !has_id(rows, next_id(rows)),
        ids_ascend(inserted(rows, name)),
        !is_full(inserted(rows, name)) <==> next_id(rows) < i64::MAX,
{
    let after = inserted(rows, name);
    assert(after.drop_last() =~= rows);
    if rows.len() > 0 {
        assert(rows.last().id >= 1);
    }
    assert forall|i: int| 0 <= i < rows.len() implies (#[trigger] rows[i]).id < next_id(rows) by {
        if i < rows.len() - 1 {
            assert(rows[i].id < rows[rows.len() - 1].id);
        }
    }
    assert forall|i: int, j: int| 0 <= i < j < after.len() implies after[i].id < after[j].id by {
        if j < rows.len() {
            assert(rows[i].id < rows[j].id);
        } else {
            assert(after[i] == rows[i]);
        }
    }
}

/// Inserting several names, one statement each, adds exactly one row for
/// each name: the rows before are untouched, and the new rows carry the names
/// in the order of the statements, with consecutive ids that no row had
/// before. In particular the new ids differ from each other.
pub proof fn lemma_inserts_add_one_row_each(rows: Seq<UserView>, names: Seq<Seq<char>>)
    requires
        ids_ascend(rows),
        next_id(rows) + names.len() <= i64::MAX + 1,
    ensures
        inserted_all(rows, names).len() == rows.len() + names.len(),
        inserted_all(rows, names).take(rows.len() as int) == rows,
        forall|i: int|
            rows.len() <= i < rows.len() + names.len() ==> #[trigger] inserted_all(rows, names)[i]
                == (UserView {
                id: (next_id(rows) + (i - rows.len())) as i64,
                name: names[i - rows.len()],
            }),
        forall|id: int| next_id(rows) <= id ==> !#[trigger] has_id(rows, id),
        ids_ascend(inserted_all(rows, names)),
        next_id(inserted_all(rows, names)) == next_id(rows) + names.len(),
    decreases names.len(),
{
    let after = inserted_all(rows, names);
    if names.len() == 0 {
        assert(after.take(rows.len() as int) =~= rows);
    } else {
        let earlier = names.drop_last();
        let before = inserted_all(rows, earlier);
        lemma_inserts_add_one_row_each(rows, earlier);
        lemma_insert_adds_one_row(before, names.last());
        assert(after == inserted(before, names.last()));
        assert(after.drop_last() == before);
        assert(after.take(rows.len() as int) =~= before.take(rows.len() as int));
        assert forall|i: int| rows.len() <= i < rows.len() + names.len() implies #[trigger] after[i]
            == (UserView {
            id: (next_id(rows) + (i - rows.len())) as i64,
            name: names[i - rows.len()],
        }) by {
            if i < rows.len() + earlier.len() {
                assert(after[i] == before[i]);
                assert(earlier[i - rows.len()] == names[i - rows.len()]);
            }
        }
    }
    assert forall|id: int| next_id(rows) <= id implies !#[trigger] has_id(rows, id) by {
        assert forall|i: int| 0 <= i < rows.len() implies (#[trigger] rows[i]).id < next_id(
            rows,
        ) by {
            if i < rows.len() - 1 {
                assert(rows[i].id < rows[rows.len() - 1].id);
            }
        }
    }
}

/// The order in which statements arrive does not change which ids are handed
/// out, nor which names are stored: two orders of the same names give tables
/// with the same ids at the same places and the same names overall.
pub proof fn lemma_insert_order_is_immaterial(
    rows: Seq<UserView>,
    first: Seq<Seq<char>>,
    second: Seq<Seq<char>>,
)
    requires
        ids_ascend(rows),
        first.to_multiset() == second.to_multiset(),
        next_id(rows) + first.len() <= i64::MAX + 1,
    ensures
        inserted_all(rows, first).len() == inserted_all(rows, second).len(),
        forall|i: int|
            0 <= i < inserted_all(rows, first).len() ==> (#[trigger] inserted_all(rows, first)[i]).id
                == inserted_all(rows, second)[i].id,
        inserted_all(rows, first).skip(rows.len() as int).map_values(|row: UserView| row.name)
            == first,
        inserted_all(rows, second).skip(rows.len() as int).map_values(|row: UserView| row.name)
            == second,
{
    first.to_multiset_ensures();
    second.to_multiset_ensures();
    assert(first.len() == second.len());
    lemma_inserts_add_one_row_each(rows, first);
    lemma_inserts_add_one_row_each(rows, second);
    let one = inserted_all(rows, first);
    let two = inserted_all(rows, second);
    assert forall|i: int| 0 <= i < one.len() implies (#[trigger] one[i]).id == two[i].id by {
        if i < rows.len() {
            assert(one.take(rows.len() as int)[i] == two.take(rows.len() as int)[i]);
        }
    }
    assert(one.skip(rows.len() as int).map_values(|row: UserView| row.name) =~= first);
    assert(two.skip(rows.len() as int).map_values(|row: UserView| row.name) =~= second);
}

/// A table of users in memory. Its value is the sequence of its rows in the
/// order of insertion, which is the order of their ids.
pub struct UserTable {
    rows: Vec<User>,
}

impl View for UserTable {
    type V = Seq<UserView>;

    closed spec fn view(&self) -> Seq<UserView> {
        user_views(self.rows@)
    }
}

impl UserTable {
    /// The invariant that every table keeps: its rows satisfy [`ids_ascend`].
    #[verifier::type_invariant]
    pub closed spec fn rows_ascend(self) -> bool {
        ids_ascend(user_views(self.rows@))
    }

    /// What the invariant says of the table's value.
    pub proof fn lemma_rows_ascend(self)
        requires
            self.rows_ascend(),
        ensures
            ids_ascend(self@),
    {
    }

    /// An empty table.
    pub fn new() -> (table: UserTable)
        ensures
            table@ == Seq::<UserView>::empty(),
    {
        UserTable { rows: Vec::new() }
    }

    /// A table that holds the given rows, if they keep the invariant of a
    /// table; `None` if an id is below 1 or the ids do not strictly increase.
    pub fn from_rows(rows: Vec<User>) -> (table: Option<UserTable>)
        ensures
            match table {
                Some(table) => ids_ascend(user_views(rows@)) && table@ == user_views(rows@),
                None => !ids_ascend(user_views(rows@)),
            },
    {
        let ghost views = user_views(rows@);
        let mut i: usize = 0;
        while i < rows.len()
            invariant
                i <= rows.len(),
                views == user_views(rows@),
                ids_ascend(views.take(i as int)),
            decreases rows.len() - i,
        {
            let below = if i == 0 {
                0
            } else {
                rows[i - 1].id
            };
            if rows[i].id <= below {
                proof {
                    if i == 0 {
                        assert(views[0].id < 1);
                    } else {
                        assert(views[i as int - 1].id >= views[i as int].id);
                    }
                }
                return None;
            }
            proof {
                let next = views.take(i as int + 1);
                let seen = views.take(i as int);
                assert forall|k: int| 0 <= k < next.len() implies 1 <= (#[trigger] next[k]).id by {
                    if k < i {
                        assert(seen[k] == next[k]);
                    } else if i > 0 {
                        assert(seen[i as int - 1].id >= 1);
                    }
                }
                assert forall|j: int, k: int| 0 <= j < k < next.len() implies next[j].id
                    < next[k].id by {
                    if k < i {
                        assert(seen[j] == next[j] && seen[k] == next[k]);
                    } else if j < i - 1 {
                        assert(seen[j].id < seen[i as int - 1].id);
                    }
                }
            }
            i += 1;
        }
        assert(views.take(i as int) =~= views);
        Some(UserTable { rows })
    }

    /// The number of rows.
    pub fn len(&self) -> (count: usize)
        ensures
            count == self@.len(),
    {
        self.rows.len()
    }

    /// Appends one row with the given name and a fresh id.
    ///
    /// Fails, and leaves the table as it was, only where the last id is the
    /// largest that an id can be.
    pub fn insert(&mut self, name: &str) -> (outcome: Result<(), StoreError>)
        ensures
            ids_ascend(old(self)@),
            ids_ascend(final(self)@),
            if is_full(old(self)@) {
                &&& outcome == Err::<(), StoreError>(StoreError::Statement)
                &&& final(self)@ == old(self)@
            } else {
                &&& outcome == Ok::<(), StoreError>(())
                &&& final(self)@ == inserted(old(self)@, name@)
            },
    {
        proof {
            use_type_invariant(&*self);
        }
        let count = self.rows.len();
        let last: i64 = if count == 0 {
            0
        } else {
            self.rows[count - 1].id
        };
        if last == i64::MAX {
            return Err(StoreError::Statement);
        }
        let ghost before = user_views(self.rows@);
        assert(last >= 0) by {
            if count > 0 {
                assert(before[count as int - 1].id >= 1);
            }
        }
        let id: i64 = last + 1;
        let mut taken = UserTable { rows: Vec::new() };
        core::mem::swap(self, &mut taken);
        let mut rows = taken.rows;
        rows.push(User { id, name: name.to_owned() });
        proof {
            let after = user_views(rows@);
            assert(after =~= inserted(before, name@));
            assert forall|j: int, k: int| 0 <= j < k < after.len() implies after[j].id
                < after[k].id by {
                if k < count {
                    assert(before[j].id < before[k].id);
                } else if j < count - 1 {
                    assert(before[j].id < before[count as int - 1].id);
                }
            }
        }
        *self = UserTable { rows };
        Ok(())
    }

    /// Returns a copy of every row, in the order of the ids. It never fails.
    pub fn select_all(&self) -> (outcome: Result<Vec<User>, StoreError>)
        ensures
            outcome matches Ok(rows) && user_views(rows@) == self@,
    {
        let mut rows: Vec<User> = Vec::new();
        let mut i: usize = 0;
        while i < self.rows.len()
            invariant
                i <= self.rows.len(),
                rows.len() == i,
                user_views(rows@) == user_views(self.rows@).take(i as int),
            decreases self.rows.len() - i,
        {
            let ghost copied = rows@;
            let row = &self.rows[i];
            rows.push(User { id: row.id, name: row.name.clone() });
            proof {
                let all = user_views(self.rows@);
                assert forall|k: int| 0 <= k < i + 1 implies user_views(rows@)[k] == all[k] by {
                    if k < i {
                        assert(user_views(copied)[k] == all.take(i as int)[k]);
                    }
                }
                assert(user_views(rows@) =~= all.take(i as int + 1));
            }
            i += 1;
        }
        assert(user_views(self.rows@).take(i as int) =~= user_views(self.rows@));
        Ok(rows)
    }

    /// Performs one store call on the table.
    pub fn execute(&mut self, call: &StoreCall) -> (reply: StoreReply)
        ensures
            ids_ascend(old(self)@),
            ids_ascend(final(self)@),
            final(self)@ == executed(old(self)@, call@).0,
            reply@ == executed(old(self)@, call@).1,
    {
        proof {
            use_type_invariant(&*self);
        }
        match call {
            StoreCall::Insert { name } => {
                StoreReply::Inserted(self.insert(name.as_str()))
            },
            StoreCall::SelectAll => StoreReply::Selected(self.select_all()),
        }
    }
}

} // verus!
