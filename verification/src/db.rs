//! The durable store: a SQLite database reached through `rusqlite`.
//!
//! The database contents are modelled by the uninterpreted function
//! [`store_of`]: every trusted wrapper around a `rusqlite` call states, over
//! that model, what the SQL it runs does to the stored board.  The schema is
//! three tables: `kb_column (id, name, selected_task)`, `task (id, title,
//! description, column_id, sort_order)` — both with `id` as primary key, tasks
//! ordered within a column by `sort_order` — and `app_state (key, value)`
//! holding the active-column index under the key `selected_column`.  Ranks
//! are always assigned one past a column's current maximum, so within a
//! column they stay distinct and rank order is a total order on its tasks.

use vstd::prelude::*;

use crate::app::Column;
use crate::app::Task;
use crate::model::MAX_STORE_ROWS;
use crate::model::StoreModel;
use crate::model::StoreTask;
use crate::model::has_column_at;
use crate::model::has_task_at;
use crate::model::load_column;
use crate::model::opt_index;
use crate::model::store_add_task;
use crate::model::store_relocate_task;
use crate::model::store_remove_task;
use crate::model::store_set_active;
use crate::model::store_set_col_selected;
use crate::model::store_swap_tasks;
use crate::model::store_update_text;
use crate::model::store_wf;
use crate::model::stored_cursor;

verus! {

#[verifier::external_type_specification]
#[verifier::external_body]
pub struct ExConnection(rusqlite::Connection);

#[verifier::external_type_specification]
#[verifier::external_body]
pub struct ExRusqliteError(rusqlite::Error);

/// The board that the database behind a connection currently holds.
pub uninterp spec fn store_of(c: rusqlite::Connection) -> StoreModel;

/// The executable tasks `v` carry exactly the stored tasks `ms`, in order.
pub open spec fn tasks_match(v: Seq<Task>, ms: Seq<StoreTask>) -> bool {
    &&& v.len() == ms.len()
    &&& forall|p: int| 0 <= p < v.len() ==> #[trigger] v[p]@ == ms[p]
}

/// A failure reported by the store layer.
#[derive(Debug)]
pub enum StoreError {
    /// The underlying SQLite call failed.
    Sql(rusqlite::Error),
    /// The store holds no column with the requested identity.
    MissingColumn,
    /// A persisted value cannot be represented in memory.
    BadStoredValue,
    /// The store holds no columns at all, so no board can be built from it.
    EmptyBoard,
}

/// Wraps the store connection so the board's persistence calls and their
/// contracts live in one place.
pub struct DBConn {
    /// The underlying connection; public so a caller that owns the board can
    /// take the connection back, for instance to reopen the same store.
    pub conn: rusqlite::Connection,
}

impl View for DBConn {
    type V = StoreModel;

    open spec fn view(&self) -> StoreModel {
        store_of(self.conn)
    }
}

impl DBConn {
    /// Wraps an open connection.
    pub fn new(conn: rusqlite::Connection) -> (c: DBConn)
        ensures
            c@ == store_of(conn),
    {
        DBConn { conn }
    }

    /// Relies on rusqlite `Connection::prepare` / `Statement::query_map`: one
    /// row per column of `kb_column` in id order, each carrying the column's
    /// id, name and persisted selection value.  Uniqueness of the ids and the
    /// row-count bound rest on `id` being the primary key of each table and
    /// row ids being distinct positive 64-bit integers.
    #[verifier::external_body]
    fn get_column_rows(&self) -> (r: Result<Vec<(i64, String, i64)>, rusqlite::Error>)
        ensures
            match r {
                Ok(v) => {
                    &&& v@.len() == store_of(self.conn).columns.len()
                    &&& forall|i: int|
                        0 <= i < v@.len() ==> {
                            &&& (#[trigger] v@[i]).0 as int == store_of(self.conn).columns[i].id
                            &&& v@[i].1@ == store_of(self.conn).columns[i].name
                            &&& v@[i].2 as int == store_of(self.conn).columns[i].selected
                        }
                    &&& store_wf(store_of(self.conn))
                },
                Err(_) => true,
            },
    {
        let mut stmt = self.conn.prepare(
            "select id, name, selected_task from kb_column order by id",
        )?;
        let rows = stmt.query_map((), |row| Ok((row.get(0)?, row.get(1)?, row.get(2)?)))?;
        rows.collect()
    }

    /// Relies on rusqlite `Connection::prepare` / `Statement::query_map`: the
    /// task rows whose `column_id` is the given column, in `sort_order`
    /// (that is, rank) order.
    #[verifier::external_body]
    pub fn get_tasks_by_column(&self, column_id: i64) -> (r: Result<Vec<Task>, rusqlite::Error>)
        ensures
            match r {
                Ok(v) => forall|ci: int|
                    has_column_at(store_of(self.conn), ci, column_id as int) ==> tasks_match(
                        v@,
                        store_of(self.conn).columns[ci].tasks,
                    ),
                Err(_) => true,
            },
    {
        let mut stmt = self.conn.prepare(
            "select task.id, title, description from task where column_id = ?1 order by sort_order",
        )?;
        let rows = stmt.query_map(
            [column_id],
            |row| Ok(Task { id: row.get(0)?, title: row.get(1)?, description: row.get(2)? }),
        )?;
        rows.collect()
    }

    /// Relies on rusqlite `Connection::execute` / `last_insert_rowid`: inserts
    /// one task row into the given column with a rank one past the column's
    /// current maximum, so the new task sorts last; the store assigns it a
    /// fresh rowid that no existing task row carries.
    #[verifier::external_body]
    pub fn create_new_task(
        &mut self,
        title: String,
        description: String,
        column_id: i64,
    ) -> (r: Result<Task, rusqlite::Error>)
        requires
            exists|ci: int| has_column_at(store_of(old(self).conn), ci, column_id as int),
        ensures
            match r {
                Ok(t) => {
                    &&& t.title@ == title@
                    &&& t.description@ == description@
                    &&& forall|ci: int, p: int|
                        #![trigger store_of(old(self).conn).columns[ci].tasks[p]]
                        0 <= ci < store_of(old(self).conn).columns.len() && 0 <= p < store_of(
                            old(self).conn,
                        ).columns[ci].tasks.len() ==> store_of(old(self).conn).columns[ci].tasks[p].id
                            != t.id as int
                    &&& forall|ci: int|
                        has_column_at(store_of(old(self).conn), ci, column_id as int) ==> store_of(
                            final(self).conn,
                        ) == store_add_task(store_of(old(self).conn), ci, t@)
                    &&& store_wf(store_of(final(self).conn))
                },
                Err(_) => store_of(final(self).conn) == store_of(old(self).conn),
            },
    {
        self.conn.execute(
            "insert into task(title, description, column_id, sort_order)
             values (?1, ?2, ?3,
               (coalesce(1 +
                 (select sort_order from task
                  where column_id = ?3 order by sort_order desc limit 1),
               0)))",
            (&title, &description, column_id),
        )?;
        let id = self.conn.last_insert_rowid();
        Ok(Task { id, title, description })
    }

    /// Relies on rusqlite `Connection::execute`: deletes the task row with
    /// the given id; every other row keeps its place.
    #[verifier::external_body]
    pub fn delete_task(&mut self, task_id: i64) -> (r: Result<(), rusqlite::Error>)
        requires
            exists|ci: int, p: int| has_task_at(store_of(old(self).conn), ci, p, task_id as int),
        ensures
            match r {
                Ok(_) => {
                    &&& forall|ci: int, p: int|
                        has_task_at(store_of(old(self).conn), ci, p, task_id as int)
                            ==> store_of(final(self).conn) == store_remove_task(
                            store_of(old(self).conn),
                            ci,
                            p,
                        )
                    &&& store_wf(store_of(final(self).conn))
                },
                Err(_) => store_of(final(self).conn) == store_of(old(self).conn),
            },
    {
        self.conn.execute("delete from task where id = ?1", [task_id])?;
        Ok(())
    }

    /// Relies on rusqlite `Connection::execute`: overwrites the title and
    /// description of the task row keyed by the task's id; identity, column
    /// and rank are untouched.
    #[verifier::external_body]
    pub fn update_task_text(&mut self, task: &Task) -> (r: Result<(), rusqlite::Error>)
        requires
            exists|ci: int, p: int| has_task_at(store_of(old(self).conn), ci, p, task.id as int),
        ensures
            match r {
                Ok(_) => {
                    &&& forall|ci: int, p: int|
                        has_task_at(store_of(old(self).conn), ci, p, task.id as int)
                            ==> store_of(final(self).conn) == store_update_text(
                            store_of(old(self).conn),
                            ci,
                            p,
                            task.title@,
                            task.description@,
                        )
                    &&& store_wf(store_of(final(self).conn))
                },
                Err(_) => store_of(final(self).conn) == store_of(old(self).conn),
            },
    {
        self.conn.execute(
            "update task set title = ?2, description = ?3 where id = ?1",
            (&task.id, &task.title, &task.description),
        )?;
        Ok(())
    }

    /// Relies on rusqlite `Connection::execute`: re-keys the task row to the
    /// target column with a rank one past that column's current maximum, so
    /// the task leaves its source position and sorts last at the destination.
    #[verifier::external_body]
    fn relocate_task(&mut self, task_id: i64, target_column_id: i64) -> (r: Result<
        (),
        rusqlite::Error,
    >)
        requires
            exists|ci: int, p: int| has_task_at(store_of(old(self).conn), ci, p, task_id as int),
            exists|di: int| has_column_at(store_of(old(self).conn), di, target_column_id as int),
        ensures
            match r {
                Ok(_) => {
                    &&& forall|ci: int, p: int, di: int|
                        has_task_at(store_of(old(self).conn), ci, p, task_id as int)
                            && has_column_at(store_of(old(self).conn), di, target_column_id as int)
                            ==> store_of(final(self).conn) == store_relocate_task(
                            store_of(old(self).conn),
                            ci,
                            p,
                            di,
                        )
                    &&& store_wf(store_of(final(self).conn))
                },
                Err(_) => store_of(final(self).conn) == store_of(old(self).conn),
            },
    {
        self.conn.execute(
            "update task
             set
               column_id = ?2,
               sort_order = coalesce(1 +
                 (select sort_order from task
                  where column_id = ?2 order by sort_order desc limit 1),
                  0)
             where task.id = ?1",
            (task_id, target_column_id),
        )?;
        Ok(())
    }

    /// Relies on rusqlite `Connection::transaction`: inside one transaction,
    /// the two task rows exchange their rank values through a temporary
    /// staging table, so exactly their two positions in the shared column are
    /// swapped; if the transaction aborts, neither rank changes.
    #[verifier::external_body]
    pub fn swap_task_order(&mut self, task1_id: i64, task2_id: i64) -> (r: Result<
        (),
        rusqlite::Error,
    >)
        requires
            exists|ci: int, p1: int, p2: int|
                has_task_at(store_of(old(self).conn), ci, p1, task1_id as int) && has_task_at(
                    store_of(old(self).conn),
                    ci,
                    p2,
                    task2_id as int,
                ) && p1 != p2,
        ensures
            match r {
                Ok(_) => {
                    &&& forall|ci: int, p1: int, p2: int|
                        has_task_at(store_of(old(self).conn), ci, p1, task1_id as int)
                            && has_task_at(store_of(old(self).conn), ci, p2, task2_id as int)
                            ==> store_of(final(self).conn) == store_swap_tasks(
                            store_of(old(self).conn),
                            ci,
                            p1,
                            p2,
                        )
                    &&& store_wf(store_of(final(self).conn))
                },
                Err(_) => store_of(final(self).conn) == store_of(old(self).conn),
            },
    {
        let tx = self.conn.transaction()?;
        tx.execute("create temp table temp_order as select sort_order from task where id = ?1", [task1_id])?;
        tx.execute("update task set sort_order = (select sort_order from task where id = ?2) where id = ?1", (task1_id, task2_id))?;
        tx.execute("update task set sort_order = (select sort_order from temp_order) where id = ?1", [task2_id])?;
        tx.execute("drop table temp_order", ())?;
        tx.commit()?;
        Ok(())
    }

    /// Relies on rusqlite `Connection::execute`: stores the active-column
    /// index, as its decimal text, under the `selected_column` key.
    #[verifier::external_body]
    pub fn set_selected_column(&mut self, column_id: usize) -> (r: Result<(), rusqlite::Error>)
        ensures
            match r {
                Ok(_) => store_of(final(self).conn) == store_set_active(
                    store_of(old(self).conn),
                    column_id as int,
                ),
                Err(_) => store_of(final(self).conn) == store_of(old(self).conn),
            },
    {
        self.conn.execute(
            "insert or replace into app_state(key, value) values ('selected_column', ?1)",
            [column_id.to_string()],
        )?;
        Ok(())
    }

    /// Relies on rusqlite `Connection::query_row` and `str::parse`: returns
    /// the stored active-column value when the `selected_column` row holds a
    /// decimal integer, and an error when the row is missing or malformed.
    #[verifier::external_body]
    pub fn get_selected_column(&self) -> (r: Result<usize, rusqlite::Error>)
        ensures
            match r {
                Ok(v) => v as int == store_of(self.conn).active,
                Err(_) => true,
            },
    {
        let v: String = self.conn.query_row(
            "select value from app_state where key = 'selected_column'",
            (),
            |row| row.get(0),
        )?;
        v.parse::<usize>().map_err(|_| rusqlite::Error::InvalidQuery)
    }

    /// Relies on rusqlite `Connection::execute`: overwrites the persisted
    /// selection value of the column row with the given id.
    #[verifier::external_body]
    pub fn set_selected_task_for_column(&mut self, task_idx: usize, column_id: i64) -> (r: Result<
        (),
        rusqlite::Error,
    >)
        requires
            exists|di: int| has_column_at(store_of(old(self).conn), di, column_id as int),
            task_idx as int <= crate::model::MAX_STORE_ROWS,
        ensures
            match r {
                Ok(_) => {
                    &&& forall|di: int|
                        has_column_at(store_of(old(self).conn), di, column_id as int)
                            ==> store_of(final(self).conn) == store_set_col_selected(
                            store_of(old(self).conn),
                            di,
                            task_idx as int,
                        )
                    &&& store_wf(store_of(final(self).conn))
                },
                Err(_) => store_of(final(self).conn) == store_of(old(self).conn),
            },
    {
        self.conn.execute(
            "update kb_column set selected_task = ?2 where id = ?1",
            (column_id, task_idx as i64),
        )?;
        Ok(())
    }

    /// Loads every column with its tasks in rank order; each persisted
    /// selection value is turned into a cursor, clamped to a valid index so a
    /// stale value cannot poison the board.
    pub fn get_all_columns(&self) -> (r: Result<Vec<Column>, rusqlite::Error>)
        ensures
            match r {
                Ok(cols) => {
                    &&& store_wf(self@)
                    &&& cols@.len() == self@.columns.len()
                    &&& forall|i: int|
                        0 <= i < cols@.len() ==> (#[trigger] cols@[i])@ == load_column(
                            self@.columns[i],
                        )
                    &&& forall|i: int| 0 <= i < cols@.len() ==> (#[trigger] cols@[i]).wf()
                },
                Err(_) => true,
            },
    {
        let rows = match self.get_column_rows() {
            Ok(v) => v,
            Err(e) => return Err(e),
        };
        let mut cols: Vec<Column> = Vec::new();
        let mut k: usize = 0;
        while k < rows.len()
            invariant
                store_wf(self@),
                rows@.len() == self@.columns.len(),
                forall|i: int|
                    0 <= i < rows@.len() ==> {
                        &&& (#[trigger] rows@[i]).0 as int == self@.columns[i].id
                        &&& rows@[i].1@ == self@.columns[i].name
                        &&& rows@[i].2 as int == self@.columns[i].selected
                    },
                k <= rows@.len(),
                cols@.len() == k,
                forall|i: int|
                    0 <= i < k ==> (#[trigger] cols@[i])@ == load_column(self@.columns[i]),
                forall|i: int| 0 <= i < k ==> (#[trigger] cols@[i]).wf(),
            decreases rows@.len() - k,
        {
            let id: i64 = rows[k].0;
            let name: String = rows[k].1.clone();
            let sel: i64 = rows[k].2;
            assert(has_column_at(self@, k as int, id as int));
            let tasks = match self.get_tasks_by_column(id) {
                Ok(t) => t,
                Err(e) => return Err(e),
            };
            let n: usize = tasks.len();
            assert(self@.columns[k as int].tasks.len() <= MAX_STORE_ROWS);
            let selected_task: Option<usize> = if n == 0 {
                None
            } else if sel < 0 {
                Some(0)
            } else if sel >= n as i64 {
                Some(n - 1)
            } else {
                Some(sel as usize)
            };
            let col = Column { id, name, selected_task, tasks };
            proof {
                assert(col@.tasks =~= self@.columns[k as int].tasks);
                assert(col@ =~= load_column(self@.columns[k as int]));
            }
            cols.push(col);
            k = k + 1;
        }
        Ok(cols)
    }

    /// Moves a task to the target column in the store — it leaves its source
    /// position and sorts last at the destination — then persists the target
    /// column's selection cursor, as one combined store step.
    pub fn move_task_to_column(&mut self, task: &Task, target_column: &Column) -> (r: Result<
        (),
        rusqlite::Error,
    >)
        requires
            exists|ci: int, p: int| has_task_at(store_of(old(self).conn), ci, p, task.id as int),
            exists|di: int| has_column_at(store_of(old(self).conn), di, target_column.id as int),
            store_wf(store_of(old(self).conn)),
            stored_cursor(opt_index(target_column.selected_task)) <= MAX_STORE_ROWS,
        ensures
            match r {
                Ok(_) => {
                    &&& forall|ci: int, p: int, di: int|
                        has_task_at(store_of(old(self).conn), ci, p, task.id as int)
                            && has_column_at(store_of(old(self).conn), di, target_column.id as int)
                            ==> store_of(final(self).conn) == store_set_col_selected(
                            store_relocate_task(store_of(old(self).conn), ci, p, di),
                            di,
                            stored_cursor(opt_index(target_column.selected_task)),
                        )
                    &&& store_wf(store_of(final(self).conn))
                },
                Err(_) => store_of(final(self).conn) == store_of(old(self).conn) || forall|
                    ci: int,
                    p: int,
                    di: int,
                |
                    has_task_at(store_of(old(self).conn), ci, p, task.id as int) && has_column_at(
                        store_of(old(self).conn),
                        di,
                        target_column.id as int,
                    ) ==> store_of(final(self).conn) == store_relocate_task(
                        store_of(old(self).conn),
                        ci,
                        p,
                        di,
                    ),
            },
    {
        let ghost m0 = store_of(self.conn);
        match self.relocate_task(task.id, target_column.id) {
            Ok(_) => {},
            Err(e) => return Err(e),
        }
        let idx: usize = match target_column.selected_task {
            Some(i) => i,
            None => 0,
        };
        let ghost (ci, p) = choose|ci: int, p: int| has_task_at(m0, ci, p, task.id as int);
        let ghost di = choose|di: int| has_column_at(m0, di, target_column.id as int);
        proof {
            assert(store_of(self.conn) == store_relocate_task(m0, ci, p, di));
            assert(store_of(self.conn).columns[di].id == m0.columns[di].id);
            assert(has_column_at(store_of(self.conn), di, target_column.id as int));
            assert forall|ci2: int, p2: int, di2: int|
                has_task_at(m0, ci2, p2, task.id as int) && has_column_at(
                    m0,
                    di2,
                    target_column.id as int,
                ) implies store_of(self.conn) == store_relocate_task(m0, ci2, p2, di2) by {
                assert(m0.columns[ci2].tasks[p2].id == m0.columns[ci].tasks[p].id);
                assert(ci2 == ci && p2 == p);
                assert(m0.columns[di2].id == m0.columns[di].id);
                assert(di2 == di);
            }
        }
        let ghost m1 = store_of(self.conn);
        match self.set_selected_task_for_column(idx, target_column.id) {
            Ok(_) => {},
            Err(e) => return Err(e),
        }
        proof {
            let m2 = store_of(self.conn);
            assert(m2 == store_set_col_selected(m1, di, idx as int));
            assert forall|ci2: int, p2: int, di2: int|
                has_task_at(m0, ci2, p2, task.id as int) && has_column_at(
                    m0,
                    di2,
                    target_column.id as int,
                ) implies m2 == store_set_col_selected(
                store_relocate_task(m0, ci2, p2, di2),
                di2,
                stored_cursor(opt_index(target_column.selected_task)),
            ) by {
                assert(m0.columns[ci2].tasks[p2].id == m0.columns[ci].tasks[p].id);
                assert(ci2 == ci && p2 == p);
                assert(m0.columns[di2].id == m0.columns[di].id);
                assert(di2 == di);
            }
        }
        Ok(())
    }

    /// Returns the persisted selection value of the column with the given
    /// identity: absent column and unrepresentable value are each their own
    /// error.
    pub fn get_selected_task_for_column(&self, column_id: i64) -> (r: Result<usize, StoreError>)
        ensures
            match r {
                Ok(v) => exists|di: int|
                    #![trigger store_of(self.conn).columns[di]]
                    has_column_at(store_of(self.conn), di, column_id as int) && v as int
                        == store_of(self.conn).columns[di].selected,
                Err(e) => match e {
                    StoreError::MissingColumn => forall|di: int|
                        0 <= di < store_of(self.conn).columns.len()
                            ==> #[trigger] store_of(self.conn).columns[di].id != column_id as int,
                    StoreError::BadStoredValue => exists|di: int|
                        #![trigger store_of(self.conn).columns[di]]
                        has_column_at(store_of(self.conn), di, column_id as int) && (store_of(
                            self.conn,
                        ).columns[di].selected < 0 || store_of(self.conn).columns[di].selected
                            > usize::MAX),
                    _ => true,
                },
            },
    {
        let rows = match self.get_column_rows() {
            Ok(v) => v,
            Err(e) => return Err(StoreError::Sql(e)),
        };
        let mut k: usize = 0;
        while k < rows.len()
            invariant
                rows@.len() == store_of(self.conn).columns.len(),
                forall|i: int|
                    0 <= i < rows@.len() ==> {
                        &&& (#[trigger] rows@[i]).0 as int == store_of(self.conn).columns[i].id
                        &&& rows@[i].2 as int == store_of(self.conn).columns[i].selected
                    },
                k <= rows@.len(),
                forall|i: int|
                    0 <= i < k ==> #[trigger] store_of(self.conn).columns[i].id != column_id as int,
            decreases rows@.len() - k,
        {
            if rows[k].0 == column_id {
                let sel: i64 = rows[k].2;
                if sel < 0 {
                    return Err(StoreError::BadStoredValue);
                }
                if sel as u64 > usize::MAX as u64 {
                    return Err(StoreError::BadStoredValue);
                }
                return Ok(sel as usize);
            }
            k = k + 1;
        }
        Err(StoreError::MissingColumn)
    }
}

} // verus!
