//! The board engine: columns of tasks, selection cursors, and the operations
//! that mutate them while keeping the durable store in agreement.

use vstd::prelude::*;

use crate::db::DBConn;
use crate::db::StoreError;
use crate::db::store_of;
use crate::model::BoardView;
use crate::model::ColumnView;
use crate::model::StoreModel;
use crate::model::StoreTask;
use crate::model::board_add_task;
use crate::model::board_remove_task;
use crate::model::board_set_cursor;
use crate::model::board_swap_tasks;
use crate::model::board_transfer_task;
use crate::model::board_update_text;
use crate::model::clamp_index;
use crate::model::cursor_after_remove;
use crate::model::cursor_down;
use crate::model::cursor_first;
use crate::model::cursor_last;
use crate::model::cursor_up;
use crate::model::has_column_at;
use crate::model::has_task_at;
use crate::model::load_board;
use crate::model::load_column;
use crate::model::opt_index;
use crate::model::store_add_task;
use crate::model::store_relocate_task;
use crate::model::store_remove_task;
use crate::model::store_set_active;
use crate::model::store_set_col_selected;
use crate::model::store_swap_tasks;
use crate::model::store_transfer_task;
use crate::model::store_update_text;
use crate::model::store_wf;
use crate::model::stored_cursor;
use crate::model::transfer_interrupted;

verus! {

/// A task: a titled, described work item with a stable identity.
pub struct Task {
    /// Identity assigned by the store on creation; never changes.
    pub id: i64,
    /// Title of the task; may be empty.
    pub title: String,
    /// Description of the task; may be empty and may span several lines.
    pub description: String,
}

impl View for Task {
    type V = StoreTask;

    open spec fn view(&self) -> StoreTask {
        StoreTask { id: self.id as int, title: self.title@, description: self.description@ }
    }
}

/// A named, ordered container of tasks with its own selection cursor.
pub struct Column {
    /// Identity assigned by the store; never changes.
    pub id: i64,
    /// Display name; immutable after construction.
    pub name: String,
    /// The selection cursor: a valid index into `tasks`, or absent exactly
    /// when the column is empty.
    pub selected_task: Option<usize>,
    /// The tasks, in board order.
    pub tasks: Vec<Task>,
}

impl View for Column {
    type V = ColumnView;

    open spec fn view(&self) -> ColumnView {
        ColumnView {
            id: self.id as int,
            name: self.name@,
            selected: match self.selected_task {
                Some(i) => Some(i as int),
                None => None,
            },
            tasks: Seq::new(self.tasks@.len(), |i: int| self.tasks@[i]@),
        }
    }
}

impl Column {
    /// The cursor is a valid index, or absent exactly on an empty column.
    pub open spec fn wf(self) -> bool {
        match self.selected_task {
            Some(i) => i < self.tasks@.len(),
            None => self.tasks@.len() == 0,
        }
    }
}

/// Focus ring of the task-editor overlay: which form field the next input
/// goes to.
#[derive(Clone, Copy, Debug, PartialEq, Eq, Structural)]
pub enum TaskEditFocus {
    /// Title text input line.
    Title,
    /// Description text input box.
    Description,
    /// Confirm changes button.
    ConfirmBtn,
    /// Cancel changes button.
    CancelBtn,
}

/// Transient state of a task while the user edits it in the overlay.
pub struct TaskState {
    /// The title being edited.
    pub title: String,
    /// The description being edited.
    pub description: String,
    /// Which field of the form currently has focus.
    pub focus: TaskEditFocus,
    /// Whether an existing task was opened, as opposed to a new one.
    pub is_edit: bool,
}

impl Default for TaskState {
    /// A fresh overlay: empty fields, focus on the title, creating anew.
    fn default() -> (t: TaskState)
        ensures
            t.title@ == Seq::<char>::empty(),
            t.description@ == Seq::<char>::empty(),
            t.focus is Title,
            !t.is_edit,
    {
        TaskState {
            title: String::new(),
            description: String::new(),
            focus: TaskEditFocus::Title,
            is_edit: false,
        }
    }
}

/// The focus one step forward along the fixed ring
/// title, description, confirm, cancel.
pub open spec fn focus_next(f: TaskEditFocus) -> TaskEditFocus {
    match f {
        TaskEditFocus::Title => TaskEditFocus::Description,
        TaskEditFocus::Description => TaskEditFocus::ConfirmBtn,
        TaskEditFocus::ConfirmBtn => TaskEditFocus::CancelBtn,
        TaskEditFocus::CancelBtn => TaskEditFocus::Title,
    }
}

/// The focus one step backward along the same ring.
pub open spec fn focus_prev(f: TaskEditFocus) -> TaskEditFocus {
    match f {
        TaskEditFocus::Title => TaskEditFocus::CancelBtn,
        TaskEditFocus::Description => TaskEditFocus::Title,
        TaskEditFocus::ConfirmBtn => TaskEditFocus::Description,
        TaskEditFocus::CancelBtn => TaskEditFocus::ConfirmBtn,
    }
}

/// Moves the overlay's focus one field forward or backward along the ring;
/// the text being edited is untouched.
pub fn cycle_focus(task: &mut TaskState, forward: bool)
    ensures
        final(task).focus == if forward {
            focus_next(old(task).focus)
        } else {
            focus_prev(old(task).focus)
        },
        final(task).title == old(task).title,
        final(task).description == old(task).description,
        final(task).is_edit == old(task).is_edit,
{
    let next = if forward {
        match task.focus {
            TaskEditFocus::Title => TaskEditFocus::Description,
            TaskEditFocus::Description => TaskEditFocus::ConfirmBtn,
            TaskEditFocus::ConfirmBtn => TaskEditFocus::CancelBtn,
            TaskEditFocus::CancelBtn => TaskEditFocus::Title,
        }
    } else {
        match task.focus {
            TaskEditFocus::Title => TaskEditFocus::CancelBtn,
            TaskEditFocus::Description => TaskEditFocus::Title,
            TaskEditFocus::ConfirmBtn => TaskEditFocus::Description,
            TaskEditFocus::CancelBtn => TaskEditFocus::ConfirmBtn,
        }
    };
    task.focus = next;
}

/// The whole board: the columns, the active-column cursor, the store
/// connection that every mutation is persisted through, and the transient
/// editor-overlay state.
pub struct State {
    /// Display name of the project; not persisted by the board itself.
    pub project_name: String,
    /// Index of the active column; always valid.
    pub selected_column_idx: usize,
    /// The columns, in board order; never empty.
    pub columns: Vec<Column>,
    /// The durable store the board keeps in agreement with memory.
    pub db_conn: DBConn,
    /// Whether the caller's interaction loop should stop.
    pub quit: bool,
    /// The transient task-editor overlay, when one is open.
    pub task_edit_state: Option<TaskState>,
}

impl State {
    /// The in-memory board this state holds.
    pub open spec fn board(self) -> BoardView {
        BoardView {
            active: self.selected_column_idx as int,
            columns: Seq::new(self.columns@.len(), |i: int| self.columns@[i]@),
        }
    }

    /// The board the durable store holds.
    pub open spec fn store(self) -> StoreModel {
        self.db_conn@
    }

    /// The column view the active-column cursor points at.
    pub open spec fn active_col(self) -> ColumnView {
        self.board().columns[self.selected_column_idx as int]
    }

    /// In-memory well-formedness: at least one column, a valid active-column
    /// cursor, and a valid selection cursor in every column.
    pub open spec fn wf_mem(self) -> bool {
        &&& self.columns@.len() > 0
        &&& (self.selected_column_idx as int) < self.columns@.len()
        &&& forall|i: int| 0 <= i < self.columns@.len() ==> (#[trigger] self.columns@[i]).wf()
    }

    /// Full well-formedness: the memory invariants hold, the store is
    /// well-formed, and loading the store reproduces the in-memory board.
    pub open spec fn wf(self) -> bool {
        &&& self.wf_mem()
        &&& store_wf(self.store())
        &&& self.board() == load_board(self.store())
    }

    /// Everything outside the board proper is untouched.
    pub open spec fn same_frame(self, other: State) -> bool {
        &&& self.project_name == other.project_name
        &&& self.quit == other.quit
        &&& self.task_edit_state == other.task_edit_state
    }
}

/// Law: loading the store a well-formed board sits on reproduces that very
/// board — every task identity, every column's order, every cursor and the
/// active column survive the round trip.
pub proof fn lemma_store_round_trip(s: State)
    requires
        s.wf(),
    ensures
        load_board(s.store()) == s.board(),
{
}

/// Law: in a well-formed board every column's selection cursor is a valid
/// index into that column's tasks, or absent exactly when the column is
/// empty.
pub proof fn lemma_cursor_in_bounds(s: State, i: int)
    requires
        s.wf_mem(),
        0 <= i < s.board().columns.len(),
    ensures
        match s.board().columns[i].selected {
            Some(c) => 0 <= c < s.board().columns[i].tasks.len(),
            None => s.board().columns[i].tasks.len() == 0,
        },
{
    assert(s.columns@[i].wf());
}

/// Two boards are equal once they agree on length, active cursor, and every
/// column; spelled out so callers can discharge it column by column.
proof fn lemma_board_eq(b: BoardView, m: StoreModel)
    requires
        b.columns.len() == m.columns.len(),
        b.active == clamp_index(m.active, m.columns.len() as int),
        forall|i: int| 0 <= i < b.columns.len() ==> #[trigger] b.columns[i] =~~= load_column(
            m.columns[i],
        ),
    ensures
        b == load_board(m),
{
    assert(b =~~= load_board(m));
}

impl State {
    /// Builds the board from a fully loaded store snapshot: columns with
    /// their tasks in rank order, each cursor clamped to a valid index, and
    /// the persisted active column, also clamped.  A store that holds no
    /// columns cannot back a board and is reported as such.
    pub fn new(conn: rusqlite::Connection) -> (r: Result<State, StoreError>)
        ensures
            match r {
                Ok(s) => {
                    &&& s.wf()
                    &&& s.store() == store_of(conn)
                    &&& s.board() == load_board(store_of(conn))
                    &&& !s.quit
                    &&& s.task_edit_state is None
                },
                Err(e) => e is EmptyBoard ==> store_of(conn).columns.len() == 0,
            },
    {
        let db_conn = DBConn::new(conn);
        let columns = match db_conn.get_all_columns() {
            Ok(c) => c,
            Err(e) => return Err(StoreError::Sql(e)),
        };
        if columns.len() == 0 {
            return Err(StoreError::EmptyBoard);
        }
        let stored_active = match db_conn.get_selected_column() {
            Ok(v) => v,
            Err(e) => return Err(StoreError::Sql(e)),
        };
        let selected_column_idx: usize = if stored_active >= columns.len() {
            columns.len() - 1
        } else {
            stored_active
        };
        let s = State {
            project_name: String::new(),
            selected_column_idx,
            columns,
            db_conn,
            quit: false,
            task_edit_state: None,
        };
        proof {
            lemma_board_eq(s.board(), s.store());
        }
        Ok(s)
    }

    /// Returns a reference to the active column.
    pub fn get_selected_column(&self) -> (c: &Column)
        requires
            self.wf_mem(),
        ensures
            *c == self.columns@[self.selected_column_idx as int],
    {
        &self.columns[self.selected_column_idx]
    }

    /// Returns a mutable reference to the active column.
    pub fn get_selected_column_mut(&mut self) -> (c: &mut Column)
        requires
            old(self).wf_mem(),
        ensures
            *c == old(self).columns@[old(self).selected_column_idx as int],
            final(self).columns@ == old(self).columns@.update(
                old(self).selected_column_idx as int,
                *final(c),
            ),
            final(self).selected_column_idx == old(self).selected_column_idx,
            final(self).db_conn == old(self).db_conn,
            final(self).same_frame(*old(self)),
    {
        &mut self.columns[self.selected_column_idx]
    }

    /// Moves the active-column cursor one column to the left — it saturates
    /// at the first column — and persists the new index.
    pub fn select_column_left(&mut self) -> (r: Result<(), StoreError>)
        requires
            old(self).wf(),
        ensures
            final(self).wf_mem(),
            final(self).same_frame(*old(self)),
            final(self).board().columns == old(self).board().columns,
            final(self).board().active == clamp_index(
                old(self).board().active - 1,
                old(self).board().columns.len() as int,
            ),
            r is Ok ==> final(self).wf() && final(self).store() == store_set_active(
                old(self).store(),
                final(self).board().active,
            ),
            r is Err ==> final(self).store() == old(self).store(),
            old(self).board().active == 0 && old(self).store().active == 0 ==> final(self).board()
                == old(self).board() && final(self).store() == old(self).store(),
    {
        let a = self.selected_column_idx;
        let new_a: usize = if a == 0 {
            0
        } else {
            a - 1
        };
        self.select_column_to(new_a)
    }

    /// Moves the active-column cursor one column to the right — it saturates
    /// at the last column — and persists the new index.
    pub fn select_column_right(&mut self) -> (r: Result<(), StoreError>)
        requires
            old(self).wf(),
        ensures
            final(self).wf_mem(),
            final(self).same_frame(*old(self)),
            final(self).board().columns == old(self).board().columns,
            final(self).board().active == clamp_index(
                old(self).board().active + 1,
                old(self).board().columns.len() as int,
            ),
            r is Ok ==> final(self).wf() && final(self).store() == store_set_active(
                old(self).store(),
                final(self).board().active,
            ),
            r is Err ==> final(self).store() == old(self).store(),
    {
        let a = self.selected_column_idx;
        let len = self.columns.len();
        assert(a < len);
        let new_a: usize = if a + 1 >= len {
            len - 1
        } else {
            a + 1
        };
        self.select_column_to(new_a)
    }

    /// Shared tail of the two column-selection moves: point the active-column
    /// cursor at `new_a` and persist it.
    fn select_column_to(&mut self, new_a: usize) -> (r: Result<(), StoreError>)
        requires
            old(self).wf(),
            (new_a as int) < old(self).columns@.len(),
        ensures
            final(self).wf_mem(),
            final(self).same_frame(*old(self)),
            final(self).board().columns == old(self).board().columns,
            final(self).board().active == new_a as int,
            r is Ok ==> final(self).wf() && final(self).store() == store_set_active(
                old(self).store(),
                new_a as int,
            ),
            r is Err ==> final(self).store() == old(self).store(),
            old(self).board().active == new_a as int && old(self).store().active == new_a as int
                ==> final(self).board() == old(self).board() && final(self).store() == old(
                self,
            ).store(),
    {
        let ghost m0 = self.store();
        let ghost b0 = self.board();
        self.selected_column_idx = new_a;
        proof {
            assert(self.board().columns =~~= b0.columns);
        }
        let r = self.db_conn.set_selected_column(new_a);
        proof {
            assert(self.board().columns =~~= b0.columns);
            if r is Ok {
                assert(self.store() == store_set_active(m0, new_a as int));
                lemma_board_eq(self.board(), self.store());
            }
            if m0.active == new_a as int {
                assert(store_set_active(m0, new_a as int) =~~= m0);
            }
        }
        match r {
            Ok(_) => Ok(()),
            Err(e) => Err(StoreError::Sql(e)),
        }
    }
}

impl State {
    /// Returns a reference to the selected task of the active column, or
    /// nothing when that column is empty.
    pub fn get_selected_task(&self) -> (t: Option<&Task>)
        requires
            self.wf_mem(),
        ensures
            match t {
                Some(task) => match self.active_col().selected {
                    Some(i) => task@ == self.active_col().tasks[i],
                    None => false,
                },
                None => self.active_col().selected is None,
            },
    {
        let col = self.get_selected_column();
        match col.selected_task {
            Some(i) => Some(&col.tasks[i]),
            None => None,
        }
    }

    /// Returns a reference to the task just above the selected one, or
    /// nothing when the selected task is the first or the column is empty.
    pub fn get_task_above(&self) -> (t: Option<&Task>)
        requires
            self.wf_mem(),
        ensures
            match t {
                Some(task) => match self.active_col().selected {
                    Some(i) => i > 0 && task@ == self.active_col().tasks[i - 1],
                    None => false,
                },
                None => match self.active_col().selected {
                    Some(i) => i == 0,
                    None => true,
                },
            },
    {
        let col = self.get_selected_column();
        match col.selected_task {
            Some(i) => if i > 0 {
                Some(&col.tasks[i - 1])
            } else {
                None
            },
            None => None,
        }
    }

    /// Returns a reference to the task just below the selected one, or
    /// nothing when the selected task is the last or the column is empty.
    pub fn get_task_below(&self) -> (t: Option<&Task>)
        requires
            self.wf_mem(),
        ensures
            match t {
                Some(task) => match self.active_col().selected {
                    Some(i) => i + 1 < self.active_col().tasks.len() && task@
                        == self.active_col().tasks[i + 1],
                    None => false,
                },
                None => match self.active_col().selected {
                    Some(i) => i + 1 >= self.active_col().tasks.len(),
                    None => true,
                },
            },
    {
        let col = self.get_selected_column();
        let n = col.tasks.len();
        proof {
            assert(col.wf());
        }
        match col.selected_task {
            Some(i) => if i + 1 < n {
                Some(&col.tasks[i + 1])
            } else {
                None
            },
            None => None,
        }
    }

    /// Builds the editor-overlay state for the selected task, focus on the
    /// title; nothing when the active column is empty.
    pub fn get_task_state_from_current(&self) -> (t: Option<TaskState>)
        requires
            self.wf_mem(),
        ensures
            match t {
                Some(ts) => match self.active_col().selected {
                    Some(i) => {
                        &&& ts.title@ == self.active_col().tasks[i].title
                        &&& ts.description@ == self.active_col().tasks[i].description
                        &&& ts.focus is Title
                        &&& ts.is_edit
                    },
                    None => false,
                },
                None => self.active_col().selected is None,
            },
    {
        match self.get_selected_task() {
            Some(task) => Some(
                TaskState {
                    title: task.title.clone(),
                    description: task.description.clone(),
                    focus: TaskEditFocus::Title,
                    is_edit: true,
                },
            ),
            None => None,
        }
    }

    /// Points the active column's cursor at `new_cur` — which must be valid
    /// for that column — and persists it, as every cursor move does.
    fn move_cursor_and_persist(&mut self, new_cur: Option<usize>) -> (r: Result<(), StoreError>)
        requires
            old(self).wf(),
            match new_cur {
                Some(i) => (i as int) < old(self).active_col().tasks.len(),
                None => old(self).active_col().tasks.len() == 0,
            },
        ensures
            final(self).wf_mem(),
            final(self).same_frame(*old(self)),
            final(self).selected_column_idx == old(self).selected_column_idx,
            final(self).board() == board_set_cursor(
                old(self).board(),
                old(self).board().active,
                opt_index(new_cur),
            ),
            r is Ok ==> final(self).wf() && final(self).store() == store_set_col_selected(
                old(self).store(),
                old(self).board().active,
                stored_cursor(opt_index(new_cur)),
            ),
            r is Err ==> final(self).store() == old(self).store(),
    {
        let ghost b0 = old(self).board();
        let ghost m0 = old(self).store();
        let ghost a = old(self).selected_column_idx as int;
        let col = self.get_selected_column_mut();
        col.selected_task = new_cur;
        let col_id: i64 = col.id;
        let idx: usize = match new_cur {
            Some(i) => i,
            None => 0,
        };
        proof {
            assert(old(self).wf());
            assert(b0 == load_board(m0));
            assert(b0.columns.len() == load_board(m0).columns.len());
            assert(load_board(m0).columns.len() == m0.columns.len());
            assert(0 <= a < b0.columns.len());
            assert(b0.columns[a] == load_column(m0.columns[a]));
            assert(m0.columns[a].id == col_id as int);
            assert(crate::model::has_column_at(m0, a, col_id as int));
            assert(m0.columns[a].tasks.len() <= crate::model::MAX_STORE_ROWS);
            assert(self.board() =~~= board_set_cursor(b0, a, opt_index(new_cur)));
        }
        let r = self.db_conn.set_selected_task_for_column(idx, col_id);
        proof {
            assert(self.board() =~~= board_set_cursor(b0, a, opt_index(new_cur)));
            if r is Ok {
                assert(self.store() == store_set_col_selected(m0, a, idx as int));
                assert forall|i: int| 0 <= i < self.board().columns.len() implies #[trigger] self
                    .board().columns[i] =~~= load_column(self.store().columns[i]) by {
                    assert(b0.columns[i] == load_column(m0.columns[i]));
                }
                lemma_board_eq(self.board(), self.store());
            }
        }
        match r {
            Ok(_) => Ok(()),
            Err(e) => Err(StoreError::Sql(e)),
        }
    }

    /// Moves the cursor to the task above — it saturates at the first task —
    /// and persists the resulting cursor.
    pub fn select_task_above(&mut self) -> (r: Result<(), StoreError>)
        requires
            old(self).wf(),
        ensures
            final(self).wf_mem(),
            final(self).same_frame(*old(self)),
            final(self).selected_column_idx == old(self).selected_column_idx,
            final(self).board() == board_set_cursor(
                old(self).board(),
                old(self).board().active,
                cursor_up(old(self).active_col().selected),
            ),
            r is Ok ==> final(self).wf() && final(self).store() == store_set_col_selected(
                old(self).store(),
                old(self).board().active,
                stored_cursor(cursor_up(old(self).active_col().selected)),
            ),
            r is Err ==> final(self).store() == old(self).store(),
    {
        let col = self.get_selected_column();
        let new_cur: Option<usize> = match col.selected_task {
            Some(i) => Some(
                if i == 0 {
                    0
                } else {
                    i - 1
                },
            ),
            None => None,
        };
        self.move_cursor_and_persist(new_cur)
    }

    /// Moves the cursor to the task below — it saturates at the last task —
    /// and persists the resulting cursor.
    pub fn select_task_below(&mut self) -> (r: Result<(), StoreError>)
        requires
            old(self).wf(),
        ensures
            final(self).wf_mem(),
            final(self).same_frame(*old(self)),
            final(self).selected_column_idx == old(self).selected_column_idx,
            final(self).board() == board_set_cursor(
                old(self).board(),
                old(self).board().active,
                cursor_down(
                    old(self).active_col().selected,
                    old(self).active_col().tasks.len() as int,
                ),
            ),
            r is Ok ==> final(self).wf() && final(self).store() == store_set_col_selected(
                old(self).store(),
                old(self).board().active,
                stored_cursor(
                    cursor_down(
                        old(self).active_col().selected,
                        old(self).active_col().tasks.len() as int,
                    ),
                ),
            ),
            r is Err ==> final(self).store() == old(self).store(),
    {
        let col = self.get_selected_column();
        let len = col.tasks.len();
        let new_cur: Option<usize> = match col.selected_task {
            Some(i) => Some(
                if i + 1 >= len {
                    len - 1
                } else {
                    i + 1
                },
            ),
            None => None,
        };
        self.move_cursor_and_persist(new_cur)
    }

    /// Moves the cursor to the first task — or leaves it absent on an empty
    /// column — and persists the resulting cursor.
    pub fn select_first_task(&mut self) -> (r: Result<(), StoreError>)
        requires
            old(self).wf(),
        ensures
            final(self).wf_mem(),
            final(self).same_frame(*old(self)),
            final(self).selected_column_idx == old(self).selected_column_idx,
            final(self).board() == board_set_cursor(
                old(self).board(),
                old(self).board().active,
                cursor_first(old(self).active_col().tasks.len() as int),
            ),
            r is Ok ==> final(self).wf() && final(self).store() == store_set_col_selected(
                old(self).store(),
                old(self).board().active,
                stored_cursor(cursor_first(old(self).active_col().tasks.len() as int)),
            ),
            r is Err ==> final(self).store() == old(self).store(),
    {
        let col = self.get_selected_column();
        let new_cur: Option<usize> = if col.tasks.len() == 0 {
            None
        } else {
            Some(0)
        };
        self.move_cursor_and_persist(new_cur)
    }

    /// Moves the cursor to the last task — or leaves it absent on an empty
    /// column — and persists the resulting cursor.
    pub fn select_last_task(&mut self) -> (r: Result<(), StoreError>)
        requires
            old(self).wf(),
        ensures
            final(self).wf_mem(),
            final(self).same_frame(*old(self)),
            final(self).selected_column_idx == old(self).selected_column_idx,
            final(self).board() == board_set_cursor(
                old(self).board(),
                old(self).board().active,
                cursor_last(old(self).active_col().tasks.len() as int),
            ),
            r is Ok ==> final(self).wf() && final(self).store() == store_set_col_selected(
                old(self).store(),
                old(self).board().active,
                stored_cursor(cursor_last(old(self).active_col().tasks.len() as int)),
            ),
            r is Err ==> final(self).store() == old(self).store(),
    {
        let col = self.get_selected_column();
        let len = col.tasks.len();
        let new_cur: Option<usize> = if len == 0 {
            None
        } else {
            Some(len - 1)
        };
        self.move_cursor_and_persist(new_cur)
    }
}

/// Removing the element at `i` and reinserting it at the neighbouring index
/// `j` exchanges exactly the two positions.
proof fn lemma_remove_insert_swaps<A>(s: Seq<A>, i: int, j: int)
    requires
        0 <= i < s.len(),
        0 <= j < s.len(),
        j == i - 1 || j == i + 1,
    ensures
        s.remove(i).insert(j, s[i]) =~= s.update(i, s[j]).update(j, s[i]),
{
    s.remove_ensures(i);
    s.remove(i).insert_ensures(j, s[i]);
}

impl State {
    /// Moves the selected task one place towards the top, the cursor
    /// following it; a no-op on the first task or an empty column.
    pub fn move_task_up(&mut self) -> (r: Result<(), StoreError>)
        requires
            old(self).wf(),
        ensures
            final(self).wf_mem(),
            final(self).same_frame(*old(self)),
            final(self).selected_column_idx == old(self).selected_column_idx,
            ({
                let b0 = old(self).board();
                let a = b0.active;
                let m0 = old(self).store();
                match old(self).active_col().selected {
                    Some(i) => if i > 0 {
                        &&& final(self).board() == board_set_cursor(
                            board_swap_tasks(b0, a, i, i - 1),
                            a,
                            Some(i - 1),
                        )
                        &&& r is Ok ==> final(self).wf() && final(self).store()
                            == store_set_col_selected(store_swap_tasks(m0, a, i, i - 1), a, i - 1)
                        &&& r is Err ==> final(self).store() == m0 || final(self).store()
                            == store_swap_tasks(m0, a, i, i - 1)
                    } else {
                        r is Ok && *final(self) == *old(self)
                    },
                    None => r is Ok && *final(self) == *old(self),
                }
            }),
    {
        self.move_task(false)
    }

    /// Moves the selected task one place towards the bottom, the cursor
    /// following it; a no-op on the last task or an empty column.
    pub fn move_task_down(&mut self) -> (r: Result<(), StoreError>)
        requires
            old(self).wf(),
        ensures
            final(self).wf_mem(),
            final(self).same_frame(*old(self)),
            final(self).selected_column_idx == old(self).selected_column_idx,
            ({
                let b0 = old(self).board();
                let a = b0.active;
                let m0 = old(self).store();
                let n = old(self).active_col().tasks.len() as int;
                match old(self).active_col().selected {
                    Some(i) => if i + 1 < n {
                        &&& final(self).board() == board_set_cursor(
                            board_swap_tasks(b0, a, i, i + 1),
                            a,
                            Some(i + 1),
                        )
                        &&& r is Ok ==> final(self).wf() && final(self).store()
                            == store_set_col_selected(store_swap_tasks(m0, a, i, i + 1), a, i + 1)
                        &&& r is Err ==> final(self).store() == m0 || final(self).store()
                            == store_swap_tasks(m0, a, i, i + 1)
                    } else {
                        r is Ok && *final(self) == *old(self)
                    },
                    None => r is Ok && *final(self) == *old(self),
                }
            }),
    {
        self.move_task(true)
    }

    /// Swaps the selected task with its neighbour below (`is_down`) or above,
    /// in memory and — through one atomic rank exchange — in the store, then
    /// persists the cursor that followed the task.
    fn move_task(&mut self, is_down: bool) -> (r: Result<(), StoreError>)
        requires
            old(self).wf(),
        ensures
            final(self).wf_mem(),
            final(self).same_frame(*old(self)),
            final(self).selected_column_idx == old(self).selected_column_idx,
            ({
                let b0 = old(self).board();
                let a = b0.active;
                let m0 = old(self).store();
                let n = old(self).active_col().tasks.len() as int;
                match old(self).active_col().selected {
                    Some(i) => {
                        let j = if is_down {
                            i + 1
                        } else {
                            i - 1
                        };
                        if (is_down && i + 1 < n) || (!is_down && i > 0) {
                            &&& final(self).board() == board_set_cursor(
                                board_swap_tasks(b0, a, i, j),
                                a,
                                Some(j),
                            )
                            &&& r is Ok ==> final(self).wf() && final(self).store()
                                == store_set_col_selected(store_swap_tasks(m0, a, i, j), a, j)
                            &&& r is Err ==> final(self).store() == m0 || final(self).store()
                                == store_swap_tasks(m0, a, i, j)
                        } else {
                            r is Ok && *final(self) == *old(self)
                        }
                    },
                    None => r is Ok && *final(self) == *old(self),
                }
            }),
    {
        let ghost b0 = self.board();
        let ghost m0 = self.store();
        let a = self.selected_column_idx;
        let col0 = self.get_selected_column();
        let n = col0.tasks.len();
        proof {
            assert(col0.wf());
        }
        let i = match col0.selected_task {
            Some(i) => i,
            None => {
                return Ok(());
            },
        };
        if !is_down && i == 0 {
            return Ok(());
        }
        if is_down && i + 1 >= n {
            return Ok(());
        }
        let j: usize = if is_down {
            i + 1
        } else {
            i - 1
        };
        let col = self.get_selected_column_mut();
        let t1_id: i64 = col.tasks[i].id;
        let t2_id: i64 = col.tasks[j].id;
        let t = col.tasks.remove(i);
        col.tasks.insert(j, t);
        col.selected_task = Some(j);
        let col_id: i64 = col.id;
        proof {
            let s0 = old(self).columns@[a as int].tasks@;
            lemma_remove_insert_swaps(s0, i as int, j as int);
            assert(self.columns@[a as int].tasks@ =~= s0.update(i as int, s0[j as int]).update(
                j as int,
                s0[i as int],
            ));
            assert(self.board().columns[a as int].tasks =~= board_swap_tasks(
                b0,
                a as int,
                i as int,
                j as int,
            ).columns[a as int].tasks);
            assert(self.board() =~~= board_set_cursor(
                board_swap_tasks(b0, a as int, i as int, j as int),
                a as int,
                Some(j as int),
            ));
            assert(self.wf_mem());
            assert(b0.columns[a as int] == load_column(m0.columns[a as int]));
            assert(has_task_at(m0, a as int, i as int, t1_id as int));
            assert(has_task_at(m0, a as int, j as int, t2_id as int));
        }
        let r1 = self.db_conn.swap_task_order(t1_id, t2_id);
        match r1 {
            Ok(_) => {},
            Err(e) => {
                return Err(StoreError::Sql(e));
            },
        }
        proof {
            assert(self.store() == store_swap_tasks(m0, a as int, i as int, j as int));
            assert(self.store().columns[a as int].id == col_id as int);
            assert(has_column_at(self.store(), a as int, col_id as int));
            assert(m0.columns[a as int].tasks.len() <= crate::model::MAX_STORE_ROWS);
        }
        let ghost m1 = self.store();
        let r2 = self.db_conn.set_selected_task_for_column(j, col_id);
        match r2 {
            Ok(_) => {},
            Err(e) => {
                return Err(StoreError::Sql(e));
            },
        }
        proof {
            assert(self.store() == store_set_col_selected(m1, a as int, j as int));
            assert forall|k: int| 0 <= k < self.board().columns.len() implies #[trigger] self
                .board().columns[k] =~~= load_column(self.store().columns[k]) by {
                assert(b0.columns[k] == load_column(m0.columns[k]));
            }
            lemma_board_eq(self.board(), self.store());
        }
        Ok(())
    }
}

impl State {
    /// Creates a task from the given title and description: the store
    /// assigns it an identity and a rank past the column's maximum, memory
    /// appends it at the end of the active column, and the cursor moves onto
    /// it and is persisted.
    pub fn add_new_task(&mut self, title: String, description: String) -> (r: Result<
        (),
        StoreError,
    >)
        requires
            old(self).wf(),
        ensures
            final(self).wf_mem(),
            final(self).same_frame(*old(self)),
            final(self).selected_column_idx == old(self).selected_column_idx,
            r is Ok ==> ({
                let b0 = old(self).board();
                let a = b0.active;
                let m0 = old(self).store();
                let n = old(self).active_col().tasks.len() as int;
                exists|t: StoreTask|
                    #![trigger board_add_task(b0, a, t)]
                    {
                        &&& t.title == title@
                        &&& t.description == description@
                        &&& final(self).board() == board_set_cursor(
                            board_add_task(b0, a, t),
                            a,
                            Some(n),
                        )
                        &&& final(self).store() == store_set_col_selected(
                            store_add_task(m0, a, t),
                            a,
                            n,
                        )
                        &&& final(self).wf()
                    }
            }),
            r is Err ==> ({
                let b0 = old(self).board();
                let a = b0.active;
                let m0 = old(self).store();
                let n = old(self).active_col().tasks.len() as int;
                ||| final(self).board() == b0 && final(self).store() == m0
                ||| exists|t: StoreTask|
                    #![trigger board_add_task(b0, a, t)]
                    {
                        &&& t.title == title@
                        &&& t.description == description@
                        &&& final(self).board() == board_set_cursor(
                            board_add_task(b0, a, t),
                            a,
                            Some(n),
                        )
                        &&& final(self).store() == store_add_task(m0, a, t)
                    }
            }),
    {
        let ghost b0 = self.board();
        let ghost m0 = self.store();
        let a = self.selected_column_idx;
        let col0 = self.get_selected_column();
        let col_id: i64 = col0.id;
        let n = col0.tasks.len();
        proof {
            assert(old(self).wf());
            assert(b0 == load_board(m0));
            assert(b0.columns.len() == m0.columns.len());
            assert((a as int) < b0.columns.len());
            assert(b0.columns[a as int] == load_column(m0.columns[a as int]));
            assert(has_column_at(m0, a as int, col_id as int));
        }
        let task = match self.db_conn.create_new_task(title, description, col_id) {
            Ok(t) => t,
            Err(e) => {
                return Err(StoreError::Sql(e));
            },
        };
        let ghost tview = task@;
        proof {
            assert(self.store() == store_add_task(m0, a as int, tview));
        }
        let ghost m1 = self.store();
        let col = self.get_selected_column_mut();
        col.tasks.push(task);
        col.selected_task = Some(n);
        let col_id2: i64 = col.id;
        proof {
            assert(self.board() =~~= board_set_cursor(
                board_add_task(b0, a as int, tview),
                a as int,
                Some(n as int),
            ));
            assert(self.wf_mem());
            assert(m1.columns[a as int].tasks.len() <= crate::model::MAX_STORE_ROWS);
            assert(has_column_at(m1, a as int, col_id2 as int));
        }
        match self.db_conn.set_selected_task_for_column(n, col_id2) {
            Ok(_) => {},
            Err(e) => {
                return Err(StoreError::Sql(e));
            },
        }
        proof {
            assert(self.store() == store_set_col_selected(m1, a as int, n as int));
            assert forall|k: int| 0 <= k < self.board().columns.len() implies #[trigger] self
                .board().columns[k] =~~= load_column(self.store().columns[k]) by {
                assert(b0.columns[k] == load_column(m0.columns[k]));
            }
            lemma_board_eq(self.board(), self.store());
        }
        Ok(())
    }

    /// Overwrites the selected task's title and description, in memory and in
    /// the store, keyed by the task's identity; a no-op on an empty column.
    pub fn edit_task(&mut self, title: String, description: String) -> (r: Result<(), StoreError>)
        requires
            old(self).wf(),
        ensures
            final(self).wf_mem(),
            final(self).same_frame(*old(self)),
            final(self).selected_column_idx == old(self).selected_column_idx,
            ({
                let b0 = old(self).board();
                let a = b0.active;
                let m0 = old(self).store();
                match old(self).active_col().selected {
                    None => r is Ok && *final(self) == *old(self),
                    Some(i) => {
                        &&& final(self).board() == board_update_text(b0, a, i, title@, description@)
                        &&& r is Ok ==> final(self).wf() && final(self).store()
                            == store_update_text(m0, a, i, title@, description@)
                        &&& r is Err ==> final(self).store() == old(self).store()
                    },
                }
            }),
    {
        let ghost b0 = self.board();
        let ghost m0 = self.store();
        let a = self.selected_column_idx;
        let col0 = self.get_selected_column();
        let i = match col0.selected_task {
            Some(i) => i,
            None => {
                return Ok(());
            },
        };
        proof {
            assert(col0.wf());
            assert(old(self).wf());
            assert(b0 == load_board(m0));
            assert(b0.columns.len() == m0.columns.len());
            assert((a as int) < b0.columns.len());
        }
        let col = self.get_selected_column_mut();
        let id: i64 = col.tasks[i].id;
        let t_store = Task { id, title: title.clone(), description: description.clone() };
        col.tasks[i] = Task { id, title, description };
        proof {
            assert(self.board() =~~= board_update_text(
                b0,
                a as int,
                i as int,
                t_store.title@,
                t_store.description@,
            ));
            assert(self.wf_mem());
            assert(b0.columns[a as int] == load_column(m0.columns[a as int]));
            assert(has_task_at(m0, a as int, i as int, id as int));
            assert(store_of(self.db_conn.conn) == m0);
            assert(has_task_at(store_of(self.db_conn.conn), a as int, i as int, t_store.id as int));
        }
        match self.db_conn.update_task_text(&t_store) {
            Ok(_) => {},
            Err(e) => {
                return Err(StoreError::Sql(e));
            },
        }
        proof {
            assert(self.store() == store_update_text(
                m0,
                a as int,
                i as int,
                t_store.title@,
                t_store.description@,
            ));
            assert forall|k: int| 0 <= k < self.board().columns.len() implies #[trigger] self
                .board().columns[k] =~~= load_column(self.store().columns[k]) by {
                assert(b0.columns[k] == load_column(m0.columns[k]));
            }
            lemma_board_eq(self.board(), self.store());
        }
        Ok(())
    }

    /// Removes the selected task from memory and from the store, repairs the
    /// cursor — onto the task that followed, else the one before, else absent
    /// — and persists the repaired cursor; a no-op on an empty column.
    pub fn delete_task(&mut self) -> (r: Result<(), StoreError>)
        requires
            old(self).wf(),
        ensures
            final(self).wf_mem(),
            final(self).same_frame(*old(self)),
            final(self).selected_column_idx == old(self).selected_column_idx,
            ({
                let b0 = old(self).board();
                let a = b0.active;
                let m0 = old(self).store();
                let n = old(self).active_col().tasks.len() as int;
                match old(self).active_col().selected {
                    None => r is Ok && *final(self) == *old(self),
                    Some(i) => {
                        let cur2 = cursor_after_remove(i, n - 1);
                        &&& final(self).board() == board_set_cursor(
                            board_remove_task(b0, a, i),
                            a,
                            cur2,
                        )
                        &&& r is Ok ==> final(self).wf() && final(self).store()
                            == store_set_col_selected(
                            store_remove_task(m0, a, i),
                            a,
                            stored_cursor(cur2),
                        )
                        &&& r is Err ==> final(self).store() == m0 || final(self).store()
                            == store_remove_task(m0, a, i)
                    },
                }
            }),
    {
        let ghost b0 = self.board();
        let ghost m0 = self.store();
        let a = self.selected_column_idx;
        let col0 = self.get_selected_column();
        let n = col0.tasks.len();
        let i = match col0.selected_task {
            Some(i) => i,
            None => {
                return Ok(());
            },
        };
        proof {
            assert(col0.wf());
            assert(old(self).wf());
            assert(b0 == load_board(m0));
            assert(b0.columns.len() == m0.columns.len());
            assert((a as int) < b0.columns.len());
        }
        let col = self.get_selected_column_mut();
        let task_id: i64 = col.tasks[i].id;
        let col_id: i64 = col.id;
        col.tasks.remove(i);
        let new_cur: Option<usize> = if n - 1 == 0 {
            None
        } else if i < n - 1 {
            Some(i)
        } else {
            Some(n - 2)
        };
        col.selected_task = new_cur;
        proof {
            assert(self.board() =~~= board_set_cursor(
                board_remove_task(b0, a as int, i as int),
                a as int,
                opt_index(new_cur),
            ));
            assert(opt_index(new_cur) == cursor_after_remove(i as int, n as int - 1));
            assert(self.wf_mem());
            assert(b0.columns[a as int] == load_column(m0.columns[a as int]));
            assert(has_task_at(m0, a as int, i as int, task_id as int));
        }
        match self.db_conn.delete_task(task_id) {
            Ok(_) => {},
            Err(e) => {
                return Err(StoreError::Sql(e));
            },
        }
        proof {
            assert(self.store() == store_remove_task(m0, a as int, i as int));
            assert(has_column_at(self.store(), a as int, col_id as int));
        }
        let idx: usize = match new_cur {
            Some(c) => c,
            None => 0,
        };
        let ghost m1 = self.store();
        match self.db_conn.set_selected_task_for_column(idx, col_id) {
            Ok(_) => {},
            Err(e) => {
                return Err(StoreError::Sql(e));
            },
        }
        proof {
            assert(self.store() == store_set_col_selected(m1, a as int, idx as int));
            assert forall|k: int| 0 <= k < self.board().columns.len() implies #[trigger] self
                .board().columns[k] =~~= load_column(self.store().columns[k]) by {
                assert(b0.columns[k] == load_column(m0.columns[k]));
            }
            lemma_board_eq(self.board(), self.store());
        }
        Ok(())
    }
}

impl State {
    /// Moves the selected task to the end of the column on the left, the
    /// cursors following it; a no-op on the first column or an empty column.
    pub fn move_task_column_left(&mut self) -> (r: Result<(), StoreError>)
        requires
            old(self).wf(),
        ensures
            final(self).wf_mem(),
            final(self).same_frame(*old(self)),
            ({
                let b0 = old(self).board();
                let a = b0.active;
                let m0 = old(self).store();
                let d = a - 1;
                match old(self).active_col().selected {
                    None => r is Ok && *final(self) == *old(self),
                    Some(i) => if a > 0 {
                        &&& r is Ok ==> final(self).board() == board_transfer_task(b0, a, i, d)
                            && final(self).wf() && final(self).store() == store_transfer_task(
                            m0,
                            a,
                            i,
                            d,
                        )
                        &&& r is Err ==> transfer_interrupted(
                            b0,
                            m0,
                            final(self).board(),
                            final(self).store(),
                            a,
                            i,
                            d,
                        )
                    } else {
                        r is Ok && *final(self) == *old(self)
                    },
                }
            }),
    {
        self.move_task_to_column(false)
    }

    /// Moves the selected task to the end of the column on the right, the
    /// cursors following it; a no-op on the last column or an empty column.
    pub fn move_task_column_right(&mut self) -> (r: Result<(), StoreError>)
        requires
            old(self).wf(),
        ensures
            final(self).wf_mem(),
            final(self).same_frame(*old(self)),
            ({
                let b0 = old(self).board();
                let a = b0.active;
                let m0 = old(self).store();
                let d = a + 1;
                match old(self).active_col().selected {
                    None => r is Ok && *final(self) == *old(self),
                    Some(i) => if a + 1 < b0.columns.len() {
                        &&& r is Ok ==> final(self).board() == board_transfer_task(b0, a, i, d)
                            && final(self).wf() && final(self).store() == store_transfer_task(
                            m0,
                            a,
                            i,
                            d,
                        )
                        &&& r is Err ==> transfer_interrupted(
                            b0,
                            m0,
                            final(self).board(),
                            final(self).store(),
                            a,
                            i,
                            d,
                        )
                    } else {
                        r is Ok && *final(self) == *old(self)
                    },
                }
            }),
    {
        self.move_task_to_column(true)
    }

    /// Transfers the selected task to the neighbouring column: the source
    /// loses it and repairs its cursor, the active column switches, the
    /// destination appends and selects it, and each step is persisted — the
    /// relocation and destination cursor through one combined store call.
    fn move_task_to_column(&mut self, move_right: bool) -> (r: Result<(), StoreError>)
        requires
            old(self).wf(),
        ensures
            final(self).wf_mem(),
            final(self).same_frame(*old(self)),
            ({
                let b0 = old(self).board();
                let a = b0.active;
                let m0 = old(self).store();
                let can = if move_right {
                    a + 1 < b0.columns.len()
                } else {
                    a > 0
                };
                let d = if move_right {
                    a + 1
                } else {
                    a - 1
                };
                match old(self).active_col().selected {
                    None => r is Ok && *final(self) == *old(self),
                    Some(i) => if can {
                        &&& r is Ok ==> final(self).board() == board_transfer_task(b0, a, i, d)
                            && final(self).wf() && final(self).store() == store_transfer_task(
                            m0,
                            a,
                            i,
                            d,
                        )
                        &&& r is Err ==> transfer_interrupted(
                            b0,
                            m0,
                            final(self).board(),
                            final(self).store(),
                            a,
                            i,
                            d,
                        )
                    } else {
                        r is Ok && *final(self) == *old(self)
                    },
                }
            }),
    {
        let ghost b0 = self.board();
        let ghost m0 = self.store();
        let a = self.selected_column_idx;
        let ncols = self.columns.len();
        let can: bool = if move_right {
            a + 1 < ncols
        } else {
            a > 0
        };
        let col0 = self.get_selected_column();
        let n = col0.tasks.len();
        proof {
            assert(col0.wf());
        }
        let i = match col0.selected_task {
            Some(i) => i,
            None => {
                return Ok(());
            },
        };
        if !can {
            return Ok(());
        }
        let d: usize = if move_right {
            a + 1
        } else {
            a - 1
        };
        proof {
            assert(old(self).wf());
            assert(b0 == load_board(m0));
            assert(b0.columns.len() == m0.columns.len());
            assert((a as int) < b0.columns.len());
            assert((d as int) < b0.columns.len());
            assert(b0.columns[a as int] == load_column(m0.columns[a as int]));
            assert(b0.columns[d as int] == load_column(m0.columns[d as int]));
        }
        let col = self.get_selected_column_mut();
        let src_id: i64 = col.id;
        let t: Task = col.tasks.remove(i);
        let new_src_cur: Option<usize> = if n - 1 == 0 {
            None
        } else if i < n - 1 {
            Some(i)
        } else {
            Some(n - 2)
        };
        col.selected_task = new_src_cur;
        let was_last: bool = i == n - 1;
        let ghost tview = t@;
        let ghost src_cur = cursor_after_remove(i as int, n as int - 1);
        let ghost b_removed = board_set_cursor(
            board_remove_task(b0, a as int, i as int),
            a as int,
            src_cur,
        );
        proof {
            assert(tview == m0.columns[a as int].tasks[i as int]);
            assert(self.wf_mem());
            assert(has_column_at(m0, a as int, src_id as int));
            assert(self.board() =~~= b_removed);
        }
        if was_last {
            let idx0: usize = match new_src_cur {
                Some(c) => c,
                None => 0,
            };
            match self.db_conn.set_selected_task_for_column(idx0, src_id) {
                Ok(_) => {},
                Err(e) => {
                    proof {
                        assert(transfer_interrupted(
                            b0,
                            m0,
                            self.board(),
                            self.store(),
                            a as int,
                            i as int,
                            d as int,
                        ));
                    }
                    return Err(StoreError::Sql(e));
                },
            }
        }
        let ghost m_src = self.store();
        proof {
            assert(store_wf(m_src));
            assert(m_src == if i as int == n as int - 1 {
                store_set_col_selected(m0, a as int, stored_cursor(src_cur))
            } else {
                m0
            });
        }
        self.selected_column_idx = d;
        match self.db_conn.set_selected_column(d) {
            Ok(_) => {},
            Err(e) => {
                proof {
                    assert(self.board() =~~= BoardView { active: d as int, ..b_removed });
                    assert(transfer_interrupted(
                        b0,
                        m0,
                        self.board(),
                        self.store(),
                        a as int,
                        i as int,
                        d as int,
                    ));
                }
                return Err(StoreError::Sql(e));
            },
        }
        let ghost m_act = self.store();
        proof {
            assert(m_act == store_set_active(m_src, d as int));
            assert(m_act.columns == m_src.columns);
            assert(store_wf(m_act));
            assert(self.wf_mem());
        }
        let dcol = self.get_selected_column_mut();
        let dlen = dcol.tasks.len();
        dcol.tasks.push(t);
        dcol.selected_task = Some(dlen);
        let ghost bf = self.board();
        proof {
            assert(bf =~~= board_transfer_task(b0, a as int, i as int, d as int));
            assert(self.wf_mem());
            assert(has_task_at(m_act, a as int, i as int, tview.id));
            assert(has_column_at(m_act, d as int, m0.columns[d as int].id));
            assert(self.columns@[d as int].id as int == m0.columns[d as int].id);
            assert(m_act.columns[d as int].tasks.len() <= crate::model::MAX_STORE_ROWS);
        }
        match self.db_conn.move_task_to_column(&self.columns[d].tasks[dlen], &self.columns[d]) {
            Ok(_) => {},
            Err(e) => {
                proof {
                    assert(self.store() == m_act || self.store() == store_relocate_task(
                        m_act,
                        a as int,
                        i as int,
                        d as int,
                    ));
                    assert(self.board() == bf);
                    assert(transfer_interrupted(
                        b0,
                        m0,
                        self.board(),
                        self.store(),
                        a as int,
                        i as int,
                        d as int,
                    ));
                }
                return Err(StoreError::Sql(e));
            },
        }
        proof {
            let mf = self.store();
            assert(self.columns@[d as int].tasks@[dlen as int]@ == tview);
            assert(mf == store_set_col_selected(
                store_relocate_task(m_act, a as int, i as int, d as int),
                d as int,
                dlen as int,
            ));
            assert(mf == store_transfer_task(m0, a as int, i as int, d as int));
            assert(self.board() == bf);
            assert forall|k: int| 0 <= k < bf.columns.len() implies #[trigger] bf.columns[k] =~~= load_column(
                mf.columns[k],
            ) by {
                assert(b0.columns[k] == load_column(m0.columns[k]));
                if k == a as int {
                    assert(mf.columns[k].tasks == m0.columns[k].tasks.remove(i as int));
                } else if k == d as int {
                    assert(mf.columns[k].tasks == m0.columns[k].tasks.push(tview));
                }
            }
            lemma_board_eq(bf, mf);
        }
        Ok(())
    }
}

} // verus!
