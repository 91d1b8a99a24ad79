//! Mathematical model of the board and of its durable store.
//!
//! The store keeps, for every column, the tasks in rank order together with a
//! persisted selection value, plus one global active-column index.  The
//! in-memory board mirrors the same data, except that each column's cursor is
//! an explicit optional index rather than a raw persisted integer.

use vstd::prelude::*;

verus! {

/// SQLite assigns every task row a distinct positive 64-bit rowid, so no
/// column can ever hold more rows than there are such ids.
pub const MAX_STORE_ROWS: u64 = 0x7fff_ffff_ffff_ffff;

/// Image of one task row: identity, title, description.
#[verifier::ext_equal]
pub ghost struct StoreTask {
    pub id: int,
    pub title: Seq<char>,
    pub description: Seq<char>,
}

/// Image of one column as the store holds it: identity, display name, the
/// persisted selection value, and the tasks in rank order.
#[verifier::ext_equal]
pub ghost struct StoreColumn {
    pub id: int,
    pub name: Seq<char>,
    pub selected: int,
    pub tasks: Seq<StoreTask>,
}

/// Everything the store persists: the active-column index and the columns in
/// board order.
#[verifier::ext_equal]
pub ghost struct StoreModel {
    pub active: int,
    pub columns: Seq<StoreColumn>,
}

/// In-memory image of a column: the cursor is an explicit optional index.
#[verifier::ext_equal]
pub ghost struct ColumnView {
    pub id: int,
    pub name: Seq<char>,
    pub selected: Option<int>,
    pub tasks: Seq<StoreTask>,
}

/// In-memory image of the whole board.
#[verifier::ext_equal]
pub ghost struct BoardView {
    pub active: int,
    pub columns: Seq<ColumnView>,
}

/// Clamp a raw persisted index into `[0, len - 1]`.
pub open spec fn clamp_index(raw: int, len: int) -> int {
    if raw < 0 {
        0
    } else if raw >= len {
        len - 1
    } else {
        raw
    }
}

/// A persisted selection value turned into a cursor: absent on an empty
/// sequence, otherwise clamped to a valid index.
pub open spec fn load_cursor(raw: int, len: int) -> Option<int> {
    if len == 0 {
        None
    } else {
        Some(clamp_index(raw, len))
    }
}

/// The in-memory column that loading one stored column produces.
pub open spec fn load_column(c: StoreColumn) -> ColumnView {
    ColumnView {
        id: c.id,
        name: c.name,
        selected: load_cursor(c.selected, c.tasks.len() as int),
        tasks: c.tasks,
    }
}

/// The in-memory board that loading the whole store produces.
pub open spec fn load_board(m: StoreModel) -> BoardView {
    BoardView {
        active: clamp_index(m.active, m.columns.len() as int),
        columns: Seq::new(m.columns.len(), |i: int| load_column(m.columns[i])),
    }
}

/// The cursor one step up: it saturates at the first task and stays absent
/// on an empty column.
pub open spec fn cursor_up(cur: Option<int>) -> Option<int> {
    match cur {
        Some(i) => Some(if i <= 0 { 0int } else { i - 1 }),
        None => None,
    }
}

/// The cursor one step down: it saturates at the last task and stays absent
/// on an empty column.
pub open spec fn cursor_down(cur: Option<int>, len: int) -> Option<int> {
    match cur {
        Some(i) => Some(if i + 1 >= len { len - 1 } else { i + 1 }),
        None => None,
    }
}

/// The cursor on the first task, or absent when there is none.
pub open spec fn cursor_first(len: int) -> Option<int> {
    if len == 0 {
        None
    } else {
        Some(0int)
    }
}

/// The cursor on the last task, or absent when there is none.
pub open spec fn cursor_last(len: int) -> Option<int> {
    if len == 0 {
        None
    } else {
        Some(len - 1)
    }
}

/// The board after column `ci`'s cursor is overwritten.
pub open spec fn board_set_cursor(b: BoardView, ci: int, cur: Option<int>) -> BoardView
    recommends
        0 <= ci < b.columns.len(),
{
    BoardView { columns: b.columns.update(ci, ColumnView { selected: cur, ..b.columns[ci] }), ..b }
}

/// The board after the tasks at positions `p1` and `p2` of column `ci` are
/// exchanged; every other task keeps its place.
pub open spec fn board_swap_tasks(b: BoardView, ci: int, p1: int, p2: int) -> BoardView
    recommends
        0 <= ci < b.columns.len(),
        0 <= p1 < b.columns[ci].tasks.len(),
        0 <= p2 < b.columns[ci].tasks.len(),
{
    BoardView {
        columns: b.columns.update(
            ci,
            ColumnView {
                tasks: b.columns[ci].tasks.update(p1, b.columns[ci].tasks[p2]).update(
                    p2,
                    b.columns[ci].tasks[p1],
                ),
                ..b.columns[ci]
            },
        ),
        ..b
    }
}

/// The in-memory cursor as an optional mathematical index.
pub open spec fn opt_index(cur: Option<usize>) -> Option<int> {
    match cur {
        Some(i) => Some(i as int),
        None => None,
    }
}

/// The integer the store keeps for a cursor: the index when one is selected,
/// zero for the absent cursor of an empty column.
pub open spec fn stored_cursor(cur: Option<int>) -> int {
    match cur {
        Some(c) => c,
        None => 0,
    }
}

/// Where the cursor stands after the task at `i` is removed leaving
/// `new_len` tasks: on the task that followed, else the one before, else
/// absent.
pub open spec fn cursor_after_remove(i: int, new_len: int) -> Option<int> {
    if new_len == 0 {
        None
    } else if i < new_len {
        Some(i)
    } else {
        Some(new_len - 1)
    }
}

/// The board after the task at position `p` of column `ci` is removed; the
/// cursor is left to the caller to repair.
pub open spec fn board_remove_task(b: BoardView, ci: int, p: int) -> BoardView
    recommends
        0 <= ci < b.columns.len(),
        0 <= p < b.columns[ci].tasks.len(),
{
    BoardView {
        columns: b.columns.update(
            ci,
            ColumnView { tasks: b.columns[ci].tasks.remove(p), ..b.columns[ci] },
        ),
        ..b
    }
}

/// The board after task `t` is appended at the end of column `ci`.
pub open spec fn board_add_task(b: BoardView, ci: int, t: StoreTask) -> BoardView
    recommends
        0 <= ci < b.columns.len(),
{
    BoardView {
        columns: b.columns.update(
            ci,
            ColumnView { tasks: b.columns[ci].tasks.push(t), ..b.columns[ci] },
        ),
        ..b
    }
}

/// The board after the task at position `p` of column `ci` gets a new title
/// and description; its identity and position are kept.
pub open spec fn board_update_text(
    b: BoardView,
    ci: int,
    p: int,
    title: Seq<char>,
    description: Seq<char>,
) -> BoardView
    recommends
        0 <= ci < b.columns.len(),
        0 <= p < b.columns[ci].tasks.len(),
{
    BoardView {
        columns: b.columns.update(
            ci,
            ColumnView {
                tasks: b.columns[ci].tasks.update(
                    p,
                    StoreTask {
                        id: b.columns[ci].tasks[p].id,
                        title,
                        description,
                    },
                ),
                ..b.columns[ci]
            },
        ),
        ..b
    }
}

/// The board after the task at position `i` of column `a` moves to the end
/// of column `d`: the source loses it and repairs its cursor, the
/// destination appends it and selects it, and column `d` becomes active.
pub open spec fn board_transfer_task(b0: BoardView, a: int, i: int, d: int) -> BoardView
    recommends
        0 <= a < b0.columns.len(),
        0 <= i < b0.columns[a].tasks.len(),
        0 <= d < b0.columns.len(),
        a != d,
{
    let t = b0.columns[a].tasks[i];
    let n = b0.columns[a].tasks.len() as int;
    let dlen = b0.columns[d].tasks.len() as int;
    let b1 = board_set_cursor(board_remove_task(b0, a, i), a, cursor_after_remove(i, n - 1));
    let b2 = board_set_cursor(board_add_task(b1, d, t), d, Some(dlen));
    BoardView { active: d, ..b2 }
}

/// The store after the same transfer: the source cursor is re-persisted only
/// when the removed task was its column's last, then the new active column,
/// the relocation itself, and the destination cursor are persisted in turn.
pub open spec fn store_transfer_task(m0: StoreModel, a: int, i: int, d: int) -> StoreModel
    recommends
        0 <= a < m0.columns.len(),
        0 <= i < m0.columns[a].tasks.len(),
        0 <= d < m0.columns.len(),
        a != d,
{
    let n = m0.columns[a].tasks.len() as int;
    let src_cur = cursor_after_remove(i, n - 1);
    let m_src = if i == n - 1 {
        store_set_col_selected(m0, a, stored_cursor(src_cur))
    } else {
        m0
    };
    let m_act = store_set_active(m_src, d);
    let m_rel = store_relocate_task(m_act, a, i, d);
    store_set_col_selected(m_rel, d, m0.columns[d].tasks.len() as int)
}

/// The states a transfer can be left in when a persistence call fails before
/// the sequence completes: the in-memory board `bf` and the store `mf` then
/// stand at one of the three reachable intermediate points.  In the first
/// two the task is already gone from memory while the store still holds it
/// in the source column — the divergence the design accepts on failure.
pub open spec fn transfer_interrupted(
    b0: BoardView,
    m0: StoreModel,
    bf: BoardView,
    mf: StoreModel,
    a: int,
    i: int,
    d: int,
) -> bool
    recommends
        0 <= a < b0.columns.len(),
        0 <= i < b0.columns[a].tasks.len(),
        0 <= d < b0.columns.len(),
        a != d,
{
    let n = b0.columns[a].tasks.len() as int;
    let src_cur = cursor_after_remove(i, n - 1);
    let b_removed = board_set_cursor(board_remove_task(b0, a, i), a, src_cur);
    let m_src = if i == n - 1 {
        store_set_col_selected(m0, a, stored_cursor(src_cur))
    } else {
        m0
    };
    let m_act = store_set_active(m_src, d);
    ||| bf == b_removed && mf == m0
    ||| bf == BoardView { active: d, ..b_removed } && mf == m_src
    ||| bf == board_transfer_task(b0, a, i, d) && (mf == m_act || mf == store_relocate_task(
        m_act,
        a,
        i,
        d,
    ))
}

/// Column identities are unique: they are the store's primary keys.
pub open spec fn column_ids_unique(m: StoreModel) -> bool {
    forall|i: int, j: int|
        #![trigger m.columns[i].id, m.columns[j].id]
        0 <= i < m.columns.len() && 0 <= j < m.columns.len() && m.columns[i].id
            == m.columns[j].id ==> i == j
}

/// Task identities are unique across the whole board.
pub open spec fn task_ids_unique(m: StoreModel) -> bool {
    forall|c1: int, t1: int, c2: int, t2: int|
        #![trigger m.columns[c1].tasks[t1], m.columns[c2].tasks[t2]]
        0 <= c1 < m.columns.len() && 0 <= t1 < m.columns[c1].tasks.len() && 0 <= c2
            < m.columns.len() && 0 <= t2 < m.columns[c2].tasks.len() && m.columns[c1].tasks[t1].id
            == m.columns[c2].tasks[t2].id ==> c1 == c2 && t1 == t2
}

/// Every column holds at most as many rows as there are distinct row ids.
pub open spec fn columns_sized(m: StoreModel) -> bool {
    forall|i: int|
        0 <= i < m.columns.len() ==> #[trigger] m.columns[i].tasks.len() <= MAX_STORE_ROWS
}

/// What always holds of the store under this schema.
pub open spec fn store_wf(m: StoreModel) -> bool {
    &&& column_ids_unique(m)
    &&& task_ids_unique(m)
    &&& columns_sized(m)
}

/// The column at index `ci` has identity `id`.
pub open spec fn has_column_at(m: StoreModel, ci: int, id: int) -> bool {
    0 <= ci < m.columns.len() && m.columns[ci].id == id
}

/// The task at position `p` of the column at index `ci` has identity `id`.
pub open spec fn has_task_at(m: StoreModel, ci: int, p: int, id: int) -> bool {
    &&& 0 <= ci < m.columns.len()
    &&& 0 <= p < m.columns[ci].tasks.len()
    &&& m.columns[ci].tasks[p].id == id
}

/// The store after the active-column index is overwritten.
pub open spec fn store_set_active(m: StoreModel, a: int) -> StoreModel {
    StoreModel { active: a, ..m }
}

/// The store after column `ci`'s selection value is overwritten with `s`.
pub open spec fn store_set_col_selected(m: StoreModel, ci: int, s: int) -> StoreModel
    recommends
        0 <= ci < m.columns.len(),
{
    StoreModel {
        columns: m.columns.update(ci, StoreColumn { selected: s, ..m.columns[ci] }),
        ..m
    }
}

/// The store after task `t` is appended at the end of column `ci`.
pub open spec fn store_add_task(m: StoreModel, ci: int, t: StoreTask) -> StoreModel
    recommends
        0 <= ci < m.columns.len(),
{
    StoreModel {
        columns: m.columns.update(
            ci,
            StoreColumn { tasks: m.columns[ci].tasks.push(t), ..m.columns[ci] },
        ),
        ..m
    }
}

/// The store after the task at position `p` of column `ci` is removed.
pub open spec fn store_remove_task(m: StoreModel, ci: int, p: int) -> StoreModel
    recommends
        0 <= ci < m.columns.len(),
        0 <= p < m.columns[ci].tasks.len(),
{
    StoreModel {
        columns: m.columns.update(
            ci,
            StoreColumn { tasks: m.columns[ci].tasks.remove(p), ..m.columns[ci] },
        ),
        ..m
    }
}

/// The store after the task at position `p` of column `ci` gets a new title
/// and description; its identity and position are kept.
pub open spec fn store_update_text(
    m: StoreModel,
    ci: int,
    p: int,
    title: Seq<char>,
    description: Seq<char>,
) -> StoreModel
    recommends
        0 <= ci < m.columns.len(),
        0 <= p < m.columns[ci].tasks.len(),
{
    StoreModel {
        columns: m.columns.update(
            ci,
            StoreColumn {
                tasks: m.columns[ci].tasks.update(
                    p,
                    StoreTask {
                        id: m.columns[ci].tasks[p].id,
                        title,
                        description,
                    },
                ),
                ..m.columns[ci]
            },
        ),
        ..m
    }
}

/// The store after the tasks at positions `p1` and `p2` of column `ci`
/// exchange their rank values: exactly those two positions are swapped.
pub open spec fn store_swap_tasks(m: StoreModel, ci: int, p1: int, p2: int) -> StoreModel
    recommends
        0 <= ci < m.columns.len(),
        0 <= p1 < m.columns[ci].tasks.len(),
        0 <= p2 < m.columns[ci].tasks.len(),
{
    StoreModel {
        columns: m.columns.update(
            ci,
            StoreColumn {
                tasks: m.columns[ci].tasks.update(p1, m.columns[ci].tasks[p2]).update(
                    p2,
                    m.columns[ci].tasks[p1],
                ),
                ..m.columns[ci]
            },
        ),
        ..m
    }
}

/// The store after the task at position `p` of column `ci` is moved to the
/// end of column `di`: removed from its source, appended at the destination.
pub open spec fn store_relocate_task(m: StoreModel, ci: int, p: int, di: int) -> StoreModel
    recommends
        0 <= ci < m.columns.len(),
        0 <= p < m.columns[ci].tasks.len(),
        0 <= di < m.columns.len(),
{
    let t = m.columns[ci].tasks[p];
    let removed = store_remove_task(m, ci, p);
    StoreModel {
        columns: removed.columns.update(
            di,
            StoreColumn { tasks: removed.columns[di].tasks.push(t), ..removed.columns[di] },
        ),
        ..removed
    }
}

} // verus!
