use kanban_tui::State;
use kanban_tui::StoreError;
use kanban_tui::TaskEditFocus;
use kanban_tui::TaskState;
use kanban_tui::cycle_focus;
use rusqlite::Connection;

fn schema(conn: &Connection) {
    conn.execute_batch(
        "create table kb_column (
             id integer primary key,
             name text not null,
             selected_task integer not null default 0
         );
         create table task (
             id integer primary key,
             title text not null,
             description text not null,
             column_id integer not null,
             sort_order integer
         );
         create table app_state (key text primary key, value text not null);",
    )
    .unwrap();
}

fn four_column_connection() -> Connection {
    let conn = Connection::open_in_memory().unwrap();
    schema(&conn);
    conn.execute_batch(
        "insert into kb_column(name) values ('Todo'), ('In Progress'), ('Done'), ('Ideas');
         insert into app_state(key, value) values ('selected_column', '0');",
    )
    .unwrap();
    conn
}

fn two_column_connection() -> Connection {
    let conn = Connection::open_in_memory().unwrap();
    schema(&conn);
    conn.execute_batch(
        "insert into kb_column(name) values ('Todo'), ('Done');
         insert into app_state(key, value) values ('selected_column', '0');",
    )
    .unwrap();
    conn
}

#[test]
fn scenario_two_columns_transfer_and_delete() {
    let mut state = State::new(two_column_connection()).unwrap();
    assert_eq!(state.columns.len(), 2);
    assert_eq!(state.columns[0].name, "Todo");
    assert_eq!(state.columns[1].name, "Done");

    state.add_new_task(String::from("T1"), String::from("D1")).unwrap();
    state.add_new_task(String::from("T2"), String::from("D2")).unwrap();
    assert_eq!(state.columns[0].tasks.len(), 2);
    assert_eq!(state.columns[0].tasks[0].title, "T1");
    assert_eq!(state.columns[0].tasks[1].title, "T2");
    assert_eq!(state.get_selected_task().unwrap().title, "T2");

    state.move_task_column_right().unwrap();
    assert_eq!(state.columns[0].tasks.len(), 1);
    assert_eq!(state.columns[0].tasks[0].title, "T1");
    assert_eq!(state.columns[1].tasks.len(), 1);
    assert_eq!(state.columns[1].tasks[0].title, "T2");
    assert_eq!(state.selected_column_idx, 1);
    assert_eq!(state.get_selected_task().unwrap().title, "T2");

    // T2 is alone in its column, so moving it up changes nothing.
    state.move_task_up().unwrap();
    assert_eq!(state.columns[1].tasks.len(), 1);
    assert_eq!(state.columns[1].tasks[0].title, "T2");
    assert_eq!(state.selected_column_idx, 1);
    assert_eq!(state.get_selected_task().unwrap().title, "T2");

    state.delete_task().unwrap();
    assert_eq!(state.columns[1].tasks.len(), 0);
    assert_eq!(state.columns[1].selected_task, None);
    assert!(state.get_selected_task().is_none());
}

#[test]
fn cursor_stays_in_bounds_for_any_selection_sequence() {
    let mut state = State::new(four_column_connection()).unwrap();
    state.add_new_task(String::from("A"), String::from("")).unwrap();
    state.add_new_task(String::from("B"), String::from("")).unwrap();
    state.add_new_task(String::from("C"), String::from("")).unwrap();
    state.select_column_right().unwrap();
    state.add_new_task(String::from("D"), String::from("")).unwrap();
    state.select_column_left().unwrap();

    for step in 0..32 {
        match step % 6 {
            0 => state.select_task_above().unwrap(),
            1 => state.select_task_below().unwrap(),
            2 => state.select_task_below().unwrap(),
            3 => state.select_first_task().unwrap(),
            4 => state.select_task_above().unwrap(),
            _ => state.select_last_task().unwrap(),
        }
        for col in &state.columns {
            match col.selected_task {
                Some(i) => assert!(i < col.tasks.len()),
                None => assert_eq!(col.tasks.len(), 0),
            }
        }
    }
    // An empty column keeps its absent cursor under every selection move.
    state.select_column_right().unwrap();
    state.select_column_right().unwrap();
    assert_eq!(state.columns[2].tasks.len(), 0);
    state.select_task_above().unwrap();
    state.select_task_below().unwrap();
    state.select_first_task().unwrap();
    state.select_last_task().unwrap();
    assert_eq!(state.columns[2].selected_task, None);
    assert!(state.get_selected_task().is_none());
}

#[test]
fn reload_reproduces_identities_order_and_cursor() {
    let mut state = State::new(four_column_connection()).unwrap();
    for i in 1..6 {
        state.add_new_task(format!("T{i}"), format!("D{i}")).unwrap();
    }
    state.select_task_above().unwrap();
    state.select_task_above().unwrap();

    let ids: Vec<i64> = state.columns[0].tasks.iter().map(|t| t.id).collect();
    let cursor = state.columns[0].selected_task;
    let active = state.selected_column_idx;

    let reloaded = State::new(state.db_conn.conn).unwrap();
    let ids2: Vec<i64> = reloaded.columns[0].tasks.iter().map(|t| t.id).collect();
    assert_eq!(ids, ids2);
    assert_eq!(reloaded.columns[0].selected_task, cursor);
    assert_eq!(reloaded.selected_column_idx, active);
    assert_eq!(reloaded.get_selected_task().unwrap().title, "T3");
}

#[test]
fn boundary_no_ops_change_nothing() {
    let mut state = State::new(four_column_connection()).unwrap();
    state.add_new_task(String::from("T1"), String::from("D1")).unwrap();
    state.add_new_task(String::from("T2"), String::from("D2")).unwrap();
    state.select_first_task().unwrap();

    // The first task cannot move further up.
    state.move_task_up().unwrap();
    assert_eq!(state.columns[0].tasks[0].title, "T1");
    assert_eq!(state.columns[0].tasks[1].title, "T2");
    assert_eq!(state.columns[0].selected_task, Some(0));

    // The first column cannot be left any further.
    state.select_column_left().unwrap();
    assert_eq!(state.selected_column_idx, 0);
    assert_eq!(state.get_selected_task().unwrap().title, "T1");

    // The last task cannot move further down, nor can the last column
    // be exceeded.
    state.select_last_task().unwrap();
    state.move_task_down().unwrap();
    assert_eq!(state.columns[0].tasks[1].title, "T2");
    for _ in 0..5 {
        state.select_column_right().unwrap();
    }
    assert_eq!(state.selected_column_idx, 3);

    let reloaded = State::new(state.db_conn.conn).unwrap();
    assert_eq!(reloaded.selected_column_idx, 3);
    assert_eq!(reloaded.columns[0].tasks[0].title, "T1");
    assert_eq!(reloaded.columns[0].tasks[1].title, "T2");
}

#[test]
fn rank_swap_exchanges_exactly_two_tasks() {
    let mut state = State::new(four_column_connection()).unwrap();
    for i in 1..5 {
        state.add_new_task(format!("T{i}"), format!("D{i}")).unwrap();
    }
    // Cursor is on T4; move it up once: T1 T2 T4 T3.
    state.move_task_up().unwrap();
    let titles: Vec<String> = state.columns[0].tasks.iter().map(|t| t.title.clone()).collect();
    assert_eq!(titles, vec!["T1", "T2", "T4", "T3"]);
    assert_eq!(state.get_selected_task().unwrap().title, "T4");

    // Reloading reproduces the exchanged order: the swap reached the store.
    let reloaded = State::new(state.db_conn.conn).unwrap();
    let titles2: Vec<String> =
        reloaded.columns[0].tasks.iter().map(|t| t.title.clone()).collect();
    assert_eq!(titles2, vec!["T1", "T2", "T4", "T3"]);
    assert_eq!(reloaded.get_selected_task().unwrap().title, "T4");
}

#[test]
fn transfer_appends_last_and_selects_it() {
    let mut state = State::new(four_column_connection()).unwrap();
    state.add_new_task(String::from("S1"), String::from("")).unwrap();
    state.add_new_task(String::from("S2"), String::from("")).unwrap();
    state.select_column_right().unwrap();
    state.add_new_task(String::from("D1"), String::from("")).unwrap();
    state.select_column_left().unwrap();
    state.select_first_task().unwrap();

    state.move_task_column_right().unwrap();
    assert_eq!(state.columns[0].tasks.len(), 1);
    assert_eq!(state.columns[0].tasks[0].title, "S2");
    assert_eq!(state.columns[1].tasks.len(), 2);
    assert_eq!(state.columns[1].tasks[1].title, "S1");
    assert_eq!(state.selected_column_idx, 1);
    assert_eq!(state.columns[1].selected_task, Some(1));
    assert_eq!(state.get_selected_task().unwrap().title, "S1");

    let reloaded = State::new(state.db_conn.conn).unwrap();
    assert_eq!(reloaded.columns[0].tasks.len(), 1);
    assert_eq!(reloaded.columns[1].tasks.len(), 2);
    assert_eq!(reloaded.columns[1].tasks[1].title, "S1");
    assert_eq!(reloaded.selected_column_idx, 1);
    assert_eq!(reloaded.columns[1].selected_task, Some(1));
}

#[test]
fn deleting_last_empties_cursor_and_deleting_middle_keeps_index() {
    let mut state = State::new(four_column_connection()).unwrap();
    state.add_new_task(String::from("T1"), String::from("")).unwrap();
    state.delete_task().unwrap();
    assert_eq!(state.columns[0].selected_task, None);
    assert_eq!(state.columns[0].tasks.len(), 0);

    state.add_new_task(String::from("T1"), String::from("")).unwrap();
    state.add_new_task(String::from("T2"), String::from("")).unwrap();
    state.add_new_task(String::from("T3"), String::from("")).unwrap();
    state.select_first_task().unwrap();
    state.select_task_below().unwrap();
    // Deleting T2 moves the cursor onto the task that followed it.
    state.delete_task().unwrap();
    assert_eq!(state.columns[0].selected_task, Some(1));
    assert_eq!(state.get_selected_task().unwrap().title, "T3");
}

#[test]
fn getters_see_the_neighbouring_tasks() {
    let mut state = State::new(four_column_connection()).unwrap();
    assert!(state.get_task_above().is_none());
    assert!(state.get_task_below().is_none());
    state.add_new_task(String::from("T1"), String::from("")).unwrap();
    state.add_new_task(String::from("T2"), String::from("")).unwrap();
    state.add_new_task(String::from("T3"), String::from("")).unwrap();
    state.select_first_task().unwrap();
    assert!(state.get_task_above().is_none());
    assert_eq!(state.get_task_below().unwrap().title, "T2");
    state.select_task_below().unwrap();
    assert_eq!(state.get_task_above().unwrap().title, "T1");
    assert_eq!(state.get_task_below().unwrap().title, "T3");
    state.select_last_task().unwrap();
    assert_eq!(state.get_task_above().unwrap().title, "T2");
    assert!(state.get_task_below().is_none());
    assert_eq!(state.get_selected_column().name, "Todo");
}

#[test]
fn editor_overlay_state_tracks_the_selected_task() {
    let mut state = State::new(four_column_connection()).unwrap();
    assert!(state.get_task_state_from_current().is_none());
    state.add_new_task(String::from("Title A"), String::from("Desc A")).unwrap();
    let ts = state.get_task_state_from_current().unwrap();
    assert_eq!(ts.title, "Title A");
    assert_eq!(ts.description, "Desc A");
    assert!(ts.is_edit);
    assert!(matches!(ts.focus, TaskEditFocus::Title));
}

#[test]
fn focus_ring_cycles_forward_and_backward() {
    let mut ts = TaskState::default();
    assert!(matches!(ts.focus, TaskEditFocus::Title));
    assert!(!ts.is_edit);
    assert_eq!(ts.title, "");
    assert_eq!(ts.description, "");

    cycle_focus(&mut ts, true);
    assert!(matches!(ts.focus, TaskEditFocus::Description));
    cycle_focus(&mut ts, true);
    assert!(matches!(ts.focus, TaskEditFocus::ConfirmBtn));
    cycle_focus(&mut ts, true);
    assert!(matches!(ts.focus, TaskEditFocus::CancelBtn));
    cycle_focus(&mut ts, true);
    assert!(matches!(ts.focus, TaskEditFocus::Title));

    cycle_focus(&mut ts, false);
    assert!(matches!(ts.focus, TaskEditFocus::CancelBtn));
    cycle_focus(&mut ts, false);
    assert!(matches!(ts.focus, TaskEditFocus::ConfirmBtn));
    cycle_focus(&mut ts, false);
    assert!(matches!(ts.focus, TaskEditFocus::Description));
    cycle_focus(&mut ts, false);
    assert!(matches!(ts.focus, TaskEditFocus::Title));
}

#[test]
fn a_store_without_columns_is_refused() {
    let conn = Connection::open_in_memory().unwrap();
    schema(&conn);
    conn.execute(
        "insert into app_state(key, value) values ('selected_column', '0')",
        (),
    )
    .unwrap();
    let r = State::new(conn);
    assert!(matches!(r, Err(StoreError::EmptyBoard)));
}

#[test]
fn a_failing_store_call_is_reported() {
    let mut state = State::new(four_column_connection()).unwrap();
    state.db_conn.conn.execute("drop table task", ()).unwrap();
    let r = state.add_new_task(String::from("T1"), String::from("D1"));
    assert!(matches!(r, Err(StoreError::Sql(_))));
}

#[test]
fn a_failing_transfer_reports_and_keeps_the_memory_change() {
    let mut state = State::new(four_column_connection()).unwrap();
    state.add_new_task(String::from("T1"), String::from("D1")).unwrap();
    // Break the active-column persistence mid-sequence: the transfer fails
    // after the source column was already changed in memory.
    state.db_conn.conn.execute("drop table app_state", ()).unwrap();
    let r = state.move_task_column_right();
    assert!(matches!(r, Err(StoreError::Sql(_))));
    assert_eq!(state.columns[0].tasks.len(), 0);
    assert_eq!(state.columns[0].selected_task, None);
    assert_eq!(state.columns[1].tasks.len(), 0);
    assert_eq!(state.selected_column_idx, 1);
}

#[test]
fn stale_persisted_cursors_are_clamped_on_load() {
    let mut state = State::new(four_column_connection()).unwrap();
    state.add_new_task(String::from("T1"), String::from("")).unwrap();
    state.add_new_task(String::from("T2"), String::from("")).unwrap();
    state
        .db_conn
        .conn
        .execute("update kb_column set selected_task = 99 where id = 1", ())
        .unwrap();
    state
        .db_conn
        .conn
        .execute("update app_state set value = '9' where key = 'selected_column'", ())
        .unwrap();

    let reloaded = State::new(state.db_conn.conn).unwrap();
    assert_eq!(reloaded.selected_column_idx, 3);
    assert_eq!(reloaded.columns[0].selected_task, Some(1));
}

#[test]
fn per_column_selection_is_readable_by_identity() {
    let mut state = State::new(four_column_connection()).unwrap();
    state.add_new_task(String::from("T1"), String::from("")).unwrap();
    state.add_new_task(String::from("T2"), String::from("")).unwrap();
    assert_eq!(state.db_conn.get_selected_task_for_column(1).unwrap(), 1);
    assert_eq!(state.db_conn.get_selected_task_for_column(3).unwrap(), 0);
    assert!(matches!(
        state.db_conn.get_selected_task_for_column(77),
        Err(StoreError::MissingColumn)
    ));
    state
        .db_conn
        .conn
        .execute("update kb_column set selected_task = -5 where id = 2", ())
        .unwrap();
    assert!(matches!(
        state.db_conn.get_selected_task_for_column(2),
        Err(StoreError::BadStoredValue)
    ));
}

#[test]
fn tasks_are_read_back_per_column_in_rank_order() {
    let mut state = State::new(four_column_connection()).unwrap();
    state.add_new_task(String::from("T1"), String::from("")).unwrap();
    state.add_new_task(String::from("T2"), String::from("")).unwrap();
    state.move_task_up().unwrap();
    let tasks = state.db_conn.get_tasks_by_column(1).unwrap();
    assert_eq!(tasks.len(), 2);
    assert_eq!(tasks[0].title, "T2");
    assert_eq!(tasks[1].title, "T1");
    assert_eq!(state.db_conn.get_tasks_by_column(2).unwrap().len(), 0);
}
