//! A kanban-style task board: a fixed sequence of named columns, each holding
//! an ordered list of tasks, kept in sync with a durable SQLite store.

pub mod app;
pub mod db;
pub mod model;

pub use crate::app::Column;
pub use crate::app::State;
pub use crate::app::Task;
pub use crate::app::TaskEditFocus;
pub use crate::app::TaskState;
pub use crate::app::cycle_focus;
pub use crate::db::DBConn;
pub use crate::db::StoreError;
