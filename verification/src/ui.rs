pub mod confirm;
pub mod inspect_window;
pub mod list_state;
pub mod notebook_detail;
pub mod overview;
pub mod rename;
pub mod task_column;
pub mod theme;
