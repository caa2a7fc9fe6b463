//! What the window's parts show and decide: rows, chips, pages and dialogs.

pub mod job_log_view;
pub mod log_view;
pub mod repo_list;
pub mod repo_picker;
pub mod run_detail;
pub mod run_row;
pub mod status_chip;
