//! A single-user task tracker: tasks with a status lifecycle, kept in an
//! ordered store whose identifiers are assigned monotonically.

pub mod status;
pub mod task;
pub mod laws;
