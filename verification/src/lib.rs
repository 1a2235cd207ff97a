//! A small task-tracking store: projects own tasks, tasks own subtasks, and a
//! flat log of thoughts stands beside them. The repository enforces name
//! uniqueness, referential integrity and cascading deletes; the service layer
//! validates caller input and maps storage errors to caller-facing ones.

pub mod cli;
mod clock;
pub mod errors;
pub mod handler;
pub mod models;
pub mod operations;
pub mod svc;
pub mod validate;
