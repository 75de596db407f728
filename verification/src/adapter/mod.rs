//! What the core knows of its collaborators: the errors they report and
//! the settings they are reached with.

pub mod processor;
pub mod repository;
pub mod sql_db;
