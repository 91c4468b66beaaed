//! A catalog of student projects: the in-memory store with its identifier
//! assignment, the layout of attached files, and the rules that decide what
//! a request may do.

pub mod text;
pub mod db;
pub mod api;
