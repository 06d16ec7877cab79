//! A small to-do list web library: an in-memory store of tasks with
//! create/list/toggle/edit/delete/clear operations, HTML fragment rendering
//! for a fragment-swapping UI, a template filter helper, and HTTP error
//! mapping. The surrounding HTTP server, router and I/O live outside this
//! library and hand it plain values.

pub mod errors;
pub mod filters;
pub mod todos;
pub mod views;
