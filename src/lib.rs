//! A session-long list of todo records: creation with fresh increasing ids,
//! listing, update and deletion by id, and the reading of what a user types
//! at the prompts of the interactive front end.

pub mod ids;
pub mod input;
pub mod laws;
pub mod store;
pub mod todo;
