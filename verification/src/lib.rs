//! A single-user todo list: an ordered list of named items with completion
//! flags, persisted as a JSON array. `store` holds the list and its safe
//! mutations, `json` the persisted format (writer, reader, and the proof
//! that they round-trip), `command` the argument resolver, `display` the
//! listing format, and `text` small string utilities.

pub mod command;
pub mod display;
pub mod json;
pub mod store;
pub mod text;
