//! Core of a small to-do list application: an in-memory list of text items
//! with completed flags, together with the pure logic behind its user
//! interface — trimming and validating input text, encoding and decoding the
//! numeric item ids carried on checkbox attributes, updating the state in
//! response to form and checkbox events, and computing what the visible list
//! must show after each change.

pub mod events;
pub mod ids;
pub mod render;
pub mod state;
pub mod text;
