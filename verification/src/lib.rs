//! A client library for driving a text-based bulletin-board session over a
//! raw terminal byte stream: an escape-sequence tokenizer, a virtual screen
//! that replays the resulting tokens into a character grid, and a session
//! automaton that decides the login and navigation protocol from screen state.

pub mod ansi;
pub mod error;
pub mod codec;
pub mod screen;
pub mod session;
