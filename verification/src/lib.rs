//! A verified core of an IRC client's wire layer: a line framer that cuts a
//! raw byte stream into terminator-delimited frames, a line writer, a grammar
//! parser that decodes one line into a structured message, and an event mapper
//! that turns recognized messages into typed events.

pub mod event;
pub mod parser;
pub mod stream;
