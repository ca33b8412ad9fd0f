//! Session state, screen state machine and event dispatch of a terminal chat
//! client, with the line wrapper used to lay out text.

pub mod app;
pub mod dispatch;
pub mod laws;
pub mod view;
pub mod wrap;
