//! Agent orchestration loop: a verified model of a streaming chat agent.
//!
//! The crate decodes a line-oriented `data: <json>` event protocol into typed
//! stream events, aggregates them into the content of one model turn, decides
//! which automation tools a turn asks for, and drives the run state machine
//! (at most one run at a time, cooperative cancellation, a cap on tool-use
//! turns). All I/O stays outside; the library works on plain values.

pub mod aggregate;
pub mod control;
pub mod decode;
pub mod dispatch;
pub mod model;
pub mod request;
pub mod stream;
