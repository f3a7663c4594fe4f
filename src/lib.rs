//! Supervising a child process whose standard output is streamed, line by
//! line, to a sink.
//!
//! The library holds the decisions of that bridge: where lines begin and end
//! in the output stream ([`framing`]), what becomes of each event of one
//! invocation ([`bridge`]), what holds of every run of events ([`trace`]),
//! and what is handed to the process ([`invocation`]). The spawning, the
//! reads and the delivery are done by the caller, which reports each outcome
//! back as an event.
pub mod bridge;
pub mod framing;
pub mod invocation;
pub mod trace;
