//! Core of a terminal alias menu: an ordered store of named shell-command
//! aliases, a selection cursor that stays valid while the store changes, the
//! mode/focus state machine that drives the interface, and a stable text
//! codec for the configuration file. Terminal drawing, key reading, file
//! access and process spawning live outside this crate; they feed plain
//! values in and carry the requested effects out.

pub mod alias;
pub mod codec;
pub mod config;
pub mod machine;
pub mod selection;
