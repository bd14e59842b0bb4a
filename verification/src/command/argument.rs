//! The argument type, also reachable under `arguments::argument`.

pub use crate::command::arguments::argument::Argument;
