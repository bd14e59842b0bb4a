//! A model of command lines: arguments with prefixes, separators and delimiters,
//! rendered to text or to argv tokens.

pub mod argument;
pub mod arguments;
pub mod text;
pub mod commands;
pub mod base;
pub mod command;
pub mod delimiter;
