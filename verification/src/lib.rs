//! Omni: a length-prefixed block container built on LEB128 varints, and a small
//! command-line argument model used to drive external tools.

pub mod block;
pub mod command;
pub mod data;
pub mod error;
pub mod flatpak;
pub mod omni_data;
pub mod omni_frame;
pub mod omni_test;
pub mod varint;
pub mod varint_order;
