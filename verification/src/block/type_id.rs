//! Known standard type ids (namespace 0).

use vstd::prelude::*;

verus! {

pub const UTF8_STRING: u64 = 1;

pub const INT32: u64 = 2;

pub const ZSTD: u64 = 3;

} // verus!
