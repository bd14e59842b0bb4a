//! Known primary block types.

use vstd::prelude::*;

verus! {

pub const DATA: u64 = 1;

pub const CHECKSUM: u64 = 2;

pub const COMPRESSION: u64 = 3;

pub const ENCRYPTION: u64 = 4;

pub const META: u64 = 5;

pub const INDEX: u64 = 6;

pub const PADDING: u64 = 7;

} // verus!
