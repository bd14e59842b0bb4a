//! Known namespaces of data blocks (100 and above are custom).

use vstd::prelude::*;

verus! {

pub const STANDARD: u64 = 0;

pub const GRAPHICS: u64 = 1;

pub const AUDIO: u64 = 2;

} // verus!
