use vstd::prelude::*;

verus! {

/// Keeps `DelimiterType` closed to the marker types of this crate.
pub trait Sealed {

}

} // verus!
