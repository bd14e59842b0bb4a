use vstd::prelude::*;

verus! {

/// A run of raw bytes.
pub struct OmniByte {
    pub data: Vec<u8>,
}

impl OmniByte {
    pub fn new() -> (r: Self)
        ensures
            r.data@ == Seq::<u8>::empty(),
    {
        Self { data: Vec::new() }
    }
}

/// A number as its type bytes and up to three parts.
pub struct OmniNumber {
    pub data_type: Vec<u8>,
    pub d1: Vec<u8>,
    pub d2: Vec<u8>,
    pub d3: Vec<u8>,
}

impl OmniNumber {
    pub fn new() -> (r: Self)
        ensures
            r.data_type@ == Seq::<u8>::empty(),
            r.d1@ == Seq::<u8>::empty(),
            r.d2@ == Seq::<u8>::empty(),
            r.d3@ == Seq::<u8>::empty(),
    {
        Self { data_type: Vec::new(), d1: Vec::new(), d2: Vec::new(), d3: Vec::new() }
    }
}

} // verus!
