use vstd::prelude::*;

verus! {

/// A list of values.
pub struct Data<T> {
    pub values: Vec<T>,
}

impl<T> Data<T> {
    pub fn new() -> (r: Self)
        ensures
            r.values@ == Seq::<T>::empty(),
    {
        Self { values: Vec::new() }
    }
}

} // verus!
