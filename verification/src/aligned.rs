//! A transparent wrapper for holding a value while it is kept outside a
//! packed structure, so that it can be worked on before being moved back in.
use vstd::prelude::*;

verus! {

pub struct Aligned<T>(pub T);

impl<T> Aligned<T> {
    pub fn unalign(self) -> (r: T)
        ensures
            r == self.0,
    {
        self.0
    }
}

} // verus!
