use crate::measure::MallocSizeOf;
use vstd::prelude::*;

verus! {

/// A transparent wrapper that holds a value only where it can be measured:
/// naming `Measurable<T>` checks that `T` implements `MallocSizeOf`.
#[derive(Clone)]
pub struct Measurable<T: MallocSizeOf>(pub T);

impl<T: MallocSizeOf> core::ops::Deref for Measurable<T> {
    type Target = T;

    fn deref(&self) -> (r: &T)
        ensures
            *r == self.0,
    {
        &self.0
    }
}

impl<T: MallocSizeOf> core::ops::DerefMut for Measurable<T> {
    fn deref_mut(&mut self) -> (r: &mut T)
        ensures
            *r == old(self).0,
            final(self).0 == *final(r),
    {
        &mut self.0
    }
}

} // verus!
