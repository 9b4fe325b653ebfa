use vstd::prelude::*;

verus! {

/// The owner of a value kept by the world's center.
pub struct LocalAnyHandle<T> {
    value: T,
}

impl<T> LocalAnyHandle<T> {
    pub closed spec fn spec_value(&self) -> T {
        self.value
    }

    pub fn new_any(value: T) -> (h: LocalAnyHandle<T>)
        ensures
            h.spec_value() == value,
    {
        LocalAnyHandle { value }
    }

    pub fn try_take(self) -> (r: Option<T>)
        ensures
            r == Some(self.spec_value()),
    {
        Some(self.value)
    }

    pub fn get(&self) -> (r: Option<&T>)
        ensures
            r matches Some(v) && *v == self.spec_value(),
    {
        Some(&self.value)
    }

    pub fn get_mut(&mut self) -> (r: Option<&mut T>)
        ensures
            r is Some,
            r matches Some(v) ==> *v == old(self).spec_value() && final(self).spec_value()
                == *final(v),
    {
        Some(&mut self.value)
    }
}

} // verus!
