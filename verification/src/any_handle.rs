use std::sync::Arc;
use vstd::prelude::*;

verus! {

/// `Arc::clone`: another owner of the same value.
#[verifier::external_body]
fn share<T>(a: &Arc<T>) -> (r: Arc<T>)
    ensures
        *r == **a,
{
    Arc::clone(a)
}

/// `Arc::get_mut`: the value itself when this is its only owner, else `None`.
/// Which of the two comes back depends on the other owners alive at the time
/// and is left unsaid; a value handed out is the stored one, and what is
/// written through it is what the owner then holds.
#[verifier::external_body]
fn unique_mut<T>(a: &mut Arc<T>) -> (r: Option<&mut T>)
    ensures
        r matches Some(m) ==> *m == **old(a) && **final(a) == *final(m),
        r is None ==> **final(a) == **old(a),
{
    Arc::get_mut(a)
}

/// `Arc::try_unwrap`: the value when this is its only owner, else `None`.
/// Which of the two comes back depends on the other owners and is left
/// unsaid; a value handed out is the stored one.
#[verifier::external_body]
fn unwrap_unique<T>(a: Arc<T>) -> (r: Option<T>)
    ensures
        r matches Some(t) ==> t == *a,
{
    Arc::try_unwrap(a).ok()
}

/// `Arc::strong_count`: the number of owners, which counts `a` itself; how
/// many others there are depends on the program at the time.
#[verifier::external_body]
fn owners<T>(a: &Arc<T>) -> (n: usize)
    ensures
        n >= 1,
{
    Arc::strong_count(a)
}

/// The owner of a stored value, shared with the read handles it hands out.
/// The value can be written, or taken out, only while no other owner exists.
pub struct AnyHandle<T> {
    value: Arc<T>,
}

impl<T> AnyHandle<T> {
    pub closed spec fn spec_value(&self) -> T {
        *self.value
    }

    pub fn new_any(value: T) -> (h: AnyHandle<T>)
        ensures
            h.spec_value() == value,
    {
        AnyHandle { value: Arc::new(value) }
    }

    pub fn get(&self) -> (r: &T)
        ensures
            *r == self.spec_value(),
    {
        &*self.value
    }

    /// The value to write, when no read handle or other owner is alive.
    pub fn get_mut(&mut self) -> (r: Option<&mut T>)
        ensures
            r matches Some(m) ==> *m == old(self).spec_value() && final(self).spec_value() == *final(m),
            r is None ==> final(self).spec_value() == old(self).spec_value(),
    {
        unique_mut(&mut self.value)
    }

    /// A shared read handle; it is one more owner of the value while alive.
    pub fn handle(&self) -> (h: Handle<T>)
        ensures
            h.spec_value() == self.spec_value(),
    {
        Handle(share(&self.value))
    }

    /// The exclusive write handle, refused while a read handle or another
    /// owner is alive.
    pub fn handle_mut(&mut self) -> (h: Option<HandleMut<'_, T>>)
        ensures
            h matches Some(hm) ==> *hm.0 == old(self).spec_value() && final(self).spec_value()
                == *final(hm.0),
            h is None ==> final(self).spec_value() == old(self).spec_value(),
    {
        match unique_mut(&mut self.value) {
            Some(m) => Some(HandleMut(m)),
            None => None,
        }
    }

    /// Takes the value out when this is its only owner.
    pub fn try_take(self) -> (r: Option<T>)
        ensures
            r matches Some(v) ==> v == self.spec_value(),
    {
        unwrap_unique(self.value)
    }

    /// The number of owners of the value: this one and the live read handles.
    pub fn reference_count(&self) -> (n: usize)
        ensures
            n >= 1,
    {
        owners(&self.value)
    }
}

/// A shared read handle on a stored value.
pub struct Handle<T>(Arc<T>);

impl<T> Handle<T> {
    pub closed spec fn spec_value(&self) -> T {
        *self.0
    }

    pub fn get(&self) -> (r: &T)
        ensures
            *r == self.spec_value(),
    {
        &*self.0
    }
}

/// The exclusive write handle on a stored value.
pub struct HandleMut<'a, T>(pub &'a mut T);

} // verus!
