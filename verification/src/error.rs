use vstd::prelude::*;

verus! {

/// An error tagged with a label naming where it came from.
pub struct LabelledError<E> {
    pub error: E,
    pub label: &'static str,
}

impl<E> LabelledError<E> {
    pub fn new(label: &'static str, error: E) -> (e: LabelledError<E>)
        ensures
            e.error == error,
            e.label == label,
    {
        LabelledError { error, label }
    }
}

/// An error that is only a message.
pub struct MessageError(pub String);

} // verus!
