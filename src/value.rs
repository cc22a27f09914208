use vstd::prelude::*;

verus! {

/// What a register holds: nothing yet, an integer, or a reference to a pool object by identity.
#[derive(Clone, Copy, Debug, PartialEq, Eq, Structural)]
pub enum Value {
    Null,
    Int(i64),
    Object(usize),
}

impl Value {
    /// The pool identity this value refers to, if it is a reference.
    pub fn as_object_id(&self) -> (r: Option<usize>)
        ensures
            r == (match *self {
                Value::Object(id) => Some(id),
                _ => None,
            }),
    {
        match *self {
            Value::Object(id) => Some(id),
            _ => None,
        }
    }
}

} // verus!
