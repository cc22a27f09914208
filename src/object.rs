use crate::function::{code_children, Function};
use crate::static_root::StaticRoot;
use crate::value::Value;
use vstd::prelude::*;

verus! {

/// The concrete kinds of heap object; the closed set that typed handles narrow to.
#[derive(Clone, Copy, Debug, PartialEq, Eq, Structural)]
pub enum ObjectKind {
    Str,
    Function,
    Root,
    Record,
}

/// A heap-resident object.
pub enum Object {
    Str(String),
    Function(Function),
    Root(StaticRoot),
    /// Members keyed by the identity of a key object (usually an interned string).
    Record(Vec<(usize, Value)>),
}

/// The identities that a record's members refer to: each key, and each value that
/// is a reference.
pub open spec fn record_children(members: Seq<(usize, Value)>) -> Seq<usize>
    decreases members.len(),
{
    if members.len() == 0 {
        Seq::empty()
    } else {
        let rest = record_children(members.drop_last());
        let (k, v) = members.last();
        match v {
            Value::Object(id) => rest.push(k).push(id),
            _ => rest.push(k),
        }
    }
}

/// The value stored under `key` in a record: the first member with that key.
pub open spec fn record_lookup(members: Seq<(usize, Value)>, key: usize) -> Option<Value>
    decreases members.len(),
{
    if members.len() == 0 {
        None
    } else if members[0].0 == key {
        Some(members[0].1)
    } else {
        record_lookup(members.drop_first(), key)
    }
}

impl Object {
    pub open spec fn kind_of(&self) -> ObjectKind {
        match self {
            Object::Str(_) => ObjectKind::Str,
            Object::Function(_) => ObjectKind::Function,
            Object::Root(_) => ObjectKind::Root,
            Object::Record(_) => ObjectKind::Record,
        }
    }

    /// The identities this object directly references.
    pub open spec fn children(&self) -> Seq<usize> {
        match self {
            Object::Str(_) => Seq::empty(),
            Object::Function(f) => code_children(f.code@),
            Object::Root(r) => r@,
            Object::Record(m) => record_children(m@),
        }
    }

    pub fn kind(&self) -> (r: ObjectKind)
        ensures
            r == self.kind_of(),
    {
        match self {
            Object::Str(_) => ObjectKind::Str,
            Object::Function(_) => ObjectKind::Function,
            Object::Root(_) => ObjectKind::Root,
            Object::Record(_) => ObjectKind::Record,
        }
    }

    /// Lists the identities this object directly references, for reachability tracing.
    pub fn get_children(&self) -> (r: Vec<usize>)
        ensures
            r@ == self.children(),
    {
        match self {
            Object::Str(_) => Vec::new(),
            Object::Function(f) => f.get_children(),
            Object::Root(r) => r.get_children(),
            Object::Record(m) => {
                let mut out: Vec<usize> = Vec::new();
                let mut i: usize = 0;
                while i < m.len()
                    invariant
                        i <= m@.len(),
                        out@ == record_children(m@.take(i as int)),
                    decreases m@.len() - i,
                {
                    proof {
                        assert(m@.take(i as int + 1).drop_last() =~= m@.take(i as int));
                    }
                    let (k, v) = m[i];
                    out.push(k);
                    match v {
                        Value::Object(id) => out.push(id),
                        _ => {},
                    }
                    i = i + 1;
                }
                proof {
                    assert(m@.take(i as int) =~= m@);
                }
                out
            },
        }
    }

    /// Looks up the member under the key identity `key`; only records have members.
    pub fn member(&self, key: usize) -> (r: Option<Value>)
        ensures
            r == (match self {
                Object::Record(m) => record_lookup(m@, key),
                _ => None,
            }),
    {
        match self {
            Object::Record(m) => record_member(m, key),
            _ => None,
        }
    }
}

/// Looks up `key` among a record's members, first match first.
fn record_member(m: &Vec<(usize, Value)>, key: usize) -> (r: Option<Value>)
    ensures
        r == record_lookup(m@, key),
{
    let mut i: usize = 0;
    proof {
        assert(m@.skip(0) =~= m@);
    }
    while i < m.len()
        invariant
            i <= m@.len(),
            record_lookup(m@, key) == record_lookup(m@.skip(i as int), key),
        decreases m@.len() - i,
    {
        proof {
            assert(m@.skip(i as int).drop_first() =~= m@.skip(i as int + 1));
            assert(m@.skip(i as int)[0] == m@[i as int]);
        }
        if m[i].0 == key {
            return Some(m[i].1);
        }
        i = i + 1;
    }
    None
}

} // verus!
