use crate::function::Function;
use crate::object::{Object, ObjectKind};
use crate::object_pool::ObjectPool;
use vstd::prelude::*;

verus! {

/// The native-reference bookkeeping of one object: how many handles pin it, and
/// whether the collector has already concluded that it is unreachable.
pub struct ObjectNativeRefInfo {
    n_refs: usize,
    gc_notified: bool,
}

/// One pool entry: an object and its native-reference counter.
pub struct ObjectInfo {
    object: Object,
    native_ref_info: ObjectNativeRefInfo,
}

/// A pin on the object with a given identity. It is neither `Copy` nor `Clone`:
/// each handle stands for exactly one increment of the counter, given back by
/// releasing it.
#[must_use]
pub struct ObjectHandle {
    id: usize,
}

/// A handle whose object is known to be of one kind.
#[must_use]
pub struct TypedObjectHandle {
    handle: ObjectHandle,
    kind: ObjectKind,
}

impl ObjectInfo {
    /// An entry is determined by its object, its counter and its notification flag.
    pub proof fn lemma_ext(a: ObjectInfo, b: ObjectInfo)
        requires
            a.obj() == b.obj(),
            a.refs() == b.refs(),
            a.notified() == b.notified(),
        ensures
            a == b,
    {
    }

    pub closed spec fn obj(&self) -> Object {
        self.object
    }

    /// The number of live handles that pin this object.
    pub closed spec fn refs(&self) -> nat {
        self.native_ref_info.n_refs as nat
    }

    /// Whether the collector has begun finalizing this object.
    pub closed spec fn notified(&self) -> bool {
        self.native_ref_info.gc_notified
    }

    pub fn new(obj: Object) -> (r: ObjectInfo)
        ensures
            r.obj() == obj,
            r.refs() == 0,
            !r.notified(),
    {
        ObjectInfo { object: obj, native_ref_info: ObjectNativeRefInfo { n_refs: 0, gc_notified: false } }
    }

    /// Records that the collector has found the object unreachable.
    pub fn gc_notify(&mut self)
        ensures
            final(self).obj() == old(self).obj(),
            final(self).refs() == old(self).refs(),
            final(self).notified(),
    {
        self.native_ref_info.gc_notified = true;
    }

    pub fn as_object(&self) -> (r: &Object)
        ensures
            *r == self.obj(),
    {
        &self.object
    }

    pub fn as_object_mut(&mut self) -> (r: &mut Object)
        ensures
            *r == old(self).obj(),
            final(self).obj() == *final(r),
            final(self).refs() == old(self).refs(),
            final(self).notified() == old(self).notified(),
    {
        &mut self.object
    }

    pub fn has_native_refs(&self) -> (r: bool)
        ensures
            r == (self.refs() != 0),
    {
        self.native_ref_info.n_refs != 0
    }

    /// The number of live handles that pin this object.
    pub fn native_refs(&self) -> (r: usize)
        ensures
            r == self.refs(),
    {
        self.native_ref_info.n_refs
    }

    /// Pins the object, which the pool holds under identity `id`. Only the pool
    /// calls this, so that a handle always names the entry it pins.
    pub(crate) fn handle(&mut self, id: usize) -> (r: ObjectHandle)
        requires
            old(self).refs() < usize::MAX,
        ensures
            r.id() == id,
            final(self).obj() == old(self).obj(),
            final(self).refs() == old(self).refs() + 1,
            final(self).notified() == old(self).notified(),
    {
        self.native_ref_info.n_refs = self.native_ref_info.n_refs + 1;
        ObjectHandle { id }
    }

    /// Gives back the pin of a handle. A release with no pin outstanding would be a
    /// memory-safety defect, so it is excluded. Only the pool calls this, with a
    /// handle of this entry.
    pub(crate) fn release(&mut self, h: ObjectHandle)
        requires
            old(self).refs() > 0,
        ensures
            final(self).obj() == old(self).obj(),
            final(self).refs() == old(self).refs() - 1,
            final(self).notified() == old(self).notified(),
    {
        let ObjectHandle { id: _ } = h;
        self.native_ref_info.n_refs = self.native_ref_info.n_refs - 1;
    }

    /// Ends the entry's life and hands back its object. Only an entry that the
    /// collector has notified and that no handle pins may be finalized.
    pub fn finalize(self) -> (r: Object)
        requires
            self.notified(),
            self.refs() == 0,
        ensures
            r == self.obj(),
    {
        self.object
    }
}

impl ObjectHandle {
    pub closed spec fn spec_id(&self) -> usize {
        self.id
    }

    #[verifier::when_used_as_spec(spec_id)]
    pub fn id(&self) -> (r: usize)
        ensures
            r == self.spec_id(),
    {
        self.id
    }
}

impl TypedObjectHandle {
    pub closed spec fn spec_kind(&self) -> ObjectKind {
        self.kind
    }

    pub closed spec fn spec_id(&self) -> usize {
        self.handle.id
    }

    #[verifier::when_used_as_spec(spec_id)]
    pub fn id(&self) -> (r: usize)
        ensures
            r == self.spec_id(),
    {
        self.handle.id
    }

    #[verifier::when_used_as_spec(spec_kind)]
    pub fn kind(&self) -> (r: ObjectKind)
        ensures
            r == self.spec_kind(),
    {
        self.kind
    }

    /// Narrows a handle to `kind`. On a mismatch the handle comes back untouched,
    /// still holding its pin.
    pub fn downcast_from(pool: &ObjectPool, other: ObjectHandle, kind: ObjectKind) -> (r: Result<
        TypedObjectHandle,
        ObjectHandle,
    >)
        requires
            pool.is_live(other.id()),
        ensures
            pool.info_at(other.id()).obj().kind_of() == kind ==> (r matches Ok(t) && t.id()
                == other.id() && t.kind() == kind),
            pool.info_at(other.id()).obj().kind_of() != kind ==> (r matches Err(h) && h.id()
                == other.id()),
    {
        if pool.get(other.id()).kind() == kind {
            Ok(TypedObjectHandle { handle: other, kind })
        } else {
            Err(other)
        }
    }

    /// The function that this handle pins.
    pub fn function<'a>(&self, pool: &'a ObjectPool) -> (r: &'a Function)
        requires
            pool.is_live(self.id()),
            self.kind() == ObjectKind::Function,
            pool.object_at(self.id()).kind_of() == ObjectKind::Function,
        ensures
            pool.object_at(self.id()) == Object::Function(*r),
    {
        match pool.get(self.handle.id) {
            Object::Function(f) => f,
            _ => unreached(),
        }
    }

    /// Widens back to a plain handle, keeping the pin.
    pub fn into_handle(self) -> (r: ObjectHandle)
        ensures
            r.id() == self.id(),
    {
        self.handle
    }
}

} // verus!
