use crate::error::VmError;
use crate::object::{Object, ObjectKind};
use crate::object_info::{ObjectHandle, ObjectInfo, TypedObjectHandle};
use vstd::prelude::*;

verus! {

/// The heap: owns every object under a stable identity, its index. Identities are
/// never reused; a reclaimed identity stays empty.
pub struct ObjectPool {
    slots: Vec<Option<ObjectInfo>>,
}

/// `after` is `before` with one more (`acquire`) or one fewer pin on `id`, and
/// nothing else changed.
pub open spec fn pin_step(before: ObjectPool, after: ObjectPool, id: usize, acquire: bool) -> bool {
    &&& before.is_live(id)
    &&& after.is_live(id)
    &&& after@.len() == before@.len()
    &&& forall|j: int| 0 <= j < before@.len() && j != id ==> after@[j] == before@[j]
    &&& after.info_at(id).obj() == before.info_at(id).obj()
    &&& after.info_at(id).notified() == before.info_at(id).notified()
    &&& if acquire {
        after.refs_at(id) == before.refs_at(id) + 1
    } else {
        after.refs_at(id) + 1 == before.refs_at(id)
    }
}

/// `after` is `before` with `id` appended to the children of the static root under
/// `root`, and nothing else changed.
pub open spec fn root_append_step(before: ObjectPool, after: ObjectPool, root: usize, id: usize) -> bool {
    &&& before.is_live(root)
    &&& after.is_live(root)
    &&& after@.len() == before@.len()
    &&& forall|j: int| 0 <= j < before@.len() && j != root ==> after@[j] == before@[j]
    &&& after.refs_at(root) == before.refs_at(root)
    &&& after.info_at(root).notified() == before.info_at(root).notified()
    &&& match (before.object_at(root), after.object_at(root)) {
        (Object::Root(a), Object::Root(b)) => b@ == a@.push(id),
        _ => false,
    }
}

/// How many of `ops` are acquisitions (`true`).
pub open spec fn count_acquires(ops: Seq<bool>) -> nat
    decreases ops.len(),
{
    if ops.len() == 0 {
        0
    } else {
        count_acquires(ops.drop_last()) + if ops.last() {
            1nat
        } else {
            0nat
        }
    }
}

/// How many of `ops` are releases (`false`).
pub open spec fn count_releases(ops: Seq<bool>) -> nat
    decreases ops.len(),
{
    if ops.len() == 0 {
        0
    } else {
        count_releases(ops.drop_last()) + if ops.last() {
            0nat
        } else {
            1nat
        }
    }
}

/// Over any run of acquisitions and releases of handles on one object, starting
/// from an unpinned object, the counter ends at the number of acquisitions minus the
/// number of releases, and the run has released no more handles than it acquired.
pub proof fn lemma_pin_count(states: Seq<ObjectPool>, id: usize, ops: Seq<bool>)
    requires
        states.len() == ops.len() + 1,
        states[0].refs_at(id) == 0,
        forall|i: int| 0 <= i < ops.len() ==> pin_step(#[trigger] states[i], states[i + 1], id, ops[i]),
    ensures
        states.last().refs_at(id) + count_releases(ops) == count_acquires(ops),
        count_releases(ops) <= count_acquires(ops),
    decreases ops.len(),
{
    if ops.len() > 0 {
        let n = ops.len() - 1;
        assert forall|i: int| 0 <= i < ops.drop_last().len() implies pin_step(
            #[trigger] states.drop_last()[i],
            states.drop_last()[i + 1],
            id,
            ops.drop_last()[i],
        ) by {
            assert(pin_step(states[i], states[i + 1], id, ops[i]));
        }
        lemma_pin_count(states.drop_last(), id, ops.drop_last());
        assert(pin_step(states[n], states[n + 1], id, ops[n]));
    }
}

/// Acquiring a handle and then releasing it leaves the pool exactly as it was: a
/// pin given back once restores the counter, and nothing else moved.
pub proof fn lemma_pin_release_restores(p0: ObjectPool, p1: ObjectPool, p2: ObjectPool, id: usize)
    requires
        pin_step(p0, p1, id, true),
        pin_step(p1, p2, id, false),
    ensures
        p2@ == p0@,
{
    ObjectInfo::lemma_ext(p2.info_at(id), p0.info_at(id));
    assert(p2@ =~= p0@);
}

/// An identity appended to a live static root is reachable from then on, and so is
/// every identity that was reachable before: the collector reclaims none of them.
pub proof fn lemma_root_append(before: ObjectPool, after: ObjectPool, root: usize, id: usize)
    requires
        root_append_step(before, after, root, id),
    ensures
        after.reachable(id),
        forall|x: usize| before.reachable(x) ==> after.reachable(x),
{
    // Every direct reference of `before` is one of `after`, and every root stays one.
    assert forall|a: usize, c: usize| before.child_of(a, c) implies after.child_of(a, c) by {
        if a == root {
            match (before.object_at(root), after.object_at(root)) {
                (Object::Root(x), Object::Root(y)) => {
                    let k = choose|k: int| 0 <= k < x@.len() && x@[k] == c;
                    assert(y@[k] == c);
                },
                _ => {},
            }
        } else {
            assert(after@[a as int] == before@[a as int]);
        }
    }
    assert forall|a: usize| before.is_anchor(a) implies after.is_anchor(a) by {
        if a != root {
            assert(after@[a as int] == before@[a as int]);
        }
    }
    let p = seq![root, id];
    match after.object_at(root) {
        Object::Root(y) => {
            assert(y@[y@.len() - 1] == id);
        },
        _ => {},
    }
    assert(after.child_of(p[0], p[1]));
    assert(after.is_trace(p) && p.last() == id);
    assert forall|x: usize| before.reachable(x) implies after.reachable(x) by {
        let q = choose|q: Seq<usize>| before.is_trace(q) && q.last() == x;
        assert forall|i: int| 0 <= i < q.len() - 1 implies #[trigger] after.child_of(q[i], q[i + 1]) by {
            assert(before.child_of(q[i], q[i + 1]));
        }
        assert(after.is_trace(q));
    }
}

impl ObjectPool {
    pub closed spec fn view(&self) -> Seq<Option<ObjectInfo>> {
        self.slots@
    }

    pub open spec fn is_live(&self, id: usize) -> bool {
        id < self@.len() && self@[id as int] is Some
    }

    pub open spec fn info_at(&self, id: usize) -> ObjectInfo {
        self@[id as int]->Some_0
    }

    pub open spec fn object_at(&self, id: usize) -> Object {
        self.info_at(id).obj()
    }

    pub open spec fn refs_at(&self, id: usize) -> nat {
        self.info_at(id).refs()
    }

    /// `id` is a live object that the collector keeps whatever its trace finds: a
    /// static root, or an object that some handle pins.
    pub open spec fn is_anchor(&self, id: usize) -> bool {
        self.is_live(id) && (self.object_at(id).kind_of() == ObjectKind::Root || self.refs_at(id) > 0)
    }

    /// `c` is among the identities that the live object `a` directly references.
    pub open spec fn child_of(&self, a: usize, c: usize) -> bool {
        self.is_live(a) && self.object_at(a).children().contains(c)
    }

    /// `p` leads from an anchor through direct references, one step or more.
    pub open spec fn is_trace(&self, p: Seq<usize>) -> bool {
        &&& p.len() >= 2
        &&& self.is_anchor(p[0])
        &&& forall|i: int| 0 <= i < p.len() - 1 ==> #[trigger] self.child_of(p[i], p[i + 1])
    }

    /// Some trace from an anchor ends at `id`: the collector must keep it.
    pub open spec fn reachable(&self, id: usize) -> bool {
        exists|p: Seq<usize>| self.is_trace(p) && p.last() == id
    }

    pub fn new() -> (r: ObjectPool)
        ensures
            r@ == Seq::<Option<ObjectInfo>>::empty(),
    {
        ObjectPool { slots: Vec::new() }
    }

    /// The number of identities handed out so far.
    pub fn len(&self) -> (r: usize)
        ensures
            r == self@.len(),
    {
        self.slots.len()
    }

    pub fn is_live_id(&self, id: usize) -> (r: bool)
        ensures
            r == self.is_live(id),
    {
        id < self.slots.len() && self.slots[id].is_some()
    }

    /// Takes ownership of `obj` under a fresh identity, unpinned.
    pub fn allocate(&mut self, obj: Object) -> (r: usize)
        ensures
            r == old(self)@.len(),
            final(self)@.len() == old(self)@.len() + 1,
            forall|j: int| 0 <= j < old(self)@.len() ==> final(self)@[j] == old(self)@[j],
            final(self).is_live(r),
            final(self).object_at(r) == obj,
            final(self).refs_at(r) == 0,
            !final(self).info_at(r).notified(),
    {
        let id = self.slots.len();
        self.slots.push(Some(ObjectInfo::new(obj)));
        id
    }

    pub fn get(&self, id: usize) -> (r: &Object)
        requires
            self.is_live(id),
        ensures
            *r == self.object_at(id),
    {
        self.slots[id].as_ref().unwrap().as_object()
    }

    /// The entry under `id`, with its counter.
    pub fn info(&self, id: usize) -> (r: &ObjectInfo)
        requires
            self.is_live(id),
        ensures
            *r == self.info_at(id),
    {
        self.slots[id].as_ref().unwrap()
    }

    /// Removes the entry under `id`, leaving the identity empty.
    fn take_slot(&mut self, id: usize) -> (r: ObjectInfo)
        requires
            old(self).is_live(id),
        ensures
            r == old(self).info_at(id),
            final(self)@ == old(self)@.update(id as int, None),
    {
        let mut out: Option<ObjectInfo> = None;
        std::mem::swap(&mut self.slots[id], &mut out);
        out.unwrap()
    }

    /// Pins the object under `id` and returns the handle that holds the pin.
    pub fn handle(&mut self, id: usize) -> (r: ObjectHandle)
        requires
            old(self).is_live(id),
            old(self).refs_at(id) < usize::MAX,
        ensures
            r.id() == id,
            pin_step(*old(self), *final(self), id, true),
    {
        let mut info = self.take_slot(id);
        let h = info.handle(id);
        self.slots[id] = Some(info);
        h
    }

    /// Gives back the pin held by `h`.
    pub fn release(&mut self, h: ObjectHandle)
        requires
            old(self).is_live(h.id()),
            old(self).refs_at(h.id()) > 0,
        ensures
            pin_step(*old(self), *final(self), h.id(), false),
    {
        let id = h.id();
        let mut info = self.take_slot(id);
        info.release(h);
        self.slots[id] = Some(info);
    }

    /// Whether a trace from some static root or pinned object reaches `id`.
    pub fn is_reachable(&self, id: usize) -> (r: bool)
        ensures
            r == (id < self@.len() && self.reachable(id)),
    {
        if id >= self.len() {
            return false;
        }
        let marks = self.reachable_marks();
        marks[id]
    }

    /// The collector's reclamation of one identity. A pinned object, or one that a
    /// trace from a static root or from a pinned object reaches, is never reclaimed;
    /// any other live object is notified and finalized, and its identity left empty.
    pub fn reclaim(&mut self, id: usize) -> (r: bool)
        ensures
            r == (old(self).is_live(id) && old(self).refs_at(id) == 0 && !old(self).reachable(id)),
            r ==> final(self)@ == old(self)@.update(id as int, None),
            !r ==> final(self)@ == old(self)@,
    {
        if !self.is_live_id(id) {
            return false;
        }
        if self.slots[id].as_ref().unwrap().has_native_refs() || self.is_reachable(id) {
            return false;
        }
        let mut info = self.take_slot(id);
        info.gc_notify();
        let _obj = info.finalize();
        true
    }

    /// Registers `id` with the static root under `root`. Fails, changing nothing,
    /// where `root` is not a live static root.
    pub fn append_root_child(&mut self, root: usize, id: usize) -> (r: bool)
        ensures
            r == (old(self).is_live(root) && old(self).object_at(root).kind_of() == ObjectKind::Root),
            !r ==> final(self)@ == old(self)@,
            r ==> root_append_step(*old(self), *final(self), root, id),
    {
        if !self.is_live_id(root) || self.get(root).kind() != ObjectKind::Root {
            return false;
        }
        let mut info = self.take_slot(root);
        let obj = info.as_object_mut();
        match obj {
            Object::Root(r) => r.append_child(id),
            _ => {},
        }
        self.slots[root] = Some(info);
        true
    }

    /// Reads the arity of the function under `id` through a handle that is released
    /// on every path, the failing ones included: the pool comes back unchanged.
    pub fn function_arity(&mut self, id: usize) -> (r: Result<usize, VmError>)
        requires
            old(self).is_live(id) ==> old(self).refs_at(id) < usize::MAX,
        ensures
            final(self)@ == old(self)@,
            r == (if !old(self).is_live(id) {
                Err(VmError::InvalidCallable)
            } else {
                match old(self).object_at(id) {
                    Object::Function(f) => Ok(f.arity),
                    _ => Err(VmError::InvalidCallable),
                }
            }),
    {
        if !self.is_live_id(id) {
            return Err(VmError::InvalidCallable);
        }
        let ghost before = *self;
        let h = self.handle(id);
        let r = match TypedObjectHandle::downcast_from(self, h, ObjectKind::Function) {
            Ok(t) => {
                let n = t.function(self).arity;
                self.release(t.into_handle());
                Ok(n)
            },
            Err(h) => {
                self.release(h);
                Err(VmError::InvalidCallable)
            },
        };
        proof {
            ObjectInfo::lemma_ext(self.info_at(id), before.info_at(id));
            assert(self@ =~= before@);
        }
        r
    }
}

} // verus!
