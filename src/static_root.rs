use vstd::prelude::*;

verus! {

/// An object whose children the collector always treats as reachable. Children are
/// only ever appended.
pub struct StaticRoot {
    children: Vec<usize>,
}

impl StaticRoot {
    /// The identities registered so far, in order of registration.
    pub closed spec fn view(&self) -> Seq<usize> {
        self.children@
    }

    pub fn new() -> (r: StaticRoot)
        ensures
            r@ == Seq::<usize>::empty(),
    {
        StaticRoot { children: Vec::new() }
    }

    /// Registers one more always-reachable identity.
    pub fn append_child(&mut self, id: usize)
        ensures
            final(self)@ == old(self)@.push(id),
    {
        self.children.push(id);
    }

    pub fn get_children(&self) -> (r: Vec<usize>)
        ensures
            r@ == self@,
    {
        self.children.clone()
    }
}

impl Default for StaticRoot {
    fn default() -> (r: StaticRoot)
        ensures
            r@ == Seq::<usize>::empty(),
    {
        StaticRoot::new()
    }
}

} // verus!
