use std::collections::HashMap;
use vstd::prelude::*;

verus! {

/// Handle value that refers to no entity.
pub const OUTER_NULL: i64 = 0x1FFFFF;

/// Maps container handles to the entity that most recently declared itself
/// owned through that handle.
pub struct HandleResolver {
    links: HashMap<i64, u32>,
}

impl View for HandleResolver {
    type V = Map<i64, u32>;

    closed spec fn view(&self) -> Map<i64, u32> {
        self.links@
    }
}

impl HandleResolver {
    /// The null handle is never linked.
    pub open spec fn wf(&self) -> bool {
        !self@.contains_key(OUTER_NULL)
    }

    pub fn new() -> (r: HandleResolver)
        ensures
            r@ == Map::<i64, u32>::empty(),
            r.wf(),
    {
        HandleResolver { links: HashMap::new() }
    }

    /// Records that `owner` is held through `handle`; a later record for the
    /// same handle replaces an earlier one, and the null handle is ignored.
    pub fn record_container_link(&mut self, handle: i64, owner: u32)
        requires
            old(self).wf(),
        ensures
            final(self).wf(),
            final(self)@ == if handle == OUTER_NULL {
                old(self)@
            } else {
                old(self)@.insert(handle, owner)
            },
    {
        if handle != OUTER_NULL {
            self.links.insert(handle, owner);
        }
    }

    /// The entity last linked through `handle`, if any.
    pub fn resolve(&self, handle: i64) -> (r: Option<u32>)
        ensures
            r == if self@.contains_key(handle) {
                Some(self@[handle])
            } else {
                None::<u32>
            },
    {
        match self.links.get(&handle) {
            Some(e) => Some(*e),
            None => None,
        }
    }
}

} // verus!
