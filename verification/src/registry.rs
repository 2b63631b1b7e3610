//! The table of native builder instances behind the handles.

use crate::engine::{new_engine, Engine};
use crate::error::BridgeError;
use vstd::prelude::*;

verus! {

/// Owns every native builder instance ever created and lets a small integer,
/// the handle, stand for one of them.
///
/// The table only grows: a slot, once filled, keeps its instance, and a handle
/// is never given out twice. No operation clears a slot, but a lookup
/// tolerates a cleared one.
pub struct Registry {
    slots: Vec<Option<Engine>>,
}

impl View for Registry {
    type V = Seq<Option<Engine>>;

    closed spec fn view(&self) -> Seq<Option<Engine>> {
        self.slots@
    }
}

/// `after` is `before` with one more slot at its end, which holds an
/// instance, and `handle` is the index of that slot.
pub open spec fn created(
    before: Seq<Option<Engine>>,
    after: Seq<Option<Engine>>,
    handle: usize,
) -> bool {
    &&& handle == before.len()
    &&& after.len() == before.len() + 1
    &&& after.drop_last() == before
    &&& after.last() is Some
}

/// `later` begins with the slots of `earlier`, unchanged: the table has only
/// grown.
pub open spec fn grown(earlier: Seq<Option<Engine>>, later: Seq<Option<Engine>>) -> bool {
    &&& earlier.len() <= later.len()
    &&& later.subrange(0, earlier.len() as int) == earlier
}

/// Two creations on one table, with any growth in between, give two
/// different handles, and the second leaves the instance behind the first
/// handle in its slot.
pub proof fn lemma_handles_are_isolated(
    start: Seq<Option<Engine>>,
    first_done: Seq<Option<Engine>>,
    first: usize,
    second_start: Seq<Option<Engine>>,
    second_done: Seq<Option<Engine>>,
    second: usize,
)
    requires
        created(start, first_done, first),
        grown(first_done, second_start),
        created(second_start, second_done, second),
    ensures
        first < second,
        second_done[first as int] == first_done[first as int],
        second_done[first as int] is Some,
        second_done[second as int] is Some,
{
    assert(second_start[first as int] == second_start.subrange(0, first_done.len() as int)[first as int]);
    assert(second_done.drop_last()[first as int] == second_done[first as int]);
}

/// A creation keeps every earlier slot, so a table that is only ever created
/// on has only grown.
pub proof fn lemma_creation_grows(
    before: Seq<Option<Engine>>,
    after: Seq<Option<Engine>>,
    handle: usize,
)
    requires
        created(before, after, handle),
    ensures
        grown(before, after),
{
    assert(after.subrange(0, before.len() as int) =~= after.drop_last());
}

impl Registry {
    /// The handle names a slot of the table that holds an instance.
    pub open spec fn is_live(&self, handle: usize) -> bool {
        handle < self@.len() && self@[handle as int] is Some
    }

    /// Every slot of the table holds an instance.
    pub open spec fn all_live(&self) -> bool {
        forall|i: int| 0 <= i < self@.len() ==> (#[trigger] self@[i]) is Some
    }

    /// An empty table.
    pub fn new() -> (registry: Self)
        ensures
            registry@.len() == 0,
            registry.all_live(),
    {
        Registry { slots: Vec::new() }
    }

    /// The number of instances created so far.
    pub fn count(&self) -> (n: usize)
        ensures
            n == self@.len(),
    {
        self.slots.len()
    }

    /// Creates a native builder instance with the default configuration,
    /// appends it to the table and returns the index of its slot.
    pub fn create(&mut self) -> (handle: usize)
        ensures
            created(old(self)@, final(self)@, handle),
            final(self).is_live(handle),
            old(self).all_live() ==> final(self).all_live(),
    {
        let handle = self.slots.len();
        self.slots.push(Some(new_engine()));
        assert(self.slots@.drop_last() =~= old(self).slots@);
        handle
    }

    /// Looks up the instance behind a handle.
    pub fn resolve(&self, handle: usize) -> (found: Result<&Engine, BridgeError>)
        ensures
            match found {
                Ok(engine) => self.is_live(handle) && self@[handle as int] == Some(*engine),
                Err(error) => !self.is_live(handle) && error == BridgeError::InvalidHandle(handle),
            },
    {
        if handle < self.slots.len() {
            match &self.slots[handle] {
                Some(engine) => Ok(engine),
                None => Err(BridgeError::InvalidHandle(handle)),
            }
        } else {
            Err(BridgeError::InvalidHandle(handle))
        }
    }
}

} // verus!
