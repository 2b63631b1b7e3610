//! The handle-bearing object that the host holds.

use crate::engine::Engine;
use crate::error::BridgeError;
use crate::registry::{created, Registry};
use crate::render::{plan, planned};
use configtpl::types::config_builder::BuildArgs;
use vstd::prelude::*;

verus! {

/// Stands, on the host side, for one native builder instance of a registry.
/// It holds the instance's handle and nothing else.
pub struct BuilderHandle {
    handle: usize,
}

impl View for BuilderHandle {
    type V = usize;

    closed spec fn view(&self) -> usize {
        self.handle
    }
}

impl BuilderHandle {
    /// Creates a native builder instance in `registry` and the object that
    /// stands for it. The registry grows by that one instance; the instances
    /// behind earlier handles stay as they were.
    pub fn new(registry: &mut Registry) -> (builder: Self)
        ensures
            created(old(registry)@, final(registry)@, builder@),
            final(registry).is_live(builder@),
            old(registry).all_live() ==> final(registry).all_live(),
    {
        BuilderHandle { handle: registry.create() }
    }

    /// The handle of the instance that this object stands for.
    pub fn handle(&self) -> (handle: usize)
        ensures
            handle == self@,
    {
        self.handle
    }

    /// Plans a render of `paths` on this object's instance: the instance to
    /// ask and the arguments to ask it with, or the refusal of a handle that
    /// `registry` does not hold.
    pub fn plan<'a>(&self, registry: &'a Registry, paths: Vec<String>) -> (ask: Result<
        (&'a Engine, BuildArgs),
        BridgeError,
    >)
        ensures
            planned(*registry, self@, paths@, ask),
    {
        plan(registry, self.handle, paths)
    }
}

} // verus!
