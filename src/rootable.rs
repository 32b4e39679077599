use std::marker::PhantomData;

use vstd::prelude::*;

use crate::execution::Agent;
use crate::generator::Generator;
use crate::value::Value;

verus! {

/// A handle kept in the agent's scoped roots: a collection rewrites the
/// root, so the handle stays good for the whole `'scope`.
pub struct Scoped<'scope, T> {
    root: usize,
    marker: PhantomData<&'scope T>,
}

impl<'scope, T> View for Scoped<'scope, T> {
    type V = usize;

    /// The slot of the root in the agent's scoped roots.
    closed spec fn view(&self) -> usize {
        self.root
    }
}

impl<'scope, T> Scoped<'scope, T> {
    pub(crate) fn from_root(root: usize) -> (r: Scoped<'scope, T>)
        ensures
            r@ == root,
    {
        Scoped { root, marker: PhantomData }
    }
}

impl<'scope> Scoped<'scope, Generator<'static>> {
    /// Reads the generator back, at its index after any collection since.
    pub fn get(&self, agent: &Agent) -> (r: Generator<'static>)
        requires
            self@ < agent.scoped_roots@.len(),
            agent.scoped_roots@[self@ as int] is Generator,
        ensures
            agent.scoped_roots@[self@ as int] == Value::Generator(r@),
    {
        match agent.scoped_roots[self.root] {
            Value::Generator(i) => Generator::from_index(i),
            _ => Generator::_def(),
        }
    }
}

} // verus!
