use std::marker::PhantomData;

use vstd::prelude::*;

verus! {

/// Stands for access to the collector: whoever holds it exclusively may
/// trigger a collection.
#[derive(Clone, Copy, Debug)]
#[non_exhaustive]
pub struct GcToken;

/// Stands for a call scope in which scoped roots stay alive.
#[derive(Clone, Copy, Debug)]
#[non_exhaustive]
pub struct ScopeToken;

impl GcToken {
    /// The token of an agent's collector; an embedder makes one per agent.
    pub fn default_token() -> GcToken {
        GcToken
    }
}

impl ScopeToken {
    /// The token of an outermost call scope.
    pub fn default_token() -> ScopeToken {
        ScopeToken
    }
}

/// An exclusive borrow of a token, as small as the token itself.
pub struct ContextMut<'a, T> {
    inner: T,
    lifetime: PhantomData<&'a mut T>,
}

/// A shared borrow of a token, as small as the token itself.
pub struct ContextRef<'a, T> {
    inner: T,
    lifetime: PhantomData<&'a T>,
}

impl<'a, T> ContextMut<'a, T> {
    pub closed spec fn inner_spec(&self) -> T {
        self.inner
    }

    /// Wraps a token in an exclusive borrow.
    pub fn new(inner: T) -> (r: ContextMut<'a, T>)
        ensures
            r.inner_spec() == inner,
    {
        ContextMut { inner, lifetime: PhantomData }
    }
}

impl<'a, T: Copy> Clone for ContextRef<'a, T> {
    fn clone(&self) -> (r: Self)
        ensures
            r.inner_spec() == self.inner_spec(),
    {
        ContextRef { inner: self.inner, lifetime: PhantomData }
    }
}

impl<'a, T: Copy> Copy for ContextRef<'a, T> {

}

impl<'a, T> ContextRef<'a, T> {
    pub closed spec fn inner_spec(&self) -> T {
        self.inner
    }

    /// Wraps a token in a shared borrow.
    pub fn new(inner: T) -> (r: ContextRef<'a, T>)
        ensures
            r.inner_spec() == inner,
    {
        ContextRef { inner, lifetime: PhantomData }
    }
}

/// The pair of brands an operation runs under: `'scope` for scoped roots,
/// `'gc` for handles that no collection can invalidate.
pub struct Context<'scope, 'gc> {
    scope_ref: ContextRef<'scope, ScopeToken>,
    gc_ref: ContextMut<'gc, GcToken>,
}

impl<'scope, 'gc> Context<'scope, 'gc> {
    pub fn new(scope: &'scope mut ScopeToken, gc: &'gc mut GcToken) -> Context<'scope, 'gc> {
        Context { scope_ref: ContextRef::new(*scope), gc_ref: ContextMut::new(*gc) }
    }

    /// The brands of an operation during which no collection happens.
    pub fn nogc(&self) -> NoGcScope<'_, 'scope> {
        NoGcScope { gc: ContextRef::new(GcToken), scope: ContextRef::new(ScopeToken) }
    }
}

/// The brands of an operation during which no collection happens.
#[derive(Clone, Copy)]
pub struct NoGcScope<'a, 'b> {
    gc: ContextRef<'a, GcToken>,
    scope: ContextRef<'b, ScopeToken>,
}

} // verus!
