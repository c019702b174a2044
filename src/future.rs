//! A future that delegates each poll to a function.

use vstd::prelude::*;

verus! {

broadcast use vstd::function::group_function_axioms;

/// Future for the [`poll_fn`] function.
#[must_use]
pub struct PollFn<F> {
    f: F,
}

/// Creates a new future wrapping around a function returning `Poll`.
///
/// Polling the returned future delegates to the wrapped function.
pub fn poll_fn<T, F>(f: F) -> (r: PollFn<F>)
    where
        F: FnMut(&mut std::task::Context<'_>) -> std::task::Poll<T>,
    ensures
        r.func() == f,
{
    PollFn { f }
}

impl<F> PollFn<F> {
    /// The wrapped polling function.
    pub closed spec fn func(&self) -> F {
        self.f
    }

    /// Polls once: calls the wrapped function with `cx`, once, and returns
    /// what it returned. The wrapper keeps no state of its own, so any number
    /// of polls behave as the same number of direct calls.
    pub fn poll<T>(&mut self, cx: &mut std::task::Context<'_>) -> (r: std::task::Poll<T>)
        where
            F: FnMut(&mut std::task::Context<'_>) -> std::task::Poll<T>,
        requires
            forall|c: &mut std::task::Context<'_>| call_requires(old(self).func(), (c,)),
        ensures
            final(self).func() == old(self).func(),
            exists|c: &mut std::task::Context<'_>|
                *c == *old(cx) && call_ensures(old(self).func(), (c,), r),
    {
        let g = &mut self.f;
        proof {
            assert forall|c: &mut std::task::Context<'_>| call_requires(*g, (c,)) by {
                assert(call_requires(old(self).func(), (c,)));
            }
        }
        let r = g(cx);
        proof {
            assert(exists|c: &mut std::task::Context<'_>|
                *c == *old(cx) && call_ensures(*g, (c,), r));
            assert(*g == old(self).func());
        }
        r
    }
}

impl<F> Unpin for PollFn<F> {
}

} // verus!
