//! A stream unfolded from a seed by a step function that yields futures.

use vstd::prelude::*;

verus! {

broadcast use vstd::function::group_function_axioms;

/// Relies on `Box::pin`: the step future is moved to the heap, where it keeps
/// its address for as long as it is polled.
pub assume_specification<T>[ Box::<T>::pin ](x: T) -> std::pin::Pin<Box<T>>;

/// Relies on `Future::poll` of the step future, reached through `Pin::as_mut`.
/// The step future alone decides whether it is ready and with what.
#[verifier::external_body]
fn poll_step<Fut: std::future::Future>(
    fut: &mut std::pin::Pin<Box<Fut>>,
    cx: &mut std::task::Context<'_>,
) -> std::task::Poll<Fut::Output> {
    fut.as_mut().poll(cx)
}

/// What a completed step hands back to the stream: the item it reports, if
/// any, and the seed of the next step, if any.
pub open spec fn settle<Item, T>(step: Option<(Item, T)>) -> (Option<Item>, Option<T>) {
    match step {
        Some((item, next)) => (Some(item), Some(next)),
        None => (None, None),
    }
}

/// The items reported when the stream is started from `seed` and each step
/// completes with `step` applied to its seed, over at most `cycles` steps.
pub open spec fn unfolded<Item, T>(
    step: spec_fn(T) -> Option<(Item, T)>,
    seed: Option<T>,
    cycles: nat,
) -> Seq<Item>
    decreases cycles,
{
    if cycles == 0 {
        Seq::empty()
    } else {
        match seed {
            None => Seq::empty(),
            Some(s) => match settle(step(s)) {
                (Some(item), next) => seq![item] + unfolded(step, next, (cycles - 1) as nat),
                (None, _) => Seq::empty(),
            },
        }
    }
}

/// Following a chain of steps: where each seed `seeds[j]` steps to the item
/// `items[j]` and the seed `seeds[j + 1]`, and the last seed steps to `None`,
/// the stream started from `seeds[0]` reports exactly `items`, in order, and
/// then ends, given enough cycles to reach the end.
pub proof fn lemma_unfold_follows_steps<Item, T>(
    step: spec_fn(T) -> Option<(Item, T)>,
    items: Seq<Item>,
    seeds: Seq<T>,
    cycles: nat,
)
    requires
        seeds.len() == items.len() + 1,
        forall|j: int| 0 <= j < items.len() ==> #[trigger] step(seeds[j]) == Some(
            (items[j], seeds[j + 1]),
        ),
        step(seeds[items.len() as int]) is None,
        cycles > items.len(),
    ensures
        unfolded(step, Some(seeds[0]), cycles) == items,
{
    lemma_unfold_suffix(step, items, seeds, 0, cycles);
}

proof fn lemma_unfold_suffix<Item, T>(
    step: spec_fn(T) -> Option<(Item, T)>,
    items: Seq<Item>,
    seeds: Seq<T>,
    j: int,
    cycles: nat,
)
    requires
        seeds.len() == items.len() + 1,
        forall|k: int| 0 <= k < items.len() ==> #[trigger] step(seeds[k]) == Some(
            (items[k], seeds[k + 1]),
        ),
        step(seeds[items.len() as int]) is None,
        0 <= j <= items.len(),
        cycles > items.len() - j,
    ensures
        unfolded(step, Some(seeds[j]), cycles) == items.subrange(j, items.len() as int),
    decreases items.len() - j,
{
    if j == items.len() {
        assert(items.subrange(j, j) =~= Seq::<Item>::empty());
    } else {
        assert(step(seeds[j]) == Some((items[j], seeds[j + 1])));
        lemma_unfold_suffix(step, items, seeds, j + 1, (cycles - 1) as nat);
        assert(items.subrange(j, items.len() as int) =~= seq![items[j]] + items.subrange(
            j + 1,
            items.len() as int,
        ));
    }
}

/// A seed that steps to `None` at once gives no item at all.
pub proof fn lemma_unfold_ends_at_once<Item, T>(
    step: spec_fn(T) -> Option<(Item, T)>,
    seed: T,
    cycles: nat,
)
    requires
        step(seed) is None,
    ensures
        unfolded(step, Some(seed), cycles) == Seq::<Item>::empty(),
{
}

/// The items of a step's report: the one item, or none.
pub open spec fn reported<Item>(item: Option<Item>) -> Seq<Item> {
    match item {
        Some(i) => seq![i],
        None => Seq::empty(),
    }
}

/// Stream for the [`unfold`] function.
#[must_use]
#[verifier::reject_recursive_types(Fut)]
pub struct Unfold<T, F, Fut> {
    f: F,
    state: Option<T>,
    fut: Option<std::pin::Pin<Box<Fut>>>,
    launched: Ghost<Option<(T, Fut)>>,
}

/// Creates a `Stream` from a seed and a closure returning a `Future`.
///
/// The closure is called with the seed, and the future it returns is awaited.
/// When it completes with `Some((item, next))` the stream yields `item` and
/// `next` becomes the seed of the following step; when it completes with
/// `None` the stream has ended.
pub fn unfold<T, F, Fut, Item>(init: T, f: F) -> (r: Unfold<T, F, Fut>)
    where
        F: FnMut(T) -> Fut,
        Fut: std::future::Future<Output = Option<(Item, T)>>,
    ensures
        r.step_fn() == f,
        r.pending_seed() == Some(init),
        !r.step_in_flight(),
        r.launched() is None,
        r.wf(),
{
    Unfold { f, state: Some(init), fut: None, launched: Ghost(None) }
}

impl<T, F, Fut> Unfold<T, F, Fut> {
    /// The step function.
    pub closed spec fn step_fn(&self) -> F {
        self.f
    }

    /// The seed waiting for its step to be started, if any.
    pub closed spec fn pending_seed(&self) -> Option<T> {
        self.state
    }

    /// Whether a started step has yet to complete.
    pub closed spec fn step_in_flight(&self) -> bool {
        self.fut is Some
    }

    /// The seed of the step started last, with the future that the step
    /// function returned for it.
    pub closed spec fn launched(&self) -> Option<(T, Fut)> {
        self.launched@
    }

    /// A seed never waits while a step is in flight, and a step in flight
    /// was started.
    pub open spec fn wf(&self) -> bool {
        &&& !(self.pending_seed() is Some && self.step_in_flight())
        &&& self.step_in_flight() ==> self.launched() is Some
    }

    /// Neither a seed nor a step is left: the stream has reported its end.
    pub open spec fn is_ended(&self) -> bool {
        self.pending_seed() is None && !self.step_in_flight()
    }

    /// Whether the stream has reported its end, after which it must not be
    /// polled again.
    pub fn has_ended(&self) -> (r: bool)
        ensures
            r == self.is_ended(),
    {
        self.state.is_none() && self.fut.is_none()
    }

    /// Starts the step of the pending seed, if a seed is pending: the step
    /// function is called once, with that seed. Otherwise leaves the stream
    /// as it is. Starting a step never waits.
    pub fn start_step(&mut self)
        where
            F: FnMut(T) -> Fut,
        requires
            old(self).wf(),
            forall|s: T| call_requires(old(self).step_fn(), (s,)),
        ensures
            final(self).wf(),
            final(self).step_fn() == old(self).step_fn(),
            final(self).pending_seed() is None,
            final(self).step_in_flight() == (old(self).step_in_flight()
                || old(self).pending_seed() is Some),
            old(self).pending_seed() matches Some(s) ==> final(self).launched() matches Some(
                (s2, fut),
            ) && s2 == s && call_ensures(old(self).step_fn(), (s,), fut),
            old(self).pending_seed() is None ==> final(self).launched() == old(self).launched(),
    {
        if let Some(seed) = self.state.take() {
            let ghost s = seed;
            let g = &mut self.f;
            proof {
                assert(call_requires(old(self).step_fn(), (seed,)));
                assert(*g == old(self).step_fn());
            }
            let fut = g(seed);
            proof {
                assert(*g == old(self).step_fn());
            }
            self.launched = Ghost(Some((s, fut)));
            self.fut = Some(Box::pin(fut));
        }
    }

    /// Takes the result of the step in flight: the step is dropped, and the
    /// stream reports the item and keeps the next seed, or has ended. Under
    /// any step function that gives this result at the step's seed, what is
    /// reported is the first item of the unfolded sequence, and the rest
    /// unfolds from the kept seed.
    pub fn complete_step<Item>(&mut self, step: Option<(Item, T)>) -> (r: Option<Item>)
        requires
            old(self).wf(),
            old(self).step_in_flight(),
        ensures
            final(self).wf(),
            final(self).step_fn() == old(self).step_fn(),
            final(self).launched() == old(self).launched(),
            !final(self).step_in_flight(),
            (r, final(self).pending_seed()) == settle(step),
            final(self).is_ended() == (step is None),
            old(self).launched() matches Some((s, _)) ==> forall|
                step_of: spec_fn(T) -> Option<(Item, T)>,
                cycles: nat,
            |
                step_of(s) == step && cycles > 0 ==> #[trigger] unfolded(step_of, Some(s), cycles)
                    == reported(r) + unfolded(step_of, final(self).pending_seed(), (cycles - 1) as nat),
    {
        self.fut = None;
        let r = match step {
            Some((item, next)) => {
                self.state = Some(next);
                Some(item)
            },
            None => None,
        };
        proof {
            if let Some((s, _)) = old(self).launched() {
                assert forall|step_of: spec_fn(T) -> Option<(Item, T)>, cycles: nat|
                    step_of(s) == step && cycles > 0 implies #[trigger] unfolded(
                        step_of,
                        Some(s),
                        cycles,
                    ) == reported(r) + unfolded(
                        step_of,
                        self.pending_seed(),
                        (cycles - 1) as nat,
                    ) by {
                    if r is None {
                        assert(unfolded(step_of, None::<T>, (cycles - 1) as nat) =~= Seq::<
                            Item,
                        >::empty());
                        assert(reported(r) + Seq::<Item>::empty() =~= Seq::<Item>::empty());
                    }
                }
            }
        }
        r
    }

    /// Takes the step future, taken out of the stream to be polled, and what
    /// that poll gave. Not ready: the future is kept in flight and the stream
    /// reports `Pending`. Ready: the future is dropped and the stream reports
    /// what [`Unfold::complete_step`] makes of the result.
    pub fn finish_poll<Item>(
        &mut self,
        fut: std::pin::Pin<Box<Fut>>,
        polled: std::task::Poll<Option<(Item, T)>>,
    ) -> (r: std::task::Poll<Option<Item>>)
        where
            Fut: std::future::Future<Output = Option<(Item, T)>>,
        requires
            old(self).pending_seed() is None,
            !old(self).step_in_flight(),
            old(self).launched() is Some,
        ensures
            final(self).wf(),
            final(self).step_fn() == old(self).step_fn(),
            final(self).launched() == old(self).launched(),
            polled is Pending ==> r is Pending && final(self).step_in_flight()
                && final(self).pending_seed() is None,
            polled matches std::task::Poll::Ready(step) ==> r == std::task::Poll::Ready(
                settle(step).0,
            ) && final(self).pending_seed() == settle(step).1 && !final(self).step_in_flight(),
            final(self).is_ended() == (polled matches std::task::Poll::Ready(None)),
            polled matches std::task::Poll::Ready(step) ==> (old(self).launched() matches Some(
                (s, _),
            ) ==> forall|step_of: spec_fn(T) -> Option<(Item, T)>, cycles: nat|
                step_of(s) == step && cycles > 0 ==> #[trigger] unfolded(step_of, Some(s), cycles)
                    == reported(settle(step).0) + unfolded(
                    step_of,
                    final(self).pending_seed(),
                    (cycles - 1) as nat,
                )),
    {
        self.fut = Some(fut);
        match polled {
            std::task::Poll::Pending => std::task::Poll::Pending,
            std::task::Poll::Ready(step) => std::task::Poll::Ready(self.complete_step(step)),
        }
    }

    /// Polls the stream for its next item: starts the step of the pending
    /// seed, if any, then polls the step in flight, once, and reports what
    /// [`Unfold::finish_poll`] makes of that poll.
    ///
    /// A stream that has ended must not be polled again.
    pub fn poll_next<Item>(&mut self, cx: &mut std::task::Context<'_>) -> (r: std::task::Poll<
        Option<Item>,
    >)
        where
            F: FnMut(T) -> Fut,
            Fut: std::future::Future<Output = Option<(Item, T)>>,
        requires
            old(self).wf(),
            !old(self).is_ended(),
            forall|s: T| call_requires(old(self).step_fn(), (s,)),
        ensures
            final(self).wf(),
            final(self).step_fn() == old(self).step_fn(),
            old(self).pending_seed() matches Some(s) ==> final(self).launched() matches Some(
                (s2, fut),
            ) && s2 == s && call_ensures(old(self).step_fn(), (s,), fut),
            old(self).pending_seed() is None ==> final(self).launched() == old(self).launched(),
            r is Pending ==> final(self).step_in_flight() && final(self).pending_seed() is None,
            r matches std::task::Poll::Ready(item) ==> !final(self).step_in_flight() && exists|
                step: Option<(Item, T)>,
            | settle(step) == (item, final(self).pending_seed()),
            final(self).is_ended() == (r matches std::task::Poll::Ready(None)),
    {
        self.start_step();
        let mut fut = self.fut.take().unwrap();
        let polled = poll_step(&mut fut, cx);
        let ghost seen = polled;
        let r = self.finish_poll(fut, polled);
        proof {
            if let std::task::Poll::Ready(step) = seen {
                assert(settle(step) == (settle(step).0, self.pending_seed()));
            }
        }
        r
    }
}

} // verus!
