//! The dispatcher: an append-only handler registry, a dispatch counter, and
//! the planner that fans a message out to the registered handlers.
//!
//! Handlers are values of an arbitrary type `H`; the dispatcher never invokes
//! them itself. A call to [`Dispatcher::dispatch`] bumps the counter and
//! returns a [`DispatchPlan`]: the message, the dispatch number, and the
//! indices of the handlers to invoke, each exactly once. The caller performs
//! the invocations (concurrently, if it likes) and awaits them all; only then
//! is the dispatch complete.

use vstd::prelude::*;

verus! {

/// One planned fan-out: invoke the handler at each index of `targets`, in any
/// order or concurrently, with `(message, dispatch_number)` as arguments.
pub struct DispatchPlan {
    /// The message every invoked handler receives.
    pub message: String,
    /// The value of the dispatch counter for this dispatch; every handler
    /// invoked by this plan observes this same number.
    pub dispatch_number: u32,
    /// Zero-based registration indices of the handlers to invoke.
    pub targets: Vec<usize>,
}

/// A registry of handlers that can fan a message out to all of them.
pub trait Dispatcher<H>: Sized {
    /// How many dispatches this dispatcher has begun.
    spec fn dispatch_count(&self) -> u32;

    /// The registered handlers, in registration order.
    spec fn handlers_seq(&self) -> Seq<H>;

    /// Begins a dispatch of `message` to every registered handler: increments
    /// the dispatch counter and returns the plan whose targets are all
    /// registration indices, each exactly once, in order. The registry itself
    /// is left unchanged.
    fn dispatch(&mut self, message: &str) -> (plan: DispatchPlan)
        requires
            old(self).dispatch_count() < u32::MAX,
        ensures
            final(self).handlers_seq() == old(self).handlers_seq(),
            final(self).dispatch_count() == old(self).dispatch_count() + 1,
            plan.dispatch_number == final(self).dispatch_count(),
            plan.message@ == message@,
            plan.targets@.len() == old(self).handlers_seq().len(),
            forall|j: int| 0 <= j < plan.targets@.len() ==> plan.targets@[j] == j,
    ;
}

/// How many entries of `s` are true: the number of handlers an eligibility
/// vector `s` lets through.
pub open spec fn count_true(s: Seq<bool>) -> nat
    decreases s.len(),
{
    if s.len() == 0 {
        0
    } else {
        count_true(s.drop_last()) + (if s.last() {
            1nat
        } else {
            0nat
        })
    }
}

/// The indices at which `s` holds true, in ascending order: exactly the
/// handlers an eligibility vector `s` selects.
pub open spec fn selected_indices(s: Seq<bool>) -> Seq<usize>
    decreases s.len(),
{
    if s.len() == 0 {
        Seq::empty()
    } else if s.last() {
        selected_indices(s.drop_last()).push((s.len() - 1) as usize)
    } else {
        selected_indices(s.drop_last())
    }
}

/// An eligibility vector selects as many indices as it holds true entries.
pub proof fn lemma_selected_indices_len(s: Seq<bool>)
    ensures
        selected_indices(s).len() == count_true(s),
    decreases s.len(),
{
    if s.len() > 0 {
        lemma_selected_indices_len(s.drop_last());
    }
}

/// The selected indices all lie within the eligibility vector: a plan built
/// from a vector with one verdict per handler targets valid indices only.
pub proof fn lemma_selected_indices_bounded(s: Seq<bool>)
    requires
        s.len() <= usize::MAX,
    ensures
        forall|j: int|
            0 <= j < selected_indices(s).len() ==> selected_indices(s)[j] < s.len(),
    decreases s.len(),
{
    if s.len() > 0 {
        lemma_selected_indices_bounded(s.drop_last());
        let pre = selected_indices(s.drop_last());
        assert forall|j: int|
            0 <= j < selected_indices(s).len() implies selected_indices(s)[j] < s.len() by {
            if s.last() {
                assert(selected_indices(s) == pre.push((s.len() - 1) as usize));
                if j < pre.len() {
                    assert(selected_indices(s)[j] == pre[j]);
                }
            } else {
                assert(selected_indices(s)[j] == pre[j]);
            }
        }
    }
}

/// A filtered dispatch selects exactly the eligible indices: an index is among
/// `selected_indices(s)` if and only if it lies within `s` and `s` holds true
/// there. Handlers whose verdict is false are left out entirely.
pub proof fn lemma_selected_indices_exact(s: Seq<bool>, i: usize)
    requires
        s.len() <= usize::MAX,
    ensures
        selected_indices(s).contains(i) <==> (i < s.len() && s[i as int]),
    decreases s.len(),
{
    if s.len() > 0 {
        lemma_selected_indices_exact(s.drop_last(), i);
        let pre = selected_indices(s.drop_last());
        if s.last() {
            assert(selected_indices(s) == pre.push((s.len() - 1) as usize));
            if i < s.len() && s[i as int] {
                if i == s.len() - 1 {
                    assert(selected_indices(s)[pre.len() as int] == i);
                } else {
                    let j = choose|j: int| 0 <= j < pre.len() && pre[j] == i;
                    assert(selected_indices(s)[j] == i);
                }
            }
        }
    }
}

/// The selected indices come in strictly ascending order: one filtered
/// dispatch invokes no handler twice.
pub proof fn lemma_selected_indices_ascending(s: Seq<bool>)
    requires
        s.len() <= usize::MAX,
    ensures
        forall|j1: int, j2: int|
            0 <= j1 < j2 < selected_indices(s).len()
                ==> selected_indices(s)[j1] < selected_indices(s)[j2],
    decreases s.len(),
{
    if s.len() > 0 {
        lemma_selected_indices_ascending(s.drop_last());
        lemma_selected_indices_bounded(s.drop_last());
        let pre = selected_indices(s.drop_last());
        assert forall|j1: int, j2: int|
            0 <= j1 < j2 < selected_indices(s).len()
                implies selected_indices(s)[j1] < selected_indices(s)[j2] by {
            if s.last() {
                assert(selected_indices(s) == pre.push((s.len() - 1) as usize));
                if j2 < pre.len() {
                    assert(selected_indices(s)[j1] == pre[j1]);
                    assert(selected_indices(s)[j2] == pre[j2]);
                } else {
                    assert(selected_indices(s)[j1] == pre[j1]);
                    assert(pre[j1] < s.drop_last().len());
                    assert(selected_indices(s)[j2] == (s.len() - 1) as usize);
                }
            } else {
                assert(selected_indices(s)[j1] == pre[j1]);
                assert(selected_indices(s)[j2] == pre[j2]);
            }
        }
    }
}

/// A registry of handlers that can fan a message out to a subset of them,
/// chosen index by index.
pub trait DispatcherFiltered<H>: Dispatcher<H> {
    /// Begins a filtered dispatch of `message`: increments the same dispatch
    /// counter as [`Dispatcher::dispatch`] and returns the plan whose targets
    /// are exactly the registration indices `eligible` holds true for, in
    /// ascending order. `eligible` gives one verdict per registered handler,
    /// by registration index; handlers it holds false for are left out of the
    /// plan entirely. The registry itself is left unchanged.
    fn dispatch_filtered(&mut self, message: &str, eligible: &Vec<bool>) -> (plan: DispatchPlan)
        requires
            old(self).dispatch_count() < u32::MAX,
            eligible@.len() == old(self).handlers_seq().len(),
        ensures
            final(self).handlers_seq() == old(self).handlers_seq(),
            final(self).dispatch_count() == old(self).dispatch_count() + 1,
            plan.dispatch_number == final(self).dispatch_count(),
            plan.message@ == message@,
            plan.targets@ == selected_indices(eligible@),
            plan.targets@.len() == count_true(eligible@),
            forall|j: int|
                0 <= j < plan.targets@.len()
                    ==> plan.targets@[j] < old(self).handlers_seq().len(),
    ;
}

/// The dispatcher: a dispatch counter and the ordered handler registry.
///
/// The counter and the registry are shared mutable state; exclusive access
/// (`&mut self`) stands in for the short-held lock that guards the counter
/// increment, so a poisoned-lock failure cannot arise here.
pub struct DispatcherImpl<H> {
    number_of_dispatches: u32,
    handlers: Vec<H>,
}

impl<H> Dispatcher<H> for DispatcherImpl<H> {
    closed spec fn dispatch_count(&self) -> u32 {
        self.number_of_dispatches
    }

    closed spec fn handlers_seq(&self) -> Seq<H> {
        self.handlers@
    }

    fn dispatch(&mut self, message: &str) -> (plan: DispatchPlan) {
        self.number_of_dispatches = self.number_of_dispatches + 1;
        let dispatch_number = self.number_of_dispatches;

        let n = self.handlers.len();
        let mut targets: Vec<usize> = Vec::new();
        let mut i: usize = 0;
        while i < n
            invariant
                i <= n,
                targets@.len() == i,
                forall|j: int| 0 <= j < i ==> targets@[j] == j,
            decreases n - i,
        {
            targets.push(i);
            i = i + 1;
        }

        DispatchPlan { message: message.to_owned(), dispatch_number, targets }
    }
}

impl<H> DispatcherFiltered<H> for DispatcherImpl<H> {
    fn dispatch_filtered(&mut self, message: &str, eligible: &Vec<bool>) -> (plan: DispatchPlan) {
        self.number_of_dispatches = self.number_of_dispatches + 1;
        let dispatch_number = self.number_of_dispatches;

        let mut targets: Vec<usize> = Vec::new();
        let mut i: usize = 0;
        while i < eligible.len()
            invariant
                i <= eligible@.len(),
                targets@ == selected_indices(eligible@.take(i as int)),
            decreases eligible@.len() - i,
        {
            proof {
                assert(eligible@.take(i as int + 1).drop_last() =~= eligible@.take(i as int));
                assert(eligible@.take(i as int + 1).last() == eligible@[i as int]);
            }
            if eligible[i] {
                targets.push(i);
            }
            i = i + 1;
        }
        proof {
            assert(eligible@.take(eligible@.len() as int) =~= eligible@);
            lemma_selected_indices_len(eligible@);
            lemma_selected_indices_bounded(eligible@);
        }

        DispatchPlan { message: message.to_owned(), dispatch_number, targets }
    }
}

impl<H> DispatcherImpl<H> {
    /// Appends `handler` to the registry; the handlers already registered keep
    /// their relative order, and so their indices. The dispatch counter is
    /// untouched.
    pub fn register_handler(&mut self, handler: H)
        requires
            old(self).handlers_seq().len() < usize::MAX,
        ensures
            final(self).handlers_seq() == old(self).handlers_seq().push(handler),
            final(self).dispatch_count() == old(self).dispatch_count(),
    {
        self.handlers.push(handler);
    }

    /// How many dispatches have begun so far.
    pub fn dispatches_so_far(&self) -> (n: u32)
        ensures
            n == self.dispatch_count(),
    {
        self.number_of_dispatches
    }

    /// How many handlers are registered.
    pub fn handler_count(&self) -> (n: usize)
        ensures
            n == self.handlers_seq().len(),
    {
        self.handlers.len()
    }

    /// The handler registered at index `i`, for the caller to invoke.
    pub fn handler(&self, i: usize) -> (h: &H)
        requires
            i < self.handlers_seq().len(),
        ensures
            *h == self.handlers_seq()[i as int],
    {
        &self.handlers[i]
    }
}

/// How a registration changes a dispatcher: `handler` is appended, nothing
/// else moves.
pub open spec fn register_step<H, D: Dispatcher<H>>(pre: D, post: D, handler: H) -> bool {
    &&& post.handlers_seq() == pre.handlers_seq().push(handler)
    &&& post.dispatch_count() == pre.dispatch_count()
}

/// How one dispatch of `message` changes a dispatcher, and what its `plan`
/// says: the counter moves up by one, the registry stays, and the plan fans
/// the message out to every registered handler exactly once, under the new
/// counter value.
pub open spec fn dispatch_step<H, D: Dispatcher<H>>(
    pre: D,
    post: D,
    message: Seq<char>,
    plan: DispatchPlan,
) -> bool {
    &&& pre.dispatch_count() < u32::MAX
    &&& post.handlers_seq() == pre.handlers_seq()
    &&& post.dispatch_count() == pre.dispatch_count() + 1
    &&& plan.dispatch_number == post.dispatch_count()
    &&& plan.message@ == message
    &&& plan.targets@.len() == pre.handlers_seq().len()
    &&& forall|j: int| 0 <= j < plan.targets@.len() ==> plan.targets@[j] == j
}

/// A run of dispatches: `states` are the dispatcher's states in order, and
/// each consecutive pair is related by one dispatch of the corresponding
/// message, planned by the corresponding plan.
pub open spec fn dispatch_trace<H, D: Dispatcher<H>>(
    states: Seq<D>,
    messages: Seq<Seq<char>>,
    plans: Seq<DispatchPlan>,
) -> bool {
    &&& states.len() == plans.len() + 1
    &&& messages.len() == plans.len()
    &&& forall|k: int|
        0 <= k < plans.len() ==> dispatch_step(states[k], states[k + 1], messages[k], plans[k])
}

proof fn lemma_trace_count_at<H, D: Dispatcher<H>>(
    states: Seq<D>,
    messages: Seq<Seq<char>>,
    plans: Seq<DispatchPlan>,
    k: int,
)
    requires
        dispatch_trace(states, messages, plans),
        0 <= k < states.len(),
    ensures
        states[k].dispatch_count() == states[0].dispatch_count() + k,
    decreases k,
{
    if k > 0 {
        lemma_trace_count_at(states, messages, plans, k - 1);
        assert(dispatch_step(states[k - 1], states[k], messages[k - 1], plans[k - 1]));
    }
}

/// Dispatching K times in sequence from a fresh dispatcher hands out the
/// dispatch numbers 1 through K, in order: every handler invoked by the k-th
/// dispatch observes the number k, strictly larger than in any earlier
/// dispatch.
pub proof fn lemma_dispatch_numbers_count_up<H, D: Dispatcher<H>>(
    states: Seq<D>,
    messages: Seq<Seq<char>>,
    plans: Seq<DispatchPlan>,
)
    requires
        dispatch_trace(states, messages, plans),
        states[0].dispatch_count() == 0,
    ensures
        forall|k: int| 0 <= k < plans.len() ==> plans[k].dispatch_number == k + 1,
{
    assert forall|k: int| 0 <= k < plans.len() implies plans[k].dispatch_number == k + 1 by {
        lemma_trace_count_at(states, messages, plans, k + 1);
        assert(dispatch_step(states[k], states[k + 1], messages[k], plans[k]));
    }
}

/// A handler registered right before a dispatch takes part in it: the index
/// the registration gave it is among the plan's targets.
pub proof fn lemma_dispatch_reaches_new_handler<H, D: Dispatcher<H>>(
    s0: D,
    s1: D,
    s2: D,
    handler: H,
    message: Seq<char>,
    plan: DispatchPlan,
)
    requires
        register_step(s0, s1, handler),
        dispatch_step(s1, s2, message, plan),
        s0.handlers_seq().len() < usize::MAX,
    ensures
        plan.targets@.contains(s0.handlers_seq().len() as usize),
{
    let idx = s0.handlers_seq().len() as usize;
    assert(plan.targets@[idx as int] == idx);
}

/// Dispatch is not idempotent: dispatching the same message twice hands out
/// two distinct dispatch numbers, and the two fan-outs together invoke twice
/// as many handlers as are registered.
pub proof fn lemma_repeated_dispatch_is_counted_twice<H, D: Dispatcher<H>>(
    s0: D,
    s1: D,
    s2: D,
    message: Seq<char>,
    p1: DispatchPlan,
    p2: DispatchPlan,
)
    requires
        dispatch_step(s0, s1, message, p1),
        dispatch_step(s1, s2, message, p2),
    ensures
        p1.dispatch_number != p2.dispatch_number,
        p1.targets@.len() + p2.targets@.len() == 2 * s0.handlers_seq().len(),
{
}

impl<H> Default for DispatcherImpl<H> {
    /// A fresh dispatcher: no handlers, no dispatches yet.
    fn default() -> (d: Self)
        ensures
            d.dispatch_count() == 0,
            d.handlers_seq() == Seq::<H>::empty(),
    {
        let d = DispatcherImpl { number_of_dispatches: 0, handlers: Vec::new() };
        proof {
            assert(d.handlers_seq() =~= Seq::<H>::empty());
        }
        d
    }
}

} // verus!
