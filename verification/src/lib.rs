//! An append-only registry of message handlers with a verified dispatch
//! planner.
//!
//! A `DispatcherImpl` owns an ordered sequence of handlers and a counter of
//! dispatches. Handlers are opaque to the planner: invoking them is the
//! caller's business (they are typically asynchronous callables run on a task
//! scheduler). A dispatch therefore happens in two steps: the dispatcher
//! produces a [`dispatch::DispatchPlan`] saying which handlers to invoke and
//! with which arguments, and the caller carries the plan out, awaiting every
//! invocation before treating the dispatch as complete.

pub mod closures;
pub mod dispatch;
pub mod exercises;
