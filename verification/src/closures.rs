//! Callable values taken through each of the three function traits: a caller
//! that borrows the callable mutably, one that borrows it immutably, and one
//! that consumes it. Each calls it exactly once with a fixed greeting and
//! passes the callable's own postcondition for that call on to its caller.

use vstd::prelude::*;

verus! {

/// Calls `f` once, through a mutable borrow, with the greeting "Hello".
pub fn use_mut_closure<F: FnMut(&str)>(mut f: F)
    requires
        call_requires(f, ("Hello",)),
    ensures
        call_ensures(f, ("Hello",), ()),
{
    f("Hello");
}

/// Calls `f` once, through an immutable borrow, with the greeting "Hello".
pub fn use_closure<F: Fn(&str)>(f: F)
    requires
        call_requires(f, ("Hello",)),
    ensures
        call_ensures(f, ("Hello",), ()),
{
    f("Hello");
}

/// Calls `f` once, consuming it, with the greeting "Goodbye".
pub fn use_closure_once<F: FnOnce(&str)>(f: F)
    requires
        call_requires(f, ("Goodbye",)),
    ensures
        call_ensures(f, ("Goodbye",), ()),
{
    f("Goodbye");
}

} // verus!
