//! Small demonstrations of functions taken as values: a character-wise string
//! transform, a pipeline of context-processing functions composed through
//! `Option`, and a caller that hands a name to a callable.

use vstd::prelude::*;
use vstd::string::StrSliceExecFns;

verus! {

/// Relies on `String`'s `FromIterator<char>` implementation: collecting
/// characters yields the string made of exactly those characters, in order.
#[verifier::external_body]
fn chars_to_string(cs: &Vec<char>) -> (r: String)
    ensures
        r@ == cs@,
{
    cs.iter().collect()
}

/// Applies `transform_fn` to every character of `input`, in order, and
/// returns the transformed string: each output character is one the
/// transform admits for the input character at the same position.
pub fn transform_string<F: Fn(char) -> char>(input: &str, transform_fn: F) -> (r: String)
    requires
        forall|i: int| 0 <= i < input@.len() ==> call_requires(transform_fn, (input@[i],)),
    ensures
        r@.len() == input@.len(),
        forall|i: int|
            0 <= i < input@.len() ==> call_ensures(transform_fn, (input@[i],), #[trigger] r@[i]),
{
    let n = input.unicode_len();
    let mut out: Vec<char> = Vec::new();
    let mut i: usize = 0;
    while i < n
        invariant
            n == input@.len(),
            i <= n,
            out@.len() == i,
            forall|j: int| 0 <= j < input@.len() ==> call_requires(transform_fn, (input@[j],)),
            forall|j: int| 0 <= j < i ==> call_ensures(transform_fn, (input@[j],), #[trigger] out@[j]),
        decreases n - i,
    {
        let c = input.get_char(i);
        out.push(transform_fn(c));
        i = i + 1;
    }
    chars_to_string(&out)
}

/// A value carried through the context-processing pipeline.
#[derive(PartialEq, Eq, Structural, Debug)]
pub struct Context {
    pub some_value: u32,
}

/// Returns its argument unchanged.
pub fn context_id(ctx: Context) -> (r: Context)
    ensures
        r == ctx,
{
    ctx
}

/// Feeds `input` through `filter_into_fn`; if something comes through, applies
/// `add_fn` and then `double_fn` to it. The result is `None` exactly when the
/// filter returned `None`; otherwise it is what the two stages admit for the
/// filtered value.
pub fn compose_context_fns<FF, FD, FA>(
    input: Context,
    filter_into_fn: FF,
    double_fn: FD,
    add_fn: FA,
) -> (r: Option<Context>) where
    FF: Fn(Context) -> Option<Context>,
    FD: Fn(Context) -> Context,
    FA: Fn(Context) -> Context,

    requires
        call_requires(filter_into_fn, (input,)),
        forall|c: Context|
            call_ensures(filter_into_fn, (input,), Some(c)) ==> call_requires(add_fn, (c,)),
        forall|c: Context, a: Context|
            call_ensures(filter_into_fn, (input,), Some(c)) && call_ensures(add_fn, (c,), a)
                ==> call_requires(double_fn, (a,)),
    ensures
        r is None ==> call_ensures(filter_into_fn, (input,), None::<Context>),
        r is Some ==> exists|c: Context, a: Context|
            call_ensures(filter_into_fn, (input,), Some(c)) && call_ensures(add_fn, (c,), a)
                && call_ensures(double_fn, (a,), r->0),
{
    match filter_into_fn(input) {
        None => None,
        Some(c) => {
            let a = add_fn(c);
            let d = double_fn(a);
            Some(d)
        },
    }
}

/// Lets only contexts with an even value through; one that comes through has
/// five added and is then doubled, so an even value `v` comes out as
/// `(v + 5) * 2` and an odd one comes out as `None`.
pub fn process_context(ctx: Context) -> (r: Option<Context>)
    requires
        ctx.some_value * 2 + 10 <= u32::MAX,
    ensures
        ctx.some_value % 2 == 0 ==> r == Some(
            (Context { some_value: ((ctx.some_value + 5) * 2) as u32 }),
        ),
        ctx.some_value % 2 != 0 ==> r is None,
{
    let filter = |c: Context| -> (out: Option<Context>)
        ensures
            out == (if c.some_value % 2 == 0 {
                Some(c)
            } else {
                None::<Context>
            }),
        {
            if c.some_value % 2 == 0 {
                Some(c)
            } else {
                None
            }
        };
    let add = |c: Context| -> (out: Context)
        requires
            c.some_value + 5 <= u32::MAX,
        ensures
            out.some_value == c.some_value + 5,
        { Context { some_value: c.some_value + 5 } };
    let double = |c: Context| -> (out: Context)
        requires
            c.some_value * 2 <= u32::MAX,
        ensures
            out.some_value == c.some_value * 2,
        { Context { some_value: c.some_value * 2 } };
    compose_context_fns(ctx, filter, double, add)
}

/// Calls `f` once with the name "Bob".
pub fn use_closure<F: Fn(&str) + 'static>(f: F)
    requires
        call_requires(f, ("Bob",)),
    ensures
        call_ensures(f, ("Bob",), ()),
{
    f("Bob");
}

} // verus!
