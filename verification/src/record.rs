//! Functions that are handed in from outside, with a record of their calls.
//!
//! What a function handed in does outside is not known here. That it was called
//! with these values, in this order, and with no others, is: only [`Recorded::call`]
//! reaches it, and the record grows by each call.

use vstd::prelude::*;

verus! {

/// A function from `A` to `B`, and the calls it has had.
#[verifier::reject_recursive_types(F)]
#[verifier::reject_recursive_types(A)]
#[verifier::reject_recursive_types(B)]
pub struct Recorded<F, A, B> {
    function: F,
    calls: Ghost<Seq<(A, B)>>,
}

impl<A, B, F: Fn(A) -> B> Recorded<F, A, B> {
    /// The function itself.
    pub closed spec fn function(self) -> F {
        self.function
    }

    /// The calls so far, each with its argument and its result.
    pub closed spec fn calls(self) -> Seq<(A, B)> {
        self.calls@
    }

    /// The function can be called with every value.
    pub open spec fn ready(self) -> bool {
        forall|a: A| #[trigger] call_requires(self.function(), (a,))
    }

    /// The calls since `before`.
    pub open spec fn since(self, before: Self) -> Seq<(A, B)> {
        self.calls().skip(before.calls().len() as int)
    }

    /// This is `before`, with more calls or the same.
    pub open spec fn continues(self, before: Self) -> bool {
        self.function() == before.function() && before.calls().is_prefix_of(self.calls())
    }

    /// A function that has not been called yet.
    pub fn new(function: F) -> (r: Self)
        ensures
            r.function() == function,
            r.calls() == Seq::<(A, B)>::empty(),
    {
        Recorded { function, calls: Ghost(Seq::empty()) }
    }

    /// Call the function.
    pub fn call(&mut self, a: A) -> (b: B)
        requires
            old(self).ready(),
        ensures
            final(self).function() == old(self).function(),
            final(self).calls() == old(self).calls().push((a, b)),
            call_ensures(old(self).function(), (a,), b),
    {
        let ghost given = a;
        assert(call_requires(self.function(), (a,)));
        let b = (self.function)(a);
        self.calls = Ghost(self.calls@.push((given, b)));
        b
    }
}

} // verus!
