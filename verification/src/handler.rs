//! Composition of event handlers: two handlers chained one after the
//! other. The gateway types the handlers consume live outside this
//! library; the pair itself, which the composition is built from, is here.

use vstd::prelude::*;

verus! {

/// Two handlers run in sequence: `a` first, then `b`.
pub struct Chain<A, B> {
    pub a: A,
    pub b: B,
}

impl<A, B> Chain<A, B> {
    pub fn new(a: A, b: B) -> (r: Self)
        ensures
            r.a == a,
            r.b == b,
    {
        Self { a, b }
    }
}

} // verus!
