//! Keys of the registry's tables.
use vstd::prelude::*;

verus! {

/// A 256-bit key, read as two 128-bit halves that together identify it.
pub trait Key: Copy + Sized {
    /// The two halves of the key.
    spec fn halves(self) -> (u128, u128);

    /// The first half.
    fn head(&self) -> (h: u128)
        ensures
            h == self.halves().0,
    ;

    /// The second half.
    fn tail(&self) -> (t: u128)
        ensures
            t == self.halves().1,
    ;

    /// Two keys with the same halves are the same key.
    proof fn halves_identify(a: Self, b: Self)
        requires
            a.halves() == b.halves(),
        ensures
            a == b,
    ;
}

} // verus!
