//! A small guarded value type: a number is admitted only up to a fixed bound,
//! and anything above it is rejected at construction.

use vstd::prelude::*;

verus! {

/// The largest value that [`Test::new`] admits.
pub const BOUND: i32 = 42;

/// A value that has passed the bound check at construction.
pub struct Test {
    value: i32,
}

impl Test {
    /// The wrapped value.
    pub closed spec fn spec_value(self) -> i32 {
        self.value
    }

    /// Admits `value` when it does not exceed [`BOUND`]; rejects anything
    /// larger with an error.
    pub fn new(value: i32) -> (r: Result<Self, String>)
        ensures
            value <= BOUND ==> r is Ok && r->Ok_0.spec_value() == value,
            value > BOUND ==> r is Err && r->Err_0@ == "error"@,
    {
        if value > BOUND {
            return Err("error".to_owned());
        }
        Ok(Test { value })
    }

    /// The wrapped value, readable after construction.
    pub fn value(&self) -> (r: i32)
        ensures
            r == self.spec_value(),
    {
        self.value
    }
}

} // verus!
