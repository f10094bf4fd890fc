use vstd::prelude::*;

verus! {

/// A point in time as the C library reports it: seconds and nanoseconds.
#[derive(Clone, Copy, PartialEq, Eq, Structural)]
pub struct timespec {
    pub tv_sec: i64,
    pub tv_nsec: i64,
}

} // verus!
