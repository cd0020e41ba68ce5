//! Errors reported by DPDK.

use vstd::prelude::*;

verus! {

/// `EINVAL`: an argument is out of the range a call accepts.
pub const EINVAL: i32 = 22;

/// A DPDK call failed; `rte_errno` holds why.
#[derive(Clone, Copy, Debug, PartialEq, Eq, Structural)]
pub struct DpdkError {
    errno: i32,
}

impl View for DpdkError {
    type V = i32;

    closed spec fn view(&self) -> i32 {
        self.errno
    }
}

impl DpdkError {
    /// The error for the value `rte_errno` held after the failed call.
    pub fn new(errno: i32) -> (e: DpdkError)
        ensures
            e@ == errno,
    {
        DpdkError { errno }
    }

    /// The value of `rte_errno` after the failed call.
    pub fn errno(&self) -> (errno: i32)
        ensures
            errno == self@,
    {
        self.errno
    }
}

} // verus!
