//! NUMA sockets.

use vstd::prelude::*;

verus! {

/// A NUMA socket, by the id DPDK gives it.
#[derive(Clone, Copy, Debug, PartialEq, Eq, Structural)]
pub struct SocketId(i32);

impl View for SocketId {
    type V = i32;

    closed spec fn view(&self) -> i32 {
        self.0
    }
}

impl SocketId {
    /// The socket id that puts no constraint on where memory is placed.
    pub fn any() -> (s: SocketId)
        ensures
            s@ == -1,
    {
        SocketId(-1)
    }

    /// The socket with the id DPDK reports (such as `rte_socket_id()`).
    pub fn from_raw(id: i32) -> (s: SocketId)
        ensures
            s@ == id,
    {
        SocketId(id)
    }

    /// The id to hand to DPDK calls.
    pub fn raw(&self) -> (id: i32)
        ensures
            id == self@,
    {
        self.0
    }
}

} // verus!
