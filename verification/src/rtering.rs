//! Rings created with a per-core cache size in their signature.

use vstd::prelude::*;

use crate::cstr::CName;
use crate::error::{DpdkError, EINVAL};
use crate::ffi::RteRing;
use crate::memring::{RingArgs, NO_FLAGS};
use crate::socket::SocketId;

verus! {

/// A ring of `Mbuf`s, created through `rte_ring_create`.
pub struct Ring {
    raw: RteRing,
}

impl Ring {
    /// The header this ring reads.
    pub closed spec fn spec_raw(&self) -> RteRing {
        self.raw
    }

    /// The arguments for `rte_ring_create` that create a ring named `name`
    /// for `capacity` `Mbuf`s on `socket_id`.
    ///
    /// `capacity` is the maximum number of `Mbuf` the ring can hold; the
    /// optimum size (in terms of memory usage) is when it is a power of two
    /// minus one. The C call takes the count as an `unsigned int`: a
    /// `capacity` beyond it cannot be asked for, and gives `EINVAL`.
    ///
    /// `cache_size` is the per core object cache asked for; `rte_ring_create`
    /// takes no cache size, so it is not handed on.
    pub fn create_args(name: CName, capacity: usize, cache_size: usize, socket_id: SocketId) -> (r: Result<
        RingArgs,
        DpdkError,
    >)
        ensures
            r is Ok <==> capacity <= u32::MAX,
            r matches Ok(args) ==> {
                &&& args.name == name
                &&& args.count == capacity
                &&& args.socket_id == socket_id@
                &&& args.flags == NO_FLAGS
            },
            r matches Err(e) ==> e@ == EINVAL,
    {
        if capacity <= u32::MAX as usize {
            Ok(
                RingArgs {
                    name,
                    count: capacity as u32,
                    socket_id: socket_id.raw(),
                    flags: NO_FLAGS as u32,
                },
            )
        } else {
            Err(DpdkError::new(EINVAL))
        }
    }

    /// The ring that `rte_ring_create` gave, or the error it reported:
    /// `created` is the header of the new ring, or the value of `rte_errno`
    /// when the call gave no ring (the allocation failed).
    pub fn new(created: Result<RteRing, i32>) -> (r: Result<Ring, DpdkError>)
        ensures
            created matches Ok(raw) ==> r matches Ok(ring) && ring.spec_raw() == raw,
            created matches Err(errno) ==> r matches Err(e) && e@ == errno,
    {
        match created {
            Ok(raw) => Ok(Ring { raw }),
            Err(errno) => Err(DpdkError::new(errno)),
        }
    }
}

} // verus!
