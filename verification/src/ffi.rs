//! What this crate reads of the C headers that DPDK keeps for a ring
//! (`struct rte_ring`) and for a memory zone (`struct rte_memzone`).

use vstd::prelude::*;

use crate::cstr::{c_str_end, is_c_str_end, nul_free, NAMESIZE};

verus! {

/// `field` can be a name field of a DPDK header: `NAMESIZE` bytes holding a NUL.
pub open spec fn is_name_field(field: Seq<u8>) -> bool {
    field.len() == NAMESIZE && !nul_free(field)
}

/// Whether `field` can be a name field of a DPDK header.
fn check_name_field(field: &Vec<u8>) -> (b: bool)
    ensures
        b == is_name_field(field@),
{
    if field.len() != NAMESIZE {
        return false;
    }
    let n = c_str_end(field.as_slice());
    proof {
        if n < field.len() {
            assert(field@[n as int] == 0u8);
        } else {
            assert(field@.take(n as int) =~= field@);
        }
    }
    n < field.len()
}

/// The header of a ring: its name, its capacity and its flags.
pub struct RteRing {
    name: Vec<u8>,
    capacity: u32,
    flags: i32,
}

impl RteRing {
    /// DPDK always NUL-terminates the name within its field.
    #[verifier::type_invariant]
    spec fn inv(self) -> bool {
        is_name_field(self.name@)
    }

    /// The name field, NUL-terminated.
    pub closed spec fn name_bytes(&self) -> Seq<u8> {
        self.name@
    }

    pub closed spec fn spec_capacity(&self) -> u32 {
        self.capacity
    }

    pub closed spec fn spec_flags(&self) -> i32 {
        self.flags
    }

    /// The header with these fields, or `None` when `name` cannot be a name
    /// field (it is not `NAMESIZE` bytes long, or holds no NUL).
    pub fn new(name: Vec<u8>, capacity: u32, flags: i32) -> (r: Option<RteRing>)
        ensures
            r is Some <==> is_name_field(name@),
            r matches Some(h) ==> {
                &&& h.name_bytes() == name@
                &&& h.capacity() == capacity
                &&& h.flags() == flags
            },
    {
        if check_name_field(&name) {
            Some(RteRing { name, capacity, flags })
        } else {
            None
        }
    }

    /// The name field, NUL-terminated.
    pub fn name_field(&self) -> (r: &[u8])
        ensures
            r@ == self.name_bytes(),
            is_name_field(r@),
    {
        proof {
            use_type_invariant(self);
        }
        self.name.as_slice()
    }

    /// The largest number of objects the ring can hold.
    #[verifier::when_used_as_spec(spec_capacity)]
    pub fn capacity(&self) -> (r: u32)
        ensures
            r == self.spec_capacity(),
    {
        self.capacity
    }

    /// The flags the ring was created with.
    #[verifier::when_used_as_spec(spec_flags)]
    pub fn flags(&self) -> (r: i32)
        ensures
            r == self.spec_flags(),
    {
        self.flags
    }
}

/// The header of a memory zone: its name, length, page size, flags and socket.
pub struct RteMemzone {
    name: Vec<u8>,
    len: usize,
    hugepage_sz: u64,
    socket_id: i32,
    flags: u32,
}

impl RteMemzone {
    /// DPDK always NUL-terminates the name within its field.
    #[verifier::type_invariant]
    spec fn inv(self) -> bool {
        is_name_field(self.name@)
    }

    /// The name field, NUL-terminated.
    pub closed spec fn name_bytes(&self) -> Seq<u8> {
        self.name@
    }

    pub closed spec fn spec_len(&self) -> usize {
        self.len
    }

    pub closed spec fn spec_hugepage_sz(&self) -> u64 {
        self.hugepage_sz
    }

    pub closed spec fn spec_socket_id(&self) -> i32 {
        self.socket_id
    }

    pub closed spec fn spec_flags(&self) -> u32 {
        self.flags
    }

    /// The header with these fields, or `None` when `name` cannot be a name
    /// field (it is not `NAMESIZE` bytes long, or holds no NUL).
    pub fn new(name: Vec<u8>, len: usize, hugepage_sz: u64, socket_id: i32, flags: u32) -> (r:
        Option<RteMemzone>)
        ensures
            r is Some <==> is_name_field(name@),
            r matches Some(h) ==> {
                &&& h.name_bytes() == name@
                &&& h.len() == len
                &&& h.hugepage_sz() == hugepage_sz
                &&& h.socket_id() == socket_id
                &&& h.flags() == flags
            },
    {
        if check_name_field(&name) {
            Some(RteMemzone { name, len, hugepage_sz, socket_id, flags })
        } else {
            None
        }
    }

    /// The name field, NUL-terminated.
    pub fn name_field(&self) -> (r: &[u8])
        ensures
            r@ == self.name_bytes(),
            is_name_field(r@),
    {
        proof {
            use_type_invariant(self);
        }
        self.name.as_slice()
    }

    /// Length of the zone in bytes.
    #[verifier::when_used_as_spec(spec_len)]
    pub fn len(&self) -> (r: usize)
        ensures
            r == self.spec_len(),
    {
        self.len
    }

    /// Size of the pages that back the zone.
    #[verifier::when_used_as_spec(spec_hugepage_sz)]
    pub fn hugepage_sz(&self) -> (r: u64)
        ensures
            r == self.spec_hugepage_sz(),
    {
        self.hugepage_sz
    }

    /// The NUMA socket the zone lies on.
    #[verifier::when_used_as_spec(spec_socket_id)]
    pub fn socket_id(&self) -> (r: i32)
        ensures
            r == self.spec_socket_id(),
    {
        self.socket_id
    }

    /// The flags of the zone.
    #[verifier::when_used_as_spec(spec_flags)]
    pub fn flags(&self) -> (r: u32)
        ensures
            r == self.spec_flags(),
    {
        self.flags
    }
}

} // verus!
