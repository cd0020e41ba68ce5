//! Rings that carry `Mbuf`s between DPDK processes.

use vstd::prelude::*;

use crate::cstr::{c_str_as_str, c_str_text, lemma_stored_name_reads_back, CName};
use crate::error::{DpdkError, EINVAL};
use crate::ffi::RteRing;
use crate::socket::SocketId;
use crate::text::{
    ascii_text, decimal_ascii, decimal_string, digits_value, hex_ascii, hex_string,
    is_decimal_digits, is_hex_digits, lemma_decimal_reads_back, lemma_hex_reads_back,
};

verus! {

/// The flags a ring is created with: none.
pub const NO_FLAGS: u8 = 0;

/// What `rte_ring_create` is called with.
pub struct RingArgs {
    /// The ring's name.
    pub name: CName,
    /// The number of objects asked for, as the C `unsigned int` takes it.
    pub count: u32,
    /// The socket to allocate on.
    pub socket_id: i32,
    /// Creation flags.
    pub flags: u32,
}

/// A ring is intended to communicate between two DPDK processes by
/// sending/receiving `Mbuf`.
pub struct Ring {
    raw: RteRing,
}

/// Text of a ring header as `{:?}` shows it:
/// `NAME { capacity: N, flags: 0xF }`.
pub open spec fn ring_debug_text(name: Seq<char>, capacity: u32, flags: i32) -> Seq<char> {
    name + " { capacity: "@ + ascii_text(decimal_ascii(capacity as nat)) + ", flags: "@
        + ascii_text(seq![48u8, 120u8] + hex_ascii((flags as u32) as nat)) + " }"@
}

/// `text` shows a ring named `name`: it begins with the whole name, then
/// ` { capacity: ` and decimal digits that read back as `capacity`, then
/// `, flags: 0x` and hexadecimal digits that read back as `flags` (as its
/// 32-bit pattern), and ends with ` }`.
pub open spec fn shows_ring(text: Seq<char>, name: Seq<char>, capacity: u32, flags: i32) -> bool {
    &&& (name + " { capacity: "@).is_prefix_of(text)
    &&& exists|cap_digits: Seq<u8>, flag_digits: Seq<u8>|
        #![trigger digits_value(cap_digits, 10), digits_value(flag_digits, 16)]
        {
            &&& is_decimal_digits(cap_digits)
            &&& digits_value(cap_digits, 10) == capacity
            &&& is_hex_digits(flag_digits)
            &&& digits_value(flag_digits, 16) == flags as u32
            &&& text == name + " { capacity: "@ + ascii_text(cap_digits) + ", flags: "@
                + ascii_text(seq![48u8, 120u8] + flag_digits) + " }"@
        }
}

/// The text of every ring header shows the ring's whole name, its capacity
/// and its flags, each reading back as the header holds it.
pub proof fn lemma_ring_debug_text_shows_ring(name: Seq<char>, capacity: u32, flags: i32)
    ensures
        shows_ring(ring_debug_text(name, capacity, flags), name, capacity, flags),
{
    let text = ring_debug_text(name, capacity, flags);
    let cap_digits = decimal_ascii(capacity as nat);
    let flag_digits = hex_ascii((flags as u32) as nat);
    lemma_decimal_reads_back(capacity as nat);
    lemma_hex_reads_back((flags as u32) as nat);
    let head = name + " { capacity: "@;
    let rest = ascii_text(cap_digits) + ", flags: "@ + ascii_text(seq![48u8, 120u8] + flag_digits)
        + " }"@;
    assert(text =~= head + rest);
    assert(head =~= text.subrange(0, head.len() as int));
    assert(digits_value(cap_digits, 10) == capacity && digits_value(flag_digits, 16) == flags
        as u32);
}

impl Ring {
    /// The header this ring reads.
    pub closed spec fn spec_raw(&self) -> RteRing {
        self.raw
    }

    /// The ring's name as text.
    pub open spec fn spec_name(&self) -> Seq<char> {
        c_str_text(self.spec_raw().name_bytes())
    }

    /// The arguments for `rte_ring_create` that create a ring named `name`
    /// for `capacity` `Mbuf`s on `socket_id`.
    ///
    /// `capacity` is the maximum number of `Mbuf` the ring can hold; the
    /// optimum size (in terms of memory usage) is when it is a power of two
    /// minus one. The C call takes the count as an `unsigned int`: a
    /// `capacity` beyond it cannot be asked for, and gives `EINVAL`.
    pub fn create_args(name: CName, capacity: usize, socket_id: SocketId) -> (r: Result<
        RingArgs,
        DpdkError,
    >)
        ensures
            r is Ok <==> capacity <= u32::MAX,
            r matches Ok(args) ==> {
                &&& args.name == name
                &&& args.count == capacity
                &&& args.socket_id == socket_id@
                &&& args.flags == NO_FLAGS
            },
            r matches Err(e) ==> e@ == EINVAL,
    {
        if capacity <= u32::MAX as usize {
            Ok(
                RingArgs {
                    name,
                    count: capacity as u32,
                    socket_id: socket_id.raw(),
                    flags: NO_FLAGS as u32,
                },
            )
        } else {
            Err(DpdkError::new(EINVAL))
        }
    }

    /// The ring that `rte_ring_create` gave, or the error it reported:
    /// `created` is the header of the new ring, or the value of `rte_errno`
    /// when the call gave no ring (the allocation failed).
    pub fn new(created: Result<RteRing, i32>) -> (r: Result<Ring, DpdkError>)
        ensures
            created matches Ok(raw) ==> r matches Ok(ring) && ring.spec_raw() == raw,
            created matches Err(errno) ==> r matches Err(e) && e@ == errno,
    {
        match created {
            Ok(raw) => Ok(Ring { raw }),
            Err(errno) => Err(DpdkError::new(errno)),
        }
    }

    /// The raw header.
    pub fn raw(&self) -> (r: &RteRing)
        ensures
            *r == self.spec_raw(),
    {
        &self.raw
    }

    /// The raw header, to hand to calls that change the ring.
    pub fn raw_mut(&mut self) -> (r: &mut RteRing)
        ensures
            *r == old(self).spec_raw(),
            final(self).spec_raw() == *final(r),
    {
        &mut self.raw
    }

    /// Returns the name of the ring: the text of its name field up to the
    /// first NUL, or the empty string when that is not valid UTF-8.
    pub fn name(&self) -> (s: &str)
        ensures
            s@ == self.spec_name(),
    {
        c_str_as_str(self.raw.name_field())
    }

    /// The ring as `{:?}` shows it: its name, then its capacity in decimal
    /// and its flags in hexadecimal.
    pub fn debug_string(&self) -> (s: String)
        ensures
            s@ == ring_debug_text(self.spec_name(), self.spec_raw().capacity(), self.spec_raw().flags()),
            shows_ring(s@, self.spec_name(), self.spec_raw().capacity(), self.spec_raw().flags()),
    {
        proof {
            lemma_ring_debug_text_shows_ring(
                self.spec_name(),
                self.spec_raw().capacity(),
                self.spec_raw().flags(),
            );
        }
        let mut s = self.name().to_owned();
        s.append(" { capacity: ");
        let capacity = decimal_string(self.raw.capacity() as u64);
        s.append(capacity.as_str());
        s.append(", flags: ");
        let flags = hex_string(self.raw.flags() as u32 as u64);
        s.append(flags.as_str());
        s.append(" }");
        s
    }

    /// What a read gives back of a creation: when DPDK stored the name it
    /// was asked for in the ring's header, the ring's name is that name.
    pub proof fn lemma_name_of_created(ring: Ring, name: CName)
        requires
            name.wf(),
            name@.len() <= ring.spec_raw().name_bytes().len(),
            ring.spec_raw().name_bytes().take(name@.len() as int) == name@,
        ensures
            ring.spec_name() == name.text(),
    {
        lemma_stored_name_reads_back(name, ring.spec_raw().name_bytes());
    }
}

} // verus!
