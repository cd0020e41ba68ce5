//! Reserved zones of physical memory.

use vstd::prelude::*;

use crate::cstr::{c_str_as_str, c_str_text, lemma_stored_name_reads_back, CName};
use crate::error::DpdkError;
use crate::ffi::RteMemzone;
use crate::socket::SocketId;
use crate::text::{
    ascii_text, decimal_ascii, decimal_string, digits_value, hex_ascii, hex_string,
    is_decimal_digits, is_hex_digits, is_signed_decimal, lemma_decimal_reads_back,
    lemma_hex_reads_back, lemma_signed_decimal_reads_back, signed_decimal_ascii,
    signed_decimal_string, signed_digits_value,
};

verus! {

/// The flags a memory zone is reserved with: none.
pub const NO_FLAGS: u8 = 0;

/// What `rte_memzone_reserve` is called with.
pub struct MemzoneArgs {
    /// The zone's name.
    pub name: CName,
    /// The number of bytes to reserve; 0 reserves the biggest contiguous zone.
    pub len: u64,
    /// The socket to allocate on.
    pub socket_id: i32,
    /// Reservation flags.
    pub flags: u32,
}

/// A physical memory zone reserved.
pub struct Memzone {
    raw: RteMemzone,
}

/// Text of a memory zone header as `{:?}` shows it:
/// `NAME { capacity: N, hugepage_size: P, flags: 0xF, socket: S }`.
pub open spec fn memzone_debug_text(
    name: Seq<char>,
    len: usize,
    hugepage_sz: u64,
    flags: u32,
    socket_id: i32,
) -> Seq<char> {
    name + " { capacity: "@ + ascii_text(decimal_ascii(len as nat)) + ", hugepage_size: "@
        + ascii_text(decimal_ascii(hugepage_sz as nat)) + ", flags: "@ + ascii_text(
        seq![48u8, 120u8] + hex_ascii(flags as nat),
    ) + ", socket: "@ + ascii_text(signed_decimal_ascii(socket_id as int)) + " }"@
}

/// `text` shows a memory zone named `name`: it begins with the whole name,
/// then ` { capacity: ` and decimal digits that read back as `len`,
/// `, hugepage_size: ` and decimal digits that read back as `hugepage_sz`,
/// `, flags: 0x` and hexadecimal digits that read back as `flags`,
/// `, socket: ` and a signed decimal that reads back as `socket_id`, and ends
/// with ` }`.
pub open spec fn shows_memzone(
    text: Seq<char>,
    name: Seq<char>,
    len: usize,
    hugepage_sz: u64,
    flags: u32,
    socket_id: i32,
) -> bool {
    &&& (name + " { capacity: "@).is_prefix_of(text)
    &&& exists|len_digits: Seq<u8>, page_digits: Seq<u8>, flag_digits: Seq<u8>, socket_text: Seq<u8>|
        #![trigger digits_value(len_digits, 10), digits_value(page_digits, 10), digits_value(flag_digits, 16), signed_digits_value(socket_text)]
        {
            &&& is_decimal_digits(len_digits)
            &&& digits_value(len_digits, 10) == len
            &&& is_decimal_digits(page_digits)
            &&& digits_value(page_digits, 10) == hugepage_sz
            &&& is_hex_digits(flag_digits)
            &&& digits_value(flag_digits, 16) == flags
            &&& is_signed_decimal(socket_text)
            &&& signed_digits_value(socket_text) == socket_id
            &&& text == name + " { capacity: "@ + ascii_text(len_digits) + ", hugepage_size: "@
                + ascii_text(page_digits) + ", flags: "@ + ascii_text(
                seq![48u8, 120u8] + flag_digits,
            ) + ", socket: "@ + ascii_text(socket_text) + " }"@
        }
}

/// The text of every memory zone header shows the zone's whole name, its
/// length as its capacity, its page size, flags and socket, each reading back
/// as the header holds it.
pub proof fn lemma_memzone_debug_text_shows_memzone(
    name: Seq<char>,
    len: usize,
    hugepage_sz: u64,
    flags: u32,
    socket_id: i32,
)
    ensures
        shows_memzone(
            memzone_debug_text(name, len, hugepage_sz, flags, socket_id),
            name,
            len,
            hugepage_sz,
            flags,
            socket_id,
        ),
{
    let text = memzone_debug_text(name, len, hugepage_sz, flags, socket_id);
    let len_digits = decimal_ascii(len as nat);
    let page_digits = decimal_ascii(hugepage_sz as nat);
    let flag_digits = hex_ascii(flags as nat);
    let socket_text = signed_decimal_ascii(socket_id as int);
    lemma_decimal_reads_back(len as nat);
    lemma_decimal_reads_back(hugepage_sz as nat);
    lemma_hex_reads_back(flags as nat);
    lemma_signed_decimal_reads_back(socket_id as int);
    let head = name + " { capacity: "@;
    let rest = ascii_text(len_digits) + ", hugepage_size: "@ + ascii_text(page_digits)
        + ", flags: "@ + ascii_text(seq![48u8, 120u8] + flag_digits) + ", socket: "@ + ascii_text(
        socket_text,
    ) + " }"@;
    assert(text =~= head + rest);
    assert(head =~= text.subrange(0, head.len() as int));
    assert(digits_value(len_digits, 10) == len && digits_value(page_digits, 10) == hugepage_sz
        && digits_value(flag_digits, 16) == flags && signed_digits_value(socket_text)
        == socket_id);
}

impl Memzone {
    /// The header this zone reads.
    pub closed spec fn spec_raw(&self) -> RteMemzone {
        self.raw
    }

    /// The zone's name as text.
    pub open spec fn spec_name(&self) -> Seq<char> {
        c_str_text(self.spec_raw().name_bytes())
    }

    /// The arguments for `rte_memzone_reserve` that reserve a zone named
    /// `name` of `capacity` bytes on `socket_id`. A `capacity` of 0 asks for
    /// the biggest contiguous zone.
    pub fn create_args(name: CName, capacity: usize, socket_id: SocketId) -> (args: MemzoneArgs)
        ensures
            args.name == name,
            args.len == capacity,
            args.socket_id == socket_id@,
            args.flags == NO_FLAGS,
    {
        MemzoneArgs {
            name,
            len: capacity as u64,
            socket_id: socket_id.raw(),
            flags: NO_FLAGS as u32,
        }
    }

    /// The zone that `rte_memzone_reserve` gave, or the error it reported:
    /// `created` is the header of the new zone, or the value of `rte_errno`
    /// when the call gave no zone (the allocation failed).
    pub fn new(created: Result<RteMemzone, i32>) -> (r: Result<Memzone, DpdkError>)
        ensures
            created matches Ok(raw) ==> r matches Ok(zone) && zone.spec_raw() == raw,
            created matches Err(errno) ==> r matches Err(e) && e@ == errno,
    {
        match created {
            Ok(raw) => Ok(Memzone { raw }),
            Err(errno) => Err(DpdkError::new(errno)),
        }
    }

    /// The raw header.
    pub fn raw(&self) -> (r: &RteMemzone)
        ensures
            *r == self.spec_raw(),
    {
        &self.raw
    }

    /// Returns the name of the zone: the text of its name field up to the
    /// first NUL, or the empty string when that is not valid UTF-8.
    pub fn name(&self) -> (s: &str)
        ensures
            s@ == self.spec_name(),
    {
        c_str_as_str(self.raw.name_field())
    }

    /// The zone as `{:?}` shows it: its name, then its length, page size,
    /// flags (in hexadecimal) and socket.
    pub fn debug_string(&self) -> (s: String)
        ensures
            s@ == memzone_debug_text(
                self.spec_name(),
                self.spec_raw().len(),
                self.spec_raw().hugepage_sz(),
                self.spec_raw().flags(),
                self.spec_raw().socket_id(),
            ),
            shows_memzone(
                s@,
                self.spec_name(),
                self.spec_raw().len(),
                self.spec_raw().hugepage_sz(),
                self.spec_raw().flags(),
                self.spec_raw().socket_id(),
            ),
    {
        proof {
            lemma_memzone_debug_text_shows_memzone(
                self.spec_name(),
                self.spec_raw().len(),
                self.spec_raw().hugepage_sz(),
                self.spec_raw().flags(),
                self.spec_raw().socket_id(),
            );
        }
        let mut s = self.name().to_owned();
        s.append(" { capacity: ");
        let len = decimal_string(self.raw.len() as u64);
        s.append(len.as_str());
        s.append(", hugepage_size: ");
        let page = decimal_string(self.raw.hugepage_sz());
        s.append(page.as_str());
        s.append(", flags: ");
        let flags = hex_string(self.raw.flags() as u64);
        s.append(flags.as_str());
        s.append(", socket: ");
        let socket = signed_decimal_string(self.raw.socket_id() as i64);
        s.append(socket.as_str());
        s.append(" }");
        s
    }

    /// What a read gives back of a reservation: when DPDK stored the name it
    /// was asked for in the zone's header, the zone's name is that name.
    pub proof fn lemma_name_of_created(zone: Memzone, name: CName)
        requires
            name.wf(),
            name@.len() <= zone.spec_raw().name_bytes().len(),
            zone.spec_raw().name_bytes().take(name@.len() as int) == name@,
        ensures
            zone.spec_name() == name.text(),
    {
        lemma_stored_name_reads_back(name, zone.spec_raw().name_bytes());
    }
}

} // verus!
