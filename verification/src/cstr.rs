//! NUL-terminated names as DPDK stores and expects them.

use vstd::prelude::*;
use vstd::slice::slice_subrange;
use vstd::utf8::*;

verus! {

/// Size of the name field in DPDK's ring and memzone headers
/// (`RTE_MEMZONE_NAMESIZE`), terminating NUL included.
pub const NAMESIZE: usize = 32;

/// No byte of `bytes` is NUL.
pub open spec fn nul_free(bytes: Seq<u8>) -> bool {
    forall|j: int| 0 <= j < bytes.len() ==> #[trigger] bytes[j] != 0u8
}

/// `i` is where the C string held in `field` ends: the bytes before `i`
/// are not NUL and `i` is the first NUL (or the end of the field).
pub open spec fn is_c_str_end(field: Seq<u8>, i: int) -> bool {
    &&& 0 <= i <= field.len()
    &&& nul_free(field.take(i))
    &&& (i == field.len() || field[i] == 0u8)
}

/// Length of the C string held in `field`.
pub open spec fn c_str_len(field: Seq<u8>) -> int {
    choose|i: int| is_c_str_end(field, i)
}

/// The bytes of the C string held in `field`, without its NUL.
pub open spec fn c_str_bytes(field: Seq<u8>) -> Seq<u8> {
    field.take(c_str_len(field))
}

/// The text of the C string held in `field`: its bytes decoded as UTF-8,
/// or the empty text when they are not valid UTF-8.
pub open spec fn c_str_text(field: Seq<u8>) -> Seq<char> {
    let bytes = c_str_bytes(field);
    if valid_utf8(bytes) {
        decode_utf8(bytes)
    } else {
        Seq::empty()
    }
}

/// There is exactly one end to a C string.
pub proof fn lemma_c_str_end_unique(field: Seq<u8>, i: int)
    requires
        is_c_str_end(field, i),
    ensures
        c_str_len(field) == i,
{
    let k = c_str_len(field);
    assert(is_c_str_end(field, k));
    if k < i {
        assert(field.take(i)[k] == field[k]);
    } else if i < k {
        assert(field.take(k)[i] == field[i]);
    }
}

/// Where the C string held in `field` ends.
pub fn c_str_end(field: &[u8]) -> (n: usize)
    ensures
        n == c_str_len(field@),
        is_c_str_end(field@, n as int),
{
    let mut i: usize = 0;
    while i < field.len() && field[i] != 0
        invariant
            i <= field@.len(),
            nul_free(field@.take(i as int)),
        decreases field@.len() - i,
    {
        assert(field@.take(i + 1) =~= field@.take(i as int).push(field@[i as int]));
        i += 1;
    }
    proof {
        lemma_c_str_end_unique(field@, i as int);
    }
    i
}

/// `core::str::from_utf8`: succeeds exactly when `bytes` is valid UTF-8,
/// and then gives the string slice made of those very bytes.
#[verifier::external_body]
pub(crate) fn utf8_str<'a>(bytes: &'a [u8]) -> (r: Option<&'a str>)
    ensures
        r is Some <==> valid_utf8(bytes@),
        r matches Some(s) ==> encode_utf8(s@) == bytes@,
{
    core::str::from_utf8(bytes).ok()
}

/// The text of the C string held in `field`: the bytes up to the first NUL,
/// read as UTF-8; the empty string when they are not valid UTF-8.
pub fn c_str_as_str(field: &[u8]) -> (s: &str)
    ensures
        s@ == c_str_text(field@),
{
    let n = c_str_end(field);
    let bytes = slice_subrange(field, 0, n);
    match utf8_str(bytes) {
        Some(s) => {
            proof {
                encode_utf8_decode_utf8(s@);
            }
            s
        },
        None => {
            let empty = "";
            proof {
                reveal_strlit("");
            }
            empty
        },
    }
}

/// One UTF-8 encoded character holds a NUL byte exactly when it is NUL.
proof fn lemma_encode_scalar_nul(c: char)
    ensures
        nul_free(encode_scalar(c as u32)) <==> c != '\0',
{
    char_is_scalar(c);
    let v = c as u32;
    if has_width_1_encoding(v) {
        let b = (v & 0x7f) as u8;
        assert(encode_scalar(v) == seq![b]);
        assert(b == 0u8 <==> v == 0) by (bit_vector)
            requires
                v <= 0x7f,
                b == (v & 0x7f) as u8,
        ;
        assert(v == 0 <==> c == '\0');
        if b == 0u8 {
            assert(seq![b][0] == 0u8);
        }
    } else if has_width_2_encoding(v) {
        let lead: u8 = ((v >> 6) & 0x1F) as u8;
        let last: u8 = (v & 0x3F) as u8;
        assert((0xC0u8 | lead) != 0u8) by (bit_vector);
        assert((0x80u8 | last) != 0u8) by (bit_vector);
        assert(nul_free(encode_scalar(v)));
    } else if has_width_3_encoding(v) {
        let lead: u8 = ((v >> 12) & 0x0F) as u8;
        let mid: u8 = ((v >> 6) & 0x3F) as u8;
        let last: u8 = (v & 0x3F) as u8;
        assert((0xE0u8 | lead) != 0u8) by (bit_vector);
        assert((0x80u8 | mid) != 0u8) by (bit_vector);
        assert((0x80u8 | last) != 0u8) by (bit_vector);
        assert(nul_free(encode_scalar(v)));
    } else {
        let lead: u8 = ((v >> 18) & 0x7) as u8;
        let third: u8 = ((v >> 12) & 0x3F) as u8;
        let mid: u8 = ((v >> 6) & 0x3F) as u8;
        let last: u8 = (v & 0x3F) as u8;
        assert((0xF0u8 | lead) != 0u8) by (bit_vector);
        assert((0x80u8 | third) != 0u8) by (bit_vector);
        assert((0x80u8 | mid) != 0u8) by (bit_vector);
        assert((0x80u8 | last) != 0u8) by (bit_vector);
        assert(nul_free(encode_scalar(v)));
    }
}

/// The UTF-8 encoding of a text holds a NUL byte exactly when the text
/// holds the NUL character.
pub proof fn lemma_encode_utf8_nul(chars: Seq<char>)
    ensures
        nul_free(encode_utf8(chars)) <==> !chars.contains('\0'),
    decreases chars.len(),
{
    if chars.len() > 0 {
        let first = encode_scalar(chars[0] as u32);
        let rest = encode_utf8(chars.drop_first());
        lemma_encode_scalar_nul(chars[0]);
        lemma_encode_utf8_nul(chars.drop_first());
        let all = first + rest;
        assert(nul_free(all) <==> nul_free(first) && nul_free(rest)) by {
            if nul_free(first) && nul_free(rest) {
                assert forall|j: int| 0 <= j < all.len() implies #[trigger] all[j] != 0u8 by {
                    if j >= first.len() {
                        assert(all[j] == rest[j - first.len()]);
                    }
                }
            }
            if nul_free(all) {
                assert forall|j: int| 0 <= j < rest.len() implies #[trigger] rest[j] != 0u8 by {
                    assert(all[j + first.len()] == rest[j]);
                }
                assert forall|j: int| 0 <= j < first.len() implies #[trigger] first[j] != 0u8 by {
                    assert(all[j] == first[j]);
                }
            }
        }
        assert(chars.contains('\0') <==> chars[0] == '\0' || chars.drop_first().contains('\0')) by {
            if chars.contains('\0') {
                let k = choose|k: int| 0 <= k < chars.len() && chars[k] == '\0';
                if k > 0 {
                    assert(chars.drop_first()[k - 1] == '\0');
                }
            }
            if chars.drop_first().contains('\0') {
                let k = choose|k: int| 0 <= k < chars.len() - 1 && chars.drop_first()[k] == '\0';
                assert(chars[k + 1] == '\0');
            }
        }
    }
}

/// A name in the form the DPDK C interface takes it: the UTF-8 bytes of a
/// text with no NUL in it, followed by one terminating NUL.
pub struct CName {
    bytes: Vec<u8>,
}

impl View for CName {
    type V = Seq<u8>;

    /// All bytes, the terminating NUL included.
    closed spec fn view(&self) -> Seq<u8> {
        self.bytes@
    }
}

impl CName {
    /// The bytes before the terminating NUL.
    pub open spec fn content(&self) -> Seq<u8> {
        self@.drop_last()
    }

    /// The bytes end with the only NUL among them and, before it, are valid UTF-8.
    pub open spec fn wf(&self) -> bool {
        &&& self@.len() >= 1
        &&& self@.last() == 0u8
        &&& nul_free(self.content())
        &&& valid_utf8(self.content())
    }

    /// The text this name stands for.
    pub open spec fn text(&self) -> Seq<char> {
        decode_utf8(self.content())
    }

    /// The C form of `name`, or `None` when `name` holds a NUL character,
    /// which a C string cannot carry.
    pub fn new(name: &str) -> (r: Option<CName>)
        ensures
            r is None <==> name@.contains('\0'),
            r matches Some(c) ==> {
                &&& c.wf()
                &&& c@ == encode_utf8(name@).push(0u8)
                &&& c.text() == name@
            },
    {
        let b = name.as_bytes();
        proof {
            lemma_encode_utf8_nul(name@);
            encode_utf8_valid_utf8(name@);
            encode_utf8_decode_utf8(name@);
        }
        let mut v: Vec<u8> = Vec::new();
        let mut i: usize = 0;
        while i < b.len()
            invariant
                i <= b@.len(),
                b@ == encode_utf8(name@),
                nul_free(b@) <==> !name@.contains('\0'),
                v@ == b@.take(i as int),
                nul_free(v@),
            decreases b@.len() - i,
        {
            if b[i] == 0 {
                assert(b@[i as int] == 0u8);
                return None;
            }
            v.push(b[i]);
            i += 1;
            assert(v@ =~= b@.take(i as int));
        }
        assert(v@ =~= b@);
        v.push(0);
        let c = CName { bytes: v };
        assert(c.content() =~= b@);
        Some(c)
    }

    /// All bytes, the terminating NUL included.
    pub fn as_bytes(&self) -> (r: &[u8])
        ensures
            r@ == self@,
    {
        self.bytes.as_slice()
    }
}

/// What is read back of a stored name: a field that begins with the bytes
/// of `name`, its NUL included, holds the text of `name` as its C string.
pub proof fn lemma_stored_name_reads_back(name: CName, field: Seq<u8>)
    requires
        name.wf(),
        name@.len() <= field.len(),
        field.take(name@.len() as int) == name@,
    ensures
        c_str_bytes(field) == name.content(),
        c_str_text(field) == name.text(),
{
    let n = name.content().len() as int;
    assert(field[n] == name@[n]);
    assert(field.take(n) =~= name.content());
    lemma_c_str_end_unique(field, n);
}

} // verus!
