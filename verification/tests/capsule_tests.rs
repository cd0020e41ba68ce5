use std::fmt;

use capsule::cstr::{c_str_as_str, c_str_end, CName, NAMESIZE};
use capsule::error::{DpdkError, EINVAL};
use capsule::ffi::{RteMemzone, RteRing};
use capsule::memring::Ring;
use capsule::memzone::Memzone;
use capsule::rtering;
use capsule::socket::SocketId;
use capsule::text::{decimal_string, hex_string, signed_decimal_string};

/// A name field as DPDK fills it: the bytes, then NULs up to `NAMESIZE`.
fn field(name: &[u8]) -> Vec<u8> {
    let mut v = name.to_vec();
    v.resize(NAMESIZE, 0);
    v
}

fn ring_header(name: &[u8], capacity: u32, flags: i32) -> RteRing {
    RteRing::new(field(name), capacity, flags).unwrap()
}

fn zone_header(name: &[u8], len: usize, page: u64, socket: i32, flags: u32) -> RteMemzone {
    RteMemzone::new(field(name), len, page, socket, flags).unwrap()
}

/// Text shown as it is, the way `format_args!` output shows under `{:?}`.
struct Hex(String);

impl fmt::Debug for Hex {
    fn fmt(&self, f: &mut fmt::Formatter<'_>) -> fmt::Result {
        f.write_str(&self.0)
    }
}

/// The `{:?}` output the header structs give, written with `debug_struct`.
struct RingShown<'a>(&'a str, u32, i32);

impl fmt::Debug for RingShown<'_> {
    fn fmt(&self, f: &mut fmt::Formatter<'_>) -> fmt::Result {
        f.debug_struct(self.0)
            .field("capacity", &self.1)
            .field("flags", &Hex(format!("{:#x}", self.2)))
            .finish()
    }
}

struct ZoneShown<'a>(&'a str, usize, u64, u32, i32);

impl fmt::Debug for ZoneShown<'_> {
    fn fmt(&self, f: &mut fmt::Formatter<'_>) -> fmt::Result {
        f.debug_struct(self.0)
            .field("capacity", &self.1)
            .field("hugepage_size", &self.2)
            .field("flags", &Hex(format!("{:#x}", self.3)))
            .field("socket", &self.4)
            .finish()
    }
}

#[test]
fn c_name_of_plain_name() {
    let c = CName::new("TEST_RING").unwrap();
    assert_eq!(c.as_bytes(), b"TEST_RING\0");
}

#[test]
fn c_name_of_empty_name() {
    let c = CName::new("").unwrap();
    assert_eq!(c.as_bytes(), b"\0");
}

#[test]
fn c_name_of_non_ascii_name() {
    let c = CName::new("zoné").unwrap();
    assert_eq!(c.as_bytes(), "zoné\0".as_bytes());
}

#[test]
fn c_name_refuses_interior_nul() {
    assert!(CName::new("a\0b").is_none());
    assert!(CName::new("\0").is_none());
    assert!(CName::new("end\0").is_none());
}

#[test]
fn c_str_end_finds_first_nul() {
    assert_eq!(c_str_end(b"ab\0cd\0"), 2);
    assert_eq!(c_str_end(b"\0"), 0);
    assert_eq!(c_str_end(b"abc"), 3);
    assert_eq!(c_str_end(b""), 0);
}

#[test]
fn c_str_as_str_reads_up_to_nul() {
    assert_eq!(c_str_as_str(b"abc\0def"), "abc");
    assert_eq!(c_str_as_str(b"abc"), "abc");
    assert_eq!(c_str_as_str("é\0".as_bytes()), "é");
}

#[test]
fn c_str_as_str_invalid_utf8_is_empty() {
    assert_eq!(c_str_as_str(&[0xff, 0x41, 0]), "");
    assert_eq!(c_str_as_str(&[0xc3, 0]), "");
}

#[test]
fn ring_header_needs_terminated_field() {
    assert!(RteRing::new(vec![0x41; NAMESIZE], 1, 0).is_none());
    assert!(RteRing::new(vec![0; NAMESIZE - 1], 1, 0).is_none());
    assert!(RteRing::new(vec![0; NAMESIZE + 1], 1, 0).is_none());
    let h = RteRing::new(field(b"r"), 7, -2).unwrap();
    assert_eq!(h.capacity(), 7);
    assert_eq!(h.flags(), -2);
    assert_eq!(h.name_field(), &field(b"r")[..]);
}

#[test]
fn memzone_header_needs_terminated_field() {
    assert!(RteMemzone::new(vec![0x41; NAMESIZE], 1, 2, 3, 4).is_none());
    let h = zone_header(b"z", 1, 2, 3, 4);
    assert_eq!(h.len(), 1);
    assert_eq!(h.hugepage_sz(), 2);
    assert_eq!(h.socket_id(), 3);
    assert_eq!(h.flags(), 4);
}

#[test]
fn ring_create_args() {
    let args =
        Ring::create_args(CName::new("TEST_RING").unwrap(), 1023, SocketId::from_raw(1)).unwrap();
    assert_eq!(args.name.as_bytes(), b"TEST_RING\0");
    assert_eq!(args.count, 1023);
    assert_eq!(args.socket_id, 1);
    assert_eq!(args.flags, 0);
    let args = Ring::create_args(CName::new("r").unwrap(), u32::MAX as usize, SocketId::any());
    assert_eq!(args.unwrap().count, u32::MAX);
}

#[test]
fn ring_create_args_refuses_count_beyond_c_uint() {
    if usize::BITS == 64 {
        let capacity = ((1u64 << 32) + 7) as usize;
        let err = Ring::create_args(CName::new("r").unwrap(), capacity, SocketId::any())
            .err()
            .unwrap();
        assert_eq!(err.errno(), EINVAL);
        let err = rtering::Ring::create_args(CName::new("r").unwrap(), usize::MAX, 0, SocketId::any())
            .err()
            .unwrap();
        assert_eq!(err.errno(), 22);
    }
}

#[test]
fn ring_new_from_header() {
    let ring = Ring::new(Ok(ring_header(b"TEST_RING", 1023, 0))).unwrap();
    assert_eq!(ring.name(), "TEST_RING");
    assert_eq!(ring.raw().capacity(), 1023);
    assert_eq!(ring.raw().flags(), 0);
}

#[test]
fn ring_new_failure_keeps_errno() {
    let err = Ring::new(Err(12)).err().unwrap();
    assert_eq!(err.errno(), 12);
    assert_eq!(err, DpdkError::new(12));
}

#[test]
fn ring_name_reads_back_created_name() {
    for name in ["TEST_RING", "", "ring-é", "a_name_of_thirty_one_bytes_____"] {
        let c = CName::new(name).unwrap();
        let ring = Ring::new(Ok(RteRing::new(field(c.as_bytes()), 1, 0).unwrap())).unwrap();
        assert_eq!(ring.name(), name);
    }
}

#[test]
fn ring_name_invalid_utf8_is_empty() {
    let ring = Ring::new(Ok(ring_header(&[0x80, 0x81], 1, 0))).unwrap();
    assert_eq!(ring.name(), "");
}

#[test]
fn ring_raw_mut_is_the_header() {
    let mut ring = Ring::new(Ok(ring_header(b"m", 3, 1))).unwrap();
    let raw = ring.raw_mut();
    assert_eq!(raw.capacity(), 3);
    *raw = ring_header(b"other", 5, 2);
    assert_eq!(ring.name(), "other");
    assert_eq!(ring.raw().capacity(), 5);
}

#[test]
fn ring_debug_string() {
    let ring = Ring::new(Ok(ring_header(b"TEST_RING", 1023, 0))).unwrap();
    assert_eq!(ring.debug_string(), "TEST_RING { capacity: 1023, flags: 0x0 }");
    assert_eq!(ring.debug_string(), format!("{:?}", RingShown("TEST_RING", 1023, 0)));
}

#[test]
fn ring_debug_string_flags_in_hex() {
    for (capacity, flags) in [(0u32, 0x13i32), (u32::MAX, -1), (64, i32::MIN), (7, i32::MAX)] {
        let ring = Ring::new(Ok(ring_header(b"R", capacity, flags))).unwrap();
        assert_eq!(ring.debug_string(), format!("{:?}", RingShown("R", capacity, flags)));
    }
    let ring = Ring::new(Ok(ring_header(b"R", 1, -1))).unwrap();
    assert_eq!(ring.debug_string(), "R { capacity: 1, flags: 0xffffffff }");
}

#[test]
fn memzone_create_args() {
    let args = Memzone::create_args(CName::new("TEST_MEMZONE").unwrap(), 0, SocketId::any());
    assert_eq!(args.name.as_bytes(), b"TEST_MEMZONE\0");
    assert_eq!(args.len, 0);
    assert_eq!(args.socket_id, -1);
    assert_eq!(args.flags, 0);
    let args = Memzone::create_args(CName::new("z").unwrap(), usize::MAX, SocketId::from_raw(3));
    assert_eq!(args.len, usize::MAX as u64);
    assert_eq!(args.socket_id, 3);
}

#[test]
fn memzone_new_and_name() {
    let zone = Memzone::new(Ok(zone_header(b"TEST_MEMZONE", 128, 2097152, 0, 2))).unwrap();
    assert_eq!(zone.name(), "TEST_MEMZONE");
    assert_eq!(zone.raw().len(), 128);
    let err = Memzone::new(Err(17)).err().unwrap();
    assert_eq!(err.errno(), 17);
}

#[test]
fn memzone_name_reads_back_created_name() {
    for name in ["TEST_MEMZONE", "", "zöne"] {
        let c = CName::new(name).unwrap();
        let raw = RteMemzone::new(field(c.as_bytes()), 1, 2, 3, 4).unwrap();
        assert_eq!(Memzone::new(Ok(raw)).unwrap().name(), name);
    }
}

#[test]
fn memzone_debug_string() {
    let zone = Memzone::new(Ok(zone_header(b"TEST_MEMZONE", 128, 2097152, 0, 2))).unwrap();
    assert_eq!(
        zone.debug_string(),
        "TEST_MEMZONE { capacity: 128, hugepage_size: 2097152, flags: 0x2, socket: 0 }"
    );
    for (len, page, flags, socket) in
        [(usize::MAX, u64::MAX, u32::MAX, i32::MIN), (0, 1 << 30, 0, -1), (4096, 4096, 0xabc, 3)]
    {
        let zone = Memzone::new(Ok(zone_header(b"mz", len, page, socket, flags))).unwrap();
        assert_eq!(zone.debug_string(), format!("{:?}", ZoneShown("mz", len, page, flags, socket)));
    }
}

#[test]
fn rtering_create_and_new() {
    let args = rtering::Ring::create_args(
        CName::new("RTE").unwrap(),
        512,
        32,
        SocketId::from_raw(0),
    )
    .unwrap();
    assert_eq!(args.name.as_bytes(), b"RTE\0");
    assert_eq!(args.count, 512);
    assert_eq!(args.socket_id, 0);
    assert_eq!(args.flags, 0);
    assert!(rtering::Ring::new(Ok(ring_header(b"RTE", 512, 0))).is_ok());
    assert_eq!(rtering::Ring::new(Err(22)).err().unwrap().errno(), 22);
}

#[test]
fn socket_ids() {
    assert_eq!(SocketId::any().raw(), -1);
    assert_eq!(SocketId::from_raw(2).raw(), 2);
    assert_eq!(SocketId::from_raw(2), SocketId::from_raw(2));
}

#[test]
fn decimal_text_matches_display() {
    for n in [0u64, 7, 10, 99, 1000, 1234567890, u64::MAX] {
        assert_eq!(decimal_string(n), n.to_string());
    }
}

#[test]
fn signed_decimal_text_matches_display() {
    for n in [0i64, -1, 5, -42, i64::MAX, i64::MIN + 1, i64::MIN] {
        assert_eq!(signed_decimal_string(n), n.to_string());
    }
}

#[test]
fn hex_text_matches_alternate_lower_hex() {
    for n in [0u64, 9, 10, 15, 16, 255, 0xdead_beef, u64::MAX] {
        assert_eq!(hex_string(n), format!("{:#x}", n));
    }
    assert_eq!(hex_string(255), "0xff");
}
