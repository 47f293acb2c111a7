//! Marshaling across the memory boundary: round trips, bounds checks, and
//! UTF-8 validation.

use wapc_bridge::{BridgeError, GuestMemory, validate_utf8};

fn pattern(len: usize) -> Vec<u8> {
    let mut v = Vec::with_capacity(len);
    let mut i: usize = 0;
    while i < len {
        v.push((i % 251) as u8);
        i += 1;
    }
    v
}

#[test]
fn round_trip_len_0() {
    let mut mem = GuestMemory::new(4096);
    let data: Vec<u8> = Vec::new();
    let (addr, len) = mem.write_to_guest(&data).unwrap();
    assert_eq!(len, 0);
    assert_eq!(mem.read_bytes(addr, len).unwrap(), data);
}

#[test]
fn round_trip_len_1() {
    let mut mem = GuestMemory::new(4096);
    let data = vec![0xabu8];
    let (addr, len) = mem.write_to_guest(&data).unwrap();
    assert_eq!(len, 1);
    assert_eq!(mem.read_bytes(addr, len).unwrap(), data);
}

#[test]
fn round_trip_len_4096() {
    let mut mem = GuestMemory::new(4096);
    let data = pattern(4096);
    let (addr, len) = mem.write_to_guest(&data).unwrap();
    assert_eq!(len, 4096);
    assert_eq!(mem.read_bytes(addr, len).unwrap(), data);
}

#[test]
fn round_trip_with_memory_growth() {
    // Far larger than the initial memory: the allocator must grow the
    // memory through many steps before the copy can land.
    let mut mem = GuestMemory::new(4096);
    let data = pattern(200_000);
    let (addr, len) = mem.write_to_guest(&data).unwrap();
    assert_eq!(len, 200_000);
    assert!(mem.size() >= 200_000);
    assert_eq!(mem.read_bytes(addr, len).unwrap(), data);
}

#[test]
fn consecutive_writes_do_not_clobber() {
    let mut mem = GuestMemory::new(64);
    let first = vec![1u8, 2, 3];
    let second = vec![9u8, 8, 7, 6];
    let (a1, l1) = mem.write_to_guest(&first).unwrap();
    let (a2, l2) = mem.write_to_guest(&second).unwrap();
    assert!(a2 >= a1 + l1);
    assert_eq!(mem.read_bytes(a1, l1).unwrap(), first);
    assert_eq!(mem.read_bytes(a2, l2).unwrap(), second);
}

#[test]
fn read_out_of_bounds_at_boundary() {
    let mem = GuestMemory::new(16);
    // The empty range ending exactly at the memory size is inside.
    assert_eq!(mem.read_bytes(16, 0).unwrap().len(), 0);
    // Anything past it fails, for len = 0 and len > 0 alike.
    assert!(matches!(mem.read_bytes(17, 0), Err(BridgeError::OutOfBounds)));
    assert!(matches!(mem.read_bytes(16, 1), Err(BridgeError::OutOfBounds)));
    assert!(matches!(mem.read_bytes(15, 2), Err(BridgeError::OutOfBounds)));
    assert!(mem.read_bytes(15, 1).is_ok());
    assert!(matches!(
        mem.read_bytes(u32::MAX, 1),
        Err(BridgeError::OutOfBounds)
    ));
}

#[test]
fn write_out_of_bounds_at_boundary() {
    let mut mem = GuestMemory::new(16);
    assert!(matches!(
        mem.write_bytes(15, &vec![1, 2]),
        Err(BridgeError::OutOfBounds)
    ));
    assert!(mem.write_bytes(14, &vec![1, 2]).is_ok());
    assert_eq!(mem.read_bytes(14, 2).unwrap(), vec![1, 2]);
    assert!(mem.write_bytes(16, &Vec::new()).is_ok());
    assert!(matches!(
        mem.write_bytes(17, &Vec::new()),
        Err(BridgeError::OutOfBounds)
    ));
}

#[test]
fn invalid_utf8_fails_whole() {
    let mut mem = GuestMemory::new(64);
    // A valid prefix followed by a stray byte: rejected as a whole, no
    // partial decode.
    let mut data = b"abc".to_vec();
    data.push(0xff);
    data.extend_from_slice(b"def");
    let (addr, len) = mem.write_to_guest(&data).unwrap();
    assert!(matches!(
        mem.read_string_bytes(addr, len),
        Err(BridgeError::InvalidUtf8)
    ));
    // The prefix alone is fine.
    assert_eq!(mem.read_string_bytes(addr, 3).unwrap(), b"abc".to_vec());
}

#[test]
fn valid_string_reads_back() {
    let mut mem = GuestMemory::new(64);
    let text = "héllo ✓";
    let (addr, len) = mem.write_to_guest(&text.as_bytes().to_vec()).unwrap();
    let bytes = mem.read_string_bytes(addr, len).unwrap();
    assert_eq!(std::str::from_utf8(&bytes).unwrap(), text);
}

#[test]
fn string_bounds_checked_before_utf8() {
    let mem = GuestMemory::new(8);
    assert!(matches!(
        mem.read_string_bytes(4, 8),
        Err(BridgeError::OutOfBounds)
    ));
}

#[test]
fn utf8_validator_agrees_with_std() {
    let cases: Vec<Vec<u8>> = vec![
        Vec::new(),
        b"plain ascii".to_vec(),
        "hé✓𐍈".as_bytes().to_vec(),
        vec![0xff],
        vec![0x80],
        vec![0xc3],
        vec![0xc0, 0x80],
        vec![0xc2, 0x80],
        vec![0xe0, 0x80, 0x80],
        vec![0xe0, 0xa0, 0x80],
        vec![0xed, 0x9f, 0xbf],
        vec![0xed, 0xa0, 0x80],
        vec![0xf0, 0x80, 0x80, 0x80],
        vec![0xf0, 0x90, 0x80, 0x80],
        vec![0xf4, 0x8f, 0xbf, 0xbf],
        vec![0xf4, 0x90, 0x80, 0x80],
        vec![0xf5, 0x80, 0x80, 0x80],
        vec![0x61, 0xc3, 0xa9, 0x62],
        vec![0xc3, 0xa9, 0xff],
    ];
    for v in cases {
        assert_eq!(validate_utf8(&v), std::str::from_utf8(&v).is_ok());
    }
}

#[test]
fn utf8_validator_expected_values() {
    assert!(validate_utf8(&Vec::new()));
    assert!(validate_utf8(&b"abc".to_vec()));
    assert!(!validate_utf8(&vec![0xed, 0xa0, 0x80]));
    assert!(!validate_utf8(&vec![0xf4, 0x90, 0x80, 0x80]));
    assert!(validate_utf8(&vec![0xf4, 0x8f, 0xbf, 0xbf]));
}

#[test]
fn allocation_failures_and_alignment() {
    let mut mem = GuestMemory::new(0);
    // Alignment zero is unusable.
    assert!(matches!(
        mem.allocate(0, 4),
        Err(BridgeError::AllocationFailed)
    ));
    let a = mem.allocate(8, 3).unwrap();
    assert_eq!(a % 8, 0);
    let b = mem.allocate(8, 1).unwrap();
    assert_eq!(b, 8);
    // A request that cannot fit the 32-bit address space is refused.
    assert!(matches!(
        mem.allocate(u32::MAX, 2),
        Err(BridgeError::AllocationFailed)
    ));
    assert!(mem.size() >= 9);
}

#[test]
fn fresh_memory_is_zeroed() {
    let mem = GuestMemory::new(32);
    assert_eq!(mem.size(), 32);
    assert_eq!(mem.read_bytes(0, 32).unwrap(), vec![0u8; 32]);
}
