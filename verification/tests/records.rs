use lsm_tpm::event::{SecurityEvent, EVENT_SIZE, RECORD_LEN};
use lsm_tpm::octets::{nul_position, read_u32, same_bytes, starts_with, write_u32, ByteOrder};

fn sample() -> SecurityEvent {
    let mut filename = [0u8; 32];
    filename[..9].copy_from_slice(b"/bin/bash");
    SecurityEvent {
        _filename: filename,
        _uid: 1000,
        _pid: 0x0102_0304,
        _cgroup_type: 2,
        _is_shell: true,
    }
}

#[test]
fn integers_follow_the_byte_order() {
    assert_eq!(write_u32(0x0102_0304, ByteOrder::Little), [4, 3, 2, 1]);
    assert_eq!(write_u32(0x0102_0304, ByteOrder::Big), [1, 2, 3, 4]);
    assert_eq!(write_u32(0x0102_0304, ByteOrder::Little), 0x0102_0304u32.to_le_bytes());
    assert_eq!(read_u32(&[9, 1, 2, 3, 4], 1, ByteOrder::Big), 0x0102_0304);
    assert_eq!(read_u32(&[255, 255, 255, 255], 0, ByteOrder::Little), u32::MAX);
}

#[test]
fn slices_are_compared_by_content() {
    assert!(same_bytes(b"abc", b"abc"));
    assert!(!same_bytes(b"abc", b"abd"));
    assert!(!same_bytes(b"abc", b"ab"));
    assert!(starts_with(b"abc", b""));
    assert!(starts_with(b"abc", b"ab"));
    assert!(!starts_with(b"ab", b"abc"));
    assert!(!starts_with(b"abc", b"b"));
    assert_eq!(nul_position(b"ab\0c\0"), 2);
    assert_eq!(nul_position(b"abc"), 3);
}

#[test]
fn a_record_has_its_fields_at_their_offsets() {
    let bytes = sample().to_record(ByteOrder::Little);
    assert_eq!(bytes.len(), RECORD_LEN);
    assert_eq!(&bytes[..10], b"/bin/bash\0");
    assert_eq!(bytes[32..36], 1000u32.to_le_bytes());
    assert_eq!(bytes[36..40], 0x0102_0304u32.to_le_bytes());
    assert_eq!(bytes[40..44], 2u32.to_le_bytes());
    assert_eq!(bytes[44..48], [1, 0, 0, 0]);
    assert_eq!(EVENT_SIZE, 56);
}

#[test]
fn a_record_is_read_back_with_anything_behind_it() {
    for order in [ByteOrder::Little, ByteOrder::Big] {
        let mut bytes = sample().to_record(order).to_vec();
        assert_eq!(SecurityEvent::from_record(&bytes, order), Some(sample()));
        bytes.extend([0xff; 8]);
        assert_eq!(SecurityEvent::from_record(&bytes, order), Some(sample()));
    }
}

#[test]
fn short_or_invalid_bytes_hold_no_record() {
    let mut bytes = sample().to_record(ByteOrder::Little);
    assert_eq!(SecurityEvent::from_record(&bytes[..47], ByteOrder::Little), None);
    assert_eq!(SecurityEvent::from_record(&[], ByteOrder::Little), None);
    bytes[44] = 2;
    assert_eq!(SecurityEvent::from_record(&bytes, ByteOrder::Little), None);
    bytes[44] = 0;
    let event = SecurityEvent::from_record(&bytes, ByteOrder::Little).unwrap();
    assert!(!event._is_shell);
}

#[test]
fn the_file_name_ends_at_its_first_zero() {
    assert_eq!(sample().filename(), b"/bin/bash");
    let full = SecurityEvent { _filename: [b'a'; 32], ..sample() };
    assert_eq!(full.filename(), &[b'a'; 32]);
    let empty = SecurityEvent { _filename: [0; 32], ..sample() };
    assert_eq!(empty.filename(), b"");
}
