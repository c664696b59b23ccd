use pwntools::util::{Payload, P64};

#[test]
fn payload_default_is_empty() {
    let payload = Payload::default();
    assert_eq!(payload.as_bytes(), &[] as &[u8]);
}

#[test]
fn payload_add_assign_word_is_little_endian() {
    let mut payload = Payload::default();
    payload += P64(0x0102030405060708);
    assert_eq!(
        payload.as_bytes(),
        &[0x08, 0x07, 0x06, 0x05, 0x04, 0x03, 0x02, 0x01]
    );
}

#[test]
fn payload_add_assign_small_word_pads_with_zero_bytes() {
    let mut payload = Payload::default();
    payload += P64(0x404018);
    assert_eq!(payload.as_bytes(), &[0x18, 0x40, 0x40, 0, 0, 0, 0, 0]);
}

#[test]
fn payload_add_assign_slice_appends() {
    let mut payload = Payload::default();
    payload += &b"ab"[..];
    payload += &b"cd"[..];
    assert_eq!(payload.as_bytes(), b"abcd");
}

#[test]
fn payload_add_assign_vec_appends() {
    let mut payload = Payload::default();
    payload += vec![1u8, 2, 3];
    payload += Vec::new();
    payload += vec![4u8];
    assert_eq!(payload.as_bytes(), &[1, 2, 3, 4]);
}

#[test]
fn payload_ljust_fills_up() {
    let mut payload = Payload::default();
    payload += &b"%8$d%1$s"[..];
    payload.ljust(0x10, b'\0');
    assert_eq!(payload.as_bytes(), b"%8$d%1$s\0\0\0\0\0\0\0\0");
}

#[test]
fn payload_ljust_on_empty_gives_fill_only() {
    let mut payload = Payload::default();
    payload.ljust(0x11, b'A');
    assert_eq!(payload.as_bytes(), &[b'A'; 0x11]);
}

#[test]
fn payload_ljust_cuts_a_longer_payload() {
    let mut payload = Payload::default();
    payload += &b"abcdef"[..];
    payload.ljust(2, b'x');
    assert_eq!(payload.as_bytes(), b"ab");
}

#[test]
fn payload_ljust_to_own_length_changes_nothing() {
    let mut payload = Payload::default();
    payload += &b"abc"[..];
    payload.ljust(3, b'x');
    assert_eq!(payload.as_bytes(), b"abc");
}

#[test]
fn payload_ljust_to_zero_empties() {
    let mut payload = Payload::default();
    payload += &b"abc"[..];
    payload.ljust(0, b'x');
    assert_eq!(payload.as_bytes(), b"");
}

#[test]
fn payload_clone_keeps_bytes() {
    let mut payload = Payload::default();
    payload += P64(7);
    let copy = payload.clone();
    payload += P64(8);
    assert_eq!(copy.as_bytes(), &[7, 0, 0, 0, 0, 0, 0, 0]);
    assert_eq!(payload.as_bytes().len(), 16);
}

#[test]
fn p64_mul_repeats_the_word() {
    let bytes = P64(0x1122334455667788) * 2;
    assert_eq!(
        bytes,
        vec![
            0x88, 0x77, 0x66, 0x55, 0x44, 0x33, 0x22, 0x11, 0x88, 0x77, 0x66, 0x55, 0x44, 0x33,
            0x22, 0x11
        ]
    );
}

#[test]
fn p64_mul_by_zero_is_empty() {
    assert_eq!(P64(0xdeadbeef) * 0, Vec::<u8>::new());
}

#[test]
fn p64_mul_by_one_is_the_word() {
    assert_eq!(P64(0x3b) * 1, vec![0x3b, 0, 0, 0, 0, 0, 0, 0]);
}

#[test]
fn p64_mul_length_is_eight_per_copy() {
    assert_eq!((P64(0) * 0xd).len(), 8 * 0xd);
    assert!((P64(0) * 0xd).iter().all(|byte| *byte == 0));
}

#[test]
fn payload_chain_of_words_and_fill() {
    let mut payload = Payload::default();
    payload.ljust(0x11, b'A');
    payload += P64(0x4012c3);
    payload += P64(0) * 2;
    payload += P64(0x3b);
    let bytes = payload.as_bytes();
    assert_eq!(bytes.len(), 0x11 + 8 + 16 + 8);
    assert_eq!(&bytes[..0x11], &[b'A'; 0x11]);
    assert_eq!(&bytes[0x11..0x19], &[0xc3, 0x12, 0x40, 0, 0, 0, 0, 0]);
    assert_eq!(&bytes[0x19..0x29], &[0u8; 16]);
    assert_eq!(&bytes[0x29..], &[0x3b, 0, 0, 0, 0, 0, 0, 0]);
}
