use touchtron::serial::{advance_write_offset, uppercase};

#[test]
fn uppercase_only_letters_within_count() {
    let mut buf = b"hello, World! az{`".to_vec();
    let n = buf.len();
    buf.extend_from_slice(b"tail");
    uppercase(&mut buf, n);
    assert_eq!(&buf, b"HELLO, WORLD! AZ{`tail");
}

#[test]
fn uppercase_twice_is_once() {
    let mut buf: Vec<u8> = (0..=255u8).collect();
    uppercase(&mut buf, 256);
    let once = buf.clone();
    uppercase(&mut buf, 256);
    assert_eq!(buf, once);
    assert!(buf.iter().all(|b| !(b'a'..=b'z').contains(b)));
}

#[test]
fn write_offset_moves_only_on_progress() {
    assert_eq!(advance_write_offset(3, Some(5)), 8);
    assert_eq!(advance_write_offset(3, Some(0)), 3);
    assert_eq!(advance_write_offset(3, None), 3);
}
