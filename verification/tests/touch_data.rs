use touchtron::f0::touch_data::{TouchData, M, N, TOUCH_DATA_LEN, INITIAL_PERIOD};
use touchtron::payload::Payload;

#[test]
fn dimensions_of_the_matrix() {
    assert_eq!(N, 15);
    assert_eq!(M, 10);
    assert_eq!(TOUCH_DATA_LEN, 151);
    assert_eq!(INITIAL_PERIOD, 4);
}

#[test]
fn new_frame_is_all_zero() {
    let t = TouchData::new();
    assert!(t.inner.iter().all(|&v| v == 0));
}

#[test]
fn clear_zeroes_every_slot() {
    let mut t = TouchData::new();
    for i in 0..TOUCH_DATA_LEN {
        t.inner[i] = i as u16 + 1;
    }
    t.clear();
    assert_eq!(t.inner, [0u16; TOUCH_DATA_LEN]);
}

#[test]
fn take_returns_frame_and_leaves_zeros() {
    let mut t = TouchData::new();
    t.inner[0] = 3;
    t.inner[150] = 4095;
    let taken = t.take();
    assert_eq!(taken.inner[0], 3);
    assert_eq!(taken.inner[150], 4095);
    assert_eq!(t.inner, [0u16; TOUCH_DATA_LEN]);
    let again = t.take();
    assert_eq!(again.inner, [0u16; TOUCH_DATA_LEN]);
}

#[test]
fn add_counts_frames_and_sums_readings() {
    let mut a = TouchData::new();
    let mut b = TouchData::new();
    a.inner[0] = 7;
    b.inner[0] = 100;
    a.inner[1] = 10;
    b.inner[1] = 20;
    b.inner[150] = 5;
    a.add(&b);
    assert_eq!(a.inner[0], 8);
    assert_eq!(a.inner[1], 30);
    assert_eq!(a.inner[150], 5);
    assert_eq!(a.inner[2], 0);
}

#[test]
fn can_add_detects_overflow() {
    let mut a = TouchData::new();
    let mut b = TouchData::new();
    assert!(a.can_add(&b));
    a.inner[0] = u16::MAX;
    assert!(!a.can_add(&b));
    a.inner[0] = 0;
    a.inner[42] = 60000;
    b.inner[42] = 5535;
    assert!(a.can_add(&b));
    b.inner[42] = 5536;
    assert!(!a.can_add(&b));
}

#[test]
fn bytes_are_little_endian_words() {
    let mut t = TouchData::new();
    t.inner[0] = 0x0102;
    t.inner[1] = 0xabcd;
    t.inner[150] = 0xff00;
    let bytes = t.as_bytes();
    assert_eq!(bytes.len(), 302);
    assert_eq!(&bytes[0..4], &[0x02, 0x01, 0xcd, 0xab]);
    assert_eq!(&bytes[300..302], &[0x00, 0xff]);
    assert_eq!(t.byte_len(), 302);
    assert_eq!(t.byte_range(1, 3), vec![0x01, 0xcd]);
    for i in 0..TOUCH_DATA_LEN {
        assert_eq!(bytes[2 * i] as u16 + 256 * bytes[2 * i + 1] as u16, t.inner[i]);
    }
}
