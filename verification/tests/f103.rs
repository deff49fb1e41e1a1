use touchtron::f103::counter::Counter;
use touchtron::f103::reporter::Reporter;
use touchtron::f103::touch_data::{TouchData, MAX_PACKET_SIZE, TOUCH_DATA_LEN};

#[test]
fn prototype_frame_is_all_ones() {
    let t = TouchData::new();
    assert_eq!(TOUCH_DATA_LEN, 24);
    assert!(t.inner.iter().all(|&v| v == 1));
}

#[test]
fn prototype_reporter_sends_whole_frame() {
    let r = Reporter::new(TouchData::new());
    let p = r.poll();
    assert_eq!(p.len(), MAX_PACKET_SIZE as usize);
    for i in 0..24 {
        assert_eq!(p[2 * i], 1);
        assert_eq!(p[2 * i + 1], 0);
    }
}

#[test]
fn counter_counts_up_little_endian() {
    let mut c = Counter::new();
    assert_eq!(c.poll(), vec![1, 0, 0, 0, 0, 0, 0, 0]);
    assert_eq!(c.poll(), vec![2, 0, 0, 0, 0, 0, 0, 0]);
    for _ in 0..254 {
        c.poll();
    }
    assert_eq!(c.idx(), 256);
    assert_eq!(c.poll(), 257i64.to_le_bytes().to_vec());
}
