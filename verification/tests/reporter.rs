use touchtron::f0::reporter::Reporter;
use touchtron::f0::touch_data::TouchData;

fn frame(first: u16) -> TouchData {
    let mut t = TouchData::new();
    for i in 0..t.inner.len() {
        t.inner[i] = first + i as u16;
    }
    t
}

#[test]
fn idle_reporter_sends_nothing() {
    let mut r: Reporter<TouchData> = Reporter::new();
    assert!(r.poll().is_none());
    assert!(!r.is_transmitting());
}

#[test]
fn frame_goes_out_in_packets_of_64() {
    let mut r = Reporter::new();
    let t = frame(1000);
    let bytes = t.as_bytes();
    r.queue(t);
    let mut packets = Vec::new();
    while let Some(p) = r.poll() {
        packets.push(p);
    }
    let sizes: Vec<usize> = packets.iter().map(|p| p.len()).collect();
    assert_eq!(sizes, vec![64, 64, 64, 64, 46]);
    assert_eq!(packets.concat(), bytes);
    assert!(!r.is_transmitting());
}

#[test]
fn message_in_flight_sits_at_whole_packets() {
    let mut r = Reporter::new();
    r.queue(frame(3));
    let mut sent = 0;
    while let Some(p) = r.poll() {
        sent += p.len();
        if r.is_transmitting() {
            // what is left after a packet always starts at a whole packet
            assert_eq!(p.len(), 64);
            assert_eq!(sent % 64, 0);
            assert!(sent < 302);
        }
    }
    assert_eq!(sent, 302);
}

#[test]
fn queue_replaces_the_waiting_frame() {
    let mut r = Reporter::new();
    r.queue(frame(1));
    r.poll();
    assert!(r.is_transmitting());
    r.queue(frame(10));
    r.queue(frame(20));
    assert_eq!(r.queued().unwrap().inner[0], 20);
    let mut packets = Vec::new();
    while let Some(p) = r.poll() {
        packets.push(p);
    }
    // four packets left of the first frame, then five of the last queued one
    assert_eq!(packets.len(), 9);
    assert_eq!(packets[4..].concat(), frame(20).as_bytes());
}

#[test]
fn queue_or_add_merges_into_waiting_frame() {
    let mut r = Reporter::new();
    r.queue_or_add(frame(1));
    assert_eq!(r.queued().unwrap().inner[0], 1);
    r.queue_or_add(frame(1));
    let q = r.queued().unwrap();
    assert_eq!(q.inner[0], 2);
    assert_eq!(q.inner[1], 4);
    assert_eq!(q.inner[150], 302);
}

#[test]
fn small_payload_goes_in_one_packet() {
    let mut r: Reporter<touchtron::f103::touch_data::TouchData> = Reporter::new();
    r.queue(touchtron::f103::touch_data::TouchData::new());
    let p = r.poll().unwrap();
    assert_eq!(p.len(), 48);
    assert!(r.poll().is_none());
}
