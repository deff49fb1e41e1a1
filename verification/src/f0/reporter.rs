//! The USB reporter of the touchpad board: it sends one message at a time, in
//! packets of at most 64 bytes, and keeps the newest message waiting behind it.
use vstd::prelude::*;
use crate::payload::Payload;
use crate::f0::touch_data::{TouchData, can_add_frames, add_frames};

verus! {

/// Largest packet, in bytes, of the interrupt endpoint (full speed).
pub const MAX_PACKET_SIZE: u16 = 64;

/// Polling interval of the interrupt endpoint, in frames.
pub const INTERVAL: u8 = 1;

/// End of the packet that starts at `offset` in a message of `len` bytes.
pub open spec fn chunk_end(offset: nat, len: nat) -> nat {
    if offset + MAX_PACKET_SIZE <= len {
        offset + MAX_PACKET_SIZE as nat
    } else {
        len
    }
}

/// What the reporter holds: the message being sent with the offset of its next
/// packet, and the message waiting to be sent.
pub struct ReporterView<D> {
    pub transmitting: Option<(nat, D)>,
    pub queued: Option<D>,
}

/// The packet that starts at `offset` in `d`, and what is left to send after it.
pub open spec fn send_from<D: Payload>(offset: nat, d: D) -> (Seq<u8>, Option<(nat, D)>) {
    let n = d.bytes().len();
    let end = chunk_end(offset, n);
    (d.bytes().subrange(offset as int, end as int), if end == n {
        None
    } else {
        Some((end, d))
    })
}

/// One poll: the next packet of the message being sent; if none is being sent, the
/// first packet of the waiting message, which becomes the one being sent; if none
/// waits either, nothing.
pub open spec fn poll_spec<D: Payload>(v: ReporterView<D>) -> (Option<Seq<u8>>, ReporterView<D>) {
    match v.transmitting {
        Some((offset, d)) => {
            let (p, t) = send_from(offset, d);
            (Some(p), ReporterView { transmitting: t, queued: v.queued })
        },
        None => match v.queued {
            Some(d) => {
                let (p, t) = send_from(0, d);
                (Some(p), ReporterView { transmitting: t, queued: None })
            },
            None => (None, v),
        },
    }
}

/// Sends a message, one packet per poll; keeps the message that waits behind it.
pub struct Reporter<D: Payload> {
    transmitting: Option<(usize, D)>,
    queued: Option<D>,
}

impl<D: Payload> View for Reporter<D> {
    type V = ReporterView<D>;

    closed spec fn view(&self) -> ReporterView<D> {
        ReporterView {
            transmitting: match self.transmitting {
                Some((offset, d)) => Some((offset as nat, d)),
                None => None,
            },
            queued: self.queued,
        }
    }
}

/// A message in flight has had its first packet sent and has bytes left: its
/// offset is a whole number of full packets, at least one, below its length.
pub open spec fn reporter_valid<D: Payload>(v: ReporterView<D>) -> bool {
    match v.transmitting {
        Some((offset, d)) => {
            &&& offset % (MAX_PACKET_SIZE as nat) == 0
            &&& MAX_PACKET_SIZE <= offset < d.bytes().len()
        },
        None => true,
    }
}

/// Polling keeps a reporter valid.
pub proof fn lemma_poll_keeps_valid<D: Payload>(v: ReporterView<D>)
    requires
        reporter_valid(v),
    ensures
        reporter_valid(poll_spec(v).1),
{
}

impl<D: Payload> Reporter<D> {
    #[verifier::type_invariant]
    spec fn valid(self) -> bool {
        reporter_valid(self@)
    }

    /// A reporter with nothing to send.
    pub fn new() -> (r: Reporter<D>)
        ensures
            r@ == (ReporterView::<D> { transmitting: None, queued: None }),
            reporter_valid(r@),
    {
        Reporter { transmitting: None, queued: None }
    }

    /// Puts `new_data` to wait behind the message being sent, in place of any
    /// message that was waiting.
    pub fn queue(&mut self, new_data: D)
        ensures
            final(self)@ == (ReporterView { transmitting: old(self)@.transmitting, queued: Some(new_data) }),
            reporter_valid(final(self)@),
    {
        proof {
            use_type_invariant(&*self);
        }
        self.queued = Some(new_data);
    }

    /// The message waiting to be sent.
    pub fn queued(&self) -> (q: Option<&D>)
        ensures
            match q {
                Some(d) => self@.queued == Some(*d),
                None => self@.queued is None,
            },
    {
        match &self.queued {
            Some(d) => Some(d),
            None => None,
        }
    }

    /// Whether a message is being sent.
    pub fn is_transmitting(&self) -> (busy: bool)
        ensures
            busy == self@.transmitting is Some,
    {
        self.transmitting.is_some()
    }

    /// The next packet to write to the endpoint, if there is one.
    pub fn poll(&mut self) -> (packet: Option<Vec<u8>>)
        ensures
            (match packet {
                Some(p) => Some(p@),
                None => None,
            }, final(self)@) == poll_spec(old(self)@),
            reporter_valid(final(self)@),
    {
        proof {
            use_type_invariant(&*self);
        }
        let mut current: Option<(usize, D)> = None;
        std::mem::swap(&mut current, &mut self.transmitting);
        match current {
            Some((offset, msg)) => Some(self.send(offset, msg)),
            None => {
                let mut waiting: Option<D> = None;
                std::mem::swap(&mut waiting, &mut self.queued);
                match waiting {
                    Some(new_data) => Some(self.send(0, new_data)),
                    None => None,
                }
            },
        }
    }

    /// Sends the packet of `msg` at `offset`; keeps `msg` as the message being sent
    /// if bytes are left after it.
    fn send(&mut self, offset: usize, msg: D) -> (packet: Vec<u8>)
        requires
            old(self)@.transmitting is None,
            (offset as nat) % (MAX_PACKET_SIZE as nat) == 0,
            offset <= msg.bytes().len(),
        ensures
            (packet@, final(self)@.transmitting) == send_from(offset as nat, msg),
            final(self)@.queued == old(self)@.queued,
            reporter_valid(final(self)@),
    {
        let n = msg.byte_len();
        let max = MAX_PACKET_SIZE as usize;
        let end = if n - offset >= max {
            offset + max
        } else {
            n
        };
        let packet = msg.byte_range(offset, end);
        if end != n {
            self.transmitting = Some((end, msg));
        }
        packet
    }
}

impl Reporter<TouchData> {
    /// Takes in a new frame: adds it into the waiting frame if there is one,
    /// otherwise puts it to wait.
    pub fn queue_or_add(&mut self, latest: TouchData)
        requires
            old(self)@.queued matches Some(q) ==> can_add_frames(q@, latest@),
        ensures
            final(self)@.transmitting == old(self)@.transmitting,
            reporter_valid(final(self)@),
            final(self)@.queued matches Some(q) && q@ == match old(self)@.queued {
                Some(old_q) => add_frames(old_q@, latest@),
                None => latest@,
            },
    {
        proof {
            use_type_invariant(&*self);
        }
        let mut waiting: Option<TouchData> = None;
        std::mem::swap(&mut waiting, &mut self.queued);
        match waiting {
            Some(mut data) => {
                data.add(&latest);
                self.queued = Some(data);
            },
            None => {
                self.queued = Some(latest);
            },
        }
    }
}

/// The packets in which the bytes of `b` from `offset` on are sent, in order.
pub open spec fn drain_packets(offset: nat, b: Seq<u8>) -> Seq<Seq<u8>>
    decreases b.len() - offset,
{
    let end = chunk_end(offset, b.len());
    if end >= b.len() {
        seq![b.subrange(offset as int, b.len() as int)]
    } else {
        seq![b.subrange(offset as int, end as int)] + drain_packets(end, b)
    }
}

/// The packets of `k` polls from `v`, in order, and the state they leave.
pub open spec fn poll_n<D: Payload>(v: ReporterView<D>, k: nat) -> (Seq<Seq<u8>>, ReporterView<D>)
    decreases k,
{
    if k == 0 {
        (Seq::empty(), v)
    } else {
        let (p, v1) = poll_spec(v);
        let (rest, v2) = poll_n(v1, (k - 1) as nat);
        (
            match p {
                Some(x) => seq![x] + rest,
                None => rest,
            },
            v2,
        )
    }
}

/// The packets of a message cover its bytes from `offset` on, in order: each
/// holds at most 64 bytes, every one but the last exactly 64.
pub proof fn lemma_drain_covers(offset: nat, b: Seq<u8>)
    requires
        offset <= b.len(),
    ensures
        drain_packets(offset, b).flatten() == b.subrange(offset as int, b.len() as int),
        forall|i: int|
            0 <= i < drain_packets(offset, b).len() ==> #[trigger] drain_packets(offset, b)[i].len()
                <= 64,
        forall|i: int|
            0 <= i < drain_packets(offset, b).len() - 1 ==> #[trigger] drain_packets(
                offset,
                b,
            )[i].len() == 64,
        drain_packets(offset, b).len() == if offset == b.len() {
            1
        } else {
            (b.len() - offset + 63) / 64
        },
    decreases b.len() - offset,
{
    let ps = drain_packets(offset, b);
    let end = chunk_end(offset, b.len());
    if end >= b.len() {
        ps.lemma_flatten_one_element();
    } else {
        lemma_drain_covers(end, b);
        let rest = drain_packets(end, b);
        assert(ps.drop_first() =~= rest);
        assert(ps.flatten() == ps[0] + rest.flatten());
        assert(ps.flatten() =~= b.subrange(offset as int, b.len() as int));
        assert forall|i: int| 0 <= i < ps.len() implies #[trigger] ps[i].len() <= 64 by {
            if i > 0 {
                assert(ps[i] == rest[i - 1]);
            }
        }
        assert forall|i: int| 0 <= i < ps.len() - 1 implies #[trigger] ps[i].len() == 64 by {
            if i > 0 {
                assert(ps[i] == rest[i - 1]);
            }
        }
        let n = b.len() - offset;
        if end == b.len() {
        } else {
            assert((n - 64 + 63) / 64 + 1 == (n + 63) / 64);
        }
    }
}

/// Polling a message that is being sent gives its packets in order, one per poll,
/// and then nothing is being sent; the waiting message is left alone.
pub proof fn lemma_polls_send_message<D: Payload>(offset: nat, d: D, queued: Option<D>)
    requires
        offset <= d.bytes().len(),
    ensures
        ({
            let v = ReporterView { transmitting: Some((offset, d)), queued };
            poll_n(v, drain_packets(offset, d.bytes()).len()) == (
                drain_packets(offset, d.bytes()),
                ReporterView::<D> { transmitting: None, queued },
            )
        }),
    decreases d.bytes().len() - offset,
{
    let b = d.bytes();
    let v = ReporterView { transmitting: Some((offset, d)), queued };
    let ps = drain_packets(offset, b);
    let end = chunk_end(offset, b.len());
    let k = ps.len();
    let (p, v1) = poll_spec(v);
    assert(p == Some(ps[0]));
    if end >= b.len() {
        assert(k == 1);
        assert(v1 == ReporterView::<D> { transmitting: None, queued });
        assert(poll_n(v1, 0) == (Seq::<Seq<u8>>::empty(), v1));
        assert(poll_n(v, k).0 =~= ps);
    } else {
        lemma_polls_send_message(end, d, queued);
        let rest = drain_packets(end, b);
        assert(k == rest.len() + 1);
        assert(v1 == ReporterView { transmitting: Some((end, d)), queued });
        assert(poll_n(v, k).0 =~= ps);
    }
}

/// A message that waits behind an idle reporter goes out whole: polling gives its
/// bytes, in order, in packets of at most 64 bytes, after which the reporter is idle.
pub proof fn lemma_queued_message_goes_out<D: Payload>(d: D)
    ensures
        ({
            let v = ReporterView { transmitting: None, queued: Some(d) };
            let k = drain_packets(0, d.bytes()).len();
            &&& poll_n(v, k) == (drain_packets(0, d.bytes()), ReporterView::<D> {
                transmitting: None,
                queued: None,
            })
            &&& poll_n(v, k).0.flatten() == d.bytes()
            &&& forall|i: int| 0 <= i < k ==> #[trigger] poll_n(v, k).0[i].len() <= 64
        }),
{
    let b = d.bytes();
    let v = ReporterView { transmitting: None, queued: Some(d) };
    let ps = drain_packets(0, b);
    let k = ps.len();
    lemma_drain_covers(0, b);
    assert(b.subrange(0, b.len() as int) =~= b);
    let end = chunk_end(0, b.len());
    let (p, v1) = poll_spec(v);
    assert(p == Some(ps[0]));
    if end >= b.len() {
        assert(k == 1);
        assert(v1 == ReporterView::<D> { transmitting: None, queued: None });
        assert(poll_n(v1, 0) == (Seq::<Seq<u8>>::empty(), v1));
        assert(poll_n(v, k).0 =~= ps);
    } else {
        lemma_polls_send_message(end, d, None);
        let rest = drain_packets(end, b);
        assert(k == rest.len() + 1);
        assert(v1 == ReporterView::<D> { transmitting: Some((end, d)), queued: None });
        assert(poll_n(v, k).0 =~= ps);
    }
}

} // verus!
