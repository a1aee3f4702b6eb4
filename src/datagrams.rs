//! The datagram engine: the negotiated sizes, the bounded outgoing queue, the
//! frame writer and the inbound gate.
use std::collections::VecDeque;
use vstd::prelude::*;
use vstd::slice::slice_to_vec;

use crate::events::{
    incoming_after, ConnectionEvents, DatagramOutcomeEvent, OutgoingDatagramOutcome,
};
use crate::packet::PacketBuilder;
use crate::varint::{lemma_varint_bytes_len, varint_bytes, varint_len, varint_len_spec};
use crate::{Error, Res};

verus! {

/// The largest datagram that a peer may announce; larger announcements are
/// clamped to it.
pub const MAX_QUIC_DATAGRAM: u64 = 65535;

/// Frame type of a datagram that runs to the end of the packet.
pub const FRAME_TYPE_DATAGRAM: u64 = 0x30;

/// Frame type of a datagram that carries its length.
pub const FRAME_TYPE_DATAGRAM_WITH_LEN: u64 = 0x31;

/// What a packet remembers of each frame, so that its acknowledgement or loss
/// can be reported later.
#[derive(Clone, Copy, Debug, PartialEq, Eq)]
pub enum RecoveryToken {
    Datagram(Option<u64>),
}

/// Counters of frames written.
#[derive(Clone, Copy, Debug, PartialEq, Eq)]
pub struct FrameStats {
    pub datagram: usize,
}

/// A payload waiting to be sent, with the caller's correlation id.
pub struct QuicDatagram {
    data: Vec<u8>,
    id: Option<u64>,
}

impl View for QuicDatagram {
    type V = (Seq<u8>, Option<u64>);

    closed spec fn view(&self) -> (Seq<u8>, Option<u64>) {
        (self.data@, self.id)
    }
}

impl QuicDatagram {
    /// The correlation id given when the datagram was added.
    pub fn id(&self) -> (r: Option<u64>)
        ensures
            r == self@.1,
    {
        self.id
    }

    /// The payload.
    pub fn data(&self) -> (r: &[u8])
        ensures
            r@ == self@.0,
    {
        self.data.as_slice()
    }
}

/// Bytes of a length-carrying frame for a payload of `len` bytes.
pub open spec fn explicit_frame_size(len: nat) -> nat {
    1 + varint_len_spec(len) + len
}

/// The bytes of one datagram frame, with or without its length.
pub open spec fn datagram_frame(data: Seq<u8>, explicit: bool) -> Seq<u8> {
    if explicit {
        varint_bytes(FRAME_TYPE_DATAGRAM_WITH_LEN as nat) + varint_bytes(data.len()) + data
    } else {
        varint_bytes(FRAME_TYPE_DATAGRAM as nat) + data
    }
}

/// How many datagrams from the front of `q` go into a packet with `rem`
/// bytes left: each that fits is written, a length-carrying frame when room
/// remains after it, else a frame that closes the packet; the first that
/// does not fit ends the run.
pub open spec fn written_count(q: Seq<(Seq<u8>, Option<u64>)>, rem: int) -> nat
    decreases q.len(),
{
    if q.len() == 0 {
        0
    } else {
        let len = q[0].0.len();
        if rem < len + 1 {
            0
        } else if rem > explicit_frame_size(len) {
            1 + written_count(q.drop_first(), rem - explicit_frame_size(len))
        } else {
            1
        }
    }
}

/// The bytes that those datagrams add to the packet.
pub open spec fn written_bytes(q: Seq<(Seq<u8>, Option<u64>)>, rem: int) -> Seq<u8>
    decreases q.len(),
{
    if q.len() == 0 {
        Seq::empty()
    } else {
        let len = q[0].0.len();
        if rem < len + 1 {
            Seq::empty()
        } else if rem > explicit_frame_size(len) {
            datagram_frame(q[0].0, true) + written_bytes(
                q.drop_first(),
                rem - explicit_frame_size(len),
            )
        } else {
            datagram_frame(q[0].0, false)
        }
    }
}

/// One recovery token per datagram, in order.
pub open spec fn datagram_tokens(q: Seq<(Seq<u8>, Option<u64>)>) -> Seq<RecoveryToken> {
    q.map_values(|d: (Seq<u8>, Option<u64>)| RecoveryToken::Datagram(d.1))
}

/// Whether the head of `q` is dropped as too big: it does not fit a packet
/// that holds no other frame.
pub open spec fn head_dropped(q: Seq<(Seq<u8>, Option<u64>)>, rem: int, no_frames: bool) -> bool {
    q.len() > 0 && rem < q[0].0.len() + 1 && no_frames
}

/// The datagram state of one connection.
pub struct QuicDatagrams {
    /// The max size of a datagram that would be acceptable.
    local_datagram_size: u64,
    /// The max size of a datagram that would be acceptable by the peer.
    remote_datagram_size: u64,
    max_queued_outgoing_datagrams: usize,
    /// The max number of datagrams that will be queued in connection events.
    /// If the number is exceeded, the oldest datagram will be dropped.
    max_queued_incoming_datagrams: usize,
    /// Datagrams queued for sending, oldest first.
    datagrams: VecDeque<QuicDatagram>,
    conn_events: ConnectionEvents,
}

impl QuicDatagrams {
    pub closed spec fn spec_local_size(&self) -> nat {
        self.local_datagram_size as nat
    }

    pub closed spec fn spec_remote_size(&self) -> nat {
        self.remote_datagram_size as nat
    }

    pub closed spec fn spec_max_outgoing(&self) -> nat {
        self.max_queued_outgoing_datagrams as nat
    }

    pub closed spec fn spec_max_incoming(&self) -> nat {
        self.max_queued_incoming_datagrams as nat
    }

    /// The outgoing queue, oldest first: each payload with its correlation id.
    pub closed spec fn spec_queue(&self) -> Seq<(Seq<u8>, Option<u64>)> {
        self.datagrams@.map_values(|d: QuicDatagram| d@)
    }

    /// The event sink.
    pub closed spec fn spec_events(&self) -> ConnectionEvents {
        self.conn_events
    }

    /// The peer's limit is clamped, the queue is within its capacity and
    /// every queued payload is within the largest announceable size.
    pub open spec fn wf(&self) -> bool {
        &&& self.spec_remote_size() <= MAX_QUIC_DATAGRAM
        &&& 0 < self.spec_max_outgoing()
        &&& self.spec_queue().len() <= self.spec_max_outgoing()
        &&& forall|i: int|
            0 <= i < self.spec_queue().len() ==> #[trigger] self.spec_queue()[i].0.len()
                <= MAX_QUIC_DATAGRAM
    }

    /// Whether `self` and `other` agree on everything but the outgoing queue
    /// and the event sink.
    pub open spec fn same_limits(&self, other: &QuicDatagrams) -> bool {
        &&& self.spec_local_size() == other.spec_local_size()
        &&& self.spec_remote_size() == other.spec_remote_size()
        &&& self.spec_max_outgoing() == other.spec_max_outgoing()
        &&& self.spec_max_incoming() == other.spec_max_incoming()
    }

    /// A datagram engine that accepts up to `local_datagram_size` bytes per
    /// datagram, and may send nothing until the peer's limit is known.
    pub fn new(
        local_datagram_size: u64,
        max_queued_outgoing_datagrams: usize,
        max_queued_incoming_datagrams: usize,
        conn_events: ConnectionEvents,
    ) -> (r: Self)
        requires
            max_queued_outgoing_datagrams > 0,
        ensures
            r.wf(),
            r.spec_local_size() == local_datagram_size,
            r.spec_remote_size() == 0,
            r.spec_max_outgoing() == max_queued_outgoing_datagrams,
            r.spec_max_incoming() == max_queued_incoming_datagrams,
            r.spec_queue() == Seq::<(Seq<u8>, Option<u64>)>::empty(),
            r.spec_events() == conn_events,
    {
        let r = Self {
            local_datagram_size,
            remote_datagram_size: 0,
            max_queued_outgoing_datagrams,
            max_queued_incoming_datagrams,
            datagrams: VecDeque::new(),
            conn_events,
        };
        assert(r.spec_queue() =~= Seq::<(Seq<u8>, Option<u64>)>::empty());
        r
    }

    /// Number of datagrams waiting to be sent.
    pub fn queued_len(&self) -> (r: usize)
        ensures
            r == self.spec_queue().len(),
    {
        self.datagrams.len()
    }

    /// The `i`-th datagram waiting to be sent, oldest first.
    pub fn queued(&self, i: usize) -> (r: &QuicDatagram)
        requires
            i < self.spec_queue().len(),
        ensures
            r@ == self.spec_queue()[i as int],
    {
        &self.datagrams[i]
    }

    /// The event sink.
    pub fn events(&self) -> (r: &ConnectionEvents)
        ensures
            *r == self.spec_events(),
    {
        &self.conn_events
    }

    /// The largest datagram the peer accepts.
    pub fn remote_datagram_size(&self) -> (r: u64)
        ensures
            r == self.spec_remote_size(),
    {
        self.remote_datagram_size
    }

    /// Records the peer's limit, clamped to `MAX_QUIC_DATAGRAM`.
    pub fn set_remote_datagram_size(&mut self, v: u64)
        requires
            old(self).wf(),
        ensures
            final(self).wf(),
            final(self).spec_remote_size() == if v < MAX_QUIC_DATAGRAM {
                v
            } else {
                MAX_QUIC_DATAGRAM
            },
            final(self).spec_local_size() == old(self).spec_local_size(),
            final(self).spec_max_outgoing() == old(self).spec_max_outgoing(),
            final(self).spec_max_incoming() == old(self).spec_max_incoming(),
            final(self).spec_queue() == old(self).spec_queue(),
            final(self).spec_events() == old(self).spec_events(),
    {
        self.remote_datagram_size = if v < MAX_QUIC_DATAGRAM {
            v
        } else {
            MAX_QUIC_DATAGRAM
        };
    }

    /// Queues `buf` for sending, with correlation id `id`. A payload larger
    /// than the peer accepts is refused; when the queue is full, the oldest
    /// payload gives way and its id is reported as dropped.
    pub fn add_datagram(&mut self, buf: &[u8], id: Option<u64>) -> (r: Res<()>)
        requires
            old(self).wf(),
        ensures
            final(self).wf(),
            final(self).same_limits(old(self)),
            final(self).spec_events().spec_incoming() == old(self).spec_events().spec_incoming(),
            buf@.len() > old(self).spec_remote_size() ==> {
                &&& r == Err::<(), Error>(Error::SizeExceeded)
                &&& final(self).spec_queue() == old(self).spec_queue()
                &&& final(self).spec_events() == old(self).spec_events()
            },
            buf@.len() <= old(self).spec_remote_size() ==> {
                &&& r == Ok::<(), Error>(())
                &&& if old(self).spec_queue().len() == old(self).spec_max_outgoing() {
                    &&& final(self).spec_queue() == old(self).spec_queue().drop_first().push(
                        (buf@, id),
                    )
                    &&& final(self).spec_events().spec_outcomes() == old(
                        self,
                    ).spec_events().spec_outcomes().push(
                        DatagramOutcomeEvent {
                            id: old(self).spec_queue()[0].1,
                            outcome: OutgoingDatagramOutcome::DroppedQueueFull,
                        },
                    )
                } else {
                    &&& final(self).spec_queue() == old(self).spec_queue().push((buf@, id))
                    &&& final(self).spec_events().spec_outcomes() == old(
                        self,
                    ).spec_events().spec_outcomes()
                }
            },
    {
        if buf.len() as u64 > self.remote_datagram_size {
            return Err(Error::SizeExceeded);
        }
        let ghost q = self.datagrams@;
        if self.datagrams.len() == self.max_queued_outgoing_datagrams {
            if let Some(oldest) = self.datagrams.pop_front() {
                self.conn_events.datagram_outcome(
                    oldest.id,
                    OutgoingDatagramOutcome::DroppedQueueFull,
                );
                assert(self.datagrams@.map_values(|d: QuicDatagram| d@) =~= q.map_values(
                    |d: QuicDatagram| d@,
                ).drop_first());
            }
        }
        let ghost mid = self.datagrams@;
        self.datagrams.push_back(QuicDatagram { data: slice_to_vec(buf), id });
        assert(self.datagrams@.map_values(|d: QuicDatagram| d@) =~= mid.map_values(
            |d: QuicDatagram| d@,
        ).push((buf@, id)));
        Ok(())
    }

    /// Accepts a datagram from the peer, refusing one larger than this
    /// endpoint announced; an accepted one goes to the event sink's bounded
    /// incoming queue.
    pub fn handle_datagram(&mut self, data: &[u8]) -> (r: Res<()>)
        requires
            old(self).wf(),
        ensures
            final(self).wf(),
            final(self).same_limits(old(self)),
            final(self).spec_queue() == old(self).spec_queue(),
            final(self).spec_events().spec_outcomes() == old(self).spec_events().spec_outcomes(),
            data@.len() > old(self).spec_local_size() ==> {
                &&& r == Err::<(), Error>(Error::ProtocolViolation)
                &&& final(self).spec_events() == old(self).spec_events()
            },
            data@.len() <= old(self).spec_local_size() ==> {
                &&& r == Ok::<(), Error>(())
                &&& final(self).spec_events().spec_incoming() == incoming_after(
                    old(self).spec_events().spec_incoming(),
                    old(self).spec_max_incoming(),
                    data@,
                )
            },
    {
        if self.local_datagram_size < data.len() as u64 {
            return Err(Error::ProtocolViolation);
        }
        self.conn_events.add_datagram(self.max_queued_incoming_datagrams, data);
        Ok(())
    }

    /// Writes queued datagrams into the packet that `builder` assembles, in
    /// order, while they fit: a length-carrying frame when room remains after
    /// it, else a frame that runs to the end of the packet and closes it. The
    /// first datagram that does not fit stops the run. If no frame is in the
    /// packet yet (`tokens` is empty), that datagram can never fit and is
    /// dropped with a `DroppedTooBig` outcome; otherwise it stays at the
    /// front of the queue for a later packet.
    pub fn write_frames(
        &mut self,
        builder: &mut PacketBuilder,
        tokens: &mut Vec<RecoveryToken>,
        stats: &mut FrameStats,
    )
        requires
            old(self).wf(),
            old(stats).datagram + old(self).spec_queue().len() <= usize::MAX,
        ensures
            final(self).wf(),
            final(self).same_limits(old(self)),
            final(self).spec_events().spec_incoming() == old(self).spec_events().spec_incoming(),
            ({
                let q = old(self).spec_queue();
                let rem = old(builder).spec_remaining() as int;
                let k = written_count(q, rem);
                let dropped = head_dropped(q, rem, old(tokens)@.len() == 0);
                &&& final(builder).bytes() == old(builder).bytes() + written_bytes(q, rem)
                &&& final(builder).spec_limit() == old(builder).spec_limit()
                &&& final(tokens)@ == old(tokens)@ + datagram_tokens(q.take(k as int))
                &&& final(stats).datagram == old(stats).datagram + k
                &&& final(self).spec_queue() == q.skip(
                    if dropped {
                        1
                    } else {
                        k as int
                    },
                )
                &&& final(self).spec_events().spec_outcomes() == if dropped {
                    old(self).spec_events().spec_outcomes().push(
                        DatagramOutcomeEvent {
                            id: q[0].1,
                            outcome: OutgoingDatagramOutcome::DroppedTooBig,
                        },
                    )
                } else {
                    old(self).spec_events().spec_outcomes()
                }
            }),
            old(builder).bytes().len() <= old(builder).spec_limit() ==> final(builder).bytes().len()
                <= final(builder).spec_limit(),
    {
        let ghost q = self.spec_queue();
        let ghost rem0 = builder.spec_remaining() as int;
        let ghost bytes0 = builder.bytes();
        let ghost tokens0 = tokens@;
        let ghost stats0 = stats.datagram;
        let ghost i: int = 0;
        proof {
            lemma_written_bytes_len(q, rem0);
        }
        loop
            invariant_except_break
                0 <= i <= q.len(),
                self.spec_queue() == q.skip(i),
                written_count(q, rem0) == i + written_count(q.skip(i), builder.spec_remaining() as int),
                bytes0 + written_bytes(q, rem0) == builder.bytes() + written_bytes(
                    q.skip(i),
                    builder.spec_remaining() as int,
                ),
                bytes0.len() <= builder.spec_limit() ==> builder.bytes().len() <= builder.spec_limit(),
                builder.spec_limit() == old(builder).spec_limit(),
                tokens@ == tokens0 + datagram_tokens(q.take(i)),
                stats.datagram == stats0 + i,
                self.spec_events() == old(self).spec_events(),
                i > 0 ==> rem0 >= q[0].0.len() + 1,
            invariant
                q == old(self).spec_queue(),
                rem0 == old(builder).spec_remaining(),
                bytes0 == old(builder).bytes(),
                tokens0 == old(tokens)@,
                stats0 == old(stats).datagram,
                old(self).wf(),
                old(stats).datagram + old(self).spec_queue().len() <= usize::MAX,
                self.same_limits(old(self)),
                self.spec_max_outgoing() > 0,
                forall|j: int|
                    0 <= j < q.len() ==> #[trigger] q[j].0.len() <= MAX_QUIC_DATAGRAM,
            ensures
                self.wf(),
                self.spec_events().spec_incoming() == old(self).spec_events().spec_incoming(),
                builder.bytes() == bytes0 + written_bytes(q, rem0),
                builder.spec_limit() == old(builder).spec_limit(),
                tokens@ == tokens0 + datagram_tokens(q.take(written_count(q, rem0) as int)),
                stats.datagram == stats0 + written_count(q, rem0),
                self.spec_queue() == q.skip(
                    if head_dropped(q, rem0, tokens0.len() == 0) {
                        1
                    } else {
                        written_count(q, rem0) as int
                    },
                ),
                self.spec_events().spec_outcomes() == if head_dropped(q, rem0, tokens0.len() == 0) {
                    old(self).spec_events().spec_outcomes().push(
                        DatagramOutcomeEvent {
                            id: q[0].1,
                            outcome: OutgoingDatagramOutcome::DroppedTooBig,
                        },
                    )
                } else {
                    old(self).spec_events().spec_outcomes()
                },
            decreases q.len() - i,
        {
            let ghost before = self.datagrams@;
            let ghost rem = builder.spec_remaining() as int;
            let popped = self.datagrams.pop_front();
            match popped {
                None => {
                    assert(q.skip(i).len() == 0);
                    assert(q.skip(i) =~= Seq::<(Seq<u8>, Option<u64>)>::empty());
                    assert(written_bytes(q.skip(i), rem) == Seq::<u8>::empty());
                    assert(i == q.len());
                    assert(q.take(i) =~= q);
                    assert(builder.bytes() =~= bytes0 + written_bytes(q, rem0));
                    assert(self.spec_queue() =~= q.skip(i));
                    break;
                },
                Some(dgram) => {
                    let ghost rest = q.skip(i);
                    assert(rest[0] == dgram@);
                    assert(self.spec_queue() =~= rest.drop_first());
                    assert(rest.drop_first() =~= q.skip(i + 1));
                    assert(q[i] == rest[0]);
                    let len = dgram.data.len();
                    let remaining = builder.remaining();
                    if remaining >= len + 1 {
                        let length_len = varint_len(len as u64);
                        assert(q.take(i + 1) =~= q.take(i).push(q[i]));
                        proof {
                            lemma_varint_bytes_len(FRAME_TYPE_DATAGRAM_WITH_LEN as nat);
                            lemma_varint_bytes_len(FRAME_TYPE_DATAGRAM as nat);
                            lemma_varint_bytes_len(len as nat);
                        }
                        if remaining > 1 + length_len + len {
                            let ghost b = builder.bytes();
                            builder.encode_varint(FRAME_TYPE_DATAGRAM_WITH_LEN);
                            builder.encode_vvec(dgram.data.as_slice());
                            assert(builder.bytes() =~= b + datagram_frame(dgram@.0, true));
                            stats.datagram = stats.datagram + 1;
                            tokens.push(RecoveryToken::Datagram(dgram.id));
                            proof {
                                assert(datagram_tokens(q.take(i + 1)) =~= datagram_tokens(
                                    q.take(i),
                                ).push(RecoveryToken::Datagram(q[i].1)));
                                assert(bytes0 + written_bytes(q, rem0) =~= builder.bytes()
                                    + written_bytes(q.skip(i + 1), builder.spec_remaining() as int));
                                i = i + 1;
                            }
                        } else {
                            let ghost b = builder.bytes();
                            builder.encode_varint(FRAME_TYPE_DATAGRAM);
                            builder.encode(dgram.data.as_slice());
                            assert(builder.bytes() =~= b + datagram_frame(dgram@.0, false));
                            stats.datagram = stats.datagram + 1;
                            tokens.push(RecoveryToken::Datagram(dgram.id));
                            proof {
                                assert(datagram_tokens(q.take(i + 1)) =~= datagram_tokens(
                                    q.take(i),
                                ).push(RecoveryToken::Datagram(q[i].1)));
                                assert(builder.bytes() =~= bytes0 + written_bytes(q, rem0));
                            }
                            break;
                        }
                    } else {
                        if tokens.len() == 0 {
                            self.conn_events.datagram_outcome(
                                dgram.id,
                                OutgoingDatagramOutcome::DroppedTooBig,
                            );
                            assert(i == 0);
                            assert(q.take(0) =~= Seq::<(Seq<u8>, Option<u64>)>::empty());
                            assert(datagram_tokens(q.take(0)) =~= Seq::<RecoveryToken>::empty());
                            assert(tokens@ =~= tokens0);
                        } else {
                            self.datagrams.push_front(dgram);
                            assert(self.datagrams@ =~= before);
                            assert(i > 0 || tokens0.len() > 0);
                        }
                        assert(builder.bytes() =~= bytes0 + written_bytes(q, rem0));
                        break;
                    }
                }
            }
        }
    }
}

/// The frames written into a packet never take more than the room it had.
proof fn lemma_written_bytes_len(q: Seq<(Seq<u8>, Option<u64>)>, rem: int)
    ensures
        written_bytes(q, rem).len() <= if rem < 0 {
            0
        } else {
            rem
        },
    decreases q.len(),
{
    if q.len() > 0 {
        let len = q[0].0.len();
        lemma_varint_bytes_len(FRAME_TYPE_DATAGRAM_WITH_LEN as nat);
        lemma_varint_bytes_len(FRAME_TYPE_DATAGRAM as nat);
        lemma_varint_bytes_len(len);
        if rem >= len + 1 && rem > explicit_frame_size(len) {
            lemma_written_bytes_len(q.drop_first(), rem - explicit_frame_size(len));
        }
    }
}

/// When the head of the queue does not fit a packet that already holds other
/// frames, the frame writer writes nothing, even where later payloads would
/// fit, drops nothing, and leaves the queue exactly as it was.
pub proof fn lemma_misfit_head_stops_writer(q: Seq<(Seq<u8>, Option<u64>)>, rem: int)
    requires
        q.len() > 0,
        rem < q[0].0.len() + 1,
    ensures
        written_count(q, rem) == 0,
        written_bytes(q, rem) == Seq::<u8>::empty(),
        datagram_tokens(q.take(0)) == Seq::<RecoveryToken>::empty(),
        !head_dropped(q, rem, false),
        q.skip(written_count(q, rem) as int) == q,
{
    assert(q.skip(0) =~= q);
    assert(datagram_tokens(q.take(0)) =~= Seq::<RecoveryToken>::empty());
}

/// When the head of the queue does not fit a packet that holds no frame yet,
/// the frame writer writes nothing and the head alone leaves the queue: the
/// rest keeps its order.
pub proof fn lemma_too_big_head_dropped(q: Seq<(Seq<u8>, Option<u64>)>, rem: int)
    requires
        q.len() > 0,
        rem < q[0].0.len() + 1,
    ensures
        written_count(q, rem) == 0,
        written_bytes(q, rem) == Seq::<u8>::empty(),
        head_dropped(q, rem, true),
        q.skip(1) == q.drop_first(),
{
    assert(q.skip(1) =~= q.drop_first());
}

} // verus!
