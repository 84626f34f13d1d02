use crate::backend::quiche::error::{QuicheError, QuicheErrorKind};
use crate::backend::token::write_stateless_reset_packet;
use crate::backend::token::reset;
use crate::backend::util::bipbuf;
use crate::backend::util::{BipBuffer, BipModel, BipSlice, BipSliceMut, Commit};
use crate::net::{Ecn, IpAddr, SendModel, SendMsg, SocketAddr};
use crate::time::Instant;
use vstd::prelude::*;

verus! {

/// A packet that `quiche` has written.
#[verifier::ext_equal]
pub struct Sent {
    pub data: Seq<u8>,
    pub source: SocketAddr,
    pub destination: SocketAddr,
}

/// Packets that go into one message: all of them have one path and one length.
#[verifier::ext_equal]
pub struct Batch {
    pub source: SocketAddr,
    pub destination: SocketAddr,
    pub segment_size: nat,
    pub segments: Seq<Seq<u8>>,
}

impl Batch {
    /// A batch of one packet.
    pub open spec fn of(packet: Sent) -> Batch {
        Batch {
            source: packet.source,
            destination: packet.destination,
            segment_size: packet.data.len(),
            segments: seq![packet.data],
        }
    }

    /// The packet goes on the same path as the batch, and has the same length.
    pub open spec fn accepts(self, packet: Sent) -> bool {
        &&& self.source == packet.source
        &&& self.destination == packet.destination
        &&& self.segment_size == packet.data.len()
    }

    /// The batch with one more packet.
    pub open spec fn with(self, packet: Sent) -> Batch {
        Batch { segments: self.segments.push(packet.data), ..self }
    }

    /// The bytes of the batch.
    pub open spec fn data(self) -> Seq<u8> {
        joined(self.segments)
    }
}

/// The segments, one behind the other.
pub open spec fn joined(segments: Seq<Seq<u8>>) -> Seq<u8>
    decreases segments.len(),
{
    if segments.len() == 0 {
        Seq::empty()
    } else {
        joined(segments.drop_last()) + segments.last()
    }
}

/// The batches of packets, in order: a packet joins the last batch, if it accepts it.
pub open spec fn batches(sent: Seq<Sent>) -> Seq<Batch>
    decreases sent.len(),
{
    if sent.len() == 0 {
        Seq::empty()
    } else {
        let before = batches(sent.drop_last());
        let packet = sent.last();
        if before.len() > 0 && before.last().accepts(packet) {
            before.update(before.len() - 1, before.last().with(packet))
        } else {
            before.push(Batch::of(packet))
        }
    }
}

/// The message is the batch, and the buffer holds its bytes.
pub open spec fn is_message_of(
    message: SendMsg<BipSlice>,
    batch: Batch,
    buffer: BipModel,
) -> bool {
    &&& message.model() == (SendModel {
        from: batch.source.spec_ip(),
        to: batch.destination,
        ecn: Ecn::NEct,
        segment_count: batch.segments.len(),
    })
    &&& buffer.chunks.contains(message.buffer()@)
    &&& buffer.content(message.buffer()@) == batch.data()
}

/// What became of an attempt to write pending packets.
#[derive(Debug, Clone, Copy, PartialEq, Eq, Structural)]
pub enum Write {
    /// Everything is done, on each path.
    Complete,
    /// There is a pending packet,
    /// but it is deferred until `Instant`.
    Pacer(Instant),
    /// There is a pending packet,
    /// but it is required to flush existing ones into network.
    Quantum,
    /// Insufficient amount of memory available in the buffer,
    /// unable to write.
    BufferTooShort,
}

/// What became of an attempt to write a single packet.
#[derive(Debug, Clone, Copy, PartialEq, Eq, Structural)]
pub enum ForceWrite {
    /// Everything is done.
    Complete,
    /// Insufficient amount of memory available in the buffer,
    /// unable to write.
    BufferTooShort,
}

/// A path that packets are written for.
#[derive(Debug, Clone, Copy)]
pub struct Path {
    /// Source address.
    pub source: SocketAddr,
    /// Destination address.
    pub destination: SocketAddr,
    /// How many bytes may be written before they are flushed.
    pub quantum: usize,
    /// How many bytes were written.
    pub quantum_consumed: usize,
}

/// Memory of outgoing packets.
pub struct IO {
    buffer: BipBuffer,
}

/// Pending packets of a connection that are being written.
pub struct PendingWrite {
    reserve: BipSliceMut,
    reserve_offset: usize,
    segment_count: usize,
    segment_size: usize,
    path: Option<Path>,
    /// The packets that were written.
    sent: Ghost<Seq<Sent>>,
}

impl View for IO {
    type V = BipModel;

    closed spec fn view(&self) -> BipModel {
        self.buffer@
    }
}

impl IO {
    /// The buffer is well-formed.
    pub closed spec fn wf(&self) -> bool {
        self.buffer.wf()
    }

    /// Creates a buffer of the size.
    pub fn new(buffer_size: usize) -> (r: Self)
        ensures
            r.wf(),
            r@.bytes.len() == buffer_size,
            r@.chunks == Seq::<Commit>::empty(),
            !r@.reserved,
    {
        Self { buffer: BipBuffer::new(buffer_size) }
    }

    /// Returns the bytes of a message.
    pub fn message_data(&self, message: &SendMsg<BipSlice>) -> (r: &[u8])
        requires
            self.wf(),
            self@.chunks.contains(message.buffer()@),
        ensures
            r@ == self@.content(message.buffer()@),
    {
        message.buf_ref().as_read_slice(&self.buffer)
    }

    /// Gives back the memory of a message that was sent. Packets that are being written stay.
    pub fn release(&mut self, message: SendMsg<BipSlice>)
        requires
            old(self).wf(),
            old(self)@.holds(message.buffer()@),
        ensures
            final(self).wf(),
            final(self)@ == old(self)@.release(message.buffer()@.id),
            forall|write: PendingWrite|
                write.wf(*old(self)) ==> #[trigger] write.wf(*final(self)),
    {
        message.into_buf().decommit(&mut self.buffer);
    }

    /// Begins to write pending connection packets.
    ///
    /// Returns `None` if there is no memory available.
    pub fn begin_write(&mut self) -> (r: Option<PendingWrite>)
        requires
            old(self).wf(),
            !old(self)@.reserved,
        ensures
            final(self).wf(),
            r is None <==> old(self)@.available() == 0,
            r is None ==> final(self)@ == old(self)@,
            r matches Some(write) ==> {
                &&& final(self)@ == (BipModel { reserved: true, ..old(self)@ })
                &&& write.wf(*final(self))
                &&& write.sent() == Seq::<Sent>::empty()
                &&& write.spec_path() is None
                &&& write.spec_room() == old(self)@.available()
            },
    {
        match self.buffer.reserve(usize::MAX, false) {
            Some(reserve) => {
                let r = PendingWrite {
                    reserve,
                    reserve_offset: 0,
                    segment_count: 0,
                    segment_size: 0,
                    path: None,
                    sent: Ghost(Seq::empty()),
                };
                proof {
                    self.buffer.lemma_view_wf();
                    bipbuf::law_reservation_is_memory(self.buffer@, r.reserve@);
                }
                Some(r)
            },
            None => None,
        }
    }
}

/// What was committed before is still there, and reads the same.
pub open spec fn keeps_committed(before: BipModel, after: BipModel) -> bool {
    forall|c: Commit| #[trigger]
        before.chunks.contains(c) ==> after.chunks.contains(c) && after.content(c)
            == before.content(c)
}

/// The last packets that were written are in a message that is to be sent.
pub open spec fn is_flushed(
    sent: Seq<Sent>,
    before: BipModel,
    messages: Seq<SendMsg<BipSlice>>,
    after: BipModel,
    flushed: Seq<SendMsg<BipSlice>>,
) -> bool {
    let all = batches(sent);
    &&& !after.reserved
    &&& if all.len() > 0 {
        &&& flushed.len() == messages.len() + 1
        &&& flushed.drop_last() == messages
        &&& is_message_of(flushed.last(), all.last(), after)
        &&& after.chunks == before.chunks.push(flushed.last().buffer()@)
    } else {
        &&& flushed == messages
        &&& after.chunks == before.chunks
    }
    &&& keeps_committed(before, after)
    &&& after.released == before.released
}

/// What is to be done after `quiche` was asked for a packet.
#[derive(Debug)]
pub enum AfterSend {
    /// A packet of this length was written, and another one can be asked for.
    Packet(usize),
    /// No more packets can be written.
    Stop(Result<Write, QuicheError>),
}

/// Returns what is to be done after `quiche` was asked for a packet.
///
/// Writing is complete if there is no packet, and stops if there is no room for one.
///
/// * `sent`: the length of the packet.
pub fn after_send(sent: Result<usize, QuicheError>) -> (r: AfterSend)
    ensures
        r == match sent {
            Ok(length) => if length > 0 {
                AfterSend::Packet(length)
            } else {
                AfterSend::Stop(Ok(Write::Complete))
            },
            Err(error) => match error.kind {
                QuicheErrorKind::Done => AfterSend::Stop(Ok(Write::Complete)),
                QuicheErrorKind::BufferTooShort => AfterSend::Stop(Ok(Write::BufferTooShort)),
                _ => AfterSend::Stop(Err(error)),
            },
        },
{
    match sent {
        Ok(length) => if length > 0 {
            AfterSend::Packet(length)
        } else {
            AfterSend::Stop(Ok(Write::Complete))
        },
        Err(error) => match error.kind {
            QuicheErrorKind::Done => AfterSend::Stop(Ok(Write::Complete)),
            QuicheErrorKind::BufferTooShort => AfterSend::Stop(Ok(Write::BufferTooShort)),
            _ => AfterSend::Stop(Err(error)),
        },
    }
}

impl PendingWrite {
    /// The packets that were written.
    pub closed spec fn sent(&self) -> Seq<Sent> {
        self.sent@
    }

    /// The path of the last packet, `None` before the first one.
    pub closed spec fn spec_path(&self) -> Option<Path> {
        self.path
    }

    /// How many bytes can still be written.
    pub closed spec fn spec_room(&self) -> int {
        self.reserve@.end - self.reserve@.start - self.reserve_offset
    }

    /// The reserved memory begins with the bytes of the last batch,
    /// which is not committed yet.
    pub closed spec fn wf(&self, io: IO) -> bool {
        let b = batches(self.sent@);
        let start = self.reserve@.start as int;
        &&& io.wf()
        &&& io@.reserved
        &&& io@.fits(self.reserve@)
        &&& self.reserve_offset <= self.reserve@.end - start
        &&& self.reserve@.end <= io@.bytes.len()
        &&& if self.segment_count == 0 {
            self.sent@.len() == 0 && self.reserve_offset == 0 && self.path is None
        } else {
            &&& b.len() > 0
            &&& self.path matches Some(path) && path.source == b.last().source && path.destination
                == b.last().destination && path.quantum_consumed <= start + self.reserve_offset
            &&& self.segment_size == b.last().segment_size
            &&& self.segment_size > 0
            &&& self.segment_count == b.last().segments.len()
            &&& self.reserve_offset == self.segment_count * self.segment_size
            &&& io@.bytes.subrange(start, start + self.reserve_offset) == b.last().data()
        }
    }

    /// Returns how many bytes can still be written.
    pub fn room(&self, io: &IO) -> (r: usize)
        requires
            self.wf(*io),
        ensures
            r == self.spec_room(),
    {
        self.reserve.capacity() - self.reserve_offset
    }

    /// Returns whether to stop writing:
    /// because the quantum of the path is consumed, or because a next packet is deferred.
    ///
    /// * `release_time`: when a next packet can be sent, `None` if it can be done immediately.
    pub fn poll(&self, release_time: Option<Instant>) -> (r: Option<Write>)
        ensures
            r == match self.spec_path() {
                Some(path) if path.quantum_consumed >= path.quantum => Some(Write::Quantum),
                _ => match release_time {
                    Some(time) => Some(Write::Pacer(time)),
                    None => None,
                },
            },
    {
        if let Some(path) = self.path {
            if path.quantum_consumed >= path.quantum {
                return Some(Write::Quantum);
            }
        }
        match release_time {
            Some(time) => Some(Write::Pacer(time)),
            None => None,
        }
    }

    /// The path after a packet was written.
    pub open spec fn next_path(path: Option<Path>, packet: Sent, quantum: usize) -> Path {
        match path {
            Some(path) if path.source == packet.source && path.destination == packet.destination => {
                Path {
                    quantum_consumed: (path.quantum_consumed + packet.data.len()) as usize,
                    ..path
                }
            },
            _ => Path {
                source: packet.source,
                destination: packet.destination,
                quantum,
                quantum_consumed: packet.data.len() as usize,
            },
        }
    }

    /// Takes a packet that `quiche` has written.
    ///
    /// It is batched with the packets before it into a single GSO message, if possible.
    /// Otherwise, those are put into `&mut out`.
    ///
    /// * `quantum`: how many bytes may be written on the path before they are flushed.
    pub fn on_packet(
        &mut self,
        io: &mut IO,
        data: &[u8],
        source: SocketAddr,
        destination: SocketAddr,
        quantum: usize,
        out: &mut Vec<SendMsg<BipSlice>>,
    )
        requires
            old(self).wf(*old(io)),
            0 < data@.len() <= old(self).spec_room(),
        ensures
            final(self).wf(*final(io)),
            ({
                let packet = Sent { data: data@, source, destination };
                let before = batches(old(self).sent());
                &&& final(self).sent() == old(self).sent().push(packet)
                &&& final(self).spec_path() == Some(
                    Self::next_path(old(self).spec_path(), packet, quantum),
                )
                &&& final(self).spec_room() == old(self).spec_room() - data@.len()
                &&& if before.len() > 0 && !before.last().accepts(packet) {
                    &&& final(out)@.len() == old(out)@.len() + 1
                    &&& final(out)@.drop_last() == old(out)@
                    &&& is_message_of(final(out)@.last(), before.last(), final(io)@)
                    &&& final(io)@.chunks == old(io)@.chunks.push(final(out)@.last().buffer()@)
                } else {
                    &&& final(out)@ == old(out)@
                    &&& final(io)@.chunks == old(io)@.chunks
                }
            }),
            keeps_committed(old(io)@, final(io)@),
            final(io)@.released == old(io)@.released,
    {
        let ghost packet = Sent { data: data@, source, destination };
        let ghost sent0 = self.sent@;
        let ghost before = batches(sent0);
        let ghost m0 = io@;
        let ghost start0 = self.reserve@.start as int;
        let ghost offset0 = self.reserve_offset as int;
        let length: usize = data.len();
        let write_at: usize = self.reserve_offset;
        let consumed: usize = match self.path {
            Some(path) => path.quantum_consumed + length,
            None => length,
        };
        io.buffer.write(&self.reserve, write_at, data);
        let ghost m1 = io@;
        proof {
            old(io).buffer.lemma_view_wf();
            assert forall|c: Commit| m0.chunks.contains(c) implies m1.content(c) == m0.content(c) by {
                bipbuf::law_committed_bytes_survive_a_write(
                    m0,
                    self.reserve@,
                    offset0,
                    data@,
                    c,
                );
            }
            assert(sent0.push(packet).drop_last() =~= sent0);
            assert(m1.bytes.subrange(start0 + offset0, start0 + offset0 + length) =~= data@);
            assert(m1.bytes.subrange(start0, start0 + offset0) =~= m0.bytes.subrange(
                start0,
                start0 + offset0,
            ));
        }
        match self.path {
            Some(path) => {
                let same_path: bool = path.source == source && path.destination == destination;
                if same_path && self.segment_size == length {
                    // Batch it into a single GSO message.
                    self.path = Some(Path { quantum_consumed: consumed, ..path });
                    self.reserve_offset = self.reserve_offset + length;
                    proof {
                        let batch = before.last();
                        let next = batch.with(packet);
                        assert(next.segments.drop_last() =~= batch.segments);
                        assert(m1.bytes.subrange(start0, start0 + offset0 + length) =~= next.data());
                        let (n, z) = (self.segment_count as int, length as int);
                        assert((n + 1) * z == n * z + z) by (nonlinear_arith);
                        assert(n + 1 <= (n + 1) * z) by (nonlinear_arith)
                            requires
                                n >= 0,
                                z >= 1,
                        ;
                    }
                    self.segment_count = self.segment_count + 1;
                } else {
                    // Either path has changed, or generated packet is no more GSO-sized.
                    proof {
                        let (n, z) = (self.segment_count as int, self.segment_size as int);
                        assert(0 < n * z) by (nonlinear_arith)
                            requires
                                n > 0,
                                z > 0,
                        ;
                    }
                    let view = self.reserve.commit_front(&mut io.buffer, self.reserve_offset);
                    let ghost commit = view@;
                    let message = SendMsg::from_parts(
                        view,
                        path.source.ip(),
                        path.destination,
                        Ecn::NEct,
                        // Quiche doesn't support ECN yet.
                        self.segment_count,
                    );
                    out.push(message);
                    // Make the last packet an active one.
                    self.path = if same_path {
                        Some(Path { quantum_consumed: consumed, ..path })
                    } else {
                        Some(Path { source, destination, quantum, quantum_consumed: length })
                    };
                    self.reserve_offset = length;
                    self.segment_count = 1;
                    self.segment_size = length;
                    proof {
                        let m2 = io@;
                        assert(m2.bytes == m1.bytes);
                        assert(m2.chunks.last() == commit);
                        assert(m2.chunks.contains(commit));
                        assert(m2.content(commit) == before.last().data());
                        assert forall|c: Commit| m0.chunks.contains(c) implies m2.chunks.contains(
                            c,
                        ) && m2.content(c) == m0.content(c) by {
                            let k = choose|k: int| 0 <= k < m0.chunks.len() && m0.chunks[k] == c;
                            assert(m2.chunks[k] == c);
                        }
                        assert(out@.drop_last() =~= old(out)@);
                        lemma_single(packet);
                        assert(length as int == 1 * length as int);
                    }
                }
            },
            None => {
                self.path = Some(Path { source, destination, quantum, quantum_consumed: length });
                self.reserve_offset = length;
                self.segment_size = length;
                self.segment_count = 1;
                proof {
                    lemma_single(packet);
                    assert(length as int == 1 * length as int);
                }
            },
        }
        proof {
            self.sent@ = sent0.push(packet);
            assert forall|c: Commit| #[trigger] m0.chunks.contains(c) implies io@.chunks.contains(c)
                && io@.content(c) == m0.content(c) by {
                let k = choose|k: int| 0 <= k < m0.chunks.len() && m0.chunks[k] == c;
                assert(io@.chunks[k] == c);
                assert(m1.content(c) == m0.content(c));
                assert(io@.bytes == m1.bytes);
            }
        }
    }

    /// Puts the last packets into `&mut out`.
    pub fn finish(self, io: &mut IO, out: &mut Vec<SendMsg<BipSlice>>)
        requires
            self.wf(*old(io)),
        ensures
            final(io).wf(),
            is_flushed(self.sent(), old(io)@, old(out)@, final(io)@, final(out)@),
    {
        let ghost m0 = io@;
        proof {
            let (n, z) = (self.segment_count as int, self.segment_size as int);
            if n > 0 {
                assert(0 < n * z) by (nonlinear_arith)
                    requires
                        n > 0,
                        z > 0,
                ;
            }
        }
        match (self.path, self.reserve.commit(&mut io.buffer, self.reserve_offset)) {
            (Some(path), Some(view)) => {
                let ghost commit = view@;
                out.push(
                    SendMsg::from_parts(
                        view,
                        path.source.ip(),
                        path.destination,
                        Ecn::NEct,
                        self.segment_count,
                    ),
                );
                proof {
                    let m2 = io@;
                    assert(m2.chunks.last() == commit);
                    assert(m2.chunks.contains(commit));
                    assert forall|c: Commit| m0.chunks.contains(c) implies m2.chunks.contains(c) by {
                        let k = choose|k: int| 0 <= k < m0.chunks.len() && m0.chunks[k] == c;
                        assert(m2.chunks[k] == c);
                    }
                    assert(out@.drop_last() =~= old(out)@);
                }
            },
            _ => {},
        }
    }

    /// Ends writing. Puts the last packets into `&mut out`,
    /// but drops them if `quiche` has returned an unexpected error.
    pub fn end(
        self,
        io: &mut IO,
        result: Result<Write, QuicheError>,
        out: &mut Vec<SendMsg<BipSlice>>,
    ) -> (r: Result<Write, QuicheError>)
        requires
            self.wf(*old(io)),
        ensures
            final(io).wf(),
            r == result,
            match result {
                Ok(_) => is_flushed(self.sent(), old(io)@, old(out)@, final(io)@, final(out)@),
                Err(_) => final(io)@ == (BipModel { reserved: false, ..old(io)@ }) && final(out)@
                    == old(out)@,
            },
    {
        if result.is_ok() {
            self.finish(io, out);
        } else {
            self.abort(io);
        }
        result
    }

    /// Drops the last packets, which are not in `&mut out` yet.
    pub fn abort(self, io: &mut IO)
        requires
            self.wf(*old(io)),
        ensures
            final(io).wf(),
            final(io)@ == (BipModel { reserved: false, ..old(io)@ }),
    {
        self.reserve.cancel(&mut io.buffer);
    }
}

/// A `Stateless Reset` packet is a response to a packet, if one is allowed and there is memory
/// for it; otherwise there is no response.
pub open spec fn is_reset_written(
    packet_len: usize,
    packet_to: IpAddr,
    packet_from: SocketAddr,
    reset_token: Seq<u8>,
    before: BipModel,
    after: BipModel,
    out: Seq<SendMsg<BipSlice>>,
    new_out: Seq<SendMsg<BipSlice>>,
) -> bool {
    let max = reset::max_reset_length(packet_len as nat, RESET_RESERVE as nat);
    if before.available() < RESET_RESERVE || max < reset::MIN_RESET_PACKET_LEN {
        &&& new_out == out
        &&& after.chunks == before.chunks
    } else {
        &&& new_out.len() == out.len() + 1
        &&& new_out.drop_last() == out
        &&& exists|data: Seq<u8>|
            #![trigger reset::is_reset_packet(data, reset_token)]
            {
                &&& reset::is_reset_packet(data, reset_token)
                &&& reset::reset_length_allowed(
                    data.len(),
                    packet_len as nat,
                    RESET_RESERVE as nat,
                )
                &&& is_response(new_out.last(), data, packet_to, packet_from, after)
            }
        &&& after.chunks == before.chunks.push(new_out.last().buffer()@)
    }
}

/// How many bytes are reserved for a `Version Negotiation` or `Retry` packet, at most.
pub const RESPONSE_RESERVE: usize = 1500;

/// How many bytes are reserved for a `Stateless Reset` packet.
pub const RESET_RESERVE: usize = 40;

/// Memory that is reserved for a single response packet.
pub struct PendingResponse {
    reserve: BipSliceMut,
}

impl PendingResponse {
    /// How many bytes the response may have.
    pub closed spec fn spec_room(&self) -> int {
        self.reserve@.end - self.reserve@.start
    }

    /// The reserved memory lies where the next packet is committed.
    pub closed spec fn wf(&self, io: IO) -> bool {
        io.wf() && io@.reserved && io@.fits(self.reserve@)
    }

    /// Returns how many bytes the response may have.
    pub fn room(&self, io: &IO) -> (r: usize)
        requires
            self.wf(*io),
        ensures
            r == self.spec_room(),
    {
        self.reserve.capacity()
    }
}

/// The message is a response with the data to the peer that a packet came from.
pub open spec fn is_response(
    message: SendMsg<BipSlice>,
    data: Seq<u8>,
    packet_to: IpAddr,
    packet_from: SocketAddr,
    buffer: BipModel,
) -> bool {
    &&& message.model() == (SendModel {
        from: packet_to,
        to: packet_from,
        ecn: Ecn::NEct,
        segment_count: 0,
    })
    &&& buffer.chunks.contains(message.buffer()@)
    &&& buffer.content(message.buffer()@) == data
}

impl IO {
    /// Reserves memory for a single response packet.
    ///
    /// Returns `None` if there is no memory available.
    pub fn begin_response(&mut self) -> (r: Option<PendingResponse>)
        requires
            old(self).wf(),
            !old(self)@.reserved,
        ensures
            final(self).wf(),
            r is None <==> old(self)@.available() == 0,
            r is None ==> final(self)@ == old(self)@,
            r matches Some(response) ==> {
                &&& final(self)@ == (BipModel { reserved: true, ..old(self)@ })
                &&& response.wf(*final(self))
                &&& response.spec_room() == if old(self)@.available() < RESPONSE_RESERVE {
                    old(self)@.available()
                } else {
                    RESPONSE_RESERVE as int
                }
            },
    {
        match self.buffer.reserve(RESPONSE_RESERVE, false) {
            Some(reserve) => Some(PendingResponse { reserve }),
            None => None,
        }
    }

    /// Commits the first bytes of the reserved memory, into which `data` is written,
    /// as a response to a packet.
    fn commit_response(
        &mut self,
        reserve: BipSliceMut,
        data: &[u8],
        packet_to: IpAddr,
        packet_from: SocketAddr,
        out: &mut Vec<SendMsg<BipSlice>>,
    )
        requires
            old(self).wf(),
            old(self)@.reserved,
            old(self)@.fits(reserve@),
            0 < data@.len() <= reserve@.end - reserve@.start,
        ensures
            final(self).wf(),
            !final(self)@.reserved,
            final(out)@.len() == old(out)@.len() + 1,
            final(out)@.drop_last() == old(out)@,
            is_response(final(out)@.last(), data@, packet_to, packet_from, final(self)@),
            final(self)@.chunks == old(self)@.chunks.push(final(out)@.last().buffer()@),
            keeps_committed(old(self)@, final(self)@),
            final(self)@.released == old(self)@.released,
    {
        let ghost m0 = self@;
        let ghost area = reserve@;
        self.buffer.write(&reserve, 0, data);
        let ghost m1 = self@;
        if let Some(view) = reserve.commit(&mut self.buffer, data.len()) {
            let ghost commit = view@;
            out.push(SendMsg::from_parts(view, packet_to, packet_from, Ecn::NEct, 0));
            proof {
                old(self).buffer.lemma_view_wf();
                bipbuf::law_commit_reads_what_was_written(m0, area, data@, commit);
                let m2 = self@;
                assert(m2.chunks.last() == commit);
                assert(m2.chunks.contains(commit));
                assert(m2.content(commit) == m1.content(commit));
                assert forall|c: Commit| #[trigger] m0.chunks.contains(c) implies m2.chunks.contains(
                    c,
                ) && m2.content(c) == m0.content(c) by {
                    let k = choose|k: int| 0 <= k < m0.chunks.len() && m0.chunks[k] == c;
                    assert(m2.chunks[k] == c);
                    bipbuf::law_committed_bytes_survive_a_write(m0, area, 0, data@, c);
                }
                assert(out@.drop_last() =~= old(out)@);
            }
        }
    }

    /// Writes a response packet, that is a `Version Negotiation` or a `Retry` one,
    /// into `&mut out`.
    ///
    /// * `result`: the packet that `quiche` has written.
    pub fn to_force_write_result(
        &mut self,
        response: PendingResponse,
        result: Result<Vec<u8>, QuicheError>,
        packet_to: IpAddr,
        packet_from: SocketAddr,
        out: &mut Vec<SendMsg<BipSlice>>,
    ) -> (r: Result<ForceWrite, QuicheError>)
        requires
            response.wf(*old(self)),
            result matches Ok(data) ==> 0 < data@.len() <= response.spec_room(),
        ensures
            final(self).wf(),
            !final(self)@.reserved,
            match result {
                Ok(data) => {
                    &&& r matches Ok(write) && write == ForceWrite::Complete
                    &&& final(out)@.len() == old(out)@.len() + 1
                    &&& final(out)@.drop_last() == old(out)@
                    &&& is_response(final(out)@.last(), data@, packet_to, packet_from, final(self)@)
                    &&& final(self)@.chunks == old(self)@.chunks.push(
                        final(out)@.last().buffer()@,
                    )
                },
                Err(error) => {
                    &&& final(out)@ == old(out)@
                    &&& final(self)@ == (BipModel { reserved: false, ..old(self)@ })
                    &&& if error.kind == QuicheErrorKind::BufferTooShort {
                        r matches Ok(write) && write == ForceWrite::BufferTooShort
                    } else {
                        r matches Err(e) && e == error
                    }
                },
            },
            keeps_committed(old(self)@, final(self)@),
    {
        match result {
            Ok(data) => {
                self.commit_response(response.reserve, data.as_slice(), packet_to, packet_from, out);
                Ok(ForceWrite::Complete)
            },
            Err(error) => {
                response.reserve.cancel(&mut self.buffer);
                if error.kind == QuicheErrorKind::BufferTooShort {
                    Ok(ForceWrite::BufferTooShort)
                } else {
                    Err(error)
                }
            },
        }
    }

    /// Writes a Stateless Reset packet into `&mut out`,
    /// if `packet` length is sufficient for it, and if the buffer has enough space for it.
    pub fn write_stateless_reset(
        &mut self,
        packet_len: usize,
        packet_to: IpAddr,
        packet_from: SocketAddr,
        reset_token: &[u8; 16],
        out: &mut Vec<SendMsg<BipSlice>>,
    )
        requires
            old(self).wf(),
            !old(self)@.reserved,
        ensures
            final(self).wf(),
            !final(self)@.reserved,
            is_reset_written(
                packet_len,
                packet_to,
                packet_from,
                reset_token@,
                old(self)@,
                final(self)@,
                old(out)@,
                final(out)@,
            ),
            keeps_committed(old(self)@, final(self)@),
    {
        let Some(reserve) = self.buffer.reserve(RESET_RESERVE, true) else {
            return;
        };
        let mut packet: Vec<u8> = Vec::new();
        packet.resize(RESET_RESERVE, 0);
        let length = write_stateless_reset_packet(
            packet_len,
            RESET_RESERVE,
            reset_token,
            packet.as_mut_slice(),
        );
        match length {
            Some(length) => {
                packet.truncate(length);
                self.commit_response(reserve, packet.as_slice(), packet_to, packet_from, out);
                assert(reset::is_reset_packet(packet@, reset_token@));
            },
            None => {
                reserve.cancel(&mut self.buffer);
            },
        }
    }
}

proof fn lemma_joined_push(segments: Seq<Seq<u8>>, segment: Seq<u8>)
    ensures
        joined(segments.push(segment)) == joined(segments) + segment,
{
    assert(segments.push(segment).drop_last() =~= segments);
}

proof fn lemma_single(packet: Sent)
    ensures
        Batch::of(packet).data() == packet.data,
{
    assert(joined(Batch::of(packet).segments.drop_last()) =~= Seq::<u8>::empty());
    assert(Batch::of(packet).data() =~= packet.data);
}

/// The data of batches, one behind the other.
pub open spec fn all_data(batches: Seq<Batch>) -> Seq<u8>
    decreases batches.len(),
{
    if batches.len() == 0 {
        Seq::empty()
    } else {
        all_data(batches.drop_last()) + batches.last().data()
    }
}

/// The data of packets, one behind the other.
pub open spec fn sent_data(sent: Seq<Sent>) -> Seq<u8>
    decreases sent.len(),
{
    if sent.len() == 0 {
        Seq::empty()
    } else {
        sent_data(sent.drop_last()) + sent.last().data
    }
}

/// No byte of a packet is lost, doubled or reordered by batching.
pub proof fn law_batches_hold_all_packets(sent: Seq<Sent>)
    ensures
        all_data(batches(sent)) == sent_data(sent),
    decreases sent.len(),
{
    if sent.len() > 0 {
        let before = batches(sent.drop_last());
        let packet = sent.last();
        law_batches_hold_all_packets(sent.drop_last());
        let after = batches(sent);
        if before.len() > 0 && before.last().accepts(packet) {
            lemma_joined_push(before.last().segments, packet.data);
            assert(after.drop_last() =~= before.drop_last());
            assert(all_data(after) =~= all_data(before) + packet.data);
        } else {
            assert(after.drop_last() =~= before);
            lemma_single(packet);
        }
    }
}

/// A batch is a message that can be segmented: it is not empty, and each of its segments
/// has the same length.
pub open spec fn is_segmented(batch: Batch) -> bool {
    &&& batch.segments.len() > 0
    &&& batch.segment_size > 0
    &&& forall|i: int|
        0 <= i < batch.segments.len() ==> (#[trigger] batch.segments[i]).len() == batch.segment_size
    &&& batch.data().len() == batch.segments.len() * batch.segment_size
}

/// All segments of a message have the same length, and the same source and destination:
/// the message is never one that cannot be sent.
pub proof fn law_batches_are_segmented(sent: Seq<Sent>)
    requires
        forall|i: int| 0 <= i < sent.len() ==> (#[trigger] sent[i]).data.len() > 0,
    ensures
        forall|i: int|
            0 <= i < batches(sent).len() ==> is_segmented(#[trigger] batches(sent)[i]),
    decreases sent.len(),
{
    if sent.len() > 0 {
        let before = batches(sent.drop_last());
        let packet = sent.last();
        law_batches_are_segmented(sent.drop_last());
        assert(sent[sent.len() - 1].data.len() > 0);
        let after = batches(sent);
        assert forall|i: int| 0 <= i < after.len() implies is_segmented(#[trigger] after[i]) by {
            if i < before.len() - 1 {
                assert(after[i] == before[i]);
            } else if before.len() > 0 && before.last().accepts(packet) {
                let b = before.last();
                assert(is_segmented(before[before.len() - 1]));
                lemma_joined_push(b.segments, packet.data);
                let (n, z) = (b.segments.len(), b.segment_size);
                assert((n + 1) * z == n * z + z) by (nonlinear_arith);
            } else if i == before.len() - 1 {
                assert(after[i] == before[i]);
            } else {
                lemma_single(packet);
                let z = packet.data.len();
                assert(1 * z == z);
            }
        }
    }
}

/// Packets are not split over more messages than needed:
/// two batches that follow each other differ in their path or in their length.
pub proof fn law_batches_are_maximal(sent: Seq<Sent>, i: int)
    requires
        0 <= i,
        i + 1 < batches(sent).len(),
    ensures
        ({
            let (a, b) = (batches(sent)[i], batches(sent)[i + 1]);
            a.source != b.source || a.destination != b.destination || a.segment_size
                != b.segment_size
        }),
    decreases sent.len(),
{
    if sent.len() > 0 {
        let before = batches(sent.drop_last());
        if i + 1 < before.len() {
            law_batches_are_maximal(sent.drop_last(), i);
        }
    }
}

/// A packet that was written goes on its own path, at the end of the last message, whole.
/// The messages before are as they were.
pub proof fn law_packet_goes_on_its_path(sent: Seq<Sent>, packet: Sent)
    ensures
        ({
            let (before, after) = (batches(sent), batches(sent.push(packet)));
            &&& after.len() > 0
            &&& after.last().source == packet.source
            &&& after.last().destination == packet.destination
            &&& after.last().segments.len() > 0
            &&& after.last().segments.last() == packet.data
            &&& after.last().segment_size == packet.data.len()
            &&& after.len() == before.len() || after.len() == before.len() + 1
            &&& after.len() == before.len() + 1 ==> after.drop_last() == before
                && after.last().segments.len() == 1
            &&& after.len() == before.len() ==> after.drop_last() == before.drop_last()
                && after.last().segments.drop_last() == before.last().segments
        }),
{
    assert(sent.push(packet).drop_last() =~= sent);
    let (before, after) = (batches(sent), batches(sent.push(packet)));
    if before.len() > 0 && before.last().accepts(packet) {
        assert(after.drop_last() =~= before.drop_last());
        assert(after.last().segments.drop_last() =~= before.last().segments);
    } else {
        assert(after.drop_last() =~= before);
    }
}

/// A message goes from the source to the destination of its packets, has as many segments
/// as there are packets, and holds the packets one behind the other.
pub proof fn law_message_carries_its_packets(
    message: SendMsg<BipSlice>,
    batch: Batch,
    buffer: BipModel,
)
    requires
        is_message_of(message, batch, buffer),
        is_segmented(batch),
    ensures
        message.model().to == batch.destination,
        message.model().from == batch.source.spec_ip(),
        message.model().segment_count == batch.segments.len(),
        message.model().ecn == Ecn::NEct,
        buffer.content(message.buffer()@).len() == batch.segment_size * batch.segments.len(),
        forall|i: int|
            0 <= i < batch.segments.len() ==> buffer.content(message.buffer()@).subrange(
                i * batch.segment_size,
                i * batch.segment_size + batch.segment_size,
            ) == #[trigger] batch.segments[i],
{
    let z = batch.segment_size as int;
    let n = batch.segments.len() as int;
    assert(n * z == z * n) by (nonlinear_arith);
    assert forall|i: int| 0 <= i < n implies buffer.content(message.buffer()@).subrange(
        i * z,
        i * z + z,
    ) == #[trigger] batch.segments[i] by {
        lemma_segment_of(batch.segments, batch.segment_size, i);
    }
}

proof fn lemma_segment_of(segments: Seq<Seq<u8>>, size: nat, i: int)
    requires
        forall|k: int| 0 <= k < segments.len() ==> (#[trigger] segments[k]).len() == size,
        0 <= i < segments.len(),
    ensures
        joined(segments).len() == segments.len() * size,
        0 <= i * size,
        i * size + size <= joined(segments).len(),
        joined(segments).subrange(i * size, i * size + size) == segments[i],
    decreases segments.len(),
{
    let init = segments.drop_last();
    let z = size as int;
    let n = init.len() as int;
    assert((n + 1) * z == n * z + z) by (nonlinear_arith);
    assert(0 <= i * z) by (nonlinear_arith)
        requires
            i >= 0,
            z >= 0,
    ;
    assert(segments[segments.len() - 1].len() == size);
    if n > 0 {
        assert forall|k: int| 0 <= k < init.len() implies (#[trigger] init[k]).len() == size by {
            assert(segments[k].len() == size);
        }
        lemma_segment_of(init, size, if i < n {
            i
        } else {
            0
        });
    } else {
        assert(joined(init) =~= Seq::<u8>::empty());
        assert(n * z == 0) by (nonlinear_arith)
            requires
                n == 0,
        ;
    }
    if i < n {
        assert(init[i] == segments[i]);
        assert(joined(segments).subrange(i * z, i * z + z) =~= joined(init).subrange(
            i * z,
            i * z + z,
        ));
    } else {
        assert(joined(segments).subrange(i * z, i * z + z) =~= segments.last());
    }
}

/// What is written on a path adds up until the path changes. The quantum of a path is the one
/// that was given with its first packet.
pub proof fn law_quantum_of_a_path_is_consumed(path: Option<Path>, packet: Sent, quantum: usize)
    requires
        packet.data.len() <= usize::MAX,
        path matches Some(path) ==> path.quantum_consumed + packet.data.len() <= usize::MAX,
    ensures
        ({
            let after = PendingWrite::next_path(path, packet, quantum);
            let goes_on = path is Some && path->0.source == packet.source && path->0.destination
                == packet.destination;
            &&& after.source == packet.source
            &&& after.destination == packet.destination
            &&& goes_on ==> after.quantum == path->0.quantum && after.quantum_consumed
                - path->0.quantum_consumed == packet.data.len()
            &&& !goes_on ==> after.quantum == quantum && after.quantum_consumed
                == packet.data.len()
        }),
{
}

/// The packets that were written last are sent when writing ends, and no packet before them again.
pub proof fn law_last_packets_are_flushed(
    sent: Seq<Sent>,
    before: BipModel,
    messages: Seq<SendMsg<BipSlice>>,
    after: BipModel,
    flushed: Seq<SendMsg<BipSlice>>,
)
    requires
        is_flushed(sent, before, messages, after, flushed),
        forall|i: int| 0 <= i < sent.len() ==> (#[trigger] sent[i]).data.len() > 0,
    ensures
        !after.reserved,
        sent.len() == 0 ==> flushed == messages && after.chunks == before.chunks,
        sent.len() > 0 ==> {
            let content = after.content(flushed.last().buffer()@);
            &&& flushed.len() == messages.len() + 1
            &&& flushed.drop_last() == messages
            &&& flushed.last().model().to == sent.last().destination
            &&& flushed.last().model().from == sent.last().source.spec_ip()
            &&& content.len() >= sent.last().data.len()
            &&& content.skip(content.len() - sent.last().data.len()) == sent.last().data
            &&& content.len() == flushed.last().model().segment_count * sent.last().data.len()
        },
{
    if sent.len() > 0 {
        let all = batches(sent);
        law_packet_goes_on_its_path(sent.drop_last(), sent.last());
        assert(sent.drop_last().push(sent.last()) =~= sent);
        law_batches_are_segmented(sent);
        assert(is_segmented(all[all.len() - 1]));
        let batch = all.last();
        let content = after.content(flushed.last().buffer()@);
        assert(content == joined(batch.segments.drop_last()) + batch.segments.last());
        assert(content.skip(content.len() - sent.last().data.len()) =~= sent.last().data);
    }
}

/// A response goes back to where the packet came from, from where the packet was sent to,
/// in a message of its own.
pub proof fn law_response_goes_back(
    message: SendMsg<BipSlice>,
    data: Seq<u8>,
    packet_to: IpAddr,
    packet_from: SocketAddr,
    buffer: BipModel,
)
    requires
        is_response(message, data, packet_to, packet_from, buffer),
    ensures
        message.model().to == packet_from,
        message.model().from == packet_to,
        message.model().segment_count <= 1,
        message.model().ecn == Ecn::NEct,
        buffer.content(message.buffer()@) == data,
        buffer.chunks.contains(message.buffer()@),
{
}

/// A `Stateless Reset` is smaller than the packet that it answers, so that two peers do not
/// answer each other for ever. It has between twenty-one and forty bytes, ends with its token,
/// and goes back to where the packet came from. It is sent whenever such a packet is possible
/// and there are forty bytes of memory.
pub proof fn law_reset_is_smaller_than_its_packet(
    packet_len: usize,
    packet_to: IpAddr,
    packet_from: SocketAddr,
    reset_token: Seq<u8>,
    before: BipModel,
    after: BipModel,
    out: Seq<SendMsg<BipSlice>>,
    new_out: Seq<SendMsg<BipSlice>>,
)
    requires
        is_reset_written(
            packet_len,
            packet_to,
            packet_from,
            reset_token,
            before,
            after,
            out,
            new_out,
        ),
        reset_token.len() == 16,
    ensures
        new_out.len() > out.len() <==> packet_len > 21 && before.available() >= 40,
        new_out.len() <= out.len() ==> new_out == out,
        new_out.len() > out.len() ==> {
            let data = after.content(new_out.last().buffer()@);
            &&& new_out.len() == out.len() + 1
            &&& new_out.drop_last() == out
            &&& 21 <= data.len() <= 40
            &&& data.len() < packet_len
            &&& data[0] / 64 == 1
            &&& data.skip(data.len() - 16) == reset_token
            &&& new_out.last().model().to == packet_from
            &&& new_out.last().model().from == packet_to
        },
{
}

/// What was committed before reads the same afterwards, byte for byte.
pub proof fn law_committed_packets_stay(before: BipModel, after: BipModel, c: Commit)
    requires
        keeps_committed(before, after),
        before.chunks.contains(c),
    ensures
        after.chunks.contains(c),
        after.bytes.subrange(c.start as int, c.end as int) == before.bytes.subrange(
            c.start as int,
            c.end as int,
        ),
{
    assert(after.content(c) == before.content(c));
}

} // verus!
