use crate::net::addr;
use crate::net::{Buf, BufMut, IpAddr, SocketAddr};
use crate::time::Instant;
use vstd::prelude::*;

verus! {

/// Maximum UDP packet size.
pub const MAX_PACKET_SIZE: usize = 65535;

/// A Socket Feature.
#[derive(Debug, Clone, Copy, PartialEq, Eq, Hash, Structural)]
pub enum SoFeat {
    /// Permits multiple sockets to be bound to an identical socket address.
    ReusePort,
    /// Socket will return an error if packet size exceeds MTU.
    DontFragment,
    /// This socket supports `sendmmsg/recvmmsg` syscalls (or their alternative).
    ///
    /// Or the socket will simply benefit receiving messages in batches.
    Mmsg,
    /// Generic Receive Offload.
    ///
    /// If enabled, the socket **should** receive multiple datagrams worth of data as a single large buffer.
    ///
    /// **Note**: a single GRO datagram **must not** include different source addresses,
    /// but **may** contain QUIC packets from different connections (with different Connection ID).
    GenericRecvOffload,
    /// Generic Segmentation Offload.
    ///
    /// If enabled, the socket **should** send multiple datagrams worth of data as a single large buffer.
    GenericSegOffload,
}

/// Returns `true` if a socket has a feature.
pub fn supports(socket_features: &Vec<SoFeat>, feature: SoFeat) -> (r: bool)
    ensures
        r == socket_features@.contains(feature),
{
    let mut i: usize = 0;
    while i < socket_features.len()
        invariant
            i <= socket_features@.len(),
            forall|j: int| 0 <= j < i ==> socket_features@[j] != feature,
        decreases socket_features@.len() - i,
    {
        if socket_features[i] == feature {
            assert(socket_features@[i as int] == feature);
            return true;
        }
        i = i + 1;
    }
    false
}

/// Explicit Congestion Notification.
#[derive(Debug, Clone, Copy, PartialEq, Eq, Hash, Structural)]
pub enum Ecn {
    /// Not ECN-Capable Transport (00)
    NEct,
    /// ECN Capable Transport(1) (01).
    Ect1,
    /// ECN Capable Transport(0) (10),
    Ect0,
    /// Congestion Experienced (11)
    Ce,
}

impl Default for Ecn {
    fn default() -> (r: Ecn)
        ensures
            r == Ecn::NEct,
    {
        Ecn::NEct
    }
}

impl Ecn {
    /// The two bits of the notification.
    pub open spec fn spec_bits(self) -> u8 {
        match self {
            Ecn::NEct => 0,
            Ecn::Ect1 => 1,
            Ecn::Ect0 => 2,
            Ecn::Ce => 3,
        }
    }

    /// Returns the two bits of the notification.
    pub fn bits(self) -> (r: u8)
        ensures
            r == self.spec_bits(),
    {
        match self {
            Ecn::NEct => 0,
            Ecn::Ect1 => 1,
            Ecn::Ect0 => 2,
            Ecn::Ce => 3,
        }
    }

    /// The notification with the two bits.
    pub open spec fn spec_from_bits(bits: u8) -> Ecn {
        if bits % 4 == 1 {
            Ecn::Ect1
        } else if bits % 4 == 2 {
            Ecn::Ect0
        } else if bits % 4 == 3 {
            Ecn::Ce
        } else {
            Ecn::NEct
        }
    }

    /// Returns the notification with the two bits.
    pub fn from_bits(bits: u8) -> (r: Ecn)
        ensures
            r == Ecn::spec_from_bits(bits),
    {
        match bits % 4 {
            1 => Ecn::Ect1,
            2 => Ecn::Ect0,
            3 => Ecn::Ce,
            _ => Ecn::NEct,
        }
    }

    /// The name of the notification.
    pub open spec fn spec_name(self) -> Seq<char> {
        match self {
            Ecn::NEct => "Not-ECT"@,
            Ecn::Ect1 => "ECT(1)"@,
            Ecn::Ect0 => "ECT(0)"@,
            Ecn::Ce => "CE"@,
        }
    }

    /// Returns the name of the notification.
    pub fn name(self) -> (r: &'static str)
        ensures
            r@ == self.spec_name(),
    {
        match self {
            Ecn::NEct => "Not-ECT",
            Ecn::Ect1 => "ECT(1)",
            Ecn::Ect0 => "ECT(0)",
            Ecn::Ce => "CE",
        }
    }
}

/// A notification is known by its bits.
pub proof fn law_ecn_is_its_bits(ecn: Ecn)
    ensures
        Ecn::spec_from_bits(ecn.spec_bits()) == ecn,
        ecn.spec_bits() < 4,
{
}

/// A single UDP message to be received.
///
/// May contain a large GRO packet.
pub struct RecvMsg<B> {
    buf: B,
    read: usize,
    from: SocketAddr,
    to: IpAddr,
    ecn: Ecn,
    segment_count: usize,
    timestamp: Option<Instant>,
}

/// What a single packet is.
#[verifier::ext_equal]
pub struct PacketModel {
    pub from: SocketAddr,
    pub to: IpAddr,
    pub ecn: Ecn,
    pub timestamp: Option<Instant>,
    pub payload: Seq<u8>,
}

/// What was received, without the buffer.
pub struct RecvModel {
    pub read: nat,
    pub from: SocketAddr,
    pub to: IpAddr,
    pub ecn: Ecn,
    pub segment_count: nat,
    pub timestamp: Option<Instant>,
}

impl RecvModel {
    /// Nothing was received yet.
    pub open spec fn blank() -> RecvModel {
        RecvModel {
            read: 0,
            from: SocketAddr::V4 { ip: 0, port: 0 },
            to: IpAddr::V4(0),
            ecn: Ecn::NEct,
            segment_count: 0,
            timestamp: None,
        }
    }

    /// The length of a segment.
    pub open spec fn segment_size(self) -> nat {
        if self.segment_count == 0 {
            self.read
        } else {
            self.read / self.segment_count
        }
    }

    /// The number of packets.
    pub open spec fn packets(self) -> nat {
        if self.read == 0 {
            0
        } else if self.segment_count == 0 {
            1
        } else {
            self.segment_count
        }
    }
}

impl<B: BufMut> RecvMsg<B> {
    /// What was received.
    pub closed spec fn model(&self) -> RecvModel {
        RecvModel {
            read: self.read as nat,
            from: self.from,
            to: self.to,
            ecn: self.ecn,
            segment_count: self.segment_count as nat,
            timestamp: self.timestamp,
        }
    }

    /// The bytes of the buffer.
    pub closed spec fn all_bytes(&self) -> Seq<u8> {
        self.buf.all_bytes()
    }

    /// The buffer.
    pub closed spec fn buffer(&self) -> B {
        self.buf
    }

    /// What was received fits into the buffer, in segments of one length.
    pub open spec fn wf(&self) -> bool {
        let m = self.model();
        &&& m.read <= self.all_bytes().len()
        &&& m.read == m.packets() * m.segment_size()
    }

    /// Packet `k` of the message.
    pub open spec fn packet(&self, k: int) -> PacketModel {
        let m = self.model();
        let size = m.segment_size() as int;
        PacketModel {
            from: m.from,
            to: m.to,
            ecn: m.ecn,
            timestamp: m.timestamp,
            payload: self.all_bytes().subrange(k * size, k * size + size),
        }
    }

    /// The packets of the message.
    pub open spec fn all_packets(&self) -> Seq<PacketModel> {
        Seq::new(self.model().packets(), |k: int| self.packet(k))
    }

    /// Create a new blank message.
    pub fn new(buf: B) -> (r: Self)
        requires
            buf.all_bytes().len() > 0,
        ensures
            r.wf(),
            r.buffer() == buf,
            r.all_bytes() == buf.all_bytes(),
            r.model() == RecvModel::blank(),
    {
        let r = Self {
            buf,
            read: 0,
            from: SocketAddr::V4 { ip: 0, port: 0 },
            to: IpAddr::V4(0),
            ecn: Ecn::NEct,
            segment_count: 0,
            timestamp: None,
        };
        assert(r.model().packets() * r.model().segment_size() == 0);
        r
    }

    /// Updates the message with received fields.
    ///
    /// * `read`: how many bytes were written into the slice.
    /// * `from`: source address.
    /// * `to`: destination address.
    /// * `ecn`: Explicit Congestion Notification.
    /// * `segment_count`: number of GRO segments,
    ///   `> 1` the msg holds multiple datagrams worth of data as a single large buffer.
    /// * `timestamp`: when the kernel received the packet.
    pub fn recv(
        &mut self,
        read: usize,
        from: SocketAddr,
        to: IpAddr,
        ecn: Ecn,
        segment_count: usize,
        timestamp: Option<Instant>,
    )
        requires
            read <= old(self).all_bytes().len(),
            !from.unspecified(),
            !to.unspecified(),
            segment_count > 1 ==> read % segment_count == 0,
            addr::same_family(from.spec_ip(), to),
        ensures
            final(self).wf(),
            final(self).buffer() == old(self).buffer(),
            final(self).all_bytes() == old(self).all_bytes(),
            final(self).model() == (RecvModel {
                read: read as nat,
                from,
                to,
                ecn,
                segment_count: segment_count as nat,
                timestamp,
            }),
    {
        self.read = read;
        self.from = from;
        self.to = to;
        self.ecn = ecn;
        self.segment_count = segment_count;
        self.timestamp = timestamp;
        proof {
            let m = self.model();
            let (p, z) = (m.packets(), m.segment_size());
            if read == 0 {
                assert(p * z == 0) by (nonlinear_arith)
                    requires
                        p == 0,
                ;
            } else if segment_count == 0 {
                assert(p * z == z) by (nonlinear_arith)
                    requires
                        p == 1,
                ;
            } else {
                let c = segment_count as int;
                vstd::arithmetic::div_mod::lemma_fundamental_div_mod(read as int, c);
                assert(c == 1 ==> read as int % c == 0);
                assert(p * z == c * (read as int / c));
            }
        }
    }

    /// Returns `true` if this message contains useful payload.
    pub fn has_packet(&self) -> (r: bool)
        ensures
            r == (self.model().read != 0),
    {
        self.read != 0
    }

    /// Returns a slice that is intended for writing data received from peer.
    pub fn write_slice(&mut self) -> (r: &mut [u8])
        requires
            old(self).wf(),
        ensures
            r@ == old(self).all_bytes(),
            final(self).all_bytes() == final(r)@,
            final(self).model() == old(self).model(),
            final(self).wf(),
    {
        self.buf.as_slice()
    }

    /// Returns a slice that is intended for reading data received from peer.
    pub fn read_slice(&mut self) -> (r: &mut [u8])
        requires
            old(self).wf(),
        ensures
            r@ == old(self).all_bytes().take(old(self).model().read as int),
            final(self).all_bytes() == final(r)@ + old(self).all_bytes().skip(old(self).model().read as int),
            final(self).all_bytes().len() == old(self).all_bytes().len(),
            final(self).model() == old(self).model(),
            final(self).wf(),
    {
        let read: usize = self.read;
        let (head, tail) = self.buf.as_slice().split_at_mut(read);
        head
    }

    /// Returns `from` source address.
    pub fn from(&self) -> (r: SocketAddr)
        ensures
            r == self.model().from,
    {
        self.from
    }

    /// Returns `to` destination address.
    pub fn to(&self) -> (r: IpAddr)
        ensures
            r == self.model().to,
    {
        self.to
    }

    /// Returns packet Explicit Congestion Notification.
    pub fn ecn(&self) -> (r: Ecn)
        ensures
            r == self.model().ecn,
    {
        self.ecn
    }

    /// Returns GRO segment size,
    /// or full packet's length if [`segment_count()`][Self::segment_count] is `<= 1`.
    pub fn segment_size(&self) -> (r: usize)
        ensures
            r == self.model().segment_size(),
    {
        if self.segment_count == 0 {
            return self.read;
        }
        self.read / self.segment_count
    }

    /// Returns number of GRO segments this single packet holds.
    pub fn segment_count(&self) -> (r: usize)
        ensures
            r == self.model().segment_count,
    {
        self.segment_count
    }

    /// Returns number of bytes read from network.
    pub fn len(&self) -> (r: usize)
        ensures
            r == self.model().read,
    {
        self.read
    }

    /// Returns a time when the kernel received the packet.
    pub fn timestamp(&self) -> (r: Option<Instant>)
        ensures
            r == self.model().timestamp,
    {
        self.timestamp
    }

    /// Transforms into the original buffer.
    pub fn into_buf(self) -> (r: B)
        ensures
            r == self.buffer(),
    {
        self.buf
    }

    fn packet_count(&self) -> (r: usize)
        ensures
            r == self.model().packets(),
    {
        if self.read == 0 {
            0
        } else if self.segment_count == 0 {
            1
        } else {
            self.segment_count
        }
    }
}

/// A single UDP datagram to be sent.
///
/// **Notes**:
/// - Receivers **may** route based on the information in the first packet contained in a UDP datagram.
///   Therefore, Senders **must not** coalesce QUIC packets with different connection IDs into a single UDP datagram.
///
///   More: [12.2. Coalescing Packets](https://datatracker.ietf.org/doc/html/rfc9000#name-coalescing-packets)
///
/// - Senders must not combine packets with different ECN into a single GSO message:
///   multiple messages, each with unique ECN must be formed.
#[derive(Clone, Copy)]
pub struct SendMsg<B> {
    buf: B,
    from: IpAddr,
    to: SocketAddr,
    ecn: Ecn,
    segment_count: usize,
}

/// What is sent, without the buffer.
pub struct SendModel {
    pub from: IpAddr,
    pub to: SocketAddr,
    pub ecn: Ecn,
    pub segment_count: nat,
}

/// A message of `data` can be sent: it is not empty, all its segments have one length,
/// and it goes to a specified address of the family of the source address.
pub open spec fn sendable(data: Seq<u8>, from: IpAddr, to: SocketAddr, segment_count: nat) -> bool {
    &&& data.len() != 0
    &&& segment_count > 1 ==> data.len() % segment_count == 0
    &&& !to.unspecified()
    &&& addr::same_family(from, to.spec_ip())
}

impl<B> SendMsg<B> {
    /// What is sent.
    pub closed spec fn model(&self) -> SendModel {
        SendModel {
            from: self.from,
            to: self.to,
            ecn: self.ecn,
            segment_count: self.segment_count as nat,
        }
    }

    /// The buffer.
    pub closed spec fn buffer(&self) -> B {
        self.buf
    }

    /// Creates a new message of a buffer that does not hold its data itself.
    pub fn from_parts(
        buf: B,
        from: IpAddr,
        to: SocketAddr,
        ecn: Ecn,
        segment_count: usize,
    ) -> (r: Self)
        ensures
            r.buffer() == buf,
            r.model() == (SendModel { from, to, ecn, segment_count: segment_count as nat }),
    {
        Self { buf, from, to, ecn, segment_count }
    }
}

impl<B: Buf> SendMsg<B> {
    /// Creates a new message.
    ///
    /// * `buf`: buffer with the data to be sent.
    /// * `from`: source address.
    /// * `to`: destination address.
    /// * `ecn`: Explicit Congestion Notification.
    /// * `segment_count`: number of GSO segments (`> 1` if segmented for GSO).
    pub fn new(buf: B, from: IpAddr, to: SocketAddr, ecn: Ecn, segment_count: usize) -> (r: Self)
        requires
            sendable(buf.data(), from, to, segment_count as nat),
        ensures
            r.buffer() == buf,
            r.model() == (SendModel { from, to, ecn, segment_count: segment_count as nat }),
    {
        Self { buf, from, to, ecn, segment_count }
    }

    /// Returns a slice that contains data to be sent.
    pub fn io_slice(&self) -> (r: &[u8])
        ensures
            r@ == self.buffer().data(),
    {
        self.buf.as_slice()
    }
}

impl<B> SendMsg<B> {
    /// Returns a source address.
    pub fn from(&self) -> (r: IpAddr)
        ensures
            r == self.model().from,
    {
        self.from
    }

    /// Returns a destination address.
    pub fn to(&self) -> (r: SocketAddr)
        ensures
            r == self.model().to,
    {
        self.to
    }

    /// Returns Explicit Congestion Notification value.
    pub fn ecn(&self) -> (r: Ecn)
        ensures
            r == self.model().ecn,
    {
        self.ecn
    }

    /// Returns number of GSO segments (`> 1` if segmented for GSO).
    pub fn segment_count(&self) -> (r: usize)
        ensures
            r == self.model().segment_count,
    {
        self.segment_count
    }

    /// Returns the buffer it was created with.
    pub fn buf_ref(&self) -> (r: &B)
        ensures
            *r == self.buffer(),
    {
        &self.buf
    }

    /// Converts `SendMsg` into the original buffer it was created with.
    pub fn into_buf(self) -> (r: B)
        ensures
            r == self.buffer(),
    {
        self.buf
    }
}

/// A single, individual packet UDP packet.
///
/// May never contain GRO segments inside,
/// but may be one of these segments.
#[derive(Debug)]
pub struct Packet<'a> {
    /// Source address, always defined.
    pub from: SocketAddr,
    /// Destination address, always defined.
    pub to: IpAddr,
    /// Packet's Explicit Congestion Notification.
    pub ecn: Ecn,
    /// Packet's timestamp set by the kernel.
    pub timestamp: Option<Instant>,
    /// Underlying data.
    pub payload: &'a mut [u8],
}

impl<'a> Packet<'a> {
    /// What the packet is.
    pub open spec fn model(&self) -> PacketModel {
        PacketModel {
            from: self.from,
            to: self.to,
            ecn: self.ecn,
            timestamp: self.timestamp,
            payload: self.payload@,
        }
    }
}

/// The packets of the messages from index `i` on, in order.
pub open spec fn packets_from<B: BufMut>(msgs: Seq<RecvMsg<B>>, i: int) -> Seq<PacketModel>
    decreases msgs.len() - i,
{
    if 0 <= i < msgs.len() {
        msgs[i].all_packets() + packets_from(msgs, i + 1)
    } else {
        Seq::empty()
    }
}

/// An iterator over `&mut [RecvMsg<B>]`,
/// providing to consumer singular packets (or segments)
/// instead of an entire message, that may hold multiple packets inside in case of GRO.
pub struct MultiMsgFlattenIter<'a, B> {
    msgs: &'a mut [RecvMsg<B>],
    msg_index: usize,
    /// The packets of the current message that are behind.
    msg_packet: usize,
}

impl<'a, B: BufMut> MultiMsgFlattenIter<'a, B> {
    /// The packets that are still to come.
    pub closed spec fn remaining(&self) -> Seq<PacketModel> {
        packets_from(self.msgs@, self.msg_index as int).skip(self.msg_packet as int)
    }

    /// The current message has as many packets as are behind.
    pub closed spec fn wf(&self) -> bool {
        &&& forall|i: int| 0 <= i < self.msgs@.len() ==> (#[trigger] self.msgs@[i]).wf()
        &&& self.msg_index <= self.msgs@.len()
        &&& self.msg_index < self.msgs@.len() ==> self.msg_packet
            <= self.msgs@[self.msg_index as int].model().packets()
        &&& self.msg_index == self.msgs@.len() ==> self.msg_packet == 0
    }

    /// Creates a new iterator on the provided slice.
    pub fn new(msgs: &'a mut [RecvMsg<B>]) -> (r: Self)
        requires
            forall|i: int| 0 <= i < old(msgs)@.len() ==> (#[trigger] old(msgs)@[i]).wf(),
        ensures
            r.wf(),
            r.remaining() == packets_from(old(msgs)@, 0),
    {
        let r = Self { msgs, msg_index: 0, msg_packet: 0 };
        assert(r.remaining() =~= packets_from(r.msgs@, 0));
        r
    }

    /// Skips the messages that have no packet left.
    fn settle(&mut self)
        requires
            old(self).wf(),
        ensures
            final(self).wf(),
            final(self).remaining() == old(self).remaining(),
            final(self).msgs@ == old(self).msgs@,
            final(self).msg_index < final(self).msgs@.len() ==> final(self).msg_packet
                < final(self).msgs@[final(self).msg_index as int].model().packets(),
    {
        while self.msg_index < self.msgs.len() && self.msg_packet
            >= self.msgs[self.msg_index].packet_count()
            invariant
                self.wf(),
                self.remaining() == old(self).remaining(),
                self.msgs@ == old(self).msgs@,
            decreases self.msgs@.len() - self.msg_index,
        {
            proof {
                let all = packets_from(self.msgs@, self.msg_index as int);
                let rest = packets_from(self.msgs@, self.msg_index + 1);
                assert(all.skip(self.msg_packet as int) =~= rest);
                assert(rest.skip(0) =~= rest);
            }
            self.msg_index = self.msg_index + 1;
            self.msg_packet = 0;
        }
    }

    /// Tells the iterator to move on to the next packet.
    pub fn next(&mut self)
        requires
            old(self).wf(),
        ensures
            final(self).wf(),
            final(self).remaining() == if old(self).remaining().len() == 0 {
                old(self).remaining()
            } else {
                old(self).remaining().drop_first()
            },
    {
        self.settle();
        if self.msg_index < self.msgs.len() {
            proof {
                let all = packets_from(self.msgs@, self.msg_index as int);
                assert(all.skip(self.msg_packet as int).drop_first() =~= all.skip(
                    self.msg_packet + 1,
                ));
            }
            self.msg_packet = self.msg_packet + 1;
        }
    }

    /// Returns a single UDP packet (or GRO segment),
    /// or `None` if no more packets available.
    pub fn peek(&mut self) -> (r: Option<Packet<'_>>)
        requires
            old(self).wf(),
        ensures
            r is None <==> old(self).remaining().len() == 0,
            r matches Some(packet) ==> packet.model() == old(self).remaining()[0]
                && final(self).remaining() == old(self).remaining().update(
                0,
                PacketModel { payload: final(packet.payload)@, ..old(self).remaining()[0] },
            ),
            r is None ==> final(self).remaining() == old(self).remaining(),
            final(self).wf(),
    {
        self.settle();
        if self.msg_index < self.msgs.len() {
            let ghost before = self.msgs@;
            let ghost i = self.msg_index as int;
            let at: usize = self.msg_packet;
            let msg = &mut self.msgs[self.msg_index];
            let ghost end = *final(msg);
            let ghost start = *msg;
            let size: usize = msg.segment_size();
            let (from, to, ecn, timestamp) = (msg.from, msg.to, msg.ecn, msg.timestamp);
            let capacity: usize = msg.buf.capacity();
            assert(at * size + size <= capacity) by (nonlinear_arith)
                requires
                    at + 1 <= msg.model().packets(),
                    size == msg.model().segment_size(),
                    msg.model().packets() * msg.model().segment_size() <= capacity,
            ;
            assert(at * size >= 0) by (nonlinear_arith);
            let (head, tail) = msg.buf.as_slice().split_at_mut(at * size);
            let (payload, rest) = tail.split_at_mut(size);
            proof {
                let k = at as int;
                let z = size as int;
                assert(start.all_bytes().subrange(k * z, start.all_bytes().len() as int).subrange(0, z)
                    =~= start.all_bytes().subrange(k * z, k * z + z));
                assert(payload@ =~= start.packet(k).payload);
                let written = final(payload)@;
                assert(head@ =~= start.all_bytes().take(k * z));
                assert(rest@ =~= start.all_bytes().skip(k * z + z));
                assert(end.all_bytes() =~= head@ + written + rest@);
                lemma_rewrite_packet(before, i, k, end, final(payload)@);
            }
            Some(Packet { from, to, ecn, timestamp, payload })
        } else {
            None
        }
    }
}

/// Writing over one packet changes no other packet.
proof fn lemma_rewrite_packet<B: BufMut>(
    msgs: Seq<RecvMsg<B>>,
    i: int,
    k: int,
    msg: RecvMsg<B>,
    payload: Seq<u8>,
)
    requires
        0 <= i < msgs.len(),
        msgs[i].wf(),
        0 <= k < msgs[i].model().packets(),
        msg.model() == msgs[i].model(),
        payload.len() == msg.model().segment_size(),
        ({
            let z = msg.model().segment_size() as int;
            let old_bytes = msgs[i].all_bytes();
            msg.all_bytes() == old_bytes.take(k * z) + payload + old_bytes.skip(k * z + z)
        }),
    ensures
        msg.wf(),
        ({
            let rest = packets_from(msgs, i).skip(k);
            packets_from(msgs.update(i, msg), i).skip(k) == rest.update(
                0,
                PacketModel { payload, ..rest[0] },
            )
        }),
{
    let z = msg.model().segment_size() as int;
    let n = msg.model().packets() as int;
    let b0 = msgs[i].all_bytes();
    let b1 = msg.all_bytes();
    assert(0 <= k * z && k * z + z <= n * z) by (nonlinear_arith)
        requires
            0 <= k < n,
            z >= 0,
    ;
    assert(b1.len() == b0.len());
    lemma_packets_after(msgs, i, i + 1, msg);
    let updated = msgs.update(i, msg);
    let old_all = msgs[i].all_packets();
    let new_all = msg.all_packets();
    assert forall|j: int| 0 <= j < n implies #[trigger] new_all[j] == (if j == k {
        PacketModel { payload, ..old_all[j] }
    } else {
        old_all[j]
    }) by {
        assert(0 <= j * z && j * z + z <= n * z) by (nonlinear_arith)
            requires
                0 <= j < n,
                z >= 0,
        ;
        if j < k {
            assert(j * z + z <= k * z) by (nonlinear_arith)
                requires
                    j + 1 <= k,
                    z >= 0,
            ;
            assert(new_all[j].payload =~= old_all[j].payload);
        } else if j > k {
            assert(k * z + z <= j * z) by (nonlinear_arith)
                requires
                    k + 1 <= j,
                    z >= 0,
            ;
            assert(new_all[j].payload =~= old_all[j].payload);
        } else {
            assert(new_all[j].payload =~= payload);
        }
    }
    let rest = packets_from(msgs, i).skip(k);
    assert(packets_from(updated, i).skip(k) =~= rest.update(
        0,
        PacketModel { payload, ..rest[0] },
    ));
}

/// The packets behind a message do not depend on it.
proof fn lemma_packets_after<B: BufMut>(msgs: Seq<RecvMsg<B>>, i: int, j: int, msg: RecvMsg<B>)
    requires
        0 <= i < j,
        i < msgs.len(),
    ensures
        packets_from(msgs.update(i, msg), j) == packets_from(msgs, j),
    decreases msgs.len() - j,
{
    if j < msgs.len() {
        lemma_packets_after(msgs, i, j + 1, msg);
    }
}

/// The payloads of packets, the one behind the other.
pub open spec fn payloads(packets: Seq<PacketModel>) -> Seq<u8>
    decreases packets.len(),
{
    if packets.len() == 0 {
        Seq::empty()
    } else {
        payloads(packets.drop_last()) + packets.last().payload
    }
}

/// The packets of a message are what was received, all of it and in order.
pub proof fn law_packets_are_the_message<B: BufMut>(message: RecvMsg<B>)
    requires
        message.wf(),
    ensures
        payloads(message.all_packets()) == message.all_bytes().take(message.model().read as int),
{
    let m = message.model();
    let all = message.all_packets();
    lemma_first_packets(message, m.packets());
    assert(all.take(m.packets() as int) =~= all);
}

proof fn lemma_first_packets<B: BufMut>(message: RecvMsg<B>, n: nat)
    requires
        message.wf(),
        n <= message.model().packets(),
    ensures
        n * message.model().segment_size() <= message.model().read,
        payloads(message.all_packets().take(n as int)) == message.all_bytes().take(
            (n * message.model().segment_size()) as int,
        ),
    decreases n,
{
    let m = message.model();
    let z = m.segment_size();
    let all = message.all_packets();
    assert(n * z <= m.packets() * z) by (nonlinear_arith)
        requires
            n <= m.packets(),
    ;
    if n == 0 {
        assert(0 * z == 0) by (nonlinear_arith);
        assert(message.all_bytes().take(0) =~= Seq::<u8>::empty());
    } else {
        let before = (n - 1) as nat;
        lemma_first_packets(message, before);
        assert(n * z == before * z + z) by (nonlinear_arith)
            requires
                n == before + 1,
        ;
        assert(all.take(n as int).drop_last() =~= all.take(before as int));
        assert(all.take(n as int).last() == message.packet(before as int));
        assert(message.all_bytes().take((before * z) as int) + message.all_bytes().subrange(
            (before * z) as int,
            (before * z + z) as int,
        ) =~= message.all_bytes().take((n * z) as int));
    }
}

/// A message that was received in several segments has as many packets as segments,
/// all of one length. Any other message that is not empty is a single packet.
pub proof fn law_segments_are_packets<B: BufMut>(message: RecvMsg<B>)
    requires
        message.wf(),
    ensures
        message.model().read == 0 ==> message.all_packets().len() == 0,
        message.model().read > 0 && message.model().segment_count > 1 ==> {
            &&& message.all_packets().len() == message.model().segment_count
            &&& message.model().segment_size() * message.model().segment_count
                == message.model().read
            &&& forall|k: int|
                0 <= k < message.all_packets().len() ==> (
                #[trigger] message.all_packets()[k]).payload.len()
                    * message.model().segment_count == message.model().read
        },
        message.model().read > 0 && message.model().segment_count <= 1 ==> {
            &&& message.all_packets().len() == 1
            &&& message.model().segment_size() == message.model().read
            &&& message.all_packets()[0].payload == message.all_bytes().take(
                message.model().read as int,
            )
        },
{
    let m = message.model();
    let all = message.all_packets();
    let z = m.segment_size() as int;
    let n = m.packets() as int;
    if m.read > 0 && m.segment_count > 1 {
        assert(n * z == z * n) by (nonlinear_arith);
        assert forall|k: int| 0 <= k < all.len() implies (#[trigger] all[k]).payload.len()
            * m.segment_count == m.read by {
            assert(0 <= k * z && k * z + z <= n * z) by (nonlinear_arith)
                requires
                    0 <= k < n,
                    z >= 0,
            ;
            assert(all[k].payload.len() == z);
        }
    } else if m.read > 0 {
        assert(0 * z == 0) by (nonlinear_arith);
        assert(n == 1);
        assert(n * z == z) by (nonlinear_arith)
            requires
                n == 1,
        ;
        assert(all[0] == message.packet(0));
        assert(all[0].payload =~= message.all_bytes().take(m.read as int));
    }
}

/// Each packet comes from where its message comes from, with what is known of the message,
/// and its payload is the part of the message that is behind the packets before it.
pub proof fn law_packet_is_of_its_message<B: BufMut>(message: RecvMsg<B>, k: int)
    requires
        message.wf(),
        0 <= k < message.all_packets().len(),
    ensures
        message.all_packets()[k].from == message.model().from,
        message.all_packets()[k].to == message.model().to,
        message.all_packets()[k].ecn == message.model().ecn,
        message.all_packets()[k].timestamp == message.model().timestamp,
        payloads(message.all_packets().take(k)) + message.all_packets()[k].payload
            == message.all_bytes().take(
            (payloads(message.all_packets().take(k)).len()
                + message.all_packets()[k].payload.len()) as int,
        ),
{
    let all = message.all_packets();
    lemma_first_packets(message, k as nat);
    lemma_first_packets(message, (k + 1) as nat);
    assert(all.take(k + 1).drop_last() =~= all.take(k));
    assert(all.take(k + 1).last() == all[k]);
}

/// The packets of several messages come message by message: those of a further message come
/// behind all others, and without messages there are none.
pub proof fn law_packets_come_message_by_message<B: BufMut>(
    msgs: Seq<RecvMsg<B>>,
    message: RecvMsg<B>,
    i: int,
)
    requires
        0 <= i <= msgs.len(),
    ensures
        packets_from(msgs, msgs.len() as int).len() == 0,
        packets_from(msgs.push(message), i) == packets_from(msgs, i) + message.all_packets(),
    decreases msgs.len() - i,
{
    let more = msgs.push(message);
    assert(packets_from(more, more.len() as int).len() == 0);
    if i < msgs.len() {
        law_packets_come_message_by_message(msgs, message, i + 1);
        assert(packets_from(more, i) =~= packets_from(msgs, i) + message.all_packets());
    } else {
        assert(more[i] == message);
        assert(packets_from(more, i) =~= packets_from(msgs, i) + message.all_packets());
    }
}

/// The lowest two bits of a byte are a notification, and the notification has these bits:
/// zero if the transport is not capable, three if there is congestion.
pub proof fn law_bits_are_a_notification(bits: u8)
    ensures
        Ecn::spec_from_bits(bits).spec_bits() == bits % 4,
        Ecn::NEct.spec_bits() == 0b00,
        Ecn::Ect1.spec_bits() == 0b01,
        Ecn::Ect0.spec_bits() == 0b10,
        Ecn::Ce.spec_bits() == 0b11,
{
}

/// A message can be sent if and only if it has bytes, each of its segments has as many bytes
/// as the others, and its destination is an address with a port, of the family of its source.
pub proof fn law_what_can_be_sent(data: Seq<u8>, from: IpAddr, to: SocketAddr, segment_count: nat)
    ensures
        sendable(data, from, to, segment_count) <==> {
            &&& data.len() > 0
            &&& segment_count <= 1 || exists|segment_size: int|
                #[trigger] (segment_size * segment_count) == data.len()
            &&& match (from, to) {
                (IpAddr::V4(_), SocketAddr::V4 { ip, port }) => ip != 0 && port != 0,
                (IpAddr::V6(_), SocketAddr::V6 { ip, port, .. }) => ip != 0 && port != 0,
                _ => false,
            }
        },
{
    let n = data.len() as int;
    let c = segment_count as int;
    if c > 1 {
        if n % c == 0 {
            vstd::arithmetic::div_mod::lemma_fundamental_div_mod(n, c);
            assert((n / c) * c == c * (n / c)) by (nonlinear_arith);
            assert((n / c) * segment_count == n);
        }
        if exists|segment_size: int| #[trigger] (segment_size * segment_count) == n {
            let z = choose|segment_size: int| #[trigger] (segment_size * segment_count) == n;
            vstd::arithmetic::div_mod::lemma_mod_multiples_basic(z, c);
        }
    }
}

/// A message that nothing was received into has no packet, comes from nowhere and says nothing
/// of congestion.
pub proof fn law_blank_message_is_empty()
    ensures
        RecvModel::blank().read == 0,
        RecvModel::blank().segment_count == 0,
        RecvModel::blank().timestamp is None,
        RecvModel::blank().ecn == Ecn::NEct,
        RecvModel::blank().from.unspecified(),
        RecvModel::blank().to.unspecified(),
{
}

/// Notifications have the names that the protocol gives them.
pub proof fn law_notifications_have_names(ecn: Ecn)
    ensures
        ecn.spec_bits() == 0 ==> ecn.spec_name() == "Not-ECT"@,
        ecn.spec_bits() == 1 ==> ecn.spec_name() == "ECT(1)"@,
        ecn.spec_bits() == 2 ==> ecn.spec_name() == "ECT(0)"@,
        ecn.spec_bits() == 3 ==> ecn.spec_name() == "CE"@,
{
}

/// What was received is cut into as many packets as there are segments, or is one packet
/// if there is one segment at most. All packets together are what was received.
pub proof fn law_what_was_received_is_cut_into_segments(m: RecvModel)
    requires
        m.segment_count > 1 ==> m.read % m.segment_count == 0,
    ensures
        m.packets() * m.segment_size() == m.read,
        m.read == 0 ==> m.packets() == 0,
        m.read > 0 && m.segment_count > 1 ==> m.packets() == m.segment_count,
        m.read > 0 && m.segment_count <= 1 ==> m.packets() == 1 && m.segment_size() == m.read,
{
    let (p, z) = (m.packets() as int, m.segment_size() as int);
    let (r, c) = (m.read as int, m.segment_count as int);
    if r == 0 {
        assert(p * z == 0) by (nonlinear_arith)
            requires
                p == 0,
        ;
    } else if c == 0 {
        assert(p * z == z) by (nonlinear_arith)
            requires
                p == 1,
        ;
    } else {
        vstd::arithmetic::div_mod::lemma_fundamental_div_mod(r, c);
        if c == 1 {
            assert(r / 1 == r);
            assert(r % 1 == 0);
        }
        assert(p * z == c * (r / c));
    }
}

} // verus!
