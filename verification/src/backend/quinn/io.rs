use crate::backend::quinn::config::{Config, MIN_OUT_BUFFER_SIZE};
use crate::backend::quinn::connection::Connection;
use crate::backend::quinn::proto;
use crate::backend::quinn::proto::Outgoing;
use crate::net::msg;
use crate::net::{Buf, Ecn, IpAddr, SendModel, SendMsg, SoFeat, SocketAddr};
use quinn_proto::Connection as QuinnConnection;
use std::time::Instant as StdInstant;
use vstd::prelude::*;

verus! {

/// Simple implementation of [Buf] based on [Vec].
///
/// It comes out of a pool of [IO], or was made for the rest of a batch of packets.
/// It is given back when its data was sent.
pub struct VecBuf {
    inner: Vec<u8>,
    size: usize,
    is_reserved: bool,
    is_pooled: bool,
}

impl View for VecBuf {
    type V = Seq<u8>;

    closed spec fn view(&self) -> Seq<u8> {
        self.inner@
    }
}

impl VecBuf {
    /// The buffer is a reserved one.
    pub closed spec fn reserved(&self) -> bool {
        self.is_reserved
    }

    /// The buffer comes out of a pool.
    pub closed spec fn pooled(&self) -> bool {
        self.is_pooled
    }

    /// How many bytes the buffer was made for.
    pub closed spec fn capacity(&self) -> usize {
        self.size
    }

    /// Returns the bytes to write into.
    pub fn bytes_mut(&mut self) -> (r: &mut Vec<u8>)
        ensures
            r@ == old(self)@,
            final(self)@ == final(r)@,
            final(self).capacity() == old(self).capacity(),
            final(self).reserved() == old(self).reserved(),
            final(self).pooled() == old(self).pooled(),
    {
        &mut self.inner
    }
}

impl Buf for VecBuf {
    open spec fn data(&self) -> Seq<u8> {
        self@
    }

    fn len(&self) -> (r: usize) {
        self.inner.len()
    }

    fn as_slice(&self) -> (r: &[u8]) {
        self.inner.as_slice()
    }
}

/// [VecBuf] pool.
pub struct VecBufPool {
    buffers: Vec<Vec<u8>>,
    buffer_capacity: usize,
    is_reserved: bool,
}

impl View for VecBufPool {
    /// The number of buffers that are available.
    type V = nat;

    closed spec fn view(&self) -> nat {
        self.buffers@.len()
    }
}

impl VecBufPool {
    /// The pool is the one of reserved buffers.
    pub closed spec fn reserved(&self) -> bool {
        self.is_reserved
    }

    /// How many bytes each buffer is made for.
    pub closed spec fn capacity(&self) -> usize {
        self.buffer_capacity
    }

    /// All buffers are empty.
    pub closed spec fn wf(&self) -> bool {
        forall|i: int| 0 <= i < self.buffers@.len() ==> (#[trigger] self.buffers@[i])@.len() == 0
    }

    /// Creates a pool of empty buffers.
    pub fn new(buffers_count: usize, buffer_capacity: usize, is_reserved: bool) -> (r: Self)
        ensures
            r.wf(),
            r@ == buffers_count,
            r.capacity() == buffer_capacity,
            r.reserved() == is_reserved,
    {
        let mut buffers: Vec<Vec<u8>> = Vec::new();
        while buffers.len() < buffers_count
            invariant
                buffers@.len() <= buffers_count,
                forall|i: int| 0 <= i < buffers@.len() ==> (#[trigger] buffers@[i])@.len() == 0,
            decreases buffers_count - buffers@.len(),
        {
            buffers.push(Vec::with_capacity(buffer_capacity));
        }
        Self { buffers, buffer_capacity, is_reserved }
    }

    /// Returns `true` if no buffer is available.
    pub fn is_empty(&self) -> (r: bool)
        ensures
            r == (self@ == 0),
    {
        self.buffers.len() == 0
    }

    /// The pool was asked for a buffer: it has handed out an empty one, if one was available.
    pub open spec fn is_popped(self, r: Option<VecBuf>, after: VecBufPool) -> bool {
        &&& after.reserved() == self.reserved()
        &&& after.capacity() == self.capacity()
        &&& r is Some <==> self@ > 0
        &&& match r {
            Some(buffer) => {
                &&& buffer@.len() == 0
                &&& buffer.pooled()
                &&& buffer.reserved() == self.reserved()
                &&& buffer.capacity() == self.capacity()
                &&& after@ == self@ - 1
            },
            None => after@ == self@,
        }
    }

    /// Returns an empty buffer, `None` if none is available.
    pub fn pop(&mut self) -> (r: Option<VecBuf>)
        requires
            old(self).wf(),
        ensures
            final(self).wf(),
            old(self).is_popped(r, *final(self)),
    {
        match self.buffers.pop() {
            Some(buffer) => Some(
                VecBuf {
                    inner: buffer,
                    size: self.buffer_capacity,
                    is_reserved: self.is_reserved,
                    is_pooled: true,
                },
            ),
            None => None,
        }
    }

    /// Clears a buffer, and gives it back. It has room for as many bytes as the others then.
    pub fn push(&mut self, buffer: VecBuf)
        requires
            old(self).wf(),
        ensures
            final(self).wf(),
            final(self).reserved() == old(self).reserved(),
            final(self).capacity() == old(self).capacity(),
            final(self)@ == old(self)@ + 1,
    {
        let mut buffer = buffer;
        buffer.inner.clear();
        buffer.inner.reserve(self.buffer_capacity);
        self.buffers.push(buffer.inner);
    }
}

/// A pool hands out all its buffers, one after another, each of them empty and as large as
/// it was asked for, and then none.
///
/// * `pools`: the pool before each call, and after the last one.
pub proof fn law_pool_hands_out_all_buffers(
    pools: Seq<VecBufPool>,
    buffers: Seq<Option<VecBuf>>,
    i: int,
)
    requires
        pools.len() == buffers.len() + 1,
        forall|k: int|
            0 <= k < buffers.len() ==> (#[trigger] pools[k]).is_popped(buffers[k], pools[k + 1]),
        0 <= i <= buffers.len(),
    ensures
        pools[i].capacity() == pools[0].capacity(),
        pools[i]@ == if i < pools[0]@ {
            pools[0]@ - i
        } else {
            0
        },
        i < buffers.len() ==> (buffers[i] is Some <==> i < pools[0]@),
        i < buffers.len() ==> (buffers[i] matches Some(buffer) ==> buffer@.len() == 0
            && buffer.capacity() == pools[0].capacity()),
    decreases i,
{
    if i > 0 {
        law_pool_hands_out_all_buffers(pools, buffers, i - 1);
        assert(pools[i - 1].is_popped(buffers[i - 1], pools[i - 1 + 1]));
    }
    if i < buffers.len() {
        assert(pools[i].is_popped(buffers[i], pools[i + 1]));
    }
}

/// What is known of the buffers.
#[verifier::ext_equal]
pub struct IoModel {
    /// The number of primary buffers that are available.
    pub primary: nat,
    /// The number of reserved buffers that are available.
    pub reserved: nat,
    /// How many bytes each primary buffer is made for.
    pub primary_capacity: usize,
    /// There are buffers that are reserved for the first packets of connections.
    pub is_reserving: bool,
    /// Where packets are sent from, unless they say it themselves.
    pub listen_addr: IpAddr,
}

/// Everything related to I/O.
pub struct IO {
    /// Memory to use for output operations.
    primary_buffers: VecBufPool,
    /// Reserved buffers that are only used for the first packets
    /// like `Initial`, `Retry`, `Version Negotiation`, even when the primary buffers are busy.
    reserved_buffers: VecBufPool,
    /// `true` if there are reserved buffers at all, available or busy.
    is_reserving: bool,
    /// Address our socket is bound to, used for constructing `SendMsg`.
    listen_addr: IpAddr,
}

impl View for IO {
    type V = IoModel;

    closed spec fn view(&self) -> IoModel {
        IoModel {
            primary: self.primary_buffers@,
            reserved: self.reserved_buffers@,
            primary_capacity: self.primary_buffers.capacity(),
            is_reserving: self.is_reserving,
            listen_addr: self.listen_addr,
        }
    }
}

/// The greater one of two numbers.
pub open spec fn greater(a: usize, b: usize) -> usize {
    if a >= b {
        a
    } else {
        b
    }
}

/// How many bytes of `len` are sent with the first message: those of all whole segments,
/// or all of them if there are no segments.
pub open spec fn first_part(len: nat, segment_size: Option<usize>) -> nat {
    match segment_size {
        Some(size) if 0 < size <= len => (len - len % (size as nat)) as nat,
        _ => len,
    }
}

/// The number of packets in the first message.
pub open spec fn segments(len: nat, segment_size: Option<usize>) -> nat {
    match segment_size {
        Some(size) if 0 < size <= len => len / (size as nat),
        _ => 1,
    }
}

/// The buffers of a new backend. There is one primary buffer and no reserved one
/// if the socket sends one message at a time.
pub open spec fn fresh(
    config: Config,
    listen_addr: IpAddr,
    socket_features: Seq<SoFeat>,
) -> IoModel {
    IoModel {
        primary: if socket_features.contains(SoFeat::Mmsg) {
            greater(config.out_buffers_count, 1) as nat
        } else {
            1
        },
        reserved: if socket_features.contains(SoFeat::Mmsg) {
            config.reserved_out_buffers_count as nat
        } else {
            0
        },
        primary_capacity: greater(
            if socket_features.contains(SoFeat::GenericSegOffload) {
                config.out_buffer_gso_size
            } else {
                config.out_buffer_size
            },
            MIN_OUT_BUFFER_SIZE,
        ),
        is_reserving: socket_features.contains(SoFeat::Mmsg) && config.reserved_out_buffers_count
            > 0,
        listen_addr,
    }
}

/// A new backend has a buffer for a packet of a connection, and one for a response.
pub proof fn law_new_backend_has_buffers(
    config: Config,
    listen_addr: IpAddr,
    socket_features: Seq<SoFeat>,
)
    ensures
        fresh(config, listen_addr, socket_features).primary > 0,
        fresh(config, listen_addr, socket_features).has_response_buffer(),
{
}

impl IoModel {
    /// Where a packet is sent from.
    pub open spec fn from(self, outgoing: Outgoing) -> IpAddr {
        match outgoing.source {
            Some(source) => source,
            None => self.listen_addr,
        }
    }

    /// The packets can be sent.
    pub open spec fn is_sendable(self, outgoing: Outgoing, data: Seq<u8>) -> bool {
        &&& outgoing.segment_size != Some(0usize)
        &&& msg::sendable(data, self.from(outgoing), outgoing.destination, 1)
    }

    /// The message that packets are sent with.
    pub open spec fn message(self, outgoing: Outgoing, segment_count: nat) -> SendModel {
        SendModel {
            from: self.from(outgoing),
            to: outgoing.destination,
            ecn: Ecn::spec_from_bits(outgoing.ecn_bits),
            segment_count,
        }
    }

    /// The messages that packets are sent with: one with all whole segments,
    /// and another one with the last packet if it is shorter.
    pub open spec fn are_parts(
        self,
        outgoing: Outgoing,
        data: Seq<u8>,
        first: SendMsg<VecBuf>,
        rest: Option<SendMsg<VecBuf>>,
    ) -> bool {
        let len = first_part(data.len(), outgoing.segment_size);
        &&& first.buffer()@ == data.take(len as int)
        &&& first.model() == self.message(
            outgoing,
            segments(data.len(), outgoing.segment_size),
        )
        &&& rest is Some <==> len < data.len()
        &&& rest matches Some(rest) ==> {
            &&& rest.buffer()@ == data.skip(len as int)
            &&& !rest.buffer().pooled()
            &&& !rest.buffer().reserved()
            &&& rest.model() == self.message(outgoing, 1)
        }
    }
}

impl IO {
    /// The buffers that are available are empty.
    pub closed spec fn wf(&self) -> bool {
        &&& self.primary_buffers.wf()
        &&& self.reserved_buffers.wf()
        &&& !self.primary_buffers.reserved()
        &&& self.reserved_buffers.reserved()
        &&& self.reserved_buffers.capacity() == MIN_OUT_BUFFER_SIZE
    }

    /// Creates the buffers.
    pub fn new(config: &Config, listen_addr: IpAddr, socket_features: &Vec<SoFeat>) -> (r: Self)
        ensures
            r.wf(),
            r@ == fresh(*config, listen_addr, socket_features@),
    {
        let has_mmsg = msg::supports(socket_features, SoFeat::Mmsg);
        let primary_buffers_count: usize = if has_mmsg && config.out_buffers_count > 1 {
            config.out_buffers_count
        } else {
            1
        };
        let reserved_buffers_count: usize = if has_mmsg {
            config.reserved_out_buffers_count
        } else {
            0
        };
        let size: usize = if msg::supports(socket_features, SoFeat::GenericSegOffload) {
            config.out_buffer_gso_size
        } else {
            config.out_buffer_size
        };
        let primary_buffer_capacity: usize = if size > MIN_OUT_BUFFER_SIZE {
            size
        } else {
            MIN_OUT_BUFFER_SIZE
        };
        Self {
            primary_buffers: VecBufPool::new(primary_buffers_count, primary_buffer_capacity, false),
            reserved_buffers: VecBufPool::new(reserved_buffers_count, MIN_OUT_BUFFER_SIZE, true),
            is_reserving: reserved_buffers_count > 0,
            listen_addr,
        }
    }

    /// Updates the socket `source` address, used for constructing `SendMsg`.
    pub fn update_socket_addr(&mut self, new_addr: IpAddr)
        requires
            old(self).wf(),
        ensures
            final(self).wf(),
            final(self)@ == (IoModel { listen_addr: new_addr, ..old(self)@ }),
    {
        self.listen_addr = new_addr;
    }

    /// Returns true if at least one primary buffer is available.
    ///
    /// Primary buffer is only used for established connection packets,
    /// unless there are no reserved buffers at all.
    pub fn has_primary_buffer(&self) -> (r: bool)
        ensures
            r == (self@.primary > 0),
    {
        !self.primary_buffers.is_empty()
    }

    /// Returns a reserved buffer if available, otherwise `None`.
    pub fn pop_reserved_buffer(&mut self) -> (r: Option<VecBuf>)
        requires
            old(self).wf(),
        ensures
            final(self).wf(),
            r is Some <==> old(self)@.reserved > 0,
            r matches Some(buffer) ==> buffer@.len() == 0 && buffer.pooled() && buffer.reserved()
                && buffer.capacity() == MIN_OUT_BUFFER_SIZE && final(self)@ == (IoModel {
                reserved: (old(self)@.reserved - 1) as nat,
                ..old(self)@
            }),
            r is None ==> final(self)@ == old(self)@,
    {
        self.reserved_buffers.pop()
    }

    /// Returns a buffer for the first packets of a connection: a reserved one,
    /// or a primary one if there are no reserved buffers at all.
    ///
    /// Returns `None` if no such buffer is available.
    pub fn pop_response_buffer(&mut self) -> (r: Option<VecBuf>)
        requires
            old(self).wf(),
        ensures
            final(self).wf(),
            r is Some <==> old(self)@.has_response_buffer(),
            r matches Some(buffer) ==> {
                &&& buffer@.len() == 0
                &&& buffer.pooled()
                &&& buffer.reserved() == old(self)@.is_reserving
                &&& buffer.capacity() == if old(self)@.is_reserving {
                    MIN_OUT_BUFFER_SIZE
                } else {
                    old(self)@.primary_capacity
                }
                &&& final(self)@ == old(self)@.taken()
            },
            r is None ==> final(self)@ == old(self)@,
    {
        if self.is_reserving {
            self.pop_reserved_buffer()
        } else {
            self.primary_buffers.pop()
        }
    }

    /// Takes a buffer back whose data was sent, or is not to be sent.
    ///
    /// A buffer that comes out of no pool is dropped.
    pub fn give_back(&mut self, buffer: VecBuf)
        requires
            old(self).wf(),
        ensures
            final(self).wf(),
            final(self)@ == old(self)@.returned(buffer),
    {
        if !buffer.is_pooled {
            return;
        }
        if buffer.is_reserved {
            self.reserved_buffers.push(buffer);
        } else {
            self.primary_buffers.push(buffer);
        }
    }

    /// Writes pending connection packets into `&mut out`.
    ///
    /// Returns `true` on complete successful write,
    /// `false` on partial or absent write, due to lack of available buffers.
    ///
    /// Packets are sent with one message per buffer, and with another one if the last packet
    /// is shorter than the others. Packets that cannot be sent as they are described are lost.
    #[verifier::rlimit(30)]
    #[verifier::spinoff_prover]
    pub fn write_pending(
        &mut self,
        connection: &mut Connection,
        out: &mut Vec<SendMsg<VecBuf>>,
        now: &StdInstant,
    ) -> (r: bool)
        requires
            old(self).wf(),
        ensures
            final(self).wf(),
            final(connection).context == old(connection).context,
            old(out)@.is_prefix_of(final(out)@),
            final(self)@ == (IoModel { primary: final(self)@.primary, ..old(self)@ }),
            final(self)@.primary + pooled_buffers(final(out)@) == old(self)@.primary
                + pooled_buffers(old(out)@),
            are_valid_from(final(out)@, old(out)@.len()),
            old(self)@.primary == 0 ==> !r,
            old(self)@.is_written(
                *now,
                Writing { inner: old(connection).inner, messages: old(out)@ },
                r,
                Writing { inner: final(connection).inner, messages: final(out)@ },
            ),
    {
        let ghost io = self@;
        let ghost mut steps: Seq<Writing> = seq![
            Writing { inner: connection.inner, messages: out@ },
        ];
        let ghost mtu = proto::max_packet(connection.inner);
        let pmtu: usize = proto::current_mtu(&connection.inner) as usize;
        let size: usize = if self.primary_buffers.buffer_capacity > pmtu {
            self.primary_buffers.buffer_capacity
        } else {
            pmtu
        };
        // There is room for at least one packet.
        let max_datagrams: usize = size / pmtu;
        assert(max_datagrams > 0) by (nonlinear_arith)
            requires
                max_datagrams == size / pmtu,
                size >= pmtu,
                pmtu > 0,
        ;
        assert(max_datagrams * pmtu <= size) by (nonlinear_arith)
            requires
                max_datagrams == size / pmtu,
                pmtu > 0,
        ;
        assert(max_datagrams == self@.datagrams(mtu));
        let mut unused: Vec<VecBuf> = Vec::new();
        let mut complete = false;
        let ghost total = self@.primary;
        while !complete && !self.primary_buffers.is_empty()
            invariant
                self.wf(),
                mtu == proto::max_packet(old(connection).inner),
                mtu == proto::max_packet(connection.inner),
                max_datagrams > 0,
                max_datagrams * mtu <= usize::MAX,
                max_datagrams == io.datagrams(mtu),
                total == old(self)@.primary,
                connection.context == old(connection).context,
                old(out)@.is_prefix_of(out@),
                self@ == (IoModel { primary: self@.primary, ..old(self)@ }),
                self@.primary + pooled_buffers(out@) + unused@.len() == total + pooled_buffers(
                    old(out)@,
                ),
                are_valid_from(out@, old(out)@.len()),
                forall|i: int|
                    0 <= i < unused@.len() ==> !(#[trigger] unused@[i]).reserved()
                        && unused@[i].pooled(),
                total == 0 ==> !complete,
                io == old(self)@,
                io.are_writes(*now, mtu, steps),
                steps[0] == (Writing { inner: old(connection).inner, messages: old(out)@ }),
                if complete {
                    &&& steps.len() == total - self@.primary
                    &&& io.is_written_out(
                        *now,
                        mtu,
                        steps.last(),
                        Writing { inner: connection.inner, messages: out@ },
                    )
                } else {
                    &&& steps.len() == total - self@.primary + 1
                    &&& steps.last() == (Writing { inner: connection.inner, messages: out@ })
                },
            ensures
                complete || self@.primary == 0,
            decreases self@.primary,
        {
            let ghost before = Writing { inner: connection.inner, messages: out@ };
            let Some(mut buffer) = self.primary_buffers.pop() else {
                break ;
            };
            buffer.inner.reserve(pmtu);
            match proto::poll_transmit(&mut connection.inner, now, max_datagrams, &mut buffer.inner) {
                Some(transmit) => {
                    let ghost packets = buffer@;
                    if let Some(buffer) = self.append(proto::outgoing(&transmit), buffer, out) {
                        unused.push(buffer);
                    }
                    proof {
                        lemma_valid_extends(before.messages, out@, old(out)@.len());
                    }
                    proof {
                        let after = Writing { inner: connection.inner, messages: out@ };
                        assert(proto::may_transmit(
                            before.inner,
                            *now,
                            max_datagrams,
                            Some(transmit),
                            packets,
                            after.inner,
                        ));
                        assert(io.is_appended(
                            proto::described(transmit),
                            packets,
                            false,
                            before.messages,
                            after.messages,
                        ));
                        assert(io.is_write(*now, mtu, before, after));
                        io.lemma_writes_push(*now, mtu, steps, after);
                        steps = steps.push(after);
                    }
                },
                None => {
                    let ghost packets = buffer@;
                    unused.push(buffer);
                    complete = true;
                    proof {
                        let after = Writing { inner: connection.inner, messages: out@ };
                        assert(proto::may_transmit(
                            before.inner,
                            *now,
                            max_datagrams,
                            None,
                            packets,
                            after.inner,
                        ));
                        assert(io.is_written_out(*now, mtu, before, after));
                    }
                },
            }
        }
        let ghost written = Writing { inner: connection.inner, messages: out@ };
        proof {
            assert(mtu == proto::max_packet(steps[0].inner));
            assert(io.are_writes(*now, mtu, steps));
            if complete {
                assert(io.is_written_out(*now, mtu, steps.last(), written));
            }
            assert(io.is_written(*now, steps[0], complete, written));
        }
        while unused.len() > 0
            invariant
                self.wf(),
                self@ == (IoModel { primary: self@.primary, ..old(self)@ }),
                self@.primary + pooled_buffers(out@) + unused@.len() == total + pooled_buffers(
                    old(out)@,
                ),
                forall|i: int|
                    0 <= i < unused@.len() ==> !(#[trigger] unused@[i]).reserved()
                        && unused@[i].pooled(),
            decreases unused@.len(),
        {
            assert(!unused@[unused@.len() - 1].reserved());
            if let Some(buffer) = unused.pop() {
                self.give_back(buffer);
            }
        }
        complete
    }

    /// Writes a single response packet into `&mut out`.
    ///
    /// A packet that cannot be sent as it is described is lost.
    pub fn write_response(
        &mut self,
        response: Outgoing,
        buffer: VecBuf,
        out: &mut Vec<SendMsg<VecBuf>>,
    )
        requires
            old(self).wf(),
            buffer.pooled(),
        ensures
            final(self).wf(),
            old(self)@.is_response(
                response,
                buffer@,
                buffer.reserved(),
                old(out)@,
                final(self)@,
                final(out)@,
            ),
    {
        if let Some(buffer) = self.append(response, buffer, out) {
            self.give_back(buffer);
        }
    }

    /// Appends the messages that packets are sent with.
    ///
    /// Gives the buffer back if the packets cannot be sent as they are described.
    fn append(&self, transmit: Outgoing, buffer: VecBuf, out: &mut Vec<SendMsg<VecBuf>>) -> (r:
        Option<VecBuf>)
        requires
            buffer.pooled(),
        ensures
            self@.is_appended(
                transmit,
                buffer@,
                buffer.reserved(),
                old(out)@,
                final(out)@,
            ),
            r == if self@.is_sendable(transmit, buffer@) {
                None
            } else {
                Some(buffer)
            },
            old(out)@.is_prefix_of(final(out)@),
            pooled_buffers(final(out)@) == pooled_buffers(old(out)@) + if r is None {
                1nat
            } else {
                0
            },
            !buffer.reserved() ==> are_valid_from(final(out)@, old(out)@.len()),
    {
        match self.transmit_to_msg(transmit, buffer) {
            Ok((first, rest)) => {
                let ghost messages = out@;
                let ghost one = messages.push(first);
                out.push(first);
                assert(one.drop_last() =~= messages);
                assert(pooled_buffers(one) == pooled_buffers(messages) + 1);
                if let Some(rest) = rest {
                    out.push(rest);
                    assert(out@.drop_last() =~= one);
                }
                assert(out@.take(messages.len() as int) =~= messages);
                assert(out@[messages.len() as int] == first);
                None
            },
            Err(buffer) => Some(buffer),
        }
    }

    /// Returns the messages that packets are sent with: one with all whole segments,
    /// and another one with the last packet if it is shorter.
    ///
    /// Gives the buffer back if the packets cannot be sent as they are described:
    /// if there are none, their segments have no length, or the addresses do not fit.
    pub fn transmit_to_msg(&self, transmit: Outgoing, buffer: VecBuf) -> (r: Result<
        (SendMsg<VecBuf>, Option<SendMsg<VecBuf>>),
        VecBuf,
    >)
        ensures
            r is Ok <==> self@.is_sendable(transmit, buffer@),
            r matches Ok((first, rest)) ==> {
                &&& self@.are_parts(transmit, buffer@, first, rest)
                &&& first.buffer().reserved() == buffer.reserved()
                &&& first.buffer().pooled() == buffer.pooled()
                &&& is_valid_message(first)
                &&& rest matches Some(rest) ==> is_valid_message(rest)
            },
            r matches Err(given) ==> given == buffer,
    {
        let len: usize = buffer.inner.len();
        let from: IpAddr = match transmit.source {
            Some(source) => source,
            None => self.listen_addr,
        };
        let to: SocketAddr = transmit.destination;
        let ecn = Ecn::from_bits(transmit.ecn_bits);
        if len == 0 || to.is_unspecified() || from.is_ipv4() != to.ip().is_ipv4() {
            return Err(buffer);
        }
        let (segment_count, rest_len): (usize, usize) = match transmit.segment_size {
            None => (1, 0),
            Some(size) => {
                if size == 0 {
                    return Err(buffer);
                }
                if len < size {
                    (1, 0)
                } else {
                    proof {
                        lemma_whole_segments(len as int, size as int);
                    }
                    (len / size, len % size)
                }
            },
        };
        if rest_len == 0 {
            assert(buffer@.take(len as int) =~= buffer@);
            return Ok((SendMsg::new(buffer, from, to, ecn, segment_count), None));
        }
        let ghost data = buffer@;
        let first_len: usize = len - rest_len;
        let mut buffer = buffer;
        let inner: Vec<u8> = buffer.inner.split_off(first_len);
        assert(buffer@ =~= data.take(first_len as int));
        assert(inner@ =~= data.skip(first_len as int));
        let rest = VecBuf { inner, size: rest_len, is_reserved: false, is_pooled: false };
        Ok(
            (
                SendMsg::new(buffer, from, to, ecn, segment_count),
                Some(SendMsg::new(rest, from, to, ecn, 1)),
            ),
        )
    }
}

/// Whole segments are of one length, and there is one at least if there is room for one.
proof fn lemma_whole_segments(len: int, size: int)
    requires
        0 < size <= len,
    ensures
        len / size > 0,
        len - len % size == size * (len / size),
        (len - len % size) % (len / size) == 0,
        0 <= len % size < size,
{
    vstd::arithmetic::div_mod::lemma_fundamental_div_mod(len, size);
    vstd::arithmetic::div_mod::lemma_mod_bound(len, size);
    vstd::arithmetic::div_mod::lemma_div_non_zero(len, size);
    vstd::arithmetic::div_mod::lemma_mod_multiples_basic(size, len / size);
}

/// Packets of a connection that are being written.
#[verifier::ext_equal]
pub struct Writing {
    /// The connection, as `quinn-proto` sees it.
    pub inner: QuinnConnection,
    /// The messages that are to be sent.
    pub messages: Seq<SendMsg<VecBuf>>,
}

impl IoModel {
    /// There is a buffer for the first packets of a connection.
    pub open spec fn has_response_buffer(self) -> bool {
        if self.is_reserving {
            self.reserved > 0
        } else {
            self.primary > 0
        }
    }

    /// A buffer for the first packets of a connection was taken: a reserved one,
    /// unless there are none at all.
    pub open spec fn taken(self) -> IoModel {
        if self.is_reserving {
            IoModel { reserved: (self.reserved - 1) as nat, ..self }
        } else {
            IoModel { primary: (self.primary - 1) as nat, ..self }
        }
    }

    /// How many packets of a connection are asked for at once: as many as a primary buffer
    /// has room for, but one at least.
    ///
    /// * `mtu`: the maximum length of a packet.
    pub open spec fn datagrams(self, mtu: u16) -> usize {
        (greater(self.primary_capacity, mtu as usize) / (mtu as usize)) as usize
    }

    /// A connection has no packet to be sent.
    pub open spec fn is_written_out(
        self,
        now: StdInstant,
        mtu: u16,
        before: Writing,
        after: Writing,
    ) -> bool {
        &&& after.messages == before.messages
        &&& exists|packets: Seq<u8>| #[trigger]
            proto::may_transmit(
                before.inner,
                now,
                self.datagrams(mtu),
                None,
                packets,
                after.inner,
            )
    }

    /// Packets are to be sent, too: with one message, and with another one if the last packet
    /// is shorter than the others. The packets are lost if they cannot be sent
    /// as they are described.
    ///
    /// * `is_reserved`: the packets are in a reserved buffer.
    pub open spec fn is_appended(
        self,
        outgoing: Outgoing,
        packets: Seq<u8>,
        is_reserved: bool,
        messages: Seq<SendMsg<VecBuf>>,
        after: Seq<SendMsg<VecBuf>>,
    ) -> bool {
        if self.is_sendable(outgoing, packets) {
            let first = after[messages.len() as int];
            let has_rest = after.len() == messages.len() + 2;
            &&& has_rest || after.len() == messages.len() + 1
            &&& after.take(messages.len() as int) == messages
            &&& first.buffer().pooled()
            &&& first.buffer().reserved() == is_reserved
            &&& self.are_parts(
                outgoing,
                packets,
                first,
                if has_rest {
                    Some(after.last())
                } else {
                    None
                },
            )
        } else {
            after == messages
        }
    }

    /// A response is to be sent.
    /// Its buffer is given back if the response cannot be sent as it is described.
    ///
    /// * `self`: the buffers, without the one that the response is in.
    /// * `is_reserved`: the response is in a reserved buffer.
    pub open spec fn is_response(
        self,
        response: Outgoing,
        packet: Seq<u8>,
        is_reserved: bool,
        messages: Seq<SendMsg<VecBuf>>,
        after: IoModel,
        answered: Seq<SendMsg<VecBuf>>,
    ) -> bool {
        &&& self.is_appended(response, packet, is_reserved, messages, answered)
        &&& after == if self.is_sendable(response, packet) {
            self
        } else {
            self.given_back(is_reserved)
        }
    }

    /// The next packets of a connection were written, as many as a primary buffer has room for.
    pub open spec fn is_write(
        self,
        now: StdInstant,
        mtu: u16,
        before: Writing,
        after: Writing,
    ) -> bool {
        exists|transmit: quinn_proto::Transmit, packets: Seq<u8>|
            #[trigger] proto::may_transmit(
                before.inner,
                now,
                self.datagrams(mtu),
                Some(transmit),
                packets,
                after.inner,
            ) && self.is_appended(
                proto::described(transmit),
                packets,
                false,
                before.messages,
                after.messages,
            )
    }

    /// Packets of a connection were written, one buffer after another.
    pub open spec fn are_writes(self, now: StdInstant, mtu: u16, steps: Seq<Writing>) -> bool {
        &&& steps.len() > 0
        &&& forall|i: int|
            0 <= i < steps.len() - 1 ==> self.is_write(now, mtu, #[trigger] steps[i], steps[i + 1])
    }

    /// Packets of a connection were written, as long as there were primary buffers.
    ///
    /// * `is_complete`: there is no packet left.
    pub open spec fn is_written(
        self,
        now: StdInstant,
        before: Writing,
        is_complete: bool,
        after: Writing,
    ) -> bool {
        let mtu = proto::max_packet(before.inner);
        exists|steps: Seq<Writing>|
            #[trigger] self.are_writes(now, mtu, steps) && steps[0] == before && if is_complete {
                steps.len() <= self.primary && self.is_written_out(now, mtu, steps.last(), after)
            } else {
                steps.len() == self.primary + 1 && after == steps.last()
            }
    }

    proof fn lemma_writes_push(
        self,
        now: StdInstant,
        mtu: u16,
        steps: Seq<Writing>,
        next: Writing,
    )
        requires
            self.are_writes(now, mtu, steps),
            self.is_write(now, mtu, steps.last(), next),
        ensures
            self.are_writes(now, mtu, steps.push(next)),
    {
        let all = steps.push(next);
        assert forall|i: int| 0 <= i < all.len() - 1 implies self.is_write(
            now,
            mtu,
            #[trigger] all[i],
            all[i + 1],
        ) by {
            if i < steps.len() - 1 {
                assert(self.is_write(now, mtu, steps[i], steps[i + 1]));
            }
        }
    }

    /// A buffer was taken back, or dropped if it comes out of no pool.
    pub open spec fn returned(self, buffer: VecBuf) -> IoModel {
        if buffer.pooled() {
            self.given_back(buffer.reserved())
        } else {
            self
        }
    }

    /// A buffer was given back.
    pub open spec fn given_back(self, reserved: bool) -> IoModel {
        if reserved {
            IoModel { reserved: self.reserved + 1, ..self }
        } else {
            IoModel { primary: self.primary + 1, ..self }
        }
    }
}

/// How many messages are in a buffer that comes out of a pool.
pub open spec fn pooled_buffers(messages: Seq<SendMsg<VecBuf>>) -> nat
    decreases messages.len(),
{
    if messages.len() == 0 {
        0
    } else {
        pooled_buffers(messages.drop_last()) + if messages.last().buffer().pooled() {
            1nat
        } else {
            0
        }
    }
}

/// Packets are sent as they are, none is lost: they are cut into segments of their length,
/// and a shorter one at the end is sent on its own.
pub proof fn law_packets_are_sent_as_they_are(
    io: IoModel,
    outgoing: Outgoing,
    packets: Seq<u8>,
    is_reserved: bool,
    messages: Seq<SendMsg<VecBuf>>,
    after: Seq<SendMsg<VecBuf>>,
)
    requires
        io.is_sendable(outgoing, packets),
        io.is_appended(outgoing, packets, is_reserved, messages, after),
    ensures
        ({
            let first = after[messages.len() as int];
            &&& after.take(messages.len() as int) == messages
            &&& packets == if after.len() == messages.len() + 1 {
                first.buffer()@
            } else {
                first.buffer()@ + after.last().buffer()@
            }
            &&& outgoing.segment_size matches Some(size) ==> size <= packets.len() ==> {
                &&& first.buffer()@.len() == size * first.model().segment_count
                &&& after.len() > messages.len() + 1 ==> 0 < after.last().buffer()@.len() < size
            }
        }),
{
    let len = first_part(packets.len(), outgoing.segment_size) as int;
    if let Some(size) = outgoing.segment_size {
        if size <= packets.len() {
            lemma_whole_segments(packets.len() as int, size as int);
        }
    }
    assert(packets =~= packets.take(len) + packets.skip(len));
    assert(packets.take(packets.len() as int) =~= packets);
}

/// The messages from the given one on can be sent, and are in no reserved buffers.
pub open spec fn are_valid_from(messages: Seq<SendMsg<VecBuf>>, first: nat) -> bool {
    forall|i: int|
        first <= i < messages.len() ==> !(#[trigger] messages[i]).buffer().reserved()
            && is_valid_message(messages[i])
}

proof fn lemma_valid_extends(
    messages: Seq<SendMsg<VecBuf>>,
    after: Seq<SendMsg<VecBuf>>,
    first: nat,
)
    requires
        first <= messages.len(),
        messages.is_prefix_of(after),
        are_valid_from(messages, first),
        are_valid_from(after, messages.len()),
    ensures
        are_valid_from(after, first),
{
    assert forall|i: int| first <= i < after.len() implies !(#[trigger] after[i]).buffer().reserved()
        && is_valid_message(after[i]) by {
        if i < messages.len() {
            assert(messages[i] == after[i]);
        }
    }
}

/// The message can be sent.
pub open spec fn is_valid_message(message: SendMsg<VecBuf>) -> bool {
    msg::sendable(
        message.buffer()@,
        message.model().from,
        message.model().to,
        message.model().segment_count,
    )
}

/// As many packets are asked for at once as fit into a buffer, and one at least.
pub proof fn law_packets_fill_a_buffer(io: IoModel, mtu: u16)
    requires
        mtu > 0,
    ensures
        io.datagrams(mtu) >= 1,
        mtu <= io.primary_capacity ==> io.datagrams(mtu) * mtu <= io.primary_capacity < (
        io.datagrams(mtu) + 1) * mtu,
        mtu > io.primary_capacity ==> io.datagrams(mtu) == 1,
{
    let size = greater(io.primary_capacity, mtu as usize) as int;
    let m = mtu as int;
    let n = size / m;
    vstd::arithmetic::div_mod::lemma_fundamental_div_mod(size, m);
    vstd::arithmetic::div_mod::lemma_div_is_ordered_by_denominator(size, 1, m);
    assert(size / 1 == size);
    assert(m * n == n * m) by (nonlinear_arith);
    assert((n + 1) * m == n * m + m) by (nonlinear_arith);
    if mtu >= io.primary_capacity {
        assert(size == m);
        vstd::arithmetic::div_mod::lemma_div_by_self(m);
    }
    assert(n >= 1) by (nonlinear_arith)
        requires
            n * m + size % m == size,
            0 <= size % m < m,
            size >= m,
            m > 0,
    ;
}

/// Packets are sent from the address that they name, or else from the one that is listened on,
/// to where they are to go, and with their congestion bits.
pub proof fn law_packets_go_where_they_are_to_go(
    io: IoModel,
    outgoing: Outgoing,
    data: Seq<u8>,
    first: SendMsg<VecBuf>,
    rest: Option<SendMsg<VecBuf>>,
)
    requires
        io.are_parts(outgoing, data, first, rest),
    ensures
        outgoing.source matches Some(source) ==> first.model().from == source,
        outgoing.source is None ==> first.model().from == io.listen_addr,
        first.model().to == outgoing.destination,
        first.model().ecn == Ecn::spec_from_bits(outgoing.ecn_bits),
        rest matches Some(rest) ==> {
            &&& rest.model().from == first.model().from
            &&& rest.model().to == first.model().to
            &&& rest.model().ecn == first.model().ecn
            &&& rest.model().segment_count == 1
            &&& !rest.buffer().pooled()
            &&& !rest.buffer().reserved()
        },
{
}

/// A packet is lost only if it is empty, goes to no specified address, or the addresses are
/// of different families, or if there is no way to cut it into segments.
pub proof fn law_packets_are_lost_for_a_reason(io: IoModel, outgoing: Outgoing, data: Seq<u8>)
    ensures
        io.is_sendable(outgoing, data) <==> {
            &&& outgoing.segment_size != Some(0usize)
            &&& msg::sendable(
                data,
                match outgoing.source {
                    Some(source) => source,
                    None => io.listen_addr,
                },
                outgoing.destination,
                1,
            )
        },
{
}

/// A buffer that was taken for a response and is given back is there again. No other buffer is
/// touched, and a reserved one is never put to the others.
pub proof fn law_taken_buffer_comes_back(io: IoModel)
    ensures
        io.has_response_buffer() <==> if io.is_reserving {
            io.reserved > 0
        } else {
            io.primary > 0
        },
        io.has_response_buffer() ==> {
            &&& io.taken().given_back(io.is_reserving) == io
            &&& io.taken().primary + io.taken().reserved + 1 == io.primary + io.reserved
        },
        io.is_reserving ==> io.taken().primary == io.primary,
        !io.is_reserving ==> io.taken().reserved == io.reserved,
{
}

/// Buffers are there again once they are returned, those that come out of no pool are dropped.
pub proof fn law_returned_buffers_are_available(io: IoModel, buffer: VecBuf)
    ensures
        io.returned(buffer).primary == io.primary + if buffer.pooled() && !buffer.reserved() {
            1nat
        } else {
            0
        },
        io.returned(buffer).reserved == io.reserved + if buffer.pooled() && buffer.reserved() {
            1nat
        } else {
            0
        },
        io.returned(buffer).listen_addr == io.listen_addr,
        io.returned(buffer).is_reserving == io.is_reserving,
        io.returned(buffer).primary_capacity == io.primary_capacity,
{
}

/// A new backend has as many buffers, each as large, as it is configured for,
/// if the socket can send so many messages and so many segments at once.
pub proof fn law_new_backend_has_the_configured_buffers(
    config: Config,
    listen_addr: IpAddr,
    socket_features: Seq<SoFeat>,
)
    requires
        config.out_buffers_count >= 1,
        config.out_buffer_size >= 1500,
        config.out_buffer_gso_size >= config.out_buffer_size,
    ensures
        ({
            let io = fresh(config, listen_addr, socket_features);
            let several = socket_features.contains(SoFeat::Mmsg);
            let offload = socket_features.contains(SoFeat::GenericSegOffload);
            &&& io.listen_addr == listen_addr
            &&& several ==> io.primary == config.out_buffers_count && io.reserved
                == config.reserved_out_buffers_count
            &&& !several ==> io.primary == 1 && io.reserved == 0
            &&& io.is_reserving <==> io.reserved > 0
            &&& offload ==> io.primary_capacity == config.out_buffer_gso_size
            &&& !offload ==> io.primary_capacity == config.out_buffer_size
        }),
{
}

/// A response that is sent takes its buffer along, one that cannot be sent leaves the buffer
/// and the messages as they were.
pub proof fn law_response_is_sent_or_lost(
    io: IoModel,
    response: Outgoing,
    packet: Seq<u8>,
    is_reserved: bool,
    messages: Seq<SendMsg<VecBuf>>,
    after: IoModel,
    answered: Seq<SendMsg<VecBuf>>,
)
    requires
        io.is_response(response, packet, is_reserved, messages, after, answered),
    ensures
        messages.is_prefix_of(answered),
        answered.len() == messages.len() ==> after == io.given_back(is_reserved),
        answered.len() > messages.len() ==> {
            &&& after == io
            &&& answered.len() <= messages.len() + 2
            &&& answered[messages.len() as int].buffer().reserved() == is_reserved
            &&& answered[messages.len() as int].buffer().pooled()
            &&& answered[messages.len() as int].model().to == response.destination
        },
        answered.len() > messages.len() <==> io.is_sendable(response, packet),
{
    if io.is_sendable(response, packet) {
        assert(messages =~= answered.take(messages.len() as int));
    }
}

/// Each message in a buffer of the pools counts once, wherever it stands.
pub proof fn law_pooled_buffers_are_counted(
    messages: Seq<SendMsg<VecBuf>>,
    others: Seq<SendMsg<VecBuf>>,
)
    ensures
        pooled_buffers(messages + others) == pooled_buffers(messages) + pooled_buffers(others),
        pooled_buffers(messages) <= messages.len(),
        (forall|i: int| 0 <= i < messages.len() ==> (#[trigger] messages[i]).buffer().pooled())
            ==> pooled_buffers(messages) == messages.len(),
        (forall|i: int| 0 <= i < messages.len() ==> !(#[trigger] messages[i]).buffer().pooled())
            ==> pooled_buffers(messages) == 0,
    decreases messages.len() + others.len(),
{
    let all = messages + others;
    if others.len() > 0 {
        assert(all.drop_last() =~= messages + others.drop_last());
        law_pooled_buffers_are_counted(messages, others.drop_last());
    } else {
        assert(all =~= messages);
        if messages.len() > 0 {
            let init = messages.drop_last();
            law_pooled_buffers_are_counted(init, others);
            assert(forall|i: int| 0 <= i < init.len() ==> init[i] == messages[i]);
        }
    }
}

/// Nothing is sent for a connection that has nothing to send, and packets of a connection are
/// sent out of primary buffers, as `quinn-proto` has written them for the current time.
pub proof fn law_connections_write_what_they_have(
    io: IoModel,
    now: StdInstant,
    mtu: u16,
    before: Writing,
    after: Writing,
)
    ensures
        io.is_written_out(now, mtu, before, after) ==> after.messages == before.messages && exists|
            packets: Seq<u8>,
        | #[trigger]
            proto::may_transmit(
                before.inner,
                now,
                io.datagrams(mtu),
                None,
                packets,
                after.inner,
            ),
        io.is_write(now, mtu, before, after) ==> {
            &&& before.messages.is_prefix_of(after.messages)
            &&& after.messages.len() > before.messages.len() ==> {
                let first = after.messages[before.messages.len() as int];
                first.buffer().pooled() && !first.buffer().reserved()
            }
            &&& exists|transmit: quinn_proto::Transmit, packets: Seq<u8>|
                {
                    &&& #[trigger] proto::may_transmit(
                        before.inner,
                        now,
                        io.datagrams(mtu),
                        Some(transmit),
                        packets,
                        after.inner,
                    )
                    &&& after.messages.len() > before.messages.len() <==> io.is_sendable(
                        proto::described(transmit),
                        packets,
                    )
                }
        },
{
    if io.is_write(now, mtu, before, after) {
        let (transmit, packets) = choose|transmit: quinn_proto::Transmit, packets: Seq<u8>|
            #[trigger] proto::may_transmit(
                before.inner,
                now,
                io.datagrams(mtu),
                Some(transmit),
                packets,
                after.inner,
            ) && io.is_appended(
                proto::described(transmit),
                packets,
                false,
                before.messages,
                after.messages,
            );
        assert(before.messages =~= after.messages.take(before.messages.len() as int));
    }
}

/// Buffers are written until the connection has nothing left, or there is no buffer left.
pub proof fn law_writing_stops_for_a_reason(
    io: IoModel,
    now: StdInstant,
    before: Writing,
    is_complete: bool,
    after: Writing,
)
    requires
        io.is_written(now, before, is_complete, after),
    ensures
        exists|steps: Seq<Writing>|
            {
                &&& #[trigger] io.are_writes(now, proto::max_packet(before.inner), steps)
                &&& steps[0] == before
                &&& is_complete ==> io.is_written_out(
                    now,
                    proto::max_packet(before.inner),
                    steps.last(),
                    after,
                ) && steps.len() - 1 < io.primary
                &&& !is_complete ==> after == steps.last() && steps.len() - 1 == io.primary
            },
{
}

} // verus!
