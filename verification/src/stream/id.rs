use vstd::prelude::*;
use vstd::std_specs::convert::{FromSpec, FromSpecImpl, TryFromSpec, TryFromSpecImpl};

verus! {

/// An immutable stream ID.
///
/// The lowest bit tells who opened the stream, the next one its directionality.
#[derive(Debug, Clone, Copy, PartialEq, Eq, Structural, PartialOrd, Ord, Hash)]
pub struct StreamId(u64);

/// The provided value is not a stream ID.
#[derive(Debug, Clone, Copy, PartialEq, Eq, Structural)]
pub struct StreamIdError;

impl StreamId {
    /// The maximum possible stream ID value.
    pub const MAX: u64 = 0x3FFF_FFFF_FFFF_FFFF;

    /// The raw value.
    pub closed spec fn view(&self) -> nat {
        self.0 as nat
    }

    /// The stream ID with the given raw value.
    pub closed spec fn of(value: u64) -> StreamId {
        StreamId(value)
    }

    /// Opened by the server side of a connection.
    pub open spec fn by_server(&self) -> bool {
        self@ % 2 == 1
    }

    /// Data flows in one direction only.
    pub open spec fn one_way(&self) -> bool {
        (self@ / 2) % 2 == 1
    }

    #[verifier::type_invariant]
    spec fn in_range(&self) -> bool {
        self.0 <= 0x3FFF_FFFF_FFFF_FFFF
    }

    /// Creates a new stream ID from a raw value,
    /// if the value doesn't exceed `2^62 - 1`.
    pub fn new(value: u64) -> (r: Result<Self, StreamIdError>)
        ensures
            r is Ok <==> value <= Self::MAX,
            r matches Ok(id) ==> id@ == value && id == Self::of(value),
            r matches Err(e) ==> e == StreamIdError,
    {
        if value <= Self::MAX {
            return Ok(Self(value));
        }
        Err(StreamIdError)
    }

    /// Returns a new initial stream ID.
    pub fn initial(client: bool, bidirectional: bool) -> (r: Self)
        ensures
            r.by_server() == !client,
            r.one_way() == !bidirectional,
            r@ < 4,
    {
        match (client, bidirectional) {
            (true, true) => Self::init_client_bidi(),
            (true, false) => Self::init_client_uni(),
            (false, true) => Self::init_server_bidi(),
            (false, false) => Self::init_server_uni(),
        }
    }

    /// Creates a new initial client bidirectional stream ID.
    pub fn init_client_bidi() -> (r: Self)
        ensures
            r@ == 0,
    {
        Self(0)
    }

    /// Creates a new initial server bidirectional stream ID.
    pub fn init_server_bidi() -> (r: Self)
        ensures
            r@ == 1,
    {
        Self(1)
    }

    /// Creates a new initial client unidirectional stream ID.
    pub fn init_client_uni() -> (r: Self)
        ensures
            r@ == 2,
    {
        Self(2)
    }

    /// Creates a new initial server unidirectional stream ID.
    pub fn init_server_uni() -> (r: Self)
        ensures
            r@ == 3,
    {
        Self(3)
    }

    /// Returns a raw `u64` stream ID value.
    pub fn raw(&self) -> (r: u64)
        ensures
            r == self@,
            r <= Self::MAX,
    {
        proof {
            use_type_invariant(self);
        }
        self.0
    }

    /// Returns `true` if the stream was initiated by the server connection.
    pub fn is_server(&self) -> (r: bool)
        ensures
            r == self.by_server(),
    {
        let raw: u64 = self.0;
        assert((raw & 0x01 == 0x01) == (raw % 2 == 1)) by (bit_vector);
        (self.0 & 0x01) == 0x01
    }

    /// Returns `true` if the stream was initiated by the client connection.
    pub fn is_client(&self) -> (r: bool)
        ensures
            r == !self.by_server(),
    {
        !self.is_server()
    }

    /// Returns `true` if the stream is unidirectional.
    pub fn is_uni(&self) -> (r: bool)
        ensures
            r == self.one_way(),
    {
        let raw: u64 = self.0;
        assert((raw & 0x02 == 0x02) == ((raw / 2) % 2 == 1)) by (bit_vector);
        (self.0 & 0x02) == 0x02
    }

    /// Returns `true` if the stream is bidirectional.
    pub fn is_bidi(&self) -> (r: bool)
        ensures
            r == !self.one_way(),
    {
        !self.is_uni()
    }

    /// Returns the next stream ID in the sequence for the same initiator and direction.
    /// Returns `Err` if the next ID would exceed [`MAX value`](Self::MAX).
    pub fn next(&self) -> (r: Result<Self, StreamIdError>)
        ensures
            r is Ok <==> self@ + 4 <= Self::MAX,
            r matches Ok(id) ==> id@ == self@ + 4 && id.by_server() == self.by_server()
                && id.one_way() == self.one_way(),
    {
        let Some(value) = self.raw().checked_add(4) else {
            return Err(StreamIdError);
        };
        Self::new(value)
    }

    /// Returns the previous stream ID in the sequence for the same initiator and direction.
    /// Returns `Err` if the current ID is the first in its sequence.
    pub fn previous(&self) -> (r: Result<Self, StreamIdError>)
        ensures
            r is Ok <==> self@ >= 4,
            r matches Ok(id) ==> id@ == self@ - 4 && id.by_server() == self.by_server()
                && id.one_way() == self.one_way(),
    {
        proof {
            use_type_invariant(self);
        }
        let Some(value) = self.0.checked_sub(4) else {
            return Err(StreamIdError);
        };
        Self::new(value)
    }
}

impl StreamId {
    pub(crate) proof fn lemma_of_is_injective(a: u64, b: u64)
        ensures
            StreamId::of(a) == StreamId::of(b) ==> a == b,
    {
    }
}

/// Two stream IDs with the same raw value are the same stream ID.
pub proof fn law_stream_id_is_its_raw_value(a: StreamId, b: StreamId)
    ensures
        a@ == b@ ==> a == b,
{
}

/// Every stream ID belongs to exactly one of the four sequences that
/// [`StreamId::initial`] starts and [`StreamId::next`] continues: it is the
/// initial ID of its own initiator and directionality plus a multiple of four.
pub proof fn law_stream_id_sequences(id: StreamId, initial: StreamId)
    requires
        initial@ < 4,
        initial.by_server() == id.by_server(),
        initial.one_way() == id.one_way(),
    ensures
        id@ % 4 == initial@,
        id@ == initial@ + 4 * (id@ / 4),
{
}

impl From<u8> for StreamId {
    fn from(value: u8) -> (r: Self) {
        Self(value as u64)
    }
}

impl FromSpecImpl<u8> for StreamId {
    open spec fn obeys_from_spec() -> bool {
        true
    }

    open spec fn from_spec(value: u8) -> Self {
        Self::of(value as u64)
    }
}

impl From<u16> for StreamId {
    fn from(value: u16) -> (r: Self) {
        Self(value as u64)
    }
}

impl FromSpecImpl<u16> for StreamId {
    open spec fn obeys_from_spec() -> bool {
        true
    }

    open spec fn from_spec(value: u16) -> Self {
        Self::of(value as u64)
    }
}

impl From<u32> for StreamId {
    fn from(value: u32) -> (r: Self) {
        Self(value as u64)
    }
}

impl FromSpecImpl<u32> for StreamId {
    open spec fn obeys_from_spec() -> bool {
        true
    }

    open spec fn from_spec(value: u32) -> Self {
        Self::of(value as u64)
    }
}

impl From<StreamId> for u64 {
    fn from(id: StreamId) -> (r: Self) {
        id.0
    }
}

impl FromSpecImpl<StreamId> for u64 {
    open spec fn obeys_from_spec() -> bool {
        true
    }

    open spec fn from_spec(id: StreamId) -> Self {
        id@ as u64
    }
}

impl From<StreamId> for u128 {
    fn from(id: StreamId) -> (r: Self) {
        id.0 as u128
    }
}

impl FromSpecImpl<StreamId> for u128 {
    open spec fn obeys_from_spec() -> bool {
        true
    }

    open spec fn from_spec(id: StreamId) -> Self {
        id@ as u128
    }
}

impl From<StreamId> for u8 {
    fn from(id: StreamId) -> (r: Self) {
        #[verifier::truncate]
        (id.0 as u8)
    }
}

impl FromSpecImpl<StreamId> for u8 {
    open spec fn obeys_from_spec() -> bool {
        true
    }

    open spec fn from_spec(id: StreamId) -> Self {
        (id@ as u64) as u8
    }
}

impl From<StreamId> for u16 {
    fn from(id: StreamId) -> (r: Self) {
        #[verifier::truncate]
        (id.0 as u16)
    }
}

impl FromSpecImpl<StreamId> for u16 {
    open spec fn obeys_from_spec() -> bool {
        true
    }

    open spec fn from_spec(id: StreamId) -> Self {
        (id@ as u64) as u16
    }
}

impl From<StreamId> for u32 {
    fn from(id: StreamId) -> (r: Self) {
        #[verifier::truncate]
        (id.0 as u32)
    }
}

impl FromSpecImpl<StreamId> for u32 {
    open spec fn obeys_from_spec() -> bool {
        true
    }

    open spec fn from_spec(id: StreamId) -> Self {
        (id@ as u64) as u32
    }
}

impl From<StreamId> for usize {
    fn from(id: StreamId) -> (r: Self) {
        #[verifier::truncate]
        (id.0 as usize)
    }
}

impl FromSpecImpl<StreamId> for usize {
    open spec fn obeys_from_spec() -> bool {
        true
    }

    open spec fn from_spec(id: StreamId) -> Self {
        (id@ as u64) as usize
    }
}

impl TryFrom<u64> for StreamId {
    type Error = StreamIdError;

    fn try_from(value: u64) -> (r: Result<Self, Self::Error>) {
        Self::new(value)
    }
}

impl TryFromSpecImpl<u64> for StreamId {
    open spec fn obeys_try_from_spec() -> bool {
        true
    }

    open spec fn try_from_spec(value: u64) -> Result<Self, Self::Error> {
        if value <= Self::MAX {
            Ok(Self::of(value))
        } else {
            Err(StreamIdError)
        }
    }
}

impl TryFrom<u128> for StreamId {
    type Error = StreamIdError;

    fn try_from(value: u128) -> (r: Result<Self, Self::Error>) {
        if value <= Self::MAX as u128 {
            return Ok(Self(value as u64));
        }
        Err(StreamIdError)
    }
}

impl TryFromSpecImpl<u128> for StreamId {
    open spec fn obeys_try_from_spec() -> bool {
        true
    }

    open spec fn try_from_spec(value: u128) -> Result<Self, Self::Error> {
        if value <= Self::MAX {
            Ok(Self::of(value as u64))
        } else {
            Err(StreamIdError)
        }
    }
}

impl TryFrom<usize> for StreamId {
    type Error = StreamIdError;

    fn try_from(value: usize) -> (r: Result<Self, Self::Error>) {
        Self::new(value as u64)
    }
}

impl TryFromSpecImpl<usize> for StreamId {
    open spec fn obeys_try_from_spec() -> bool {
        true
    }

    open spec fn try_from_spec(value: usize) -> Result<Self, Self::Error> {
        if value <= Self::MAX {
            Ok(Self::of(value as u64))
        } else {
            Err(StreamIdError)
        }
    }
}

/// The lowest bit of a stream ID tells who opened the stream, the next one its directionality.
pub proof fn law_stream_id_bits(id: StreamId, raw: u64)
    requires
        id@ == raw,
    ensures
        id.by_server() <==> raw & 1 == 1,
        id.one_way() <==> raw & 2 == 2,
        StreamId::MAX == 0x3fff_ffff_ffff_ffff,
{
    assert((raw & 1 == 1) == (raw % 2 == 1)) by (bit_vector);
    assert((raw & 2 == 2) == ((raw / 2) % 2 == 1)) by (bit_vector);
}

/// A number becomes a stream ID with this value, if it has no more than sixty-two bits,
/// and a stream ID the number with its lowest bits.
pub proof fn law_stream_ids_are_numbers(
    id: StreamId,
    raw: u64,
    small: u32,
    wide: u128,
    size: usize,
)
    requires
        id@ == raw,
    ensures
        StreamId::of(raw)@ == raw,
        <StreamId as FromSpec<u32>>::from_spec(small)@ == small,
        <StreamId as FromSpec<u16>>::from_spec(small as u16)@ == small as u16,
        <StreamId as FromSpec<u8>>::from_spec(small as u8)@ == small as u8,
        <u64 as FromSpec<StreamId>>::from_spec(id) == raw,
        <u128 as FromSpec<StreamId>>::from_spec(id) == raw,
        <u32 as FromSpec<StreamId>>::from_spec(id) == raw as u32,
        <u16 as FromSpec<StreamId>>::from_spec(id) == raw as u16,
        <u8 as FromSpec<StreamId>>::from_spec(id) == raw as u8,
        <StreamId as TryFromSpec<u64>>::try_from_spec(raw) is Ok <==> raw < 0x4000_0000_0000_0000,
        <StreamId as TryFromSpec<u64>>::try_from_spec(raw) matches Ok(made) ==> made@ == raw,
        <StreamId as TryFromSpec<u128>>::try_from_spec(wide) is Ok <==> wide
            < 0x4000_0000_0000_0000,
        <StreamId as TryFromSpec<u128>>::try_from_spec(wide) matches Ok(made) ==> made@ == wide,
        <StreamId as TryFromSpec<usize>>::try_from_spec(size) is Ok <==> size
            < 0x4000_0000_0000_0000,
        <StreamId as TryFromSpec<usize>>::try_from_spec(size) matches Ok(made) ==> made@ == size,
{
}

} // verus!
