use crate::backend::cid::{ConnectionId, IdError, MAX_CID_LEN};
use crate::time::Duration;
use crate::util::random;
use std::sync::Arc;
use vstd::prelude::*;

verus! {

/// Metadata that a connection ID holds.
pub trait ConnectionIdMeta {
    /// Returns a CPU Core ID, if present.
    ///
    /// Core ID is **required** for server-side routing in thread-per-core async runtimes like
    /// [monoio](https://github.com/bytedance/monoio),
    /// where multiple sockets (socket per core) bind on the same port.
    ///
    /// Without the Core ID it's impossible to determine which socket, CPU core should process the packet.
    ///
    /// It is not neccessary for client applications, or single-thread/work-stealing async runtimes.
    fn core_id(&self) -> Option<u16>;
}

impl ConnectionIdMeta for () {
    fn core_id(&self) -> (r: Option<u16>)
        ensures
            r is None,
    {
        None
    }
}

/// A local source connection IDs generator.
pub trait ConnectionIdGenerator {
    type Meta: ConnectionIdMeta;

    /// The length of generated connection IDs.
    open spec fn spec_cid_len(&self) -> nat {
        arbitrary()
    }

    /// The bytes could be those of a connection ID of this generator.
    open spec fn accepts(&self, cid: Seq<u8>) -> bool {
        arbitrary()
    }

    /// A decrypted connection ID, `None` if it cannot be decrypted.
    open spec fn decrypted(&self, cid: Seq<u8>) -> Option<Seq<u8>> {
        arbitrary()
    }

    /// Generates a new source connection ID.
    ///
    /// Connection IDs **must not** contain any information that can be used by
    /// an external observer to correlate them with other connection IDs for the same
    /// connection.
    ///
    /// They **must** have high entropy.
    fn generate(&self) -> (r: ConnectionId)
        ensures
            r@.len() == self.spec_cid_len(),
            self.accepts(r@),
    ;

    /// Returns the length of generated connection IDs.
    ///
    /// Must be constant, may be zero.
    fn cid_len(&self) -> (r: usize)
        ensures
            r == self.spec_cid_len(),
    ;

    /// Quickly determines whether `cid` could have been generated by this generator.
    ///
    /// False positives are permitted, but they might increase the cost of handling invalid packets.
    ///
    /// **Must not** produce false negatives.
    fn validate(&self, cid: &ConnectionId) -> (r: bool)
        ensures
            r == self.accepts(cid@),
    ;

    /// Decrypts a connection ID.
    ///
    /// Noop if it was not encrypted.
    fn decrypt(&self, cid: &mut ConnectionId) -> (r: Result<(), IdError>)
        ensures
            r is Ok <==> self.decrypted(old(cid)@) is Some,
            r is Ok ==> self.decrypted(old(cid)@) == Some(final(cid)@),
    ;

    /// Returns connection ID's metadata.
    fn parse(&self, cid: &ConnectionId) -> Result<Self::Meta, IdError>;
}

/// A simple [ConnectionIdGenerator] implementation,
/// generates purely random connection IDs.
pub struct RandomIdGenerator {
    length: usize,
}

impl RandomIdGenerator {
    #[verifier::type_invariant]
    spec fn inv(&self) -> bool {
        self.length <= MAX_CID_LEN
    }

    /// The length of generated connection IDs.
    pub closed spec fn length(&self) -> nat {
        self.length as nat
    }

    /// Creates a new instance with a specified Connection ID length,
    /// which may be zero.
    pub fn new(length: usize) -> (r: Self)
        requires
            length <= MAX_CID_LEN,
        ensures
            r.length() == length,
    {
        Self { length }
    }
}

impl ConnectionIdGenerator for RandomIdGenerator {
    type Meta = ();

    open spec fn spec_cid_len(&self) -> nat {
        self.length()
    }

    open spec fn accepts(&self, cid: Seq<u8>) -> bool {
        cid.len() == self.length()
    }

    open spec fn decrypted(&self, cid: Seq<u8>) -> Option<Seq<u8>> {
        Some(cid)
    }

    fn generate(&self) -> (r: ConnectionId) {
        proof {
            use_type_invariant(&*self);
        }
        random_id(self.length)
    }

    fn cid_len(&self) -> (r: usize) {
        self.length
    }

    fn validate(&self, cid: &ConnectionId) -> (r: bool) {
        self.length == cid.len()
    }

    fn decrypt(&self, _cid: &mut ConnectionId) -> (r: Result<(), IdError>) {
        Ok(())
    }

    fn parse(&self, _cid: &ConnectionId) -> (r: Result<(), IdError>)
        ensures
            r is Ok,
    {
        Ok(())
    }
}

/// A [ConnectionIdGenerator] implementation that
/// simply generates random [ConnectionId] without any additional information.
pub struct RandConnIdGenerator {
    length: usize,
}

impl RandConnIdGenerator {
    #[verifier::type_invariant]
    spec fn inv(&self) -> bool {
        self.length <= MAX_CID_LEN
    }

    /// The length of generated connection IDs.
    pub closed spec fn length(&self) -> nat {
        self.length as nat
    }

    /// Create a new instance with a specified Connection ID length in bytes.
    pub fn new(length: usize) -> (r: Self)
        requires
            length <= MAX_CID_LEN,
        ensures
            r.length() == length,
    {
        Self { length }
    }
}

impl ConnectionIdGenerator for RandConnIdGenerator {
    type Meta = ();

    open spec fn spec_cid_len(&self) -> nat {
        self.length()
    }

    open spec fn accepts(&self, cid: Seq<u8>) -> bool {
        cid.len() == self.length()
    }

    open spec fn decrypted(&self, cid: Seq<u8>) -> Option<Seq<u8>> {
        Some(cid)
    }

    fn generate(&self) -> (r: ConnectionId) {
        proof {
            use_type_invariant(&*self);
        }
        random_id(self.length)
    }

    fn cid_len(&self) -> (r: usize) {
        self.length
    }

    fn validate(&self, cid: &ConnectionId) -> (r: bool) {
        self.length == cid.len()
    }

    fn decrypt(&self, _cid: &mut ConnectionId) -> (r: Result<(), IdError>) {
        Ok(())
    }

    fn parse(&self, _cid: &ConnectionId) -> (r: Result<(), IdError>)
        ensures
            r is Ok,
    {
        Ok(())
    }
}

fn random_id(length: usize) -> (r: ConnectionId)
    requires
        length <= MAX_CID_LEN,
    ensures
        r@.len() == length,
{
    let bytes: Vec<u8> = random::octets(length);
    match ConnectionId::try_from_slice(bytes.as_slice()) {
        Some(id) => id,
        None => ConnectionId::default(),
    }
}

/// A connection ID that no generator could have made.
#[derive(Debug, Clone, Copy, PartialEq, Eq, Structural)]
pub struct InvalidCid;

/// Raw bytes are a connection ID of the generator, as they are or once decrypted.
pub open spec fn is_valid_cid<T: ConnectionIdGenerator>(generator: T, cid: Seq<u8>) -> bool {
    &&& cid.len() <= MAX_CID_LEN
    &&& generator.accepts(cid) || (generator.decrypted(cid) matches Some(decrypted)
        && generator.accepts(decrypted))
}

/// Checks whether raw bytes could be a connection ID of a generator.
pub fn check_cid<T: ConnectionIdGenerator>(generator: &T, cid: &[u8]) -> (r: Result<(), InvalidCid>)
    ensures
        r is Ok <==> is_valid_cid(*generator, cid@),
{
    let Some(mut cid) = ConnectionId::try_from_slice(cid) else {
        return Err(InvalidCid);
    };
    if generator.validate(&cid) {
        return Ok(());
    }
    if generator.decrypt(&mut cid).is_err() {
        return Err(InvalidCid);
    }
    if generator.validate(&cid) {
        Ok(())
    } else {
        Err(InvalidCid)
    }
}

/// A [ConnectionIdGenerator] for a QUIC implementation that asks for the length
/// and for the lifetime of the connection IDs, and checks them as raw bytes.
///
/// Clones share the generator.
pub struct ConnectionIdGeneratorAdapter<T: ConnectionIdGenerator> {
    inner: Arc<T>,
    length: usize,
    lifetime: Option<Duration>,
}

impl<T: ConnectionIdGenerator> ConnectionIdGeneratorAdapter<T> {
    /// The adapted generator.
    pub closed spec fn generator(&self) -> T {
        *self.inner
    }

    /// How long a connection ID lives.
    pub closed spec fn lifetime(&self) -> Option<Duration> {
        self.lifetime
    }

    #[verifier::type_invariant]
    spec fn inv(&self) -> bool {
        self.length == self.inner.spec_cid_len()
    }

    /// Adapts `inner`, whose connection IDs live for `lifetime`.
    pub fn new(inner: T, lifetime: Option<Duration>) -> (r: Self)
        ensures
            r.generator() == inner,
            r.lifetime() == lifetime,
    {
        let length: usize = inner.cid_len();
        Self { inner: Arc::new(inner), length, lifetime }
    }

    /// Generates a connection ID.
    pub fn generate_cid(&self) -> (r: ConnectionId)
        ensures
            r@.len() == self.generator().spec_cid_len(),
            is_valid_cid(self.generator(), r@),
            self.generator().accepts(r@),
    {
        let cid = self.inner.generate();
        let length: usize = cid.len();
        assert(length <= MAX_CID_LEN);
        cid
    }

    /// Checks whether raw bytes could be a connection ID of the generator.
    pub fn validate(&self, cid: &[u8]) -> (r: Result<(), InvalidCid>)
        ensures
            r is Ok <==> is_valid_cid(self.generator(), cid@),
    {
        check_cid(&*self.inner, cid)
    }

    /// Returns the length of generated connection IDs.
    pub fn cid_len(&self) -> (r: usize)
        ensures
            r == self.generator().spec_cid_len(),
    {
        proof {
            use_type_invariant(&*self);
        }
        self.length
    }

    /// Returns how long a connection ID lives.
    pub fn cid_lifetime(&self) -> (r: Option<Duration>)
        ensures
            r == self.lifetime(),
    {
        self.lifetime
    }
}

impl<T: ConnectionIdGenerator> Clone for ConnectionIdGeneratorAdapter<T> {
    fn clone(&self) -> (r: Self)
        ensures
            r.generator() == self.generator(),
            r.lifetime() == self.lifetime(),
    {
        proof {
            use_type_invariant(self);
        }
        Self { inner: self.inner.clone(), length: self.length, lifetime: self.lifetime }
    }
}

/// Raw bytes are a connection ID if the generator accepts them, as they are or decrypted,
/// and never if they have more than twenty bytes.
pub proof fn law_connection_ids_are_accepted<T: ConnectionIdGenerator>(
    generator: T,
    cid: Seq<u8>,
)
    ensures
        cid.len() > 20 ==> !is_valid_cid(generator, cid),
        cid.len() <= 20 && generator.accepts(cid) ==> is_valid_cid(generator, cid),
        cid.len() <= 20 ==> (generator.decrypted(cid) matches Some(decrypted)
            ==> generator.accepts(decrypted) ==> is_valid_cid(generator, cid)),
        is_valid_cid(generator, cid) && !generator.accepts(cid) ==> (generator.decrypted(
            cid,
        ) matches Some(decrypted) && generator.accepts(decrypted)),
{
}

/// Random connection IDs are known by their length alone, and are not encrypted.
pub proof fn law_random_ids_are_known_by_their_length(
    random: RandomIdGenerator,
    other: RandConnIdGenerator,
    cid: Seq<u8>,
)
    ensures
        random.accepts(cid) <==> cid.len() == random.spec_cid_len(),
        other.accepts(cid) <==> cid.len() == other.spec_cid_len(),
        random.spec_cid_len() == random.length(),
        other.spec_cid_len() == other.length(),
        random.decrypted(cid) == Some(cid),
        other.decrypted(cid) == Some(cid),
{
}

} // verus!
