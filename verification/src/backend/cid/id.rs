use crate::util::text;
use vstd::prelude::*;
use vstd::slice::slice_subrange;
use vstd::std_specs::cmp::PartialEqSpec;
use vstd::std_specs::iter::IteratorSpec;
use vstd::string::StringExecFns;

verus! {

/// Maximum connection ID length (RFC 9000).
pub const MAX_CID_LEN: usize = 20;

/// A Connection ID.
///
/// This struct holds raw bytes of a connection ID.
#[derive(Debug, Clone, Copy)]
pub struct ConnectionId {
    array: [u8; 20],
    len: usize,
}

impl View for ConnectionId {
    type V = Seq<u8>;

    closed spec fn view(&self) -> Seq<u8> {
        self.array@.take(self.len as int)
    }
}

impl ConnectionId {
    #[verifier::type_invariant]
    spec fn inv(&self) -> bool {
        self.len <= MAX_CID_LEN
    }

    /// Creates a Connection ID from `slice`.
    ///
    /// Returns `None` if the `slice` length is greater than [MAX_CID_LEN].
    pub fn try_from_slice(slice: &[u8]) -> (r: Option<Self>)
        ensures
            r is Some <==> slice@.len() <= MAX_CID_LEN,
            r matches Some(id) ==> id@ == slice@,
    {
        if slice.len() > MAX_CID_LEN {
            return None;
        }
        let mut array: [u8; 20] = [0u8; 20];
        let mut i: usize = 0;
        while i < slice.len()
            invariant
                i <= slice@.len() <= MAX_CID_LEN,
                array@.len() == MAX_CID_LEN,
                forall|k: int| 0 <= k < i ==> array@[k] == slice@[k],
            decreases slice@.len() - i,
        {
            array[i] = slice[i];
            i = i + 1;
        }
        assert(array@.take(slice@.len() as int) =~= slice@);
        Some(Self { array, len: slice.len() })
    }

    /// Creates a Connection ID from iterator.
    ///
    /// Returns `None` if iterator length is greater than [MAX_CID_LEN].
    /// No more than one byte beyond that length is asked for.
    pub fn try_from_iter<I: Iterator<Item = u8>>(iter: I) -> (r: Option<Self>)
        ensures
            iter.obeys_prophetic_iter_laws() ==> (r is Some <==> iter.remaining().len()
                <= MAX_CID_LEN),
            iter.obeys_prophetic_iter_laws() ==> (r matches Some(id) ==> id@ == iter.remaining()),
    {
        let ghost all = iter.remaining();
        let ghost obeys = iter.obeys_prophetic_iter_laws();
        let mut bytes = iter;
        let mut array: [u8; 20] = [0u8; 20];
        let mut mark: usize = 0;
        assert(all.skip(0) =~= all);
        loop
            invariant
                mark <= MAX_CID_LEN,
                array@.len() == MAX_CID_LEN,
                obeys == iter.obeys_prophetic_iter_laws(),
                all == iter.remaining(),
                bytes.obeys_prophetic_iter_laws() == obeys,
                obeys ==> mark <= all.len() && bytes.remaining() == all.skip(mark as int),
                obeys ==> array@.take(mark as int) == all.take(mark as int),
            decreases MAX_CID_LEN - mark,
        {
            match bytes.next() {
                Some(byte) => {
                    if mark == MAX_CID_LEN {
                        return None;
                    }
                    array[mark] = byte;
                    mark = mark + 1;
                    proof {
                        if obeys {
                            assert(all.skip(mark - 1).drop_first() =~= all.skip(mark as int));
                            assert(array@.take(mark as int) =~= all.take(mark as int));
                        }
                    }
                },
                None => {
                    assert(obeys ==> all.take(mark as int) =~= all);
                    return Some(Self { array, len: mark });
                },
            }
        }
    }

    /// Returns connection ID as an immutable slice.
    pub fn as_slice(&self) -> (r: &[u8])
        ensures
            r@ == self@,
            r@.len() <= MAX_CID_LEN,
    {
        proof {
            use_type_invariant(&*self);
        }
        slice_subrange(self.array.as_slice(), 0, self.len)
    }

    /// Returns connection ID as a mutable slice.
    pub fn as_mut_slice(&mut self) -> (r: &mut [u8])
        ensures
            r@ == old(self)@,
            final(self)@ == final(r)@,
            final(self)@.len() == old(self)@.len(),
    {
        proof {
            use_type_invariant(&*self);
        }
        let length: usize = self.len;
        prefix_of(whole(&mut self.array), length)
    }

    /// Returns connection ID length.
    pub fn len(&self) -> (r: usize)
        ensures
            r == self@.len(),
            r <= MAX_CID_LEN,
    {
        proof {
            use_type_invariant(&*self);
        }
        self.len
    }

    /// Returns `true` if connection ID is empty.
    pub fn is_empty(&self) -> (r: bool)
        ensures
            r == (self@.len() == 0),
    {
        proof {
            use_type_invariant(&*self);
        }
        self.len == 0
    }

    /// Returns a connection ID of [MAX_CID_LEN] bytes.
    pub fn from_array(value: [u8; 20]) -> (r: Self)
        ensures
            r@ == value@,
    {
        assert(value@.take(20) =~= value@);
        Self { array: value, len: 20 }
    }

    /// Returns the bytes of the connection ID as a vector.
    pub fn to_vec(&self) -> (r: Vec<u8>)
        ensures
            r@ == self@,
            r@.len() <= MAX_CID_LEN,
    {
        vstd::slice::slice_to_vec(self.as_slice())
    }

    /// Returns the bytes of the connection ID in hexadecimal.
    pub fn to_text(&self) -> (r: String)
        ensures
            r@ == text::hex(self@),
    {
        let mut out = String::new();
        text::push_hex(&mut out, self.as_slice());
        assert(out@ =~= text::hex(self@));
        out
    }
}

fn whole(array: &mut [u8; 20]) -> (r: &mut [u8; 20])
    ensures
        r@ == old(array)@,
        final(array)@ == final(r)@,
    no_unwind
{
    array
}

fn prefix_of(array: &mut [u8; 20], length: usize) -> (r: &mut [u8])
    requires
        length <= MAX_CID_LEN,
    ensures
        r@ == old(array)@.take(length as int),
        final(array)@.take(length as int) == final(r)@,
        final(r)@.len() == length,
{
    let ghost end = *final(array);
    let slice: &mut [u8] = array;
    let (head, tail) = slice.split_at_mut(length);
    proof {
        assert(end@.len() == MAX_CID_LEN);
        assert(end@ == final(head)@ + tail@);
        assert(end@.take(length as int) =~= final(head)@);
    }
    head
}

impl PartialEq for ConnectionId {
    fn eq(&self, other: &Self) -> (r: bool) {
        let (a, b) = (self.as_slice(), other.as_slice());
        if a.len() != b.len() {
            return false;
        }
        let mut i: usize = 0;
        while i < a.len()
            invariant
                a@ == self@,
                b@ == other@,
                a@.len() == b@.len(),
                i <= a@.len(),
                forall|k: int| 0 <= k < i ==> a@[k] == b@[k],
            decreases a@.len() - i,
        {
            if a[i] != b[i] {
                return false;
            }
            i = i + 1;
        }
        assert(a@ =~= b@);
        true
    }
}

impl vstd::std_specs::cmp::PartialEqSpecImpl for ConnectionId {
    open spec fn obeys_eq_spec() -> bool {
        true
    }

    open spec fn eq_spec(&self, other: &Self) -> bool {
        self@ == other@
    }
}

impl Eq for ConnectionId {

}

impl Default for ConnectionId {
    fn default() -> (r: Self)
        ensures
            r@ == Seq::<u8>::empty(),
    {
        let r = Self { array: [0u8; 20], len: 0 };
        assert(r@ =~= Seq::<u8>::empty());
        r
    }
}

/// The specified Connection ID is invalid.
#[derive(Debug)]
pub struct IdError {
    /// The connection ID.
    pub original: ConnectionId,
    /// What is wrong with it.
    pub detail: String,
}

impl IdError {
    /// Returns the description of the error.
    pub fn message(&self) -> (r: String)
        ensures
            r@ == "connection-id '"@ + text::hex(self.original@) + "' is invalid: "@ + self.detail@,
    {
        let mut out = String::new();
        out.append("connection-id '");
        text::push_hex(&mut out, self.original.as_slice());
        out.append("' is invalid: ");
        out.append(self.detail.as_str());
        assert(out@ =~= "connection-id '"@ + text::hex(self.original@) + "' is invalid: "@
            + self.detail@);
        out
    }
}

/// Two connection IDs are the same one if and only if they have the same bytes.
pub proof fn law_connection_ids_are_their_bytes(a: ConnectionId, b: ConnectionId)
    ensures
        a.eq_spec(&b) <==> a@.len() == b@.len() && forall|i: int|
            0 <= i < a@.len() ==> #[trigger] a@[i] == b@[i],
{
    if a@.len() == b@.len() && (forall|i: int| 0 <= i < a@.len() ==> #[trigger] a@[i] == b@[i]) {
        assert(a@ =~= b@);
    }
}

} // verus!
