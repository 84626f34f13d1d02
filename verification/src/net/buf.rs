use vstd::prelude::*;
use vstd::slice::slice_subrange;

verus! {

/// An immutable, read-only buffer.
pub trait Buf {
    /// The data of the buffer.
    open spec fn data(&self) -> Seq<u8> {
        arbitrary()
    }

    /// Returns buffer's length.
    fn len(&self) -> (r: usize)
        ensures
            r == self.data().len(),
    ;

    /// Returns `true` if buffer is empty.
    fn is_empty(&self) -> (r: bool)
        ensures
            r == (self.data().len() == 0),
    {
        self.len() == 0
    }

    /// Returns an immutable `[..len()]` slice.
    fn as_slice(&self) -> (r: &[u8])
        ensures
            r@ == self.data(),
    ;
}

/// A mutable buffer.
pub trait BufMut {
    /// All bytes of the buffer, as many as its capacity.
    open spec fn all_bytes(&self) -> Seq<u8> {
        arbitrary()
    }

    /// Returns buffer's capacity.
    fn capacity(&self) -> (r: usize)
        ensures
            r == self.all_bytes().len(),
    ;

    /// Returns a mutable `[..capacity()]` slice.
    fn as_slice(&mut self) -> (r: &mut [u8])
        ensures
            r@ == old(self).all_bytes(),
            final(self).all_bytes() == final(r)@,
            final(self).all_bytes().len() == old(self).all_bytes().len(),
    ;
}

/// A constant-sized buffer,
/// implements both [Buf] and [BufMut].
pub struct ConstBuf<const SIZE: usize> {
    storage: Storage<SIZE>,
    len: usize,
}

enum Storage<const SIZE: usize> {
    Stack([u8; SIZE]),
    Heap(Box<[u8; SIZE]>),
}

impl<const SIZE: usize> ConstBuf<SIZE> {
    /// All bytes of the buffer, as many as its capacity.
    pub closed spec fn all(&self) -> Seq<u8> {
        self.storage.all()
    }

    /// The length of the data.
    pub closed spec fn filled(&self) -> nat {
        self.len as nat
    }

    #[verifier::type_invariant]
    spec fn inv(&self) -> bool {
        self.len <= SIZE
    }

    /// Creates a new stack allocated buffer.
    pub fn new_stack() -> (r: Self)
        ensures
            r.filled() == 0,
            r.all() == Seq::new(SIZE as nat, |i: int| 0u8),
    {
        let r = Self {
            storage: Storage::Stack(vstd::array::array_fill_for_copy_types(0u8)),
            len: 0,
        };
        assert(r.all() =~= Seq::new(SIZE as nat, |i: int| 0u8));
        r
    }

    /// Creates a new heap allocated buffer.
    pub fn new_heap() -> (r: Self)
        ensures
            r.filled() == 0,
            r.all() == Seq::new(SIZE as nat, |i: int| 0u8),
    {
        let r = Self {
            storage: Storage::Heap(Box::new(vstd::array::array_fill_for_copy_types(0u8))),
            len: 0,
        };
        assert(r.all() =~= Seq::new(SIZE as nat, |i: int| 0u8));
        r
    }
}

impl<const SIZE: usize> Storage<SIZE> {
    spec fn all(&self) -> Seq<u8> {
        match *self {
            Storage::Stack(array) => array@,
            Storage::Heap(array) => array@,
        }
    }

    fn all_bytes(&self) -> (r: &[u8])
        ensures
            r@.len() == SIZE,
            r@ == self.all(),
    {
        match self {
            Storage::Stack(array) => array.as_slice(),
            Storage::Heap(array) => array.as_slice(),
        }
    }
}

impl<const SIZE: usize> Storage<SIZE> {
    fn bytes_mut(&mut self) -> (r: &mut [u8])
        ensures
            r@ == old(self).all(),
            final(self).all() == final(r)@,
            old(self).all().len() == SIZE,
            final(self).all().len() == SIZE,
        no_unwind
    {
        match self {
            Storage::Stack(array) => array,
            Storage::Heap(array) => {
                let array: &mut [u8; SIZE] = &mut **array;
                array
            },
        }
    }
}

impl<const SIZE: usize> Buf for ConstBuf<SIZE> {
    open spec fn data(&self) -> Seq<u8> {
        self.all().take(self.filled() as int)
    }

    fn len(&self) -> (r: usize) {
        proof {
            use_type_invariant(&*self);
        }
        let _ = self.storage.all_bytes();
        self.len
    }

    fn as_slice(&self) -> (r: &[u8]) {
        proof {
            use_type_invariant(&*self);
        }
        slice_subrange(self.storage.all_bytes(), 0, self.len)
    }
}

impl<const SIZE: usize> BufMut for ConstBuf<SIZE> {
    open spec fn all_bytes(&self) -> Seq<u8> {
        self.all()
    }

    fn capacity(&self) -> (r: usize) {
        let _ = self.storage.all_bytes();
        SIZE
    }

    fn as_slice(&mut self) -> (r: &mut [u8]) {
        proof {
            use_type_invariant(&*self);
        }
        self.storage.bytes_mut()
    }
}

} // verus!
