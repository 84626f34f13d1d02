//! Keys for cryptography.

use crate::util::random;
use vstd::prelude::*;

verus! {

/// Key-store, provides active and replaced keys,
/// allows active key rotation.
pub trait KeyStore {
    /// Returns an active key
    /// that should be used for further operations.
    fn active(&self) -> &[u8];

    /// Returns passive keys.
    ///
    /// These keys are going to be used only
    /// when the active key fails (for example at decrypting, hash results, etc).
    ///
    /// These keys will never be used for encryption and active cryptography.
    fn passive(&self) -> Vec<&[u8]>;

    /// Returns the current revision of the keystore.
    /// If this number changes, the active and passive keys should be fetched again.
    fn revision(&self) -> u64;
}

/// A simple [KeyStore] implementation.
///
/// Randomly generates a single key,
/// that lives and is used as long as `Self` exists.
pub struct RandomKey<const SIZE: usize> {
    key: [u8; SIZE],
}

impl<const SIZE: usize> View for RandomKey<SIZE> {
    type V = Seq<u8>;

    closed spec fn view(&self) -> Seq<u8> {
        self.key@
    }
}

impl<const SIZE: usize> RandomKey<SIZE> {
    /// Makes a key of bytes that the system was asked to fill.
    ///
    /// Returns `None` if the system has not filled them.
    pub fn from_filled(bytes: [u8; SIZE], is_filled: bool) -> (r: Option<Self>)
        ensures
            r is Some <==> is_filled,
            r matches Some(key) ==> key@ == bytes@,
    {
        if is_filled {
            Some(Self { key: bytes })
        } else {
            None
        }
    }

    /// Generates a key. Returns `None` if the system provides no random bytes.
    ///
    /// Which bytes the key has, and whether there are any, is left to the system.
    pub fn generate() -> (r: Option<Self>)
        ensures
            r matches Some(key) ==> key@.len() == SIZE,
    {
        let mut key: [u8; SIZE] = vstd::array::array_fill_for_copy_types(0u8);
        let is_filled = random::fill_from_system(&mut key);
        Self::from_filled(key, is_filled)
    }

    /// Erases the key.
    pub fn erase(&mut self)
        ensures
            final(self)@ == Seq::new(SIZE as nat, |i: int| 0u8),
    {
        self.key = vstd::array::array_fill_for_copy_types(0u8);
        assert(self@ =~= Seq::new(SIZE as nat, |i: int| 0u8));
    }
}

impl<const SIZE: usize> KeyStore for RandomKey<SIZE> {
    fn active(&self) -> (r: &[u8])
        ensures
            r@ == self@,
    {
        self.key.as_slice()
    }

    fn passive(&self) -> (r: Vec<&[u8]>)
        ensures
            r@.map_values(|key: &[u8]| key@) == seq![self@],
    {
        let mut keys: Vec<&[u8]> = Vec::new();
        keys.push(self.key.as_slice());
        assert(keys@.map_values(|key: &[u8]| key@) =~= seq![self@]);
        keys
    }

    fn revision(&self) -> (r: u64)
        ensures
            r == 0,
    {
        0
    }
}

} // verus!
