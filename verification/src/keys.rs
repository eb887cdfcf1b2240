//! Fixed-width byte strings: account keys, signatures and block hashes.

use vstd::prelude::*;

verus! {

/// Bytes in an account key.
pub const PUBKEY_BYTES: usize = 32;

/// Bytes in a transaction signature.
pub const SIGNATURE_BYTES: usize = 64;

/// Bytes in a block or entry hash.
pub const HASH_BYTES: usize = 32;

/// The first `N` bytes of `bytes`, as an array.
fn copy_to_array<const N: usize>(bytes: &[u8]) -> (array: [u8; N])
    requires
        bytes@.len() == N,
    ensures
        array@ == bytes@,
{
    let mut array: [u8; N] = [0u8; N];
    let mut i: usize = 0;
    while i < N
        invariant
            i <= N,
            bytes@.len() == N,
            array@.len() == N,
            forall|j: int| 0 <= j < i ==> array@[j] == bytes@[j],
        decreases N - i,
    {
        array[i] = bytes[i];
        i += 1;
    }
    assert(array@ =~= bytes@);
    array
}

/// Whether two byte strings are the same.
pub fn bytes_equal(a: &[u8], b: &[u8]) -> (same: bool)
    ensures
        same == (a@ == b@),
{
    if a.len() != b.len() {
        return false;
    }
    let mut i: usize = 0;
    while i < a.len()
        invariant
            i <= a@.len(),
            a@.len() == b@.len(),
            forall|j: int| 0 <= j < i ==> a@[j] == b@[j],
        decreases a@.len() - i,
    {
        if a[i] != b[i] {
            return false;
        }
        i += 1;
    }
    assert(a@ =~= b@);
    true
}

/// The public key of an account.
#[derive(Debug, Clone, Copy, Hash)]
pub struct Pubkey {
    bytes: [u8; 32],
}

impl View for Pubkey {
    type V = Seq<u8>;

    closed spec fn view(&self) -> Seq<u8> {
        self.bytes@
    }
}

impl Pubkey {
    /// The key with the given bytes.
    pub fn new_from_array(bytes: [u8; 32]) -> (key: Self)
        ensures
            key@ == bytes@,
    {
        Pubkey { bytes }
    }

    /// The bytes of the key.
    pub fn to_bytes(&self) -> (bytes: [u8; 32])
        ensures
            bytes@ == self@,
    {
        self.bytes
    }

    /// The key that a byte string spells: one exactly when the string has the width of a key.
    pub fn try_from_slice(bytes: &[u8]) -> (key: Option<Self>)
        ensures
            key is Some <==> bytes@.len() == PUBKEY_BYTES,
            key matches Some(k) ==> k@ == bytes@,
    {
        if bytes.len() == PUBKEY_BYTES {
            Some(Pubkey { bytes: copy_to_array::<32>(bytes) })
        } else {
            None
        }
    }

    /// A key has a fixed width, and is determined by its bytes.
    pub broadcast proof fn lemma_view(self, other: Self)
        ensures
            #![trigger self.view(), other.view()]
            self@.len() == PUBKEY_BYTES,
            self@ == other@ ==> self == other,
    {
        if self@ == other@ {
            assert(self.bytes =~= other.bytes);
        }
    }
}

impl PartialEq for Pubkey {
    fn eq(&self, other: &Self) -> (same: bool) {
        bytes_equal(self.bytes.as_slice(), other.bytes.as_slice())
    }
}

impl vstd::std_specs::cmp::PartialEqSpecImpl for Pubkey {
    open spec fn obeys_eq_spec() -> bool {
        true
    }

    open spec fn eq_spec(&self, other: &Self) -> bool {
        self@ == other@
    }
}

impl Eq for Pubkey {
}

impl Default for Pubkey {
    /// The key of zeros.
    fn default() -> (key: Self)
        ensures
            key@ == Seq::new(32, |i: int| 0u8),
    {
        let key = Pubkey { bytes: [0u8; 32] };
        assert(key@ =~= Seq::new(32, |i: int| 0u8));
        key
    }
}

/// The signature of a transaction.
#[derive(Debug, Clone, Copy, Hash)]
pub struct Signature {
    bytes: [u8; 64],
}

impl View for Signature {
    type V = Seq<u8>;

    closed spec fn view(&self) -> Seq<u8> {
        self.bytes@
    }
}

impl Signature {
    /// The signature with the given bytes.
    pub fn new_from_array(bytes: [u8; 64]) -> (signature: Self)
        ensures
            signature@ == bytes@,
    {
        Signature { bytes }
    }

    /// The bytes of the signature.
    pub fn to_bytes(&self) -> (bytes: [u8; 64])
        ensures
            bytes@ == self@,
    {
        self.bytes
    }

    /// The signature that a byte string spells: one exactly when the string has the width of a signature.
    pub fn try_from_slice(bytes: &[u8]) -> (signature: Option<Self>)
        ensures
            signature is Some <==> bytes@.len() == SIGNATURE_BYTES,
            signature matches Some(s) ==> s@ == bytes@,
    {
        if bytes.len() == SIGNATURE_BYTES {
            Some(Signature { bytes: copy_to_array::<64>(bytes) })
        } else {
            None
        }
    }

    /// A signature has a fixed width, and is determined by its bytes.
    pub broadcast proof fn lemma_view(self, other: Self)
        ensures
            #![trigger self.view(), other.view()]
            self@.len() == SIGNATURE_BYTES,
            self@ == other@ ==> self == other,
    {
        if self@ == other@ {
            assert(self.bytes =~= other.bytes);
        }
    }
}

impl PartialEq for Signature {
    fn eq(&self, other: &Self) -> (same: bool) {
        bytes_equal(self.bytes.as_slice(), other.bytes.as_slice())
    }
}

impl vstd::std_specs::cmp::PartialEqSpecImpl for Signature {
    open spec fn obeys_eq_spec() -> bool {
        true
    }

    open spec fn eq_spec(&self, other: &Self) -> bool {
        self@ == other@
    }
}

impl Eq for Signature {
}

/// The hash of a block or an entry.
#[derive(Debug, Clone, Copy)]
pub struct BlockHash {
    bytes: [u8; 32],
}

impl View for BlockHash {
    type V = Seq<u8>;

    closed spec fn view(&self) -> Seq<u8> {
        self.bytes@
    }
}

impl BlockHash {
    /// The hash with the given bytes.
    pub fn new_from_array(bytes: [u8; 32]) -> (hash: Self)
        ensures
            hash@ == bytes@,
    {
        BlockHash { bytes }
    }

    /// The bytes of the hash.
    pub fn to_bytes(&self) -> (bytes: [u8; 32])
        ensures
            bytes@ == self@,
    {
        self.bytes
    }

    /// The hash that a byte string spells: one exactly when the string has the width of a hash.
    pub fn try_from_slice(bytes: &[u8]) -> (hash: Option<Self>)
        ensures
            hash is Some <==> bytes@.len() == HASH_BYTES,
            hash matches Some(s) ==> s@ == bytes@,
    {
        if bytes.len() == HASH_BYTES {
            Some(BlockHash { bytes: copy_to_array::<32>(bytes) })
        } else {
            None
        }
    }

    /// A hash has a fixed width, and is determined by its bytes.
    pub broadcast proof fn lemma_view(self, other: Self)
        ensures
            #![trigger self.view(), other.view()]
            self@.len() == HASH_BYTES,
            self@ == other@ ==> self == other,
    {
        if self@ == other@ {
            assert(self.bytes =~= other.bytes);
        }
    }
}

impl PartialEq for BlockHash {
    fn eq(&self, other: &Self) -> (same: bool) {
        bytes_equal(self.bytes.as_slice(), other.bytes.as_slice())
    }
}

impl vstd::std_specs::cmp::PartialEqSpecImpl for BlockHash {
    open spec fn obeys_eq_spec() -> bool {
        true
    }

    open spec fn eq_spec(&self, other: &Self) -> bool {
        self@ == other@
    }
}

impl Eq for BlockHash {
}

} // verus!
