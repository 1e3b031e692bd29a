//! Fixed-size keys derived from names, labels and secrets.
use parity_scale_codec::Encode;
use vstd::prelude::*;

verus! {

/// A hashed name.
pub type NameHash = [u8; 32];

/// A hashed subname label.
pub type LabelHash = [u8; 32];

/// A hashed (name, secret) pair, as committed before a reveal.
pub type CommitmentHash = [u8; 32];

/// The 32-byte BLAKE2b digest of a byte string.
pub uninterp spec fn blake2_256_of(data: Seq<u8>) -> Seq<u8>;

/// The `n` low bytes of `x`, least significant first.
pub open spec fn le_bytes(x: nat, n: nat) -> Seq<u8>
    decreases n,
{
    if n == 0 {
        Seq::empty()
    } else {
        seq![(x % 256) as u8] + le_bytes(x / 256, (n - 1) as nat)
    }
}

/// The SCALE compact encoding of a collection length `n` (at most `u32::MAX`):
/// one, two or four little-endian bytes holding `n` shifted left by two with
/// the mode in the low bits, or the byte 3 followed by `n` in four bytes.
pub open spec fn compact_len_prefix(n: nat) -> Seq<u8> {
    if n < 64 {
        le_bytes(n * 4, 1)
    } else if n < 16384 {
        le_bytes(n * 4 + 1, 2)
    } else if n < 1073741824 {
        le_bytes(n * 4 + 2, 4)
    } else {
        seq![3u8] + le_bytes(n, 4)
    }
}

/// The SCALE encoding of the pair `(name, secret)`: the name's length prefix,
/// its bytes, then the secret in eight little-endian bytes.
pub open spec fn scale_pair_of(name: Seq<u8>, secret: u64) -> Seq<u8> {
    compact_len_prefix(name.len()) + name + le_bytes(secret as nat, 8)
}

/// Relies on `sp_core_hashing::blake2_256`: the BLAKE2b-256 digest of the bytes,
/// which depends on the bytes alone.
#[verifier::external_body]
fn blake2_256(data: &[u8]) -> (r: [u8; 32])
    ensures
        r@ == blake2_256_of(data@),
{
    sp_core_hashing::blake2_256(data)
}

/// Relies on `parity_scale_codec::Encode` for the tuple `(Vec<u8>, u64)`: the
/// fields in order, the bytes after a compact length prefix, the integer in
/// little-endian order. It panics on a length above `u32::MAX`.
#[verifier::external_body]
fn encode_name_secret(name: &Vec<u8>, secret: u64) -> (r: Vec<u8>)
    requires
        name@.len() <= u32::MAX,
    ensures
        r@ == scale_pair_of(name@, secret),
{
    (name.clone(), secret).encode()
}

/// The hash of a name or of a label.
pub open spec fn name_hash_of(name: Seq<u8>) -> Seq<u8> {
    blake2_256_of(name)
}

/// The hash under which `(name, secret)` is committed.
pub open spec fn commitment_hash_of(name: Seq<u8>, secret: u64) -> Seq<u8> {
    blake2_256_of(scale_pair_of(name, secret))
}

/// The hash that a subname resolves under: the digest of the parent's hash
/// followed by the label's hash.
pub open spec fn sub_name_hash_of(parent: Seq<u8>, label: Seq<u8>) -> Seq<u8> {
    blake2_256_of(parent + label)
}

/// The hash of a name.
pub fn name_hash(name: &[u8]) -> (r: NameHash)
    ensures
        r@ == name_hash_of(name@),
{
    blake2_256(name)
}

/// The hash of a subname label.
pub fn label_hash(label: &[u8]) -> (r: LabelHash)
    ensures
        r@ == name_hash_of(label@),
{
    blake2_256(label)
}

/// The commitment hash of `(name, secret)`.
pub fn commitment_hash(name: &Vec<u8>, secret: u64) -> (r: CommitmentHash)
    requires
        name@.len() <= u32::MAX,
    ensures
        r@ == commitment_hash_of(name@, secret),
{
    let encoded = encode_name_secret(name, secret);
    blake2_256(encoded.as_slice())
}

/// The hash of the subname `label` under the name `parent`.
pub fn sub_name_hash(parent: &NameHash, label: &LabelHash) -> (r: NameHash)
    ensures
        r@ == sub_name_hash_of(parent@, label@),
{
    let mut joined: Vec<u8> = Vec::with_capacity(64);
    let mut i: usize = 0;
    while i < 32
        invariant
            i <= 32,
            joined@ == parent@.subrange(0, i as int),
        decreases 32 - i,
    {
        joined.push(parent[i]);
        i = i + 1;
    }
    assert(joined@ =~= parent@);
    let mut j: usize = 0;
    while j < 32
        invariant
            j <= 32,
            joined@ == parent@ + label@.subrange(0, j as int),
        decreases 32 - j,
    {
        joined.push(label[j]);
        j = j + 1;
    }
    assert(joined@ =~= parent@ + label@);
    blake2_256(joined.as_slice())
}

/// Byte equality of two hashes.
pub fn hash_eq(a: &[u8; 32], b: &[u8; 32]) -> (r: bool)
    ensures
        r == (*a == *b),
{
    let mut i: usize = 0;
    while i < 32
        invariant
            i <= 32,
            forall|k: int| 0 <= k < i ==> a[k] == b[k],
        decreases 32 - i,
    {
        if a[i] != b[i] {
            return false;
        }
        i = i + 1;
    }
    assert(*a =~= *b);
    true
}

} // verus!
