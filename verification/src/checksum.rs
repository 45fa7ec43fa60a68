//! Running checksums, computed by the `ahash` crate.

use vstd::prelude::*;
use ahash::AHasher;
use core::hash::Hasher;

verus! {

/// The hasher of the `ahash` crate.
#[verifier::external_type_specification]
#[verifier::external_body]
pub struct ExAHasher(ahash::AHasher);

/// What `AHasher::write` makes of a hasher when it writes `bytes`.
pub uninterp spec fn hasher_after_write(hasher: AHasher, bytes: Seq<u8>) -> AHasher;

/// What `AHasher::finish` returns for a hasher.
pub uninterp spec fn hasher_digest(hasher: AHasher) -> u64;

/// `AHasher::default`. Its keys are drawn once per process, so nothing is claimed of the
/// hasher.
#[verifier::external_body]
pub(crate) fn new_hasher() -> AHasher {
    AHasher::default()
}

/// `AHasher::clone`: the contract claims that the copy is equal to the hasher.
#[verifier::external_body]
pub(crate) fn copy_hasher(hasher: &AHasher) -> (copy: AHasher)
    ensures
        copy == *hasher,
{
    hasher.clone()
}

/// `AHasher::write`: the contract claims that the hasher afterwards depends on the hasher
/// before and on the bytes alone.
#[verifier::external_body]
pub(crate) fn write_bytes(hasher: &mut AHasher, bytes: &[u8])
    ensures
        *final(hasher) == hasher_after_write(*old(hasher), bytes@),
{
    hasher.write(bytes)
}

/// `AHasher::finish`: the contract claims that the digest depends on the hasher alone.
#[verifier::external_body]
pub(crate) fn digest(hasher: &AHasher) -> (checksum: u64)
    ensures
        checksum == hasher_digest(*hasher),
{
    hasher.finish()
}

/// The hasher after all of `writes`, in order.
pub open spec fn hasher_after_writes(hasher: AHasher, writes: Seq<Seq<u8>>) -> AHasher
    decreases writes.len(),
{
    if writes.len() == 0 {
        hasher
    } else {
        hasher_after_write(hasher_after_writes(hasher, writes.drop_last()), writes.last())
    }
}

/// One more write after all of `writes`.
pub proof fn lemma_one_more_write(hasher: AHasher, writes: Seq<Seq<u8>>, bytes: Seq<u8>)
    ensures
        hasher_after_writes(hasher, writes.push(bytes)) == hasher_after_write(
            hasher_after_writes(hasher, writes),
            bytes,
        ),
{
    assert(writes.push(bytes).drop_last() == writes);
}

/// Writes are done one after the other: none leave the hasher as it is, one is a single
/// write, and a list of writes that is split in two is the first part and then the second.
pub proof fn law_writes_in_order(
    hasher: AHasher,
    first: Seq<Seq<u8>>,
    second: Seq<Seq<u8>>,
    bytes: Seq<u8>,
)
    ensures
        hasher_after_writes(hasher, seq![]) == hasher,
        hasher_after_writes(hasher, seq![bytes]) == hasher_after_write(hasher, bytes),
        hasher_after_writes(hasher, first + second) == hasher_after_writes(
            hasher_after_writes(hasher, first),
            second,
        ),
    decreases second.len(),
{
    assert(seq![bytes].drop_last() == Seq::<Seq<u8>>::empty());
    assert(hasher_after_writes(hasher, Seq::<Seq<u8>>::empty()) == hasher);
    if second.len() == 0 {
        assert(first + second == first);
    } else {
        law_writes_in_order(hasher, first, second.drop_last(), bytes);
        assert((first + second).drop_last() == first + second.drop_last());
    }
}

} // verus!
