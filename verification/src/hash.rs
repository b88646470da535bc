//! Incremental SHA-256, modelled by the bytes a hasher has absorbed.

use vstd::prelude::*;
use sha2::Digest;

verus! {

/// A running SHA-256 computation. Its state is known only through
/// [`absorbed`].
#[verifier::external_body]
pub struct Hasher {
    inner: sha2::Sha256,
}

/// The SHA-256 digest of a message.
pub uninterp spec fn sha256(message: Seq<u8>) -> Seq<u8>;

/// The bytes that a hasher has absorbed so far, in order.
pub uninterp spec fn absorbed(hasher: Hasher) -> Seq<u8>;

/// `sha2::Sha256::new`: a fresh hasher has absorbed nothing.
#[verifier::external_body]
pub(crate) fn hasher_new() -> (hasher: Hasher)
    ensures
        absorbed(hasher) == Seq::<u8>::empty(),
{
    Hasher { inner: sha2::Sha256::new() }
}

/// `Digest::update` on `sha2::Sha256`: the data is appended to what the
/// hasher has absorbed.
#[verifier::external_body]
pub(crate) fn hasher_update(hasher: &mut Hasher, data: &[u8])
    ensures
        absorbed(*final(hasher)) == absorbed(*old(hasher)) + data@,
{
    hasher.inner.update(data);
}

/// `Clone::clone` on `sha2::Sha256`: the copy has absorbed the same bytes.
#[verifier::external_body]
pub(crate) fn hasher_clone(hasher: &Hasher) -> (copy: Hasher)
    ensures
        absorbed(copy) == absorbed(*hasher),
{
    Hasher { inner: hasher.inner.clone() }
}

/// `Digest::finalize` on `sha2::Sha256`: the 32 bytes returned are the
/// SHA-256 digest of everything the hasher absorbed.
#[verifier::external_body]
pub(crate) fn hasher_finalize(hasher: Hasher) -> (digest: [u8; 32])
    ensures
        digest@ == sha256(absorbed(hasher)),
{
    hasher.inner.finalize().into()
}

} // verus!
