//! The canonical content hash of a metadata record: recomputed here from the
//! record itself, never taken from the caller.

use vstd::prelude::*;
use crate::types::{Metadata, MetadataV, VerifyError};
use crate::encode::{le_bytes_u16, metadata_encoding, metadata_fits, encode_metadata, push_bytes,
    push_u16_le};

verus! {

/// The keccak-256 digest of a byte sequence, by name only: the digest is a
/// pure function of the bytes, and nothing more is assumed of it here.
pub uninterp spec fn keccak256_of(bytes: Seq<u8>) -> Seq<u8>;

/// Relies on `solana_program::keccak::hashv`, which returns the keccak-256
/// digest of the concatenation of its input slices, computed in-process by
/// the sha3 hasher; the digest depends on the input bytes alone. Called on a
/// single slice, so the input is `bytes` itself.
#[verifier::external_body]
pub(crate) fn keccak256(bytes: &[u8]) -> (r: [u8; 32])
    ensures
        r@ == keccak256_of(bytes@),
{
    solana_program::keccak::hashv(&[bytes]).to_bytes()
}

/// The canonical content digest of a record: the digest of its canonical
/// encoding, hashed once more together with the royalty basis points.
pub open spec fn canonical_digest(m: MetadataV) -> Seq<u8> {
    keccak256_of(keccak256_of(metadata_encoding(m)) + le_bytes_u16(m.seller_fee_basis_points))
}

/// Recomputes the canonical content hash of `m`.
///
/// Identical record values always give identical hashes: the result is a
/// function of the record's mathematical value alone. Encoding fails closed
/// with `EncodingFailure` when a field cannot fit its length prefix; no
/// partial or defaulted hash is ever produced.
pub fn canonical_hash(m: &Metadata) -> (r: Result<[u8; 32], VerifyError>)
    ensures
        r is Ok <==> metadata_fits(m@),
        r is Ok ==> r->Ok_0@ == canonical_digest(m@),
        r is Err ==> r->Err_0 == VerifyError::EncodingFailure,
{
    match encode_metadata(m) {
        Result::Ok(enc) => {
            let first = keccak256(enc.as_slice());
            let mut buf: Vec<u8> = Vec::new();
            push_bytes(&mut buf, first.as_slice());
            push_u16_le(&mut buf, m.seller_fee_basis_points);
            proof {
                assert(buf@ =~= first@ + le_bytes_u16(m.seller_fee_basis_points));
            }
            Result::Ok(keccak256(buf.as_slice()))
        },
        Result::Err(e) => Result::Err(e),
    }
}

/// Law: the canonical hash is deterministic in the record's value. Two
/// in-memory records that represent the same logical record, field for field
/// and creator for creator, canonicalize to the same digest.
pub proof fn lemma_canonical_hash_deterministic(m1: Metadata, m2: Metadata)
    requires
        m1@ == m2@,
    ensures
        canonical_digest(m1@) == canonical_digest(m2@),
{
}

} // verus!
