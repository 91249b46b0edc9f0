//! One verification call, start to finish: recompute the content hash and
//! hold it against the claim, build the leaf node, check inclusion. Any
//! failure aborts the whole call; nothing is persisted either way.

use vstd::prelude::*;
use crate::types::{Metadata, MetadataV, Pubkey, VerifyError, VerifyParams};
use crate::encode::metadata_fits;
use crate::digest::{canonical_digest, canonical_hash};
use crate::leaf::{asset_id, asset_id_of, build_leaf, leaf_digest, LeafSchemaVersion};
use crate::inclusion::{eq_bytes32, inclusion_holds, path_view, verify_inclusion};

verus! {

/// The outcome that one verification call owes its caller, as a function of
/// the call's inputs alone: encoding must fit, the recomputed content hash
/// must equal the claimed one byte for byte, and the rebuilt leaf must be
/// included under the claimed root at the claimed index.
pub open spec fn verification_outcome(
    tree: Seq<u8>,
    owner: Seq<u8>,
    delegate: Seq<u8>,
    root: Seq<u8>,
    data_hash: Seq<u8>,
    creator_hash: Seq<u8>,
    nonce: u64,
    index: u32,
    m: MetadataV,
    siblings: Seq<Seq<u8>>,
) -> Result<(), VerifyError> {
    if !metadata_fits(m) {
        Result::Err(VerifyError::EncodingFailure)
    } else if canonical_digest(m) != data_hash {
        Result::Err(VerifyError::ContentHashMismatch)
    } else {
        let node = leaf_digest(
            asset_id_of(tree, nonce),
            owner,
            delegate,
            nonce,
            data_hash,
            creator_hash,
            LeafSchemaVersion::V1,
        );
        if inclusion_holds(root, node, index, siblings) {
            Result::Ok(())
        } else {
            Result::Err(VerifyError::ProofVerificationFailed)
        }
    }
}

/// Verifies that `message` is the authentic content of the leaf that the
/// caller claims at `params.index` of tree `tree`, owned by `owner` and
/// delegated to `delegate`, against the claimed root and the sibling path.
///
/// The claimed content hash is never trusted: it is held byte for byte
/// against the hash recomputed from `message`, and a mismatch is a hard
/// rejection. The claimed creator hash is carried into the leaf unexamined,
/// as its canonicalization is owned elsewhere.
pub fn verify(
    tree: &Pubkey,
    owner: &Pubkey,
    delegate: &Pubkey,
    params: &VerifyParams,
    message: &Metadata,
    path: &Vec<[u8; 32]>,
) -> (r: Result<(), VerifyError>)
    ensures
        r == verification_outcome(
            tree@,
            owner@,
            delegate@,
            params.root@,
            params.data_hash@,
            params.creator_hash@,
            params.nonce,
            params.index,
            message@,
            path_view(path@),
        ),
{
    let computed = match canonical_hash(message) {
        Result::Ok(h) => h,
        Result::Err(e) => {
            return Result::Err(e);
        },
    };
    if !eq_bytes32(&computed, &params.data_hash) {
        return Result::Err(VerifyError::ContentHashMismatch);
    }
    let id = asset_id(tree, params.nonce);
    let node = build_leaf(
        &id,
        owner,
        delegate,
        params.nonce,
        &params.data_hash,
        &params.creator_hash,
        LeafSchemaVersion::V1,
    );
    if verify_inclusion(&params.root, &node, params.index, path) {
        Result::Ok(())
    } else {
        Result::Err(VerifyError::ProofVerificationFailed)
    }
}

/// Law: a verification call is a function of its inputs. Two calls whose
/// inputs agree value for value - same tree, identities, claim and sibling
/// path, and records equal field for field - have the same outcome, so
/// repeating a call with identical inputs and an unchanged root repeats its
/// result.
pub proof fn lemma_verification_idempotent(
    tree1: Pubkey,
    owner1: Pubkey,
    delegate1: Pubkey,
    params1: VerifyParams,
    m1: Metadata,
    path1: Vec<[u8; 32]>,
    tree2: Pubkey,
    owner2: Pubkey,
    delegate2: Pubkey,
    params2: VerifyParams,
    m2: Metadata,
    path2: Vec<[u8; 32]>,
)
    requires
        tree1@ == tree2@,
        owner1@ == owner2@,
        delegate1@ == delegate2@,
        params1.root@ == params2.root@,
        params1.data_hash@ == params2.data_hash@,
        params1.creator_hash@ == params2.creator_hash@,
        params1.nonce == params2.nonce,
        params1.index == params2.index,
        m1@ == m2@,
        path1@ == path2@,
    ensures
        verification_outcome(
            tree1@,
            owner1@,
            delegate1@,
            params1.root@,
            params1.data_hash@,
            params1.creator_hash@,
            params1.nonce,
            params1.index,
            m1@,
            path_view(path1@),
        ) == verification_outcome(
            tree2@,
            owner2@,
            delegate2@,
            params2.root@,
            params2.data_hash@,
            params2.creator_hash@,
            params2.nonce,
            params2.index,
            m2@,
            path_view(path2@),
        ),
{
}

} // verus!
