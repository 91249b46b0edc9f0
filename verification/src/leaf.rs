//! The leaf node: the derived asset identifier and the fixed-layout leaf
//! encoding that binds identity, ownership, position and content together
//! under an explicit schema version.

use vstd::prelude::*;
use crate::types::Pubkey;
use crate::encode::{le_bytes_u64, lemma_le_bytes_u64_injective, push_bytes, push_u64_le};
use crate::digest::{keccak256_of, keccak256};

verus! {

/// The schema under which a leaf is encoded. The discriminant byte is part
/// of the encoding, so leaves of a future schema can never be confused with
/// these even if field layouts overlap.
#[derive(Clone, Copy, Debug, PartialEq, Eq, Structural)]
pub enum LeafSchemaVersion {
    V1,
}

/// The discriminant byte written ahead of a leaf's fields.
pub open spec fn version_byte(v: LeafSchemaVersion) -> u8 {
    match v {
        LeafSchemaVersion::V1 => 1,
    }
}

/// The derived identifier of the asset held by leaf `nonce` of tree `tree`,
/// by name only: a one-way derivation owned by the outside address scheme.
pub uninterp spec fn asset_id_of(tree: Seq<u8>, nonce: u64) -> Seq<u8>;

/// Relies on `mpl_bubblegum::utils::get_asset_id`, which derives the program
/// address for the seeds ("asset", tree, nonce) - a pure function of tree
/// and nonce. The derivation aborts only in the statistically unreachable
/// case that no bump seed yields a valid address.
#[verifier::external_body]
pub(crate) fn asset_id(tree: &Pubkey, nonce: u64) -> (r: Pubkey)
    ensures
        r@ == asset_id_of(tree@, nonce),
{
    let tree_key = solana_program::pubkey::Pubkey::new_from_array(tree.bytes);
    let id = mpl_bubblegum::utils::get_asset_id(&tree_key, nonce);
    Pubkey { bytes: id.to_bytes() }
}

/// The fixed-layout encoding of a leaf: the schema discriminant, then every
/// field in fixed order and fixed width. No field is omitted or defaulted.
pub open spec fn leaf_encoding(
    id: Seq<u8>,
    owner: Seq<u8>,
    delegate: Seq<u8>,
    nonce: u64,
    data_hash: Seq<u8>,
    creator_hash: Seq<u8>,
    v: LeafSchemaVersion,
) -> Seq<u8> {
    seq![version_byte(v)] + id + owner + delegate + le_bytes_u64(nonce) + data_hash + creator_hash
}

/// The leaf node value: the digest of the leaf encoding.
pub open spec fn leaf_digest(
    id: Seq<u8>,
    owner: Seq<u8>,
    delegate: Seq<u8>,
    nonce: u64,
    data_hash: Seq<u8>,
    creator_hash: Seq<u8>,
    v: LeafSchemaVersion,
) -> Seq<u8> {
    keccak256_of(leaf_encoding(id, owner, delegate, nonce, data_hash, creator_hash, v))
}

/// Where each field stands inside a leaf encoding built from 32-byte keys
/// and hashes: the discriminant first, then each field at its fixed offset.
pub proof fn lemma_leaf_encoding_parts(
    id: Seq<u8>,
    owner: Seq<u8>,
    delegate: Seq<u8>,
    nonce: u64,
    data_hash: Seq<u8>,
    creator_hash: Seq<u8>,
    v: LeafSchemaVersion,
)
    requires
        id.len() == 32,
        owner.len() == 32,
        delegate.len() == 32,
        data_hash.len() == 32,
        creator_hash.len() == 32,
    ensures
        leaf_encoding(id, owner, delegate, nonce, data_hash, creator_hash, v).len() == 169,
        leaf_encoding(id, owner, delegate, nonce, data_hash, creator_hash, v)[0] == version_byte(
            v,
        ),
        leaf_encoding(id, owner, delegate, nonce, data_hash, creator_hash, v).subrange(1, 33)
            == id,
        leaf_encoding(id, owner, delegate, nonce, data_hash, creator_hash, v).subrange(33, 65)
            == owner,
        leaf_encoding(id, owner, delegate, nonce, data_hash, creator_hash, v).subrange(65, 97)
            == delegate,
        leaf_encoding(id, owner, delegate, nonce, data_hash, creator_hash, v).subrange(97, 105)
            == le_bytes_u64(nonce),
        leaf_encoding(id, owner, delegate, nonce, data_hash, creator_hash, v).subrange(105, 137)
            == data_hash,
        leaf_encoding(id, owner, delegate, nonce, data_hash, creator_hash, v).subrange(137, 169)
            == creator_hash,
{
    let e = leaf_encoding(id, owner, delegate, nonce, data_hash, creator_hash, v);
    assert(e.subrange(1, 33) =~= id);
    assert(e.subrange(33, 65) =~= owner);
    assert(e.subrange(65, 97) =~= delegate);
    assert(e.subrange(97, 105) =~= le_bytes_u64(nonce));
    assert(e.subrange(105, 137) =~= data_hash);
    assert(e.subrange(137, 169) =~= creator_hash);
}

/// Law: the leaf encoding binds every input. Two leaves built from 32-byte
/// keys and hashes have the same encoding only when the version and all six
/// inputs agree; changing any one input changes the encoded leaf.
pub proof fn lemma_leaf_encoding_injective(
    id1: Seq<u8>,
    owner1: Seq<u8>,
    delegate1: Seq<u8>,
    nonce1: u64,
    data_hash1: Seq<u8>,
    creator_hash1: Seq<u8>,
    v1: LeafSchemaVersion,
    id2: Seq<u8>,
    owner2: Seq<u8>,
    delegate2: Seq<u8>,
    nonce2: u64,
    data_hash2: Seq<u8>,
    creator_hash2: Seq<u8>,
    v2: LeafSchemaVersion,
)
    requires
        id1.len() == 32,
        owner1.len() == 32,
        delegate1.len() == 32,
        data_hash1.len() == 32,
        creator_hash1.len() == 32,
        id2.len() == 32,
        owner2.len() == 32,
        delegate2.len() == 32,
        data_hash2.len() == 32,
        creator_hash2.len() == 32,
        leaf_encoding(id1, owner1, delegate1, nonce1, data_hash1, creator_hash1, v1)
            == leaf_encoding(id2, owner2, delegate2, nonce2, data_hash2, creator_hash2, v2),
    ensures
        v1 == v2,
        id1 == id2,
        owner1 == owner2,
        delegate1 == delegate2,
        nonce1 == nonce2,
        data_hash1 == data_hash2,
        creator_hash1 == creator_hash2,
{
    lemma_leaf_encoding_parts(id1, owner1, delegate1, nonce1, data_hash1, creator_hash1, v1);
    lemma_leaf_encoding_parts(id2, owner2, delegate2, nonce2, data_hash2, creator_hash2, v2);
    lemma_le_bytes_u64_injective(nonce1, nonce2);
}

/// Builds the leaf node for the given identity, ownership and content
/// values under schema version `v`.
pub fn build_leaf(
    id: &Pubkey,
    owner: &Pubkey,
    delegate: &Pubkey,
    nonce: u64,
    data_hash: &[u8; 32],
    creator_hash: &[u8; 32],
    v: LeafSchemaVersion,
) -> (r: [u8; 32])
    ensures
        r@ == leaf_digest(id@, owner@, delegate@, nonce, data_hash@, creator_hash@, v),
{
    let mut buf: Vec<u8> = Vec::new();
    match v {
        LeafSchemaVersion::V1 => buf.push(1u8),
    }
    push_bytes(&mut buf, id.bytes.as_slice());
    push_bytes(&mut buf, owner.bytes.as_slice());
    push_bytes(&mut buf, delegate.bytes.as_slice());
    push_u64_le(&mut buf, nonce);
    push_bytes(&mut buf, data_hash.as_slice());
    push_bytes(&mut buf, creator_hash.as_slice());
    proof {
        assert(buf@ =~= leaf_encoding(id@, owner@, delegate@, nonce, data_hash@, creator_hash@, v));
    }
    keccak256(buf.as_slice())
}

} // verus!
