//! The data model: identity keys, the metadata record, the caller's claim,
//! and the rejection kinds of a verification call.

use vstd::prelude::*;

verus! {

/// A 32-byte public identity key.
#[derive(Clone, Copy)]
pub struct Pubkey {
    pub bytes: [u8; 32],
}

impl View for Pubkey {
    type V = Seq<u8>;

    open spec fn view(&self) -> Seq<u8> {
        self.bytes@
    }
}

/// A collection reference: a key plus a flag saying whether membership in the
/// collection has been separately attested.
#[derive(Clone, Copy)]
pub struct Collection {
    pub verified: bool,
    pub key: Pubkey,
}

#[verifier::ext_equal]
/// Mathematical value of a `Collection`.
pub struct CollectionV {
    pub verified: bool,
    pub key: Seq<u8>,
}

impl View for Collection {
    type V = CollectionV;

    open spec fn view(&self) -> CollectionV {
        CollectionV { verified: self.verified, key: self.key@ }
    }
}

/// One royalty creator: identity key, attestation flag, and a percentage
/// share (0-100 by convention; hashed as given, not validated here).
#[derive(Clone, Copy)]
pub struct Creator {
    pub address: Pubkey,
    pub verified: bool,
    pub share: u8,
}

#[verifier::ext_equal]
/// Mathematical value of a `Creator`.
pub struct CreatorV {
    pub address: Seq<u8>,
    pub verified: bool,
    pub share: u8,
}

impl View for Creator {
    type V = CreatorV;

    open spec fn view(&self) -> CreatorV {
        CreatorV { address: self.address@, verified: self.verified, share: self.share }
    }
}

/// The untrusted structured metadata record presented by the caller.
///
/// The creators list is meaningful as an ordered sequence: its order affects
/// the canonical hash.
#[derive(Clone)]
pub struct Metadata {
    pub name: String,
    pub symbol: String,
    pub uri: String,
    pub collection: Collection,
    pub seller_fee_basis_points: u16,
    pub primary_sale_happened: bool,
    pub is_mutable: bool,
    pub edition_nonce: Option<u8>,
    pub creators: Vec<Creator>,
}

#[verifier::ext_equal]
/// Mathematical value of a `Metadata` record.
pub struct MetadataV {
    pub name: Seq<char>,
    pub symbol: Seq<char>,
    pub uri: Seq<char>,
    pub collection: CollectionV,
    pub seller_fee_basis_points: u16,
    pub primary_sale_happened: bool,
    pub is_mutable: bool,
    pub edition_nonce: Option<u8>,
    pub creators: Seq<CreatorV>,
}

impl View for Metadata {
    type V = MetadataV;

    open spec fn view(&self) -> MetadataV {
        MetadataV {
            name: self.name@,
            symbol: self.symbol@,
            uri: self.uri@,
            collection: self.collection@,
            seller_fee_basis_points: self.seller_fee_basis_points,
            primary_sale_happened: self.primary_sale_happened,
            is_mutable: self.is_mutable,
            edition_nonce: self.edition_nonce,
            creators: self.creators@.map_values(|c: Creator| c@),
        }
    }
}

/// The caller's claim, untrusted until checked: the root the tree is said to
/// have, the content and creator hashes the leaf is said to carry, the
/// leaf-creation nonce, and the 0-based leaf slot.
#[derive(Clone, Copy)]
pub struct VerifyParams {
    pub root: [u8; 32],
    pub data_hash: [u8; 32],
    pub creator_hash: [u8; 32],
    pub nonce: u64,
    pub index: u32,
}

/// The rejection kinds of one verification call. Every failure is terminal:
/// nothing is retried and no partial result is produced.
#[derive(Clone, Copy, Debug, PartialEq, Eq, Structural)]
pub enum VerifyError {
    /// The recomputed canonical metadata hash differs from the claimed one.
    ContentHashMismatch,
    /// The proof path does not reduce the leaf to the claimed root, or the
    /// index is out of range for the depth the path implies.
    ProofVerificationFailed,
    /// The record could not be put into its fixed-size canonical encoding
    /// (a variable-length field too long for its length prefix).
    EncodingFailure,
}

} // verus!
