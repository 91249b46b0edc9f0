use cutils::digest::canonical_hash;
use cutils::encode::encode_metadata;
use cutils::types::{Collection, Creator, Metadata, Pubkey};

fn sample_metadata() -> Metadata {
    Metadata {
        name: String::from("A"),
        symbol: String::from("A"),
        uri: String::from("u"),
        collection: Collection { verified: true, key: Pubkey { bytes: [9u8; 32] } },
        seller_fee_basis_points: 500,
        primary_sale_happened: true,
        is_mutable: false,
        edition_nonce: None,
        creators: vec![],
    }
}

fn reference_args(m: &Metadata) -> mpl_bubblegum::types::MetadataArgs {
    let mut creators = Vec::new();
    for c in m.creators.iter() {
        creators.push(mpl_bubblegum::types::Creator {
            address: solana_program::pubkey::Pubkey::new_from_array(c.address.bytes),
            verified: c.verified,
            share: c.share,
        });
    }
    mpl_bubblegum::types::MetadataArgs {
        name: m.name.clone(),
        symbol: m.symbol.clone(),
        uri: m.uri.clone(),
        seller_fee_basis_points: m.seller_fee_basis_points,
        primary_sale_happened: m.primary_sale_happened,
        is_mutable: m.is_mutable,
        edition_nonce: m.edition_nonce,
        token_standard: Some(mpl_bubblegum::types::TokenStandard::NonFungible),
        collection: Some(mpl_bubblegum::types::Collection {
            verified: m.collection.verified,
            key: solana_program::pubkey::Pubkey::new_from_array(m.collection.key.bytes),
        }),
        uses: None,
        token_program_version: mpl_bubblegum::types::TokenProgramVersion::Original,
        creators,
    }
}

fn hash_of(m: &Metadata) -> [u8; 32] {
    canonical_hash(m).expect("well-formed record must hash")
}

#[test]
fn canonical_encoding_exact_bytes() {
    let m = sample_metadata();
    let enc = encode_metadata(&m).expect("well-formed record must encode");
    let mut expected: Vec<u8> = Vec::new();
    expected.extend_from_slice(&[1, 0, 0, 0, b'A']);
    expected.extend_from_slice(&[1, 0, 0, 0, b'A']);
    expected.extend_from_slice(&[1, 0, 0, 0, b'u']);
    expected.extend_from_slice(&500u16.to_le_bytes());
    expected.push(1);
    expected.push(0);
    expected.push(0);
    expected.extend_from_slice(&[1, 0]);
    expected.push(1);
    expected.push(1);
    expected.extend_from_slice(&[9u8; 32]);
    expected.push(0);
    expected.push(0);
    expected.extend_from_slice(&0u32.to_le_bytes());
    assert_eq!(enc, expected);
}

#[test]
fn canonical_hash_matches_reference_hasher() {
    let mut m = sample_metadata();
    m.creators = vec![
        Creator { address: Pubkey { bytes: [3u8; 32] }, verified: true, share: 60 },
        Creator { address: Pubkey { bytes: [4u8; 32] }, verified: false, share: 40 },
    ];
    m.edition_nonce = Some(11);
    let ours = hash_of(&m);
    let theirs = mpl_bubblegum::hash::hash_metadata(&reference_args(&m)).unwrap();
    assert_eq!(ours, theirs);
}

#[test]
fn canonical_hash_matches_reference_hasher_minimal() {
    let m = sample_metadata();
    let ours = hash_of(&m);
    let theirs = mpl_bubblegum::hash::hash_metadata(&reference_args(&m)).unwrap();
    assert_eq!(ours, theirs);
}

#[test]
fn canonical_hash_is_deterministic() {
    let m = sample_metadata();
    let h1 = hash_of(&m);
    let h2 = hash_of(&m);
    assert_eq!(h1, h2);
    let copy = m.clone();
    assert_eq!(hash_of(&copy), h1);
}

#[test]
fn canonical_hash_differs_on_each_field() {
    let base = sample_metadata();
    let base_hash = hash_of(&base);

    let mut m = base.clone();
    m.name = String::from("B");
    assert_ne!(hash_of(&m), base_hash);

    let mut m = base.clone();
    m.symbol = String::from("AB");
    assert_ne!(hash_of(&m), base_hash);

    let mut m = base.clone();
    m.uri = String::from("v");
    assert_ne!(hash_of(&m), base_hash);

    let mut m = base.clone();
    m.seller_fee_basis_points = 501;
    assert_ne!(hash_of(&m), base_hash);

    let mut m = base.clone();
    m.primary_sale_happened = false;
    assert_ne!(hash_of(&m), base_hash);

    let mut m = base.clone();
    m.is_mutable = true;
    assert_ne!(hash_of(&m), base_hash);

    let mut m = base.clone();
    m.edition_nonce = Some(0);
    assert_ne!(hash_of(&m), base_hash);

    let mut m = base.clone();
    m.collection.verified = false;
    assert_ne!(hash_of(&m), base_hash);

    let mut m = base.clone();
    m.collection.key = Pubkey { bytes: [10u8; 32] };
    assert_ne!(hash_of(&m), base_hash);

    let mut m = base.clone();
    m.creators = vec![Creator { address: Pubkey { bytes: [3u8; 32] }, verified: true, share: 100 }];
    assert_ne!(hash_of(&m), base_hash);
}

#[test]
fn canonical_hash_depends_on_creator_order() {
    let c1 = Creator { address: Pubkey { bytes: [3u8; 32] }, verified: true, share: 60 };
    let c2 = Creator { address: Pubkey { bytes: [4u8; 32] }, verified: false, share: 40 };
    let mut m1 = sample_metadata();
    m1.creators = vec![c1, c2];
    let mut m2 = sample_metadata();
    m2.creators = vec![c2, c1];
    assert_ne!(hash_of(&m1), hash_of(&m2));
}

#[test]
fn edition_nonce_presence_is_distinguishable_from_zero() {
    let mut with_zero = sample_metadata();
    with_zero.edition_nonce = Some(0);
    let absent = sample_metadata();
    assert_ne!(hash_of(&with_zero), hash_of(&absent));
}
