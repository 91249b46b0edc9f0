//! The canonical byte encoding of a metadata record: a fixed, versioned
//! layout with each field in a fixed order, variable-length fields prefixed
//! by a little-endian length, and optional fields carrying an explicit
//! presence tag. The record is always encoded as one sequence before it is
//! hashed, never hashed field by field.

use vstd::prelude::*;
use vstd::utf8::encode_utf8;
use crate::types::{Creator, CreatorV, CollectionV, Metadata, MetadataV, VerifyError};

verus! {

/// The two bytes of `x` in little-endian order.
pub open spec fn le_bytes_u16(x: u16) -> Seq<u8> {
    seq![(x & 0xff) as u8, ((x >> 8) & 0xff) as u8]
}

/// The four bytes of `x` in little-endian order.
pub open spec fn le_bytes_u32(x: u32) -> Seq<u8> {
    seq![
        (x & 0xff) as u8,
        ((x >> 8) & 0xff) as u8,
        ((x >> 16) & 0xff) as u8,
        ((x >> 24) & 0xff) as u8,
    ]
}

/// The eight bytes of `x` in little-endian order.
pub open spec fn le_bytes_u64(x: u64) -> Seq<u8> {
    seq![
        (x & 0xff) as u8,
        ((x >> 8) & 0xff) as u8,
        ((x >> 16) & 0xff) as u8,
        ((x >> 24) & 0xff) as u8,
        ((x >> 32) & 0xff) as u8,
        ((x >> 40) & 0xff) as u8,
        ((x >> 48) & 0xff) as u8,
        ((x >> 56) & 0xff) as u8,
    ]
}

/// A flag is one byte, 1 for true and 0 for false.
pub open spec fn bool_byte(b: bool) -> u8 {
    if b {
        1
    } else {
        0
    }
}

/// A text field: the byte length of its UTF-8 form as a little-endian
/// 32-bit prefix, then the UTF-8 bytes themselves.
pub open spec fn str_encoding(s: Seq<char>) -> Seq<u8> {
    le_bytes_u32(encode_utf8(s).len() as u32) + encode_utf8(s)
}

/// One creator: 32 key bytes, the attestation flag, the share.
pub open spec fn creator_encoding(c: CreatorV) -> Seq<u8> {
    c.address + seq![bool_byte(c.verified), c.share]
}

/// The creators in their given order, one after the other.
pub open spec fn creators_encoding(cs: Seq<CreatorV>) -> Seq<u8>
    decreases cs.len(),
{
    if cs.len() == 0 {
        Seq::empty()
    } else {
        creators_encoding(cs.drop_last()) + creator_encoding(cs.last())
    }
}

/// An optional byte: an absence tag 0 alone, or a presence tag 1 then the
/// byte. Presence is always distinguishable from a zero value.
pub open spec fn option_u8_encoding(o: Option<u8>) -> Seq<u8> {
    match o {
        Option::None => seq![0u8],
        Option::Some(v) => seq![1u8, v],
    }
}

/// The collection reference, which this path always treats as present:
/// a presence tag, the attestation flag, then the 32 key bytes.
pub open spec fn collection_encoding(c: CollectionV) -> Seq<u8> {
    seq![1u8, bool_byte(c.verified)] + c.key
}

/// Tag for a token standard that is present and names the non-fungible kind.
pub open spec fn token_standard_bytes() -> Seq<u8> {
    seq![1u8, 0u8]
}

/// Tag for the uses extension, which this path never carries.
pub open spec fn uses_bytes() -> Seq<u8> {
    seq![0u8]
}

/// Tag for the original token program version.
pub open spec fn token_program_version_bytes() -> Seq<u8> {
    seq![0u8]
}

/// The canonical encoding of a whole record: every field in fixed order,
/// the type tags written out, the creators list length-prefixed.
pub open spec fn metadata_encoding(m: MetadataV) -> Seq<u8> {
    str_encoding(m.name) + str_encoding(m.symbol) + str_encoding(m.uri)
        + le_bytes_u16(m.seller_fee_basis_points)
        + seq![bool_byte(m.primary_sale_happened), bool_byte(m.is_mutable)]
        + option_u8_encoding(m.edition_nonce) + token_standard_bytes()
        + collection_encoding(m.collection) + uses_bytes() + token_program_version_bytes()
        + le_bytes_u32(m.creators.len() as u32) + creators_encoding(m.creators)
}

/// Whether every variable-length field of the record fits its 32-bit length
/// prefix. Encoding fails closed on anything larger.
pub open spec fn metadata_fits(m: MetadataV) -> bool {
    &&& encode_utf8(m.name).len() <= u32::MAX
    &&& encode_utf8(m.symbol).len() <= u32::MAX
    &&& encode_utf8(m.uri).len() <= u32::MAX
    &&& m.creators.len() <= u32::MAX
}

/// Splitting equal concatenations at the same offset gives equal parts.
pub proof fn lemma_concat_split(a1: Seq<u8>, b1: Seq<u8>, a2: Seq<u8>, b2: Seq<u8>)
    requires
        a1.len() == a2.len(),
        a1 + b1 == a2 + b2,
    ensures
        a1 == a2,
        b1 == b2,
{
    assert forall|i: int| 0 <= i < a1.len() implies a1[i] == a2[i] by {
        assert((a1 + b1)[i] == a1[i]);
        assert((a2 + b2)[i] == a2[i]);
    }
    assert(a1 =~= a2);
    assert((a1 + b1).len() == a1.len() + b1.len());
    assert((a2 + b2).len() == a2.len() + b2.len());
    assert(b1.len() == b2.len());
    assert forall|i: int| 0 <= i < b1.len() implies b1[i] == b2[i] by {
        assert((a1 + b1)[a1.len() + i] == b1[i]);
        assert((a2 + b2)[a2.len() + i] == b2[i]);
    }
    assert(b1 =~= b2);
}

/// A value is recoverable from its little-endian bytes.
pub proof fn lemma_le_bytes_u64_injective(x: u64, y: u64)
    requires
        le_bytes_u64(x) == le_bytes_u64(y),
    ensures
        x == y,
{
    assert(le_bytes_u64(x)[0] == le_bytes_u64(y)[0]);
    assert(le_bytes_u64(x)[1] == le_bytes_u64(y)[1]);
    assert(le_bytes_u64(x)[2] == le_bytes_u64(y)[2]);
    assert(le_bytes_u64(x)[3] == le_bytes_u64(y)[3]);
    assert(le_bytes_u64(x)[4] == le_bytes_u64(y)[4]);
    assert(le_bytes_u64(x)[5] == le_bytes_u64(y)[5]);
    assert(le_bytes_u64(x)[6] == le_bytes_u64(y)[6]);
    assert(le_bytes_u64(x)[7] == le_bytes_u64(y)[7]);
    assert(x == y) by (bit_vector)
        requires
            (x & 0xff) as u8 == (y & 0xff) as u8,
            ((x >> 8) & 0xff) as u8 == ((y >> 8) & 0xff) as u8,
            ((x >> 16) & 0xff) as u8 == ((y >> 16) & 0xff) as u8,
            ((x >> 24) & 0xff) as u8 == ((y >> 24) & 0xff) as u8,
            ((x >> 32) & 0xff) as u8 == ((y >> 32) & 0xff) as u8,
            ((x >> 40) & 0xff) as u8 == ((y >> 40) & 0xff) as u8,
            ((x >> 48) & 0xff) as u8 == ((y >> 48) & 0xff) as u8,
            ((x >> 56) & 0xff) as u8 == ((y >> 56) & 0xff) as u8,
    ;
}

/// The byte of a flag.
pub(crate) fn flag_byte(b: bool) -> (r: u8)
    ensures
        r == bool_byte(b),
{
    if b {
        1
    } else {
        0
    }
}

/// Appends every byte of `bytes` to `out`, in order.
pub(crate) fn push_bytes(out: &mut Vec<u8>, bytes: &[u8])
    ensures
        final(out)@ == old(out)@ + bytes@,
{
    let n = bytes.len();
    let mut i: usize = 0;
    while i < n
        invariant
            n == bytes@.len(),
            i <= n,
            out@ == old(out)@ + bytes@.take(i as int),
        decreases n - i,
    {
        out.push(bytes[i]);
        proof {
            assert(bytes@.take(i + 1) =~= bytes@.take(i as int).push(bytes@[i as int]));
        }
        i += 1;
    }
    proof {
        assert(bytes@.take(n as int) =~= bytes@);
    }
}

pub(crate) fn push_u16_le(out: &mut Vec<u8>, x: u16)
    ensures
        final(out)@ == old(out)@ + le_bytes_u16(x),
{
    out.push((x & 0xff) as u8);
    out.push(((x >> 8) & 0xff) as u8);
    proof {
        assert(out@ =~= old(out)@ + le_bytes_u16(x));
    }
}

pub(crate) fn push_u32_le(out: &mut Vec<u8>, x: u32)
    ensures
        final(out)@ == old(out)@ + le_bytes_u32(x),
{
    out.push((x & 0xff) as u8);
    out.push(((x >> 8) & 0xff) as u8);
    out.push(((x >> 16) & 0xff) as u8);
    out.push(((x >> 24) & 0xff) as u8);
    proof {
        assert(out@ =~= old(out)@ + le_bytes_u32(x));
    }
}

pub(crate) fn push_u64_le(out: &mut Vec<u8>, x: u64)
    ensures
        final(out)@ == old(out)@ + le_bytes_u64(x),
{
    out.push((x & 0xff) as u8);
    out.push(((x >> 8) & 0xff) as u8);
    out.push(((x >> 16) & 0xff) as u8);
    out.push(((x >> 24) & 0xff) as u8);
    out.push(((x >> 32) & 0xff) as u8);
    out.push(((x >> 40) & 0xff) as u8);
    out.push(((x >> 48) & 0xff) as u8);
    out.push(((x >> 56) & 0xff) as u8);
    proof {
        assert(out@ =~= old(out)@ + le_bytes_u64(x));
    }
}

/// Appends one length-prefixed text field, or reports that its byte length
/// does not fit the 32-bit prefix.
fn push_str_field(out: &mut Vec<u8>, s: &String) -> (r: bool)
    ensures
        r <==> encode_utf8(s@).len() <= u32::MAX,
        r ==> final(out)@ == old(out)@ + str_encoding(s@),
        !r ==> final(out)@ == old(out)@,
{
    let bytes: &[u8] = s.as_str().as_bytes();
    if bytes.len() > u32::MAX as usize {
        return false;
    }
    push_u32_le(out, bytes.len() as u32);
    push_bytes(out, bytes);
    true
}

/// Builds the canonical encoding of `m`, or fails closed with
/// `EncodingFailure` when a variable-length field cannot fit its prefix.
#[verifier::rlimit(60)]
pub fn encode_metadata(m: &Metadata) -> (r: Result<Vec<u8>, VerifyError>)
    ensures
        r is Ok <==> metadata_fits(m@),
        r is Ok ==> r->Ok_0@ == metadata_encoding(m@),
        r is Err ==> r->Err_0 == VerifyError::EncodingFailure,
{
    let ghost cs: Seq<CreatorV> = m.creators@.map_values(|c: Creator| c@);
    let mut out: Vec<u8> = Vec::new();
    if !push_str_field(&mut out, &m.name) {
        return Err(VerifyError::EncodingFailure);
    }
    if !push_str_field(&mut out, &m.symbol) {
        return Err(VerifyError::EncodingFailure);
    }
    if !push_str_field(&mut out, &m.uri) {
        return Err(VerifyError::EncodingFailure);
    }
    push_u16_le(&mut out, m.seller_fee_basis_points);
    out.push(flag_byte(m.primary_sale_happened));
    out.push(flag_byte(m.is_mutable));
    match m.edition_nonce {
        Option::Some(v) => {
            out.push(1);
            out.push(v);
        },
        Option::None => {
            out.push(0);
        },
    }
    out.push(1);
    out.push(0);
    out.push(1);
    out.push(flag_byte(m.collection.verified));
    push_bytes(&mut out, m.collection.key.bytes.as_slice());
    out.push(0);
    out.push(0);
    if m.creators.len() > u32::MAX as usize {
        return Err(VerifyError::EncodingFailure);
    }
    push_u32_le(&mut out, m.creators.len() as u32);
    let ghost before_creators = out@;
    let n = m.creators.len();
    let mut i: usize = 0;
    while i < n
        invariant
            n == m.creators@.len(),
            cs == m.creators@.map_values(|c: Creator| c@),
            i <= n,
            out@ == before_creators + creators_encoding(cs.take(i as int)),
        decreases n - i,
    {
        let c = m.creators[i];
        push_bytes(&mut out, c.address.bytes.as_slice());
        out.push(flag_byte(c.verified));
        out.push(c.share);
        proof {
            assert(cs.take(i + 1).drop_last() =~= cs.take(i as int));
            assert(cs.take(i + 1).last() == cs[i as int]);
            assert(creator_encoding(cs[i as int]) =~= m.creators@[i as int].address@
                + seq![bool_byte(m.creators@[i as int].verified), m.creators@[i as int].share]);
            assert(out@ =~= before_creators + creators_encoding(cs.take(i + 1)));
        }
        i += 1;
    }
    proof {
        assert(cs.take(n as int) =~= cs);
        assert(out@ =~= metadata_encoding(m@));
    }
    Ok(out)
}


/// Concatenation re-bracketed.
proof fn lemma_assoc(a: Seq<u8>, b: Seq<u8>, c: Seq<u8>)
    ensures
        (a + b) + c == a + (b + c),
{
    assert((a + b) + c =~= a + (b + c));
}

/// A value is recoverable from its four little-endian bytes.
pub proof fn lemma_le_bytes_u32_injective(x: u32, y: u32)
    requires
        le_bytes_u32(x) == le_bytes_u32(y),
    ensures
        x == y,
{
    assert(le_bytes_u32(x)[0] == le_bytes_u32(y)[0]);
    assert(le_bytes_u32(x)[1] == le_bytes_u32(y)[1]);
    assert(le_bytes_u32(x)[2] == le_bytes_u32(y)[2]);
    assert(le_bytes_u32(x)[3] == le_bytes_u32(y)[3]);
    assert(x == y) by (bit_vector)
        requires
            (x & 0xff) as u8 == (y & 0xff) as u8,
            ((x >> 8) & 0xff) as u8 == ((y >> 8) & 0xff) as u8,
            ((x >> 16) & 0xff) as u8 == ((y >> 16) & 0xff) as u8,
            ((x >> 24) & 0xff) as u8 == ((y >> 24) & 0xff) as u8,
    ;
}

/// A value is recoverable from its two little-endian bytes.
pub proof fn lemma_le_bytes_u16_injective(x: u16, y: u16)
    requires
        le_bytes_u16(x) == le_bytes_u16(y),
    ensures
        x == y,
{
    assert(le_bytes_u16(x)[0] == le_bytes_u16(y)[0]);
    assert(le_bytes_u16(x)[1] == le_bytes_u16(y)[1]);
    assert(x == y) by (bit_vector)
        requires
            (x & 0xff) as u8 == (y & 0xff) as u8,
            ((x >> 8) & 0xff) as u8 == ((y >> 8) & 0xff) as u8,
    ;
}

/// A well-formed creator value: its key has the fixed key width.
pub open spec fn creator_wf(c: CreatorV) -> bool {
    c.address.len() == 32
}

/// A well-formed record value: the collection key and every creator key
/// have the fixed key width.
pub open spec fn metadata_wf(m: MetadataV) -> bool {
    &&& m.collection.key.len() == 32
    &&& forall|i: int| 0 <= i < m.creators.len() ==> creator_wf(#[trigger] m.creators[i])
}

/// The value of any in-memory record is well-formed.
pub proof fn lemma_metadata_view_wf(m: Metadata)
    ensures
        metadata_wf(m@),
{
    assert forall|i: int| 0 <= i < m@.creators.len() implies creator_wf(#[trigger] m@.creators[i]) by {
        assert(m@.creators[i] == m.creators@[i]@);
    }
}

/// Peels one length-prefixed text field off equal encodings: the prefix
/// pins the field's byte length, the bytes pin the field.
proof fn lemma_str_field_peel(x1: Seq<char>, r1: Seq<u8>, x2: Seq<char>, r2: Seq<u8>)
    requires
        encode_utf8(x1).len() <= u32::MAX,
        encode_utf8(x2).len() <= u32::MAX,
        str_encoding(x1) + r1 == str_encoding(x2) + r2,
    ensures
        x1 == x2,
        r1 == r2,
{
    let l1 = le_bytes_u32(encode_utf8(x1).len() as u32);
    let l2 = le_bytes_u32(encode_utf8(x2).len() as u32);
    assert forall|j: int| 0 <= j < 4 implies l1[j] == l2[j] by {
        assert((str_encoding(x1) + r1)[j] == (l1 + encode_utf8(x1))[j]);
        assert((l1 + encode_utf8(x1))[j] == l1[j]);
        assert((str_encoding(x2) + r2)[j] == (l2 + encode_utf8(x2))[j]);
        assert((l2 + encode_utf8(x2))[j] == l2[j]);
    }
    assert(l1 =~= l2);
    lemma_le_bytes_u32_injective(
        encode_utf8(x1).len() as u32,
        encode_utf8(x2).len() as u32,
    );
    assert(encode_utf8(x1).len() == encode_utf8(x2).len());
    lemma_concat_split(str_encoding(x1), r1, str_encoding(x2), r2);
    lemma_concat_split(l1, encode_utf8(x1), l2, encode_utf8(x2));
    vstd::utf8::encode_utf8_decode_utf8(x1);
    vstd::utf8::encode_utf8_decode_utf8(x2);
}

/// A creator is recoverable from its encoding.
proof fn lemma_creator_encoding_injective(c1: CreatorV, c2: CreatorV)
    requires
        creator_wf(c1),
        creator_wf(c2),
        creator_encoding(c1) == creator_encoding(c2),
    ensures
        c1 == c2,
{
    lemma_concat_split(
        c1.address,
        seq![bool_byte(c1.verified), c1.share],
        c2.address,
        seq![bool_byte(c2.verified), c2.share],
    );
    assert(seq![bool_byte(c1.verified), c1.share][0] == seq![bool_byte(c2.verified), c2.share][0]);
    assert(seq![bool_byte(c1.verified), c1.share][1] == seq![bool_byte(c2.verified), c2.share][1]);
    assert(c1 =~= c2);
}

/// Equally long creator lists are recoverable from their encodings.
proof fn lemma_creators_encoding_injective(cs1: Seq<CreatorV>, cs2: Seq<CreatorV>)
    requires
        cs1.len() == cs2.len(),
        forall|i: int| 0 <= i < cs1.len() ==> creator_wf(#[trigger] cs1[i]),
        forall|i: int| 0 <= i < cs2.len() ==> creator_wf(#[trigger] cs2[i]),
        creators_encoding(cs1) == creators_encoding(cs2),
    ensures
        cs1 == cs2,
    decreases cs1.len(),
{
    if cs1.len() == 0 {
        assert(cs1 =~= cs2);
    } else {
        assert(creator_encoding(cs1.last()).len() == 34);
        assert(creator_encoding(cs2.last()).len() == 34);
        assert(creators_encoding(cs1) == creators_encoding(cs1.drop_last()) + creator_encoding(
            cs1.last(),
        ));
        assert(creators_encoding(cs2) == creators_encoding(cs2.drop_last()) + creator_encoding(
            cs2.last(),
        ));
        assert(creators_encoding(cs1.drop_last()).len() == creators_encoding(
            cs2.drop_last(),
        ).len());
        lemma_concat_split(
            creators_encoding(cs1.drop_last()),
            creator_encoding(cs1.last()),
            creators_encoding(cs2.drop_last()),
            creator_encoding(cs2.last()),
        );
        lemma_creator_encoding_injective(cs1.last(), cs2.last());
        lemma_creators_encoding_injective(cs1.drop_last(), cs2.drop_last());
        assert forall|i: int| 0 <= i < cs1.len() implies cs1[i] == cs2[i] by {
            if i < cs1.len() - 1 {
                assert(cs1.drop_last()[i] == cs1[i]);
                assert(cs2.drop_last()[i] == cs2[i]);
            } else {
                assert(cs1.last() == cs1[i]);
                assert(cs2.last() == cs2[i]);
            }
        }
        assert(cs1 =~= cs2);
    }
}

/// Law: canonicalization has no cross-field ambiguity. Two well-formed
/// records whose canonical encodings agree byte for byte are the same
/// record, field for field and creator for creator - so a change to any
/// single field, a reordered creator list included, changes the canonical
/// encoding and with it the input to the content digest.
#[verifier::rlimit(60)]
pub proof fn lemma_metadata_encoding_injective(m1: MetadataV, m2: MetadataV)
    requires
        metadata_wf(m1),
        metadata_wf(m2),
        metadata_fits(m1),
        metadata_fits(m2),
        metadata_encoding(m1) == metadata_encoding(m2),
    ensures
        m1 == m2,
{
    let n_1 = str_encoding(m1.name);
    let s_1 = str_encoding(m1.symbol);
    let u_1 = str_encoding(m1.uri);
    let f_1 = le_bytes_u16(m1.seller_fee_basis_points);
    let g_1 = seq![bool_byte(m1.primary_sale_happened), bool_byte(m1.is_mutable)];
    let o_1 = option_u8_encoding(m1.edition_nonce);
    let t_1 = token_standard_bytes();
    let c_1 = collection_encoding(m1.collection);
    let w_1 = uses_bytes();
    let p_1 = token_program_version_bytes();
    let l_1 = le_bytes_u32(m1.creators.len() as u32);
    let r_1 = creators_encoding(m1.creators);
    let n_2 = str_encoding(m2.name);
    let s_2 = str_encoding(m2.symbol);
    let u_2 = str_encoding(m2.uri);
    let f_2 = le_bytes_u16(m2.seller_fee_basis_points);
    let g_2 = seq![bool_byte(m2.primary_sale_happened), bool_byte(m2.is_mutable)];
    let o_2 = option_u8_encoding(m2.edition_nonce);
    let t_2 = token_standard_bytes();
    let c_2 = collection_encoding(m2.collection);
    let w_2 = uses_bytes();
    let p_2 = token_program_version_bytes();
    let l_2 = le_bytes_u32(m2.creators.len() as u32);
    let r_2 = creators_encoding(m2.creators);

    let z11_1 = l_1 + r_1;
    let z10_1 = p_1 + z11_1;
    let z9_1 = w_1 + z10_1;
    let z8_1 = c_1 + z9_1;
    let z7_1 = t_1 + z8_1;
    let z6_1 = o_1 + z7_1;
    let z5_1 = g_1 + z6_1;
    let z4_1 = f_1 + z5_1;
    let z3_1 = u_1 + z4_1;
    let z2_1 = s_1 + z3_1;
    let z11_2 = l_2 + r_2;
    let z10_2 = p_2 + z11_2;
    let z9_2 = w_2 + z10_2;
    let z8_2 = c_2 + z9_2;
    let z7_2 = t_2 + z8_2;
    let z6_2 = o_2 + z7_2;
    let z5_2 = g_2 + z6_2;
    let z4_2 = f_2 + z5_2;
    let z3_2 = u_2 + z4_2;
    let z2_2 = s_2 + z3_2;

    let a1_1 = n_1 + s_1;
    let a2_1 = a1_1 + u_1;
    let a3_1 = a2_1 + f_1;
    let a4_1 = a3_1 + g_1;
    let a5_1 = a4_1 + o_1;
    let a6_1 = a5_1 + t_1;
    let a7_1 = a6_1 + c_1;
    let a8_1 = a7_1 + w_1;
    let a9_1 = a8_1 + p_1;
    let a10_1 = a9_1 + l_1;
    assert(metadata_encoding(m1) == a10_1 + r_1);
    lemma_assoc(a9_1, l_1, r_1);
    lemma_assoc(a8_1, p_1, z11_1);
    lemma_assoc(a7_1, w_1, z10_1);
    lemma_assoc(a6_1, c_1, z9_1);
    lemma_assoc(a5_1, t_1, z8_1);
    lemma_assoc(a4_1, o_1, z7_1);
    lemma_assoc(a3_1, g_1, z6_1);
    lemma_assoc(a2_1, f_1, z5_1);
    lemma_assoc(a1_1, u_1, z4_1);
    lemma_assoc(n_1, s_1, z3_1);
    assert(metadata_encoding(m1) == n_1 + z2_1);

    let a1_2 = n_2 + s_2;
    let a2_2 = a1_2 + u_2;
    let a3_2 = a2_2 + f_2;
    let a4_2 = a3_2 + g_2;
    let a5_2 = a4_2 + o_2;
    let a6_2 = a5_2 + t_2;
    let a7_2 = a6_2 + c_2;
    let a8_2 = a7_2 + w_2;
    let a9_2 = a8_2 + p_2;
    let a10_2 = a9_2 + l_2;
    assert(metadata_encoding(m2) == a10_2 + r_2);
    lemma_assoc(a9_2, l_2, r_2);
    lemma_assoc(a8_2, p_2, z11_2);
    lemma_assoc(a7_2, w_2, z10_2);
    lemma_assoc(a6_2, c_2, z9_2);
    lemma_assoc(a5_2, t_2, z8_2);
    lemma_assoc(a4_2, o_2, z7_2);
    lemma_assoc(a3_2, g_2, z6_2);
    lemma_assoc(a2_2, f_2, z5_2);
    lemma_assoc(a1_2, u_2, z4_2);
    lemma_assoc(n_2, s_2, z3_2);
    assert(metadata_encoding(m2) == n_2 + z2_2);

    lemma_str_field_peel(m1.name, z2_1, m2.name, z2_2);
    lemma_str_field_peel(m1.symbol, z3_1, m2.symbol, z3_2);
    lemma_str_field_peel(m1.uri, z4_1, m2.uri, z4_2);

    lemma_concat_split(f_1, z5_1, f_2, z5_2);
    lemma_le_bytes_u16_injective(m1.seller_fee_basis_points, m2.seller_fee_basis_points);

    lemma_concat_split(g_1, z6_1, g_2, z6_2);
    assert(g_1[0] == g_2[0]);
    assert(g_1[1] == g_2[1]);
    assert(m1.primary_sale_happened == m2.primary_sale_happened);
    assert(m1.is_mutable == m2.is_mutable);

    match (m1.edition_nonce, m2.edition_nonce) {
        (Option::None, Option::None) => {
            lemma_concat_split(o_1, z7_1, o_2, z7_2);
        },
        (Option::Some(v1), Option::Some(v2)) => {
            lemma_concat_split(o_1, z7_1, o_2, z7_2);
            assert(o_1[1] == o_2[1]);
        },
        (Option::None, Option::Some(v2)) => {
            assert((o_1 + z7_1)[0] == o_1[0]);
            assert((o_2 + z7_2)[0] == o_2[0]);
            assert(false);
        },
        (Option::Some(v1), Option::None) => {
            assert((o_1 + z7_1)[0] == o_1[0]);
            assert((o_2 + z7_2)[0] == o_2[0]);
            assert(false);
        },
    }

    lemma_concat_split(t_1, z8_1, t_2, z8_2);

    assert(c_1.len() == 34);
    assert(c_2.len() == 34);
    lemma_concat_split(c_1, z9_1, c_2, z9_2);
    lemma_concat_split(
        seq![1u8, bool_byte(m1.collection.verified)],
        m1.collection.key,
        seq![1u8, bool_byte(m2.collection.verified)],
        m2.collection.key,
    );
    assert(seq![1u8, bool_byte(m1.collection.verified)][1] == seq![
        1u8,
        bool_byte(m2.collection.verified),
    ][1]);
    assert(m1.collection =~= m2.collection);

    lemma_concat_split(w_1, z10_1, w_2, z10_2);
    lemma_concat_split(p_1, z11_1, p_2, z11_2);

    lemma_concat_split(l_1, r_1, l_2, r_2);
    lemma_le_bytes_u32_injective(m1.creators.len() as u32, m2.creators.len() as u32);
    assert(m1.creators.len() == m2.creators.len());
    lemma_creators_encoding_injective(m1.creators, m2.creators);

    assert(m1 =~= m2);
}

/// The same law stated of in-memory records, whose values are always
/// well-formed: records that canonicalize to the same byte sequence are
/// equal in every field.
pub proof fn lemma_record_encoding_injective(m1: Metadata, m2: Metadata)
    requires
        metadata_fits(m1@),
        metadata_fits(m2@),
        metadata_encoding(m1@) == metadata_encoding(m2@),
    ensures
        m1@ == m2@,
{
    lemma_metadata_view_wf(m1);
    lemma_metadata_view_wf(m2);
    lemma_metadata_encoding_injective(m1@, m2@);
}

} // verus!
