//! Trusted boundary to the BLS12-381 pairing library: group elements are
//! carried as their compressed byte encodings, and each operation the
//! verifier needs is a wrapper whose contract names what the library
//! returns for those encodings.

use vstd::prelude::*;

verus! {

use crate::encoding::{be_bytes_of, be_int, scalar_field_order};

/// Whether 48 bytes are the compressed encoding of a G1 group element
/// (as decided by `G1Affine::from_compressed`: on curve, canonical flags,
/// and in the prime-order subgroup).
pub uninterp spec fn g1_valid(b: Seq<u8>) -> bool;

/// Whether 96 bytes are the compressed encoding of a G2 group element
/// (as decided by `G2Affine::from_compressed`).
pub uninterp spec fn g2_valid(b: Seq<u8>) -> bool;

/// The compressed encoding of the sum of the two G1 elements encoded by
/// `a` and `b`.
pub uninterp spec fn g1_add_enc(a: Seq<u8>, b: Seq<u8>) -> Seq<u8>;

/// The compressed encoding of the G1 element encoded by `p` multiplied by
/// the scalar whose little-endian encoding is `scalar_le`.
pub uninterp spec fn g1_mul_enc(p: Seq<u8>, scalar_le: Seq<u8>) -> Seq<u8>;

/// The compressed encoding of the hash-to-curve image of `msg` under
/// domain-separation tag `dst` (XMD-SHA-256 expansion, SSWU mapping).
pub uninterp spec fn hash_to_g1_enc(msg: Seq<u8>, dst: Seq<u8>) -> Seq<u8>;

/// The pairing of the G1 element encoded by `p` with the G2 element
/// encoded by `q`, as the canonical representation of the target-group
/// element; two pairings are equal exactly when these representations are.
pub uninterp spec fn pairing_gt(p: Seq<u8>, q: Seq<u8>) -> Seq<u8>;

/// The compressed encoding of the G1 identity element: infinity and
/// compression flag bits set, every other bit zero.
pub open spec fn g1_identity_enc() -> Seq<u8> {
    Seq::new(48, |i: int| if i == 0 { 0xc0u8 } else { 0u8 })
}

/// The domain-separation tag every hash-to-curve call of this protocol
/// uses: the ASCII string `BLS_SIG_BLS12381G1_XMD:SHA-256_SSWU_RO_`.
pub open spec fn dst() -> Seq<u8> {
    seq![
        66u8, 76u8, 83u8, 95u8, 83u8, 73u8, 71u8, 95u8, 66u8, 76u8, 83u8, 49u8, 50u8, 51u8,
        56u8, 49u8, 71u8, 49u8, 95u8, 88u8, 77u8, 68u8, 58u8, 83u8, 72u8, 65u8, 45u8, 50u8,
        53u8, 54u8, 95u8, 83u8, 83u8, 87u8, 85u8, 95u8, 82u8, 79u8, 95u8,
    ]
}

/// The domain-separation tag as bytes at run time.
pub fn dst_bytes() -> (r: Vec<u8>)
    ensures
        r@ == dst(),
{
    let r: Vec<u8> = vec![
        66u8, 76u8, 83u8, 95u8, 83u8, 73u8, 71u8, 95u8, 66u8, 76u8, 83u8, 49u8, 50u8, 51u8,
        56u8, 49u8, 71u8, 49u8, 95u8, 88u8, 77u8, 68u8, 58u8, 83u8, 72u8, 65u8, 45u8, 50u8,
        53u8, 54u8, 95u8, 83u8, 83u8, 87u8, 85u8, 95u8, 82u8, 79u8, 95u8,
    ];
    proof {
        assert(r@ =~= dst());
    }
    r
}

/// Relies on `G1Affine::from_compressed`: succeeds exactly on valid
/// compressed G1 encodings.
#[verifier::external_body]
pub(crate) fn g1_decompress_ok(b: &[u8; 48]) -> (r: bool)
    ensures
        r == g1_valid(b@),
{
    bool::from(bls12_381::G1Affine::from_compressed(b).is_some())
}

/// Relies on `G2Affine::from_compressed`: succeeds exactly on valid
/// compressed G2 encodings.
#[verifier::external_body]
pub(crate) fn g2_decompress_ok(b: &[u8; 96]) -> (r: bool)
    ensures
        r == g2_valid(b@),
{
    bool::from(bls12_381::G2Affine::from_compressed(b).is_some())
}

/// Relies on `G1Affine::identity` and `G1Affine::to_compressed`: the
/// identity compresses to the infinity encoding, which decompresses again.
#[verifier::external_body]
pub(crate) fn g1_identity_compressed() -> (r: [u8; 48])
    ensures
        r@ == g1_identity_enc(),
        g1_valid(r@),
{
    bls12_381::G1Affine::identity().to_compressed()
}

/// Relies on G1 point addition over `from_compressed`/`to_compressed`:
/// the sum of two valid encodings is the valid encoding named by
/// `g1_add_enc`.
#[verifier::external_body]
pub(crate) fn g1_add_compressed(a: &[u8; 48], b: &[u8; 48]) -> (r: [u8; 48])
    requires
        g1_valid(a@),
        g1_valid(b@),
    ensures
        r@ == g1_add_enc(a@, b@),
        g1_valid(r@),
{
    let pa = bls12_381::G1Projective::from(bls12_381::G1Affine::from_compressed(a).unwrap());
    let pb = bls12_381::G1Projective::from(bls12_381::G1Affine::from_compressed(b).unwrap());
    bls12_381::G1Affine::from(pa + pb).to_compressed()
}

/// Relies on `Scalar::from_bytes` (little-endian, canonical below the
/// field order) and G1 scalar multiplication: the product of a valid
/// encoding and a canonical scalar is the valid encoding named by
/// `g1_mul_enc`.
#[verifier::external_body]
pub(crate) fn g1_mul_compressed(p: &[u8; 48], scalar_le: &[u8; 32]) -> (r: [u8; 48])
    requires
        g1_valid(p@),
        be_int(scalar_le@.reverse()) < scalar_field_order(),
    ensures
        r@ == g1_mul_enc(p@, scalar_le@),
        g1_valid(r@),
{
    let pt = bls12_381::G1Affine::from_compressed(p).unwrap();
    let s = bls12_381::Scalar::from_bytes(scalar_le).unwrap();
    bls12_381::G1Affine::from(pt * s).to_compressed()
}

/// Relies on `HashToCurve::hash_to_curve` with XMD-SHA-256 expansion:
/// deterministic in the message and tag alone, and its image lies in the
/// G1 subgroup.
#[verifier::external_body]
pub(crate) fn hash_to_curve_compressed(msg: &[u8; 32], dst: &[u8]) -> (r: [u8; 48])
    ensures
        r@ == hash_to_g1_enc(msg@, dst@),
        g1_valid(r@),
{
    let g = <bls12_381::G1Projective as bls12_381::hash_to_curve::HashToCurve<
        bls12_381::hash_to_curve::ExpandMsgXmd<sha2::Sha256>,
    >>::hash_to_curve(msg, dst);
    bls12_381::G1Affine::from(&g).to_compressed()
}

/// Relies on `bls12_381::pairing` and equality in the target group:
/// returns whether the two pairings agree, stated through `pairing_gt`.
#[verifier::external_body]
pub(crate) fn pairings_equal(
    a1: &[u8; 48],
    a2: &[u8; 96],
    b1: &[u8; 48],
    b2: &[u8; 96],
) -> (r: bool)
    requires
        g1_valid(a1@),
        g2_valid(a2@),
        g1_valid(b1@),
        g2_valid(b2@),
    ensures
        r == (pairing_gt(a1@, a2@) == pairing_gt(b1@, b2@)),
{
    let p1 = bls12_381::G1Affine::from_compressed(a1).unwrap();
    let q1 = bls12_381::G2Affine::from_compressed(a2).unwrap();
    let p2 = bls12_381::G1Affine::from_compressed(b1).unwrap();
    let q2 = bls12_381::G2Affine::from_compressed(b2).unwrap();
    bls12_381::pairing(&p1, &q1) == bls12_381::pairing(&p2, &q2)
}

/// Maps a block index to its canonical point on G1: the index right-
/// aligned in 32 big-endian bytes, hashed to the curve under the fixed
/// domain-separation tag.
pub fn perform_hash_to_curve(i: u128) -> (r: [u8; 48])
    ensures
        r@ == hash_to_g1_enc(be_bytes_of(i as int, 32), dst()),
        g1_valid(r@),
{
    let msg = crate::encoding::convert_u128_to_32_bytes(i);
    let d = dst_bytes();
    hash_to_curve_compressed(&msg, d.as_slice())
}

} // verus!
