//! Proof verification: aggregates the hashed challenge points and decides
//! the pairing equation `e(sigma, g) == e(prod H(i)^(c_i) * u^mu, v)`.

use vstd::prelude::*;

verus! {

use crate::EscrowError;
use crate::challenge::{Query, coefficients_canonical};
use crate::curve::{
    dst, g1_add_compressed, g1_add_enc, g1_decompress_ok, g1_identity_compressed, g1_identity_enc,
    g1_mul_compressed, g1_mul_enc, g1_valid, g2_decompress_ok, g2_valid, hash_to_g1_enc,
    pairing_gt, pairings_equal, perform_hash_to_curve,
};
use crate::encoding::{
    be_bytes_of, be_int, is_canonical_scalar, lemma_reverse_round_trip, reverse_endianness,
    scalar_field_order,
};

/// The encoding of the point one challenge entry contributes: the hash of
/// its block index scaled by its coefficient.
pub open spec fn spec_query_term(q: Query) -> Seq<u8> {
    g1_mul_enc(
        hash_to_g1_enc(be_bytes_of(q.block_index as int, 32), dst()),
        q.coefficient@.reverse(),
    )
}

/// The encoding of the sum over the challenge set of each entry's term,
/// starting from the identity element.
pub open spec fn spec_aggregate(qs: Seq<Query>) -> Seq<u8>
    decreases qs.len(),
{
    if qs.len() == 0 {
        g1_identity_enc()
    } else {
        g1_add_enc(spec_aggregate(qs.drop_last()), spec_query_term(qs.last()))
    }
}

/// Whether every encoding a proof submission rests on is well formed:
/// the subscription's public parameters, the claimed aggregate, the
/// blinding scalar and the stored coefficients.
pub open spec fn valid_proof_encodings(
    sigma: Seq<u8>,
    mu: Seq<u8>,
    u: Seq<u8>,
    g: Seq<u8>,
    v: Seq<u8>,
    qs: Seq<Query>,
) -> bool {
    &&& g2_valid(g)
    &&& g2_valid(v)
    &&& g1_valid(u)
    &&& g1_valid(sigma)
    &&& be_int(mu) < scalar_field_order()
    &&& coefficients_canonical(qs)
}

/// The combined right-hand operand of the pairing equation: the challenge
/// aggregate plus `u` scaled by the blinding scalar.
pub open spec fn spec_combined(mu: Seq<u8>, u: Seq<u8>, qs: Seq<Query>) -> Seq<u8> {
    g1_add_enc(spec_aggregate(qs), g1_mul_enc(u, mu.reverse()))
}

/// The exact acceptance condition of a proof: the two pairings agree.
pub open spec fn proof_accepted(
    sigma: Seq<u8>,
    mu: Seq<u8>,
    u: Seq<u8>,
    g: Seq<u8>,
    v: Seq<u8>,
    qs: Seq<Query>,
) -> bool {
    pairing_gt(sigma, g) == pairing_gt(spec_combined(mu, u, qs), v)
}

/// Computes the challenge aggregate `sum H(i) * c_i` over all entries of
/// the challenge set, the identity element standing for the empty sum.
/// Fails exactly when some stored coefficient is not a canonical scalar.
pub fn compute_h_i_multiply_vi(queries: &Vec<Query>) -> (r: Result<[u8; 48], EscrowError>)
    ensures
        r is Ok <==> coefficients_canonical(queries@),
        r is Err ==> r == Err::<[u8; 48], EscrowError>(EscrowError::MalformedInput),
        r matches Ok(agg) ==> agg@ == spec_aggregate(queries@) && g1_valid(agg@),
{
    let mut acc = g1_identity_compressed();
    let mut k: usize = 0;
    proof {
        assert(queries@.take(0) =~= Seq::<Query>::empty());
    }
    while k < queries.len()
        invariant
            k <= queries@.len(),
            acc@ == spec_aggregate(queries@.take(k as int)),
            g1_valid(acc@),
            coefficients_canonical(queries@.take(k as int)),
        decreases queries@.len() - k,
    {
        let q = &queries[k];
        if !is_canonical_scalar(&q.coefficient) {
            proof {
                assert(!coefficients_canonical(queries@));
            }
            return Err(EscrowError::MalformedInput);
        }
        let h = perform_hash_to_curve(q.block_index);
        let le = reverse_endianness(q.coefficient);
        proof {
            lemma_reverse_round_trip(q.coefficient@);
        }
        let term = g1_mul_compressed(&h, &le);
        acc = g1_add_compressed(&acc, &term);
        k = k + 1;
        proof {
            assert(queries@.take(k as int).drop_last() =~= queries@.take(k as int - 1));
            assert(queries@.take(k as int).last() == queries@[k as int - 1]);
        }
    }
    proof {
        assert(queries@.take(queries@.len() as int) =~= queries@);
    }
    Ok(acc)
}

/// Decides a submitted proof against the challenge set and the public
/// parameters. `Ok(true)` and `Ok(false)` are the two outcomes of the
/// pairing equation; `Err(MalformedInput)` reports an encoding that does
/// not denote a group element or canonical scalar.
pub fn verify_proof(
    sigma: &[u8; 48],
    mu: &[u8; 32],
    u: &[u8; 48],
    g: &[u8; 96],
    v: &[u8; 96],
    queries: &Vec<Query>,
) -> (r: Result<bool, EscrowError>)
    ensures
        r is Ok <==> valid_proof_encodings(sigma@, mu@, u@, g@, v@, queries@),
        r is Err ==> r == Err::<bool, EscrowError>(EscrowError::MalformedInput),
        r matches Ok(b) ==> b == proof_accepted(sigma@, mu@, u@, g@, v@, queries@),
{
    let g_ok = g2_decompress_ok(g);
    let v_ok = g2_decompress_ok(v);
    let u_ok = g1_decompress_ok(u);
    let sigma_ok = g1_decompress_ok(sigma);
    let mu_ok = is_canonical_scalar(mu);
    if !(g_ok && v_ok && u_ok && sigma_ok && mu_ok) {
        return Err(EscrowError::MalformedInput);
    }
    let agg = match compute_h_i_multiply_vi(queries) {
        Ok(a) => a,
        Err(e) => {
            return Err(e);
        },
    };
    let mu_le = reverse_endianness(*mu);
    proof {
        lemma_reverse_round_trip(mu@);
    }
    let u_mu = g1_mul_compressed(u, &mu_le);
    let combined = g1_add_compressed(&agg, &u_mu);
    let accepted = pairings_equal(sigma, g, &combined, v);
    Ok(accepted)
}

} // verus!
