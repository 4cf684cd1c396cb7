//! Challenge generation: parsing the external entropy feed and deriving
//! from it the (block index, coefficient) pairs a prover must answer.

use vstd::prelude::*;

verus! {

use crate::EscrowError;
use crate::PrincipalId;
use crate::encoding::{
    be_int, le_int, reduce_mod_field, scalar_field_order, spec_reduce_mod_field, u64_from_le_bytes,
};

/// One challenge: a block index to prove possession of, and the
/// verification coefficient it is weighted by (32 bytes, big-endian,
/// already reduced below the scalar field order).
#[derive(Clone, Copy, Debug)]
pub struct Query {
    pub block_index: u128,
    pub coefficient: [u8; 32],
}

/// The entropy sequence handed in by the external randomness oracle:
/// the identity it claims, and its raw record data (an 8-byte
/// little-endian count, then per record an 8-byte little-endian value
/// and a 32-byte hash).
pub struct EntropyFeed {
    pub source: PrincipalId,
    pub data: Vec<u8>,
}

/// The content of a challenge set: block index and coefficient bytes of
/// each entry, the level at which challenge sets are compared.
pub open spec fn query_views(qs: Seq<Query>) -> Seq<(u128, Seq<u8>)> {
    Seq::new(qs.len(), |k: int| (qs[k].block_index, qs[k].coefficient@))
}

/// Every coefficient of the set is a canonical scalar encoding.
pub open spec fn coefficients_canonical(qs: Seq<Query>) -> bool {
    forall|k: int|
        0 <= k < qs.len() ==> be_int(#[trigger] qs[k].coefficient@) < scalar_field_order()
}

/// The smaller of the configured sample size and the records available.
pub open spec fn spec_take_count(limit: int, count: int) -> int {
    if limit <= count {
        limit
    } else {
        count
    }
}

/// The record count the feed declares in its first 8 bytes.
pub open spec fn spec_feed_count(data: Seq<u8>) -> int {
    le_int(data.subrange(0, 8))
}

/// The little-endian value of record `k`'s first 8 bytes.
pub open spec fn spec_record_value(data: Seq<u8>, k: int) -> int {
    le_int(data.subrange(8 + 40 * k, 16 + 40 * k))
}

/// The 32 hash bytes of record `k`.
pub open spec fn spec_record_hash(data: Seq<u8>, k: int) -> Seq<u8> {
    data.subrange(16 + 40 * k, 48 + 40 * k)
}

/// Whether the feed data is long enough to supply `limit` records (or as
/// many as it declares, if fewer).
pub open spec fn spec_feed_long_enough(data: Seq<u8>, limit: int) -> bool {
    &&& data.len() >= 8
    &&& 8 + 40 * spec_take_count(limit, spec_feed_count(data)) <= data.len()
}

/// Reads the first `limit` records of the entropy feed (or all the feed
/// declares, if fewer), in order.
pub fn parse_entropy_records(data: &Vec<u8>, limit: u64) -> (r: Result<
    Vec<(u64, [u8; 32])>,
    EscrowError,
>)
    ensures
        r is Ok <==> spec_feed_long_enough(data@, limit as int),
        r is Err ==> r == Err::<Vec<(u64, [u8; 32])>, EscrowError>(EscrowError::MalformedInput),
        r matches Ok(v) ==> {
            &&& v@.len() == spec_take_count(limit as int, spec_feed_count(data@))
            &&& forall|k: int|
                0 <= k < v@.len() ==> (#[trigger] v@[k]).0 as int == spec_record_value(data@, k)
            &&& forall|k: int| 0 <= k < v@.len() ==> (#[trigger] v@[k]).1@ == spec_record_hash(data@, k)
        },
{
    if data.len() < 8 {
        return Err(EscrowError::MalformedInput);
    }
    let mut count_bytes: [u8; 8] = [0u8; 8];
    let mut j: usize = 0;
    while j < 8
        invariant
            j <= 8,
            data@.len() >= 8,
            forall|x: int| 0 <= x < j ==> count_bytes@[x] == data@[x],
        decreases 8 - j,
    {
        count_bytes[j] = data[j];
        j = j + 1;
    }
    proof {
        assert(count_bytes@ =~= data@.subrange(0, 8));
    }
    let count = u64_from_le_bytes(&count_bytes);
    let n = if limit <= count {
        limit
    } else {
        count
    };
    let data_len: usize = data.len();
    let avail: usize = (data_len - 8) / 40;
    proof {
        vstd::arithmetic::div_mod::lemma_fundamental_div_mod(data_len as int - 8, 40);
        vstd::arithmetic::div_mod::lemma_mod_bound(data_len as int - 8, 40);
    }
    if n > avail as u64 {
        proof {
            assert(!(8 + 40 * (n as int) <= data@.len()));
        }
        return Err(EscrowError::MalformedInput);
    }
    let n_usize = n as usize;
    let mut out: Vec<(u64, [u8; 32])> = Vec::new();
    let mut k: usize = 0;
    while k < n_usize
        invariant
            k <= n_usize,
            n_usize == spec_take_count(limit as int, spec_feed_count(data@)),
            data_len == data@.len(),
            8 + 40 * (n_usize as int) <= data_len as int,
            out@.len() == k,
            forall|x: int| 0 <= x < k ==> (#[trigger] out@[x]).0 as int == spec_record_value(data@, x),
            forall|x: int| 0 <= x < k ==> (#[trigger] out@[x]).1@ == spec_record_hash(data@, x),
        decreases n_usize - k,
    {
        let base: usize = 8 + 40 * k;
        let mut value_bytes: [u8; 8] = [0u8; 8];
        let mut i: usize = 0;
        while i < 8
            invariant
                i <= 8,
                base == 8 + 40 * k,
                k < n_usize,
                data_len == data@.len(),
                8 + 40 * (n_usize as int) <= data_len as int,
                forall|x: int| 0 <= x < i ==> value_bytes@[x] == data@[base + x],
            decreases 8 - i,
        {
            value_bytes[i] = data[base + i];
            i = i + 1;
        }
        let mut hash_bytes: [u8; 32] = [0u8; 32];
        let mut h: usize = 0;
        while h < 32
            invariant
                h <= 32,
                base == 8 + 40 * k,
                k < n_usize,
                data_len == data@.len(),
                8 + 40 * (n_usize as int) <= data_len as int,
                forall|x: int| 0 <= x < h ==> hash_bytes@[x] == data@[base + 8 + x],
            decreases 32 - h,
        {
            hash_bytes[h] = data[base + 8 + h];
            h = h + 1;
        }
        proof {
            assert(value_bytes@ =~= data@.subrange(8 + 40 * (k as int), 16 + 40 * (k as int)));
            assert(hash_bytes@ =~= data@.subrange(16 + 40 * (k as int), 48 + 40 * (k as int)));
        }
        let value = u64_from_le_bytes(&value_bytes);
        out.push((value, hash_bytes));
        k = k + 1;
    }
    Ok(out)
}

/// The challenge set derived from entropy records: entry `k` pairs the
/// record's value reduced modulo the block count with its hash reduced
/// modulo the scalar field order.
pub open spec fn spec_challenge_views(
    records: Seq<(u64, [u8; 32])>,
    query_size: u64,
    number_of_blocks: u64,
) -> Seq<(u128, Seq<u8>)> {
    Seq::new(
        spec_take_count(query_size as int, records.len() as int) as nat,
        |k: int|
            (
                ((records[k].0 as int % number_of_blocks as int) as u128),
                spec_reduce_mod_field(records[k].1@),
            ),
    )
}

/// The challenge set a raw entropy feed denotes, stated over the feed
/// bytes themselves: entry `k` pairs record `k`'s value reduced modulo
/// the block count with its hash reduced modulo the scalar field order.
pub open spec fn spec_challenge_views_of_feed(
    data: Seq<u8>,
    query_size: u64,
    number_of_blocks: u64,
) -> Seq<(u128, Seq<u8>)> {
    Seq::new(
        spec_take_count(query_size as int, spec_feed_count(data)) as nat,
        |k: int|
            (
                ((spec_record_value(data, k) % number_of_blocks as int) as u128),
                spec_reduce_mod_field(spec_record_hash(data, k)),
            ),
    )
}

/// Builds the challenge set for one round from the parsed entropy
/// records and the escrow's configuration.
pub fn challenge_set(records: &Vec<(u64, [u8; 32])>, query_size: u64, number_of_blocks: u64) -> (r:
    Vec<Query>)
    requires
        number_of_blocks > 0,
    ensures
        query_views(r@) == spec_challenge_views(records@, query_size, number_of_blocks),
        coefficients_canonical(r@),
        forall|k: int|
            0 <= k < r@.len() ==> (#[trigger] r@[k]).block_index < number_of_blocks as u128,
{
    let n: usize = if query_size <= records.len() as u64 {
        query_size as usize
    } else {
        records.len()
    };
    let mut out: Vec<Query> = Vec::new();
    let mut k: usize = 0;
    while k < n
        invariant
            k <= n,
            n == spec_take_count(query_size as int, records@.len() as int),
            n <= records@.len(),
            out@.len() == k,
            number_of_blocks > 0,
            forall|x: int|
                0 <= x < k ==> (#[trigger] out@[x]).block_index as int == records@[x].0 as int
                    % number_of_blocks as int,
            forall|x: int|
                0 <= x < k ==> (#[trigger] out@[x]).coefficient@ == spec_reduce_mod_field(
                    records@[x].1@,
                ),
            forall|x: int|
                0 <= x < k ==> (#[trigger] out@[x]).block_index < number_of_blocks as u128,
            coefficients_canonical(out@),
        decreases n - k,
    {
        let record = records[k];
        let block_index: u128 = (record.0 % number_of_blocks) as u128;
        let coefficient = reduce_mod_field(record.1);
        out.push(Query { block_index, coefficient });
        k = k + 1;
    }
    proof {
        assert(query_views(out@) =~= spec_challenge_views(records@, query_size, number_of_blocks));
    }
    out
}

/// Challenge determinism: the challenge set is a function of the entropy
/// records and the configuration alone, so two sets generated from the
/// same feed and settings have identical content.
pub proof fn lemma_challenge_generation_deterministic(
    qs1: Seq<Query>,
    qs2: Seq<Query>,
    records: Seq<(u64, [u8; 32])>,
    query_size: u64,
    number_of_blocks: u64,
)
    requires
        query_views(qs1) == spec_challenge_views(records, query_size, number_of_blocks),
        query_views(qs2) == spec_challenge_views(records, query_size, number_of_blocks),
    ensures
        query_views(qs1) == query_views(qs2),
{
}

} // verus!
