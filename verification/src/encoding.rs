//! Canonical conversions between byte buffers and the scalar-field values
//! used by the challenge generator and the proof verifier.

use vstd::prelude::*;

verus! {

use vstd::arithmetic::div_mod::{
    lemma_div_denominator,
    lemma_div_pos_is_pos,
    lemma_fundamental_div_mod,
    lemma_fundamental_div_mod_converse,
    lemma_mod_bound,
    lemma_mod_breakdown,
    lemma_small_mod,
};

/// The integer denoted by a byte sequence read in big-endian order.
pub open spec fn be_int(s: Seq<u8>) -> int
    decreases s.len(),
{
    if s.len() == 0 {
        0
    } else {
        be_int(s.drop_last()) * 256 + s.last()
    }
}

/// The integer denoted by a byte sequence read in little-endian order.
pub open spec fn le_int(s: Seq<u8>) -> int
    decreases s.len(),
{
    if s.len() == 0 {
        0
    } else {
        s.first() + 256 * le_int(s.drop_first())
    }
}

/// 256 raised to the power `n`: the number of byte strings of length `n`.
pub open spec fn pow256(n: nat) -> int
    decreases n,
{
    if n == 0 {
        1
    } else {
        256 * pow256((n - 1) as nat)
    }
}

/// The big-endian encoding of `n` in exactly `len` bytes (`n` truncated
/// modulo `pow256(len)`).
pub open spec fn be_bytes_of(n: int, len: nat) -> Seq<u8>
    decreases len,
{
    if len == 0 {
        Seq::empty()
    } else {
        be_bytes_of(n / 256, (len - 1) as nat).push((n % 256) as u8)
    }
}

/// Order of the BLS12-381 scalar field: the modulus every challenge
/// coefficient and blinding scalar is reduced by.
pub open spec fn scalar_field_order() -> int {
    0x73eda753299d7d483339d80809a1d80553bda402fffe5bfeffffffff00000001int
}

/// The canonical 32-byte big-endian encoding of a 256-bit integer reduced
/// modulo the scalar field order.
pub open spec fn spec_reduce_mod_field(s: Seq<u8>) -> Seq<u8> {
    be_bytes_of(be_int(s) % scalar_field_order(), 32)
}

/// Powers of 256 are positive.
pub proof fn lemma_pow256_pos(n: nat)
    ensures
        pow256(n) > 0,
    decreases n,
{
    if n > 0 {
        lemma_pow256_pos((n - 1) as nat);
    }
}

/// Powers of 256 multiply when exponents add.
pub proof fn lemma_pow256_adds(a: nat, b: nat)
    ensures
        pow256(a + b) == pow256(a) * pow256(b),
    decreases a,
{
    if a == 0 {
        assert(pow256(b) == 1 * pow256(b));
    } else {
        lemma_pow256_adds((a - 1) as nat, b);
        assert(pow256((a - 1) as nat + b) == pow256((a - 1) as nat) * pow256(b));
        assert(pow256(a + b) == 256 * (pow256((a - 1) as nat) * pow256(b)));
        assert(256 * (pow256((a - 1) as nat) * pow256(b)) == (256 * pow256((a - 1) as nat))
            * pow256(b)) by (nonlinear_arith);
    }
}

/// Powers of 256 are monotone in the exponent.
pub proof fn lemma_pow256_increases(m: nat, n: nat)
    requires
        m <= n,
    ensures
        pow256(m) <= pow256(n),
    decreases n,
{
    lemma_pow256_pos(m);
    if m < n {
        lemma_pow256_increases(m, (n - 1) as nat);
        lemma_pow256_pos((n - 1) as nat);
    }
}

/// A byte sequence has a non-negative value below `pow256` of its length.
pub proof fn lemma_be_int_bounds(s: Seq<u8>)
    ensures
        0 <= be_int(s) < pow256(s.len()),
    decreases s.len(),
{
    if s.len() > 0 {
        lemma_be_int_bounds(s.drop_last());
    }
}

/// A byte sequence read little-endian also stays below `pow256` of its length.
pub proof fn lemma_le_int_bounds(s: Seq<u8>)
    ensures
        0 <= le_int(s) < pow256(s.len()),
    decreases s.len(),
{
    if s.len() > 0 {
        lemma_le_int_bounds(s.drop_first());
    }
}

/// A sequence of zero bytes denotes zero.
pub proof fn lemma_be_int_all_zero(s: Seq<u8>)
    requires
        forall|i: int| 0 <= i < s.len() ==> s[i] == 0,
    ensures
        be_int(s) == 0,
    decreases s.len(),
{
    if s.len() > 0 {
        lemma_be_int_all_zero(s.drop_last());
    }
}

/// Encoding the value of a byte sequence at its own length gives the
/// sequence back: 32-byte buffers are canonical for their values.
pub proof fn lemma_be_bytes_of_be_int(s: Seq<u8>)
    ensures
        be_bytes_of(be_int(s), s.len()) == s,
    decreases s.len(),
{
    if s.len() == 0 {
        assert(be_bytes_of(be_int(s), s.len()) =~= s);
    } else {
        let dl = s.drop_last();
        let v = be_int(s);
        lemma_be_int_bounds(dl);
        lemma_fundamental_div_mod_converse(v, 256, be_int(dl), s.last() as int);
        lemma_be_bytes_of_be_int(dl);
        assert(be_bytes_of(v, s.len()) =~= s);
    }
}

/// Decoding the fixed-width encoding of an in-range value gives the value back.
pub proof fn lemma_be_int_of_be_bytes(n: int, len: nat)
    requires
        0 <= n < pow256(len),
    ensures
        be_int(be_bytes_of(n, len)) == n,
    decreases len,
{
    if len > 0 {
        lemma_pow256_pos((len - 1) as nat);
        lemma_fundamental_div_mod(n, 256);
        lemma_mod_bound(n, 256);
        lemma_div_pos_is_pos(n, 256);
        assert(256 * (n / 256) < 256 * pow256((len - 1) as nat));
        lemma_be_int_of_be_bytes(n / 256, (len - 1) as nat);
        assert(be_bytes_of(n, len).drop_last() =~= be_bytes_of(n / 256, (len - 1) as nat));
    }
}

/// Splitting a byte sequence at position `k` splits its value into a
/// high part scaled by `pow256` of the tail length plus a low part.
pub proof fn lemma_be_int_split(s: Seq<u8>, k: int)
    requires
        0 <= k <= s.len(),
    ensures
        be_int(s) == be_int(s.take(k)) * pow256((s.len() - k) as nat) + be_int(s.skip(k)),
    decreases s.len(),
{
    if k == s.len() {
        assert(s.take(k) =~= s);
        assert(s.skip(k) =~= Seq::<u8>::empty());
    } else {
        let dl = s.drop_last();
        lemma_be_int_split(dl, k);
        assert(dl.take(k) =~= s.take(k));
        assert(s.skip(k).drop_last() =~= dl.skip(k));
        let t = be_int(s.take(k));
        let p = pow256((dl.len() - k) as nat);
        assert(s.skip(k).len() > 0);
        assert(s.skip(k).last() == s.last());
        assert(be_int(s.skip(k)) == be_int(dl.skip(k)) * 256 + s.last());
        assert(be_int(dl) == t * p + be_int(dl.skip(k)));
        assert(be_int(s) == be_int(dl) * 256 + s.last());
        assert((t * p + be_int(dl.skip(k))) * 256 == (t * p) * 256 + be_int(dl.skip(k)) * 256);
        assert(pow256((s.len() - k) as nat) == 256 * p);
        assert(t * (256 * p) == (t * p) * 256) by (nonlinear_arith);
    }
}

/// Reversing a sequence twice gives the sequence back: the byte-order
/// conversion between storage and arithmetic encodings is an involution.
pub proof fn lemma_reverse_round_trip(s: Seq<u8>)
    ensures
        s.reverse().reverse() == s,
{
    assert(s.reverse().reverse() =~= s);
}

/// Reverses the byte order of a 32-byte buffer; applied exactly once
/// between the big-endian storage encoding and the little-endian encoding
/// the scalar arithmetic expects.
pub fn reverse_endianness(input: [u8; 32]) -> (r: [u8; 32])
    ensures
        r@ == input@.reverse(),
{
    let mut out: [u8; 32] = [0u8; 32];
    let mut j: usize = 0;
    while j < 32
        invariant
            j <= 32,
            forall|k: int| 0 <= k < j ==> out@[k] == input@[31 - k],
        decreases 32 - j,
    {
        out[j] = input[31 - j];
        j = j + 1;
    }
    proof {
        assert(out@ =~= input@.reverse());
    }
    out
}

/// Byte-wise equality of two 32-byte buffers.
pub fn eq_bytes_32(a: &[u8; 32], b: &[u8; 32]) -> (r: bool)
    ensures
        r == (a@ == b@),
{
    let mut j: usize = 0;
    while j < 32
        invariant
            j <= 32,
            forall|k: int| 0 <= k < j ==> a@[k] == b@[k],
        decreases 32 - j,
    {
        if a[j] != b[j] {
            return false;
        }
        j = j + 1;
    }
    proof {
        assert(a@ =~= b@);
    }
    true
}

/// The 16-byte big-endian encoding of a 128-bit value.
fn u128_to_be_bytes_16(v: u128) -> (r: [u8; 16])
    ensures
        r@ == be_bytes_of(v as int, 16),
        be_int(r@) == v as int,
{
    let mut out: [u8; 16] = [0u8; 16];
    let mut w: u128 = v;
    let mut t: usize = 0;
    proof {
        assert(out@.skip(16) =~= Seq::<u8>::empty());
    }
    while t < 16
        invariant
            t <= 16,
            w as int == (v as int) / pow256(t as nat),
            be_int(out@.skip(16 - t)) == (v as int) % pow256(t as nat),
        decreases 16 - t,
    {
        let ghost old_out = out@;
        let ghost pt = pow256(t as nat);
        let p: usize = 15 - t;
        out[p] = (w % 256) as u8;
        proof {
            lemma_pow256_pos(t as nat);
            let q = out@.skip(p as int);
            let a = ((v as int) / pt) % 256;
            assert(q.skip(1) =~= old_out.skip(16 - t));
            lemma_be_int_split(q, 1);
            assert(q.take(1).drop_last() =~= Seq::<u8>::empty());
            assert(be_int(q.take(1)) == be_int(q.take(1).drop_last()) * 256 + q.take(1).last());
            assert(q.take(1).last() == q[0]);
            assert(q[0] as int == a);
            assert(be_int(q) == a * pow256((q.len() - 1) as nat) + be_int(q.skip(1)));
            assert(q.len() - 1 == t);
            lemma_mod_breakdown(v as int, pt, 256);
            assert((v as int) % (pt * 256) == pt * a + (v as int) % pt);
            assert(a * pt == pt * a) by (nonlinear_arith);
            assert(pt * 256 == 256 * pt) by (nonlinear_arith);
            assert(pow256((t + 1) as nat) == 256 * pt);
            assert(be_int(out@.skip(p as int)) == (v as int) % pow256((t + 1) as nat));
            lemma_div_denominator(v as int, pt, 256);
        }
        w = w / 256;
        t = t + 1;
    }
    proof {
        assert(out@.skip(0) =~= out@);
        assert(pow256(16) == 0x100000000000000000000000000000000int) by {
            reveal_with_fuel(pow256, 17);
        }
        lemma_small_mod(v as nat, pow256(16) as nat);
        lemma_be_bytes_of_be_int(out@);
    }
    out
}

/// Right-aligns a 128-bit block index into the low 16 bytes of a 32-byte
/// big-endian buffer, the fixed zero-padding every hash-to-curve caller
/// must agree on.
pub fn convert_u128_to_32_bytes(i: u128) -> (r: [u8; 32])
    ensures
        r@ == be_bytes_of(i as int, 32),
        be_int(r@) == i as int,
        forall|j: int| 0 <= j < 16 ==> r@[j] == 0,
{
    let lo = u128_to_be_bytes_16(i);
    let mut out: [u8; 32] = [0u8; 32];
    let mut j: usize = 0;
    while j < 16
        invariant
            j <= 16,
            forall|k: int| 0 <= k < j ==> out@[16 + k] == lo@[k],
            forall|k: int| 0 <= k < 16 ==> out@[k] == 0,
        decreases 16 - j,
    {
        out[16 + j] = lo[j];
        j = j + 1;
    }
    proof {
        assert(out@.skip(16) =~= lo@);
        lemma_be_int_split(out@, 16);
        lemma_be_int_all_zero(out@.take(16));
        assert(be_int(out@) == i as int);
        lemma_be_bytes_of_be_int(out@);
    }
    out
}

/// The 32-byte big-endian encoding of the scalar field order.
pub fn scalar_modulus_be_bytes() -> (r: [u8; 32])
    ensures
        be_int(r@) == scalar_field_order(),
{
    let hi = u128_to_be_bytes_16(0x73eda753299d7d483339d80809a1d805u128);
    let lo = u128_to_be_bytes_16(0x53bda402fffe5bfeffffffff00000001u128);
    let mut out: [u8; 32] = [0u8; 32];
    let mut j: usize = 0;
    while j < 16
        invariant
            j <= 16,
            forall|k: int| 0 <= k < j ==> out@[k] == hi@[k] && out@[16 + k] == lo@[k],
        decreases 16 - j,
    {
        out[j] = hi[j];
        out[16 + j] = lo[j];
        j = j + 1;
    }
    proof {
        assert(out@.take(16) =~= hi@);
        assert(out@.skip(16) =~= lo@);
        lemma_be_int_split(out@, 16);
        assert(pow256(16) == 0x100000000000000000000000000000000int) by {
            reveal_with_fuel(pow256, 17);
        }
    }
    out
}

/// Relies on `num_bigint::BigUint`: `%` returns the remainder of the
/// big-endian integers, written back right-aligned in 32 bytes.
#[verifier::external_body]
fn biguint_mod_be_32(num: &[u8; 32], modulus: &[u8; 32]) -> (r: [u8; 32])
    requires
        be_int(modulus@) > 0,
    ensures
        be_int(r@) == be_int(num@) % be_int(modulus@),
{
    let n = num_bigint::BigUint::from_bytes_be(num);
    let m = num_bigint::BigUint::from_bytes_be(modulus);
    let rem = (n % m).to_bytes_be();
    let mut out = [0u8; 32];
    out[32 - rem.len()..].copy_from_slice(&rem);
    out
}

/// Reduces an arbitrary 256-bit big-endian integer modulo the scalar field
/// order, returning the canonical big-endian representative.
pub fn reduce_mod_field(bytes: [u8; 32]) -> (r: [u8; 32])
    ensures
        r@ == spec_reduce_mod_field(bytes@),
        be_int(r@) == be_int(bytes@) % scalar_field_order(),
        0 <= be_int(r@) < scalar_field_order(),
{
    let m = scalar_modulus_be_bytes();
    let out = biguint_mod_be_32(&bytes, &m);
    proof {
        lemma_be_int_bounds(bytes@);
        lemma_mod_bound(be_int(bytes@), scalar_field_order());
        lemma_be_bytes_of_be_int(out@);
    }
    out
}

/// Reduction is idempotent: an already-reduced value reduces to itself,
/// and every reduced value lies below the scalar field order.
pub proof fn lemma_reduce_mod_field_idempotent(s: Seq<u8>)
    requires
        s.len() == 32,
    ensures
        spec_reduce_mod_field(spec_reduce_mod_field(s)) == spec_reduce_mod_field(s),
        0 <= be_int(spec_reduce_mod_field(s)) < scalar_field_order(),
{
    let v = be_int(s) % scalar_field_order();
    lemma_be_int_bounds(s);
    lemma_mod_bound(be_int(s), scalar_field_order());
    lemma_pow256_adds(16, 16);
    assert(pow256(16) == 0x100000000000000000000000000000000int) by {
        reveal_with_fuel(pow256, 17);
    }
    assert(scalar_field_order() < pow256(32));
    lemma_be_int_of_be_bytes(v, 32);
    lemma_small_mod(v as nat, scalar_field_order() as nat);
}

/// Whether a 32-byte big-endian buffer already denotes a value below the
/// scalar field order, i.e. is a canonical scalar encoding.
pub fn is_canonical_scalar(bytes: &[u8; 32]) -> (r: bool)
    ensures
        r == (be_int(bytes@) < scalar_field_order()),
{
    let reduced = reduce_mod_field(*bytes);
    let eq = eq_bytes_32(&reduced, bytes);
    proof {
        if be_int(bytes@) < scalar_field_order() {
            lemma_be_int_bounds(bytes@);
            lemma_small_mod(be_int(bytes@) as nat, scalar_field_order() as nat);
            lemma_be_bytes_of_be_int(bytes@);
        }
    }
    eq
}

/// The 64-bit value of 8 bytes read in little-endian order.
pub fn u64_from_le_bytes(bytes: &[u8; 8]) -> (r: u64)
    ensures
        r as int == le_int(bytes@),
{
    let mut acc: u64 = 0;
    let mut j: usize = 8;
    proof {
        assert(bytes@.skip(8) =~= Seq::<u8>::empty());
    }
    while j > 0
        invariant
            j <= 8,
            acc as int == le_int(bytes@.skip(j as int)),
        decreases j,
    {
        proof {
            lemma_le_int_bounds(bytes@.skip(j as int));
            lemma_pow256_increases((8 - j) as nat, 7);
            assert(pow256(7) == 0x100000000000000int) by {
                reveal_with_fuel(pow256, 8);
            }
            assert(bytes@.skip(j - 1).drop_first() =~= bytes@.skip(j as int));
        }
        j = j - 1;
        acc = (bytes[j] as u64) + 256 * acc;
    }
    proof {
        assert(bytes@.skip(0) =~= bytes@);
    }
    acc
}

} // verus!
