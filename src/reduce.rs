use vstd::prelude::*;
use crate::bytes::{le_value, le_u64_prefix};

verus! {

broadcast use vstd::array::group_array_axioms;

/// Size of the target range `[1, RANGE]`.
pub const RANGE: u64 = 100000;

/// The largest multiple of `RANGE` that fits below `2^64`: raw values at or
/// above it are rejected, so that every residue is equally often accepted.
pub const MAX_SAFE: u64 = 18446744073709500000;

/// `MAX_SAFE` is `floor(2^64 / RANGE) * RANGE`.
pub proof fn lemma_max_safe()
    ensures
        MAX_SAFE as int == (0x1_0000_0000_0000_0000int / RANGE as int) * RANGE as int,
        MAX_SAFE as int % RANGE as int == 0,
        0x1_0000_0000_0000_0000int - MAX_SAFE < RANGE,
{
    assert(MAX_SAFE as int == (0x1_0000_0000_0000_0000int / RANGE as int) * RANGE as int);
    assert(MAX_SAFE as int % RANGE as int == 0);
}

/// What one raw 64-bit sample gives: a value in the range, or a rejection.
pub open spec fn reduce_raw(raw: int) -> Option<u32> {
    if raw < MAX_SAFE {
        Some((raw % RANGE as int + 1) as u32)
    } else {
        None
    }
}

/// What a digest gives: its first eight bytes, little-endian, reduced.
pub open spec fn reduce_spec(digest: Seq<u8>) -> Option<u32> {
    reduce_raw(le_value(digest))
}

/// Rejection sampling on one digest: `Some(raw % RANGE + 1)` when the raw
/// prefix lies below `MAX_SAFE`, `None` when it must be drawn again.
pub fn reduce_digest(digest: &[u8; 32]) -> (r: Option<u32>)
    ensures
        r == reduce_spec(digest@),
        r matches Some(v) ==> 1 <= v <= RANGE,
{
    let raw = le_u64_prefix(digest);
    if raw < MAX_SAFE {
        Some((raw % RANGE) as u32 + 1)
    } else {
        None
    }
}

/// Every accepted sample lies in `[1, RANGE]`.
pub proof fn lemma_reduce_in_range(raw: int)
    ensures
        reduce_raw(raw) matches Some(v) ==> 1 <= v <= RANGE,
{
}

/// The `q`-th raw sample that reduces to `v`.
pub open spec fn preimage(q: int, v: int) -> int {
    q * RANGE + (v - 1)
}

/// Rejection sampling is exact: a raw sample in `[0, 2^64)` gives the value
/// `v` of the range if and only if it is `q * RANGE + (v - 1)` for some
/// `q < MAX_SAFE / RANGE`. Every value thus has the same number of accepted
/// preimages, and a uniform raw sample gives a uniform value.
pub proof fn lemma_uniform_preimages(raw: int, v: int)
    requires
        0 <= raw < 0x1_0000_0000_0000_0000int,
        1 <= v <= RANGE,
    ensures
        reduce_raw(raw) == Some(v as u32) <==> exists|q: int|
            0 <= q < MAX_SAFE as int / RANGE as int && raw == #[trigger] preimage(q, v),
{
    lemma_max_safe();
    let n = RANGE as int;
    let k = MAX_SAFE as int / n;
    assert(k * n == MAX_SAFE);
    if reduce_raw(raw) == Some(v as u32) {
        let q = raw / n;
        vstd::arithmetic::div_mod::lemma_fundamental_div_mod(raw, n);
        assert(raw == q * n + raw % n) by (nonlinear_arith)
            requires raw == n * (raw / n) + raw % n, q == raw / n;
        assert(raw % n == v - 1);
        assert(q < k) by (nonlinear_arith)
            requires raw == q * n + (v - 1), raw < k * n, 0 <= v - 1, n > 0;
        assert(0 <= q) by (nonlinear_arith)
            requires q == raw / n, raw >= 0, n > 0;
        assert(raw == preimage(q, v));
    }
    if exists|q: int| 0 <= q < k && raw == #[trigger] preimage(q, v) {
        let q = choose|q: int| 0 <= q < k && raw == #[trigger] preimage(q, v);
        assert(raw < MAX_SAFE) by (nonlinear_arith)
            requires 0 <= q < k, raw == q * n + (v - 1), v <= n, k * n == MAX_SAFE;
        vstd::arithmetic::div_mod::lemma_fundamental_div_mod_converse(raw, n, q, v - 1);
    }
}

} // verus!
