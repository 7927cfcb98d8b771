//! Spatial grid keys: a coordinate is quantized per axis into 32-unit buckets,
//! and the three bucket indices are packed into one 64-bit key.
//!
//! A coordinate reaches this module as whole units, the floor of the
//! continuous value: `floor(c / 32) == floor(floor(c) / 32)`, so the bucket
//! depends on nothing else.
use vstd::prelude::*;

verus! {

/// Width of a bucket, in coordinate units.
pub const BUCKET_WIDTH: i64 = 32;

/// The smallest whole unit whose bucket fits the 16-bit signed range. A
/// bucket outside that range is a caller error, not a case the encoder
/// handles.
pub const UNITS_MIN: i64 = -1048576;

/// One past the largest whole unit whose bucket fits the 16-bit signed range.
pub const UNITS_END: i64 = 1048576;

pub open spec fn units_in_range(units: int) -> bool {
    UNITS_MIN <= units < UNITS_END
}

/// The bucket of a coordinate given as whole units: the floor of `units / 32`.
pub open spec fn quantize_spec(units: int) -> int {
    units / 32
}

/// Sign extension of a 16-bit value to 64 bits, read as unsigned.
pub open spec fn sign_extended(v: i16) -> int {
    if v >= 0 {
        v as int
    } else {
        v as int + 0x1_0000_0000_0000_0000
    }
}

/// Zero extension of the 16-bit two's-complement pattern of a value.
pub open spec fn zero_extended(v: i16) -> int {
    if v >= 0 {
        v as int
    } else {
        v as int + 0x1_0000
    }
}

/// The layout of a grid key: bits 48..64 are all ones when `qy` is negative
/// and all zeros otherwise, bits 32..48 hold the raw 16-bit pattern of `qy`,
/// bits 16..32 that of `qx` and bits 0..16 that of `qz`.
pub open spec fn key_layout(key: u64, qx: i16, qy: i16, qz: i16) -> bool {
    &&& (key >> 48u64) == if qy < 0 { 0xFFFFu64 } else { 0u64 }
    &&& ((key >> 32u64) & 0xFFFF) as u16 == qy as u16
    &&& ((key >> 16u64) & 0xFFFF) as u16 == qx as u16
    &&& (key & 0xFFFF) as u16 == qz as u16
}

/// Widens `v` to 64 bits by replicating its sign bit.
pub fn sign_extend_16_64(v: i16) -> (r: u64)
    ensures
        r as int == sign_extended(v),
{
    let w: i64 = v as i64;
    let r: u64 = w as u64;
    assert(r as int == sign_extended(v)) by (bit_vector)
        requires
            w == v as i64,
            r == w as u64,
    ;
    r
}

/// Widens the 16-bit two's-complement pattern of `v` to 64 bits with zeros.
pub fn zero_extend_16_64(v: i16) -> (r: u64)
    ensures
        r as int == zero_extended(v),
{
    let w: u16 = v as u16;
    let r: u64 = w as u64;
    assert(r as int == zero_extended(v)) by (bit_vector)
        requires
            w == v as u16,
            r == w as u64,
    ;
    r
}

/// Packs three bucket indices into one key: `qy` sign-extended and shifted
/// left by 32 (only its low 32 bits survive), `qx` zero-extended and shifted
/// left by 16, and `qz` zero-extended.
pub fn pack_grid_key(qx: i16, qy: i16, qz: i16) -> (r: u64)
    ensures
        key_layout(r, qx, qy, qz),
{
    let gy = sign_extend_16_64(qy);
    let gx = zero_extend_16_64(qx);
    let gz = zero_extend_16_64(qz);
    let r: u64 = (gy << 32u64) | (gx << 16u64) | gz;
    assert(gy == qy as i64 as u64 && gx == qx as u16 as u64 && gz == qz as u16 as u64)
        by (bit_vector)
        requires
            gy as int == sign_extended(qy),
            gx as int == zero_extended(qx),
            gz as int == zero_extended(qz),
    ;
    assert(key_layout(r, qx, qy, qz)) by (bit_vector)
        requires
            gy == qy as i64 as u64,
            gx == qx as u16 as u64,
            gz == qz as u16 as u64,
            r == (gy << 32u64) | (gx << 16u64) | gz,
    ;
    r
}

/// The bucket index of a coordinate given as whole units: the floor of
/// `units / 32`, rounded towards negative infinity. The bucket must fit the
/// 16-bit signed range.
pub fn stellar_grid_key_component(units: i64) -> (r: i16)
    requires
        units_in_range(units as int),
    ensures
        r as int == quantize_spec(units as int),
{
    let q: i64 = if units >= 0 {
        units / BUCKET_WIDTH
    } else {
        let m: i64 = -(units + 1);
        assert(-(m as int / 32) - 1 == units as int / 32) by (nonlinear_arith)
            requires
                m == -(units + 1),
                units < 0,
        ;
        -(m / BUCKET_WIDTH) - 1
    };
    q as i16
}

/// The grid key of a coordinate given as whole units on each axis.
pub fn stellar_grid_key(x: i64, y: i64, z: i64) -> (r: u64)
    requires
        units_in_range(x as int),
        units_in_range(y as int),
        units_in_range(z as int),
    ensures
        key_layout(
            r,
            quantize_spec(x as int) as i16,
            quantize_spec(y as int) as i16,
            quantize_spec(z as int) as i16,
        ),
{
    let qx = stellar_grid_key_component(x);
    let qy = stellar_grid_key_component(y);
    let qz = stellar_grid_key_component(z);
    pack_grid_key(qx, qy, qz)
}

/// Bucketing keeps the order of coordinates: a larger coordinate never falls
/// into a lower bucket.
pub proof fn lemma_quantize_monotonic(a: int, b: int)
    requires
        a <= b,
    ensures
        quantize_spec(a) <= quantize_spec(b),
{
    vstd::arithmetic::div_mod::lemma_div_is_ordered(a, b, 32);
}

/// A multiple `32 * n` of the bucket width is the first unit of bucket `n`,
/// and the unit just below it belongs to bucket `n - 1`.
pub proof fn lemma_quantize_bucket_edges(n: int)
    ensures
        quantize_spec(32 * n) == n,
        quantize_spec(32 * n - 1) == n - 1,
{
    assert((32 * n) / 32 == n) by (nonlinear_arith);
    assert((32 * n - 1) / 32 == n - 1) by (nonlinear_arith);
}

/// The layout fixes the key: two keys laid out from the same bucket indices
/// are equal, and keys laid out from different indices differ.
pub proof fn lemma_key_layout_injective(
    k1: u64,
    x1: i16,
    y1: i16,
    z1: i16,
    k2: u64,
    x2: i16,
    y2: i16,
    z2: i16,
)
    requires
        key_layout(k1, x1, y1, z1),
        key_layout(k2, x2, y2, z2),
    ensures
        (k1 == k2) <==> (x1 == x2 && y1 == y2 && z1 == z2),
{
    assert((k1 == k2) <==> (x1 == x2 && y1 == y2 && z1 == z2)) by (bit_vector)
        requires
            key_layout(k1, x1, y1, z1),
            key_layout(k2, x2, y2, z2),
    ;
}

} // verus!
