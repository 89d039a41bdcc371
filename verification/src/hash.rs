use vstd::prelude::*;

verus! {

/// `x ^ (x >> s)`, one xorshift step of the hash.
pub open spec fn xorshift(x: u32, s: u32) -> u32 {
    x ^ (x >> s)
}

/// Multiplication modulo 2^32, as `u32::wrapping_mul` computes it.
pub open spec fn mul_wrap(x: u32, c: u32) -> u32 {
    ((x * c) % 0x1_0000_0000) as u32
}

/// The 32-bit integer hash used for the fixed random registration:
/// xorshift 16, multiply by 0x7feb352d, xorshift 15, multiply by 0x846ca68b,
/// xorshift 16.
pub open spec fn spec_hash_u32(x: u32) -> u32 {
    xorshift(mul_wrap(xorshift(mul_wrap(xorshift(x, 16), 0x7feb_352d), 15), 0x846c_a68b), 16)
}

/// Undoes `xorshift(_, 15)` on 32 bits.
pub open spec fn unxorshift15(y: u32) -> u32 {
    y ^ (y >> 15) ^ (y >> 30)
}

/// The inverse of `spec_hash_u32`: each step undone in reverse order, the
/// multiplications by the inverses of the odd constants modulo 2^32.
pub open spec fn spec_unhash_u32(y: u32) -> u32 {
    xorshift(mul_wrap(unxorshift15(mul_wrap(xorshift(y, 16), 0x4302_1123)), 0x1d69_e2a5), 16)
}

/// Hashes a 32-bit value (xorshift-multiply mixing, all arithmetic wrapping).
pub fn hash_u32(value: u32) -> (h: u32)
    ensures
        h == spec_hash_u32(value),
{
    let mut value = value;
    value ^= value >> 16;
    value = value.wrapping_mul(0x7feb_352d);
    value ^= value >> 15;
    value = value.wrapping_mul(0x846c_a68b);
    value ^= value >> 16;
    value
}

proof fn lemma_xorshift16_involution(x: u32)
    ensures
        xorshift(xorshift(x, 16), 16) == x,
{
    assert((x ^ (x >> 16u32)) ^ ((x ^ (x >> 16u32)) >> 16u32) == x) by (bit_vector);
}

proof fn lemma_xorshift15_inverse(x: u32)
    ensures
        unxorshift15(xorshift(x, 15)) == x,
        xorshift(unxorshift15(x), 15) == x,
{
    let y = x ^ (x >> 15u32);
    assert(y ^ (y >> 15u32) ^ (y >> 30u32) == x) by (bit_vector)
        requires
            y == x ^ (x >> 15u32),
    ;
    let z = x ^ (x >> 15u32) ^ (x >> 30u32);
    assert(z ^ (z >> 15u32) == x) by (bit_vector)
        requires
            z == x ^ (x >> 15u32) ^ (x >> 30u32),
    ;
}

proof fn lemma_mul_inverse_first(x: u32)
    ensures
        mul_wrap(mul_wrap(x, 0x7feb_352d), 0x1d69_e2a5) == x,
        mul_wrap(mul_wrap(x, 0x1d69_e2a5), 0x7feb_352d) == x,
{
    assert(((((x * 0x7feb_352du32) % 0x1_0000_0000) as u32) * 0x1d69_e2a5u32) % 0x1_0000_0000 == x)
        by (bit_vector);
    assert(((((x * 0x1d69_e2a5u32) % 0x1_0000_0000) as u32) * 0x7feb_352du32) % 0x1_0000_0000 == x)
        by (bit_vector);
}

proof fn lemma_mul_inverse_second(x: u32)
    ensures
        mul_wrap(mul_wrap(x, 0x846c_a68b), 0x4302_1123) == x,
        mul_wrap(mul_wrap(x, 0x4302_1123), 0x846c_a68b) == x,
{
    assert(((((x * 0x846c_a68bu32) % 0x1_0000_0000) as u32) * 0x4302_1123u32) % 0x1_0000_0000 == x)
        by (bit_vector);
    assert(((((x * 0x4302_1123u32) % 0x1_0000_0000) as u32) * 0x846c_a68bu32) % 0x1_0000_0000 == x)
        by (bit_vector);
}

/// The hash undone: `spec_unhash_u32` recovers every input of `hash_u32`.
pub proof fn lemma_unhash_hash(x: u32)
    ensures
        spec_unhash_u32(spec_hash_u32(x)) == x,
{
    let a = xorshift(x, 16);
    let b = mul_wrap(a, 0x7feb_352d);
    let c = xorshift(b, 15);
    let d = mul_wrap(c, 0x846c_a68b);
    let e = xorshift(d, 16);
    lemma_xorshift16_involution(d);
    lemma_mul_inverse_second(c);
    lemma_xorshift15_inverse(b);
    lemma_mul_inverse_first(a);
    lemma_xorshift16_involution(x);
}

/// The hash undone the other way: every 32-bit value is the hash of
/// `spec_unhash_u32` of it.
pub proof fn lemma_hash_unhash(y: u32)
    ensures
        spec_hash_u32(spec_unhash_u32(y)) == y,
{
    let a = xorshift(y, 16);
    let b = mul_wrap(a, 0x4302_1123);
    let c = unxorshift15(b);
    let d = mul_wrap(c, 0x1d69_e2a5);
    lemma_xorshift16_involution(d);
    lemma_mul_inverse_first(c);
    lemma_xorshift15_inverse(b);
    lemma_mul_inverse_second(a);
    lemma_xorshift16_involution(y);
}

/// `hash_u32` never maps two different values to the same hash.
pub proof fn lemma_hash_u32_injective(a: u32, b: u32)
    ensures
        spec_hash_u32(a) == spec_hash_u32(b) ==> a == b,
{
    lemma_unhash_hash(a);
    lemma_unhash_hash(b);
}

/// Every 32-bit value is the hash of exactly one value: `hash_u32` is a
/// permutation of the 32-bit values.
pub proof fn lemma_hash_u32_bijective(y: u32)
    ensures
        exists|x: u32| #[trigger] spec_hash_u32(x) == y,
        forall|x1: u32, x2: u32|
            spec_hash_u32(x1) == y && spec_hash_u32(x2) == y ==> x1 == x2,
{
    lemma_hash_unhash(y);
    assert(spec_hash_u32(spec_unhash_u32(y)) == y);
    assert forall|x1: u32, x2: u32|
        spec_hash_u32(x1) == y && spec_hash_u32(x2) == y implies x1 == x2 by {
        lemma_hash_u32_injective(x1, x2);
    }
}

/// The hash input for the random registration offset of one plate along one
/// axis: the seed mixed with the plate id (times 31, wrapping) and the axis id.
pub open spec fn registration_key(seed: u32, plate_id: u32, axis_id: u32) -> u32 {
    seed ^ mul_wrap(plate_id, 31) ^ axis_id
}

/// The 32-bit hash behind the random registration offset of a plate along an
/// axis: the same for the same seed, plate and axis, on every run and machine.
pub fn registration_hash(seed: u32, plate_id: u32, axis_id: u32) -> (h: u32)
    ensures
        h == spec_hash_u32(registration_key(seed, plate_id, axis_id)),
        h == spec_hash_u32(seed ^ (((plate_id as int * 31) % 0x1_0000_0000) as u32) ^ axis_id),
{
    hash_u32(seed ^ plate_id.wrapping_mul(31) ^ axis_id)
}

/// The registration key is the seed, the axis id and the plate id times 31
/// (modulo 2^32) combined by exclusive or: the seed and the axis enter
/// bit for bit, and with seed and axis 0 the key is the plate id times 31.
pub proof fn lemma_registration_key_parts(seed: u32, plate_id: u32, axis_id: u32)
    ensures
        registration_key(seed, plate_id, axis_id) == registration_key(0, plate_id, 0) ^ seed
            ^ axis_id,
        registration_key(0, plate_id, 0) as int == (plate_id as int * 31) % 0x1_0000_0000,
        registration_key(seed, plate_id, axis_id) ^ registration_key(seed, 0, axis_id) == ((
        plate_id as int * 31) % 0x1_0000_0000) as u32,
        registration_key(seed, 0, 0) == seed,
{
    let m = mul_wrap(plate_id, 31);
    assert(mul_wrap(0, 31) == 0);
    assert(registration_key(0, plate_id, 0) == m) by (bit_vector)
        requires
            registration_key(0, plate_id, 0) == 0u32 ^ m ^ 0u32,
    ;
    assert((seed ^ m ^ axis_id) == (m ^ seed ^ axis_id)) by (bit_vector);
    assert((seed ^ m ^ axis_id) ^ (seed ^ 0u32 ^ axis_id) == m) by (bit_vector);
    assert((seed ^ 0u32 ^ 0u32) == seed) by (bit_vector);
}

/// Changing the seed changes the registration hash of every plate and axis.
pub proof fn lemma_registration_seed_changes_hash(seed1: u32, seed2: u32, plate_id: u32, axis_id: u32)
    requires
        seed1 != seed2,
    ensures
        spec_hash_u32(registration_key(seed1, plate_id, axis_id)) != spec_hash_u32(
            registration_key(seed2, plate_id, axis_id),
        ),
{
    let m = mul_wrap(plate_id, 31);
    assert((seed1 ^ m ^ axis_id) != (seed2 ^ m ^ axis_id)) by (bit_vector)
        requires
            seed1 != seed2,
    ;
    lemma_hash_u32_injective(
        registration_key(seed1, plate_id, axis_id),
        registration_key(seed2, plate_id, axis_id),
    );
}

/// Under one seed, the four plates (ids 1..=4) along the two axes (0, 1) all
/// get different registration hashes: no two plate offsets are tied together.
pub proof fn lemma_registration_plates_distinct(
    seed: u32,
    plate1: u32,
    axis1: u32,
    plate2: u32,
    axis2: u32,
)
    requires
        1 <= plate1 <= 4,
        1 <= plate2 <= 4,
        axis1 <= 1,
        axis2 <= 1,
        plate1 != plate2 || axis1 != axis2,
    ensures
        spec_hash_u32(registration_key(seed, plate1, axis1)) != spec_hash_u32(
            registration_key(seed, plate2, axis2),
        ),
{
    assert(mul_wrap(plate1, 31) == plate1 * 31);
    assert(mul_wrap(plate2, 31) == plate2 * 31);
    let m1 = mul_wrap(plate1, 31);
    let m2 = mul_wrap(plate2, 31);
    assert((seed ^ m1 ^ axis1) != (seed ^ m2 ^ axis2)) by (bit_vector)
        requires
            1 <= plate1 <= 4,
            1 <= plate2 <= 4,
            axis1 <= 1,
            axis2 <= 1,
            plate1 != plate2 || axis1 != axis2,
            m1 == plate1 * 31,
            m2 == plate2 * 31,
    ;
    lemma_hash_u32_injective(
        registration_key(seed, plate1, axis1),
        registration_key(seed, plate2, axis2),
    );
}

} // verus!
