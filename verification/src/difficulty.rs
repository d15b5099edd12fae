//! Difficulty adjustment, version 2: a Kalman filter over the hash rate
//! implied by each block's solve time, in 256-bit fixed-point arithmetic
//! with 20 fractional bits, clamped below by a network minimum.
//!
//! The 256-bit arithmetic is `primitive_types::U256`'s; `Uint256` holds a
//! value of it as its four little-endian 64-bit words.

use vstd::prelude::*;
use vstd::arithmetic::power2::{pow2, lemma2_to64};

verus! {

pub const MILLIS_PER_SECOND: u64 = 1000;
/// Fractional bits of the fixed-point values.
pub const SHIFT: u64 = 20;
/// `2^SHIFT`, the fixed-point one.
pub const LEFT_SHIFT: u64 = 1048576;
/// The process noise covariance, `2^SHIFT * SHIFT / 1000`.
pub const PROCESS_NOISE_COVAR: u64 = 20971;
/// The covariance a clamped adjustment restarts from.
pub const INITIAL_P: u64 = 1048576;

/// Minimum difficulties per network.
pub const MIN_MAINNET: u64 = 100_000;
pub const MIN_TESTNET: u64 = 10_000;
pub const MIN_DEVNET: u64 = 1_000;

pub open spec fn two_64() -> int {
    0x1_0000_0000_0000_0000
}

pub open spec fn two_256() -> int {
    0x10000000000000000000000000000000000000000000000000000000000000000int
}

// ---------------------------------------------------------------------------
// 256-bit values
// ---------------------------------------------------------------------------

/// A 256-bit unsigned value, as four little-endian 64-bit words.
#[derive(Clone, Copy)]
pub struct Uint256 {
    pub limbs: [u64; 4],
}

/// The value of four little-endian words.
pub open spec fn limbs_value(l: Seq<u64>) -> nat {
    (l[0] + l[1] * two_64() + l[2] * (two_64() * two_64()) + l[3] * (two_64() * two_64() * two_64())) as nat
}

impl View for Uint256 {
    type V = nat;

    open spec fn view(&self) -> nat {
        limbs_value(self.limbs@)
    }
}

impl Uint256 {
    /// `U256::from(value)`: the value in the lowest word.
    pub fn from_u64(value: u64) -> (r: Uint256)
        ensures
            r@ == value,
    {
        let r = Uint256 { limbs: [value, 0, 0, 0] };
        assert(r.limbs@[1] == 0 && r.limbs@[2] == 0 && r.limbs@[3] == 0);
        r
    }

    /// `U256::one()`.
    pub fn one() -> (r: Uint256)
        ensures
            r@ == 1,
    {
        Uint256::from_u64(1)
    }

    /// `low_u64`: the lowest word, the value modulo `2^64`.
    pub fn low_u64(&self) -> (r: u64)
        ensures
            r == (self@ as int) % two_64(),
    {
        proof {
            let l = self.limbs@;
            let b = two_64();
            assert((l[0] + l[1] * b + l[2] * (b * b) + l[3] * (b * b * b)) % b == l[0]) by (nonlinear_arith)
                requires
                    0 <= l[0] < b,
                    0 <= l[1],
                    0 <= l[2],
                    0 <= l[3],
                    b == 0x1_0000_0000_0000_0000,
            {
                assert(l[0] + l[1] * b + l[2] * (b * b) + l[3] * (b * b * b) == l[0] + b * (l[1] + l[2] * b + l[3] * (b * b)));
            }
        }
        self.limbs[0]
    }
}

/// `U256`'s `*`, which panics on overflow.
#[verifier::external_body]
fn u256_mul(a: Uint256, b: Uint256) -> (r: Uint256)
    requires
        a@ * b@ < two_256(),
    ensures
        r@ == a@ * b@,
{
    Uint256 { limbs: (primitive_types::U256(a.limbs) * primitive_types::U256(b.limbs)).0 }
}

/// `U256`'s `/`, which panics on a zero divisor.
#[verifier::external_body]
fn u256_div(a: Uint256, b: Uint256) -> (r: Uint256)
    requires
        b@ > 0,
    ensures
        r@ == a@ / b@,
{
    Uint256 { limbs: (primitive_types::U256(a.limbs) / primitive_types::U256(b.limbs)).0 }
}

/// `U256`'s `+`, which panics on overflow.
#[verifier::external_body]
fn u256_add(a: Uint256, b: Uint256) -> (r: Uint256)
    requires
        a@ + b@ < two_256(),
    ensures
        r@ == a@ + b@,
{
    Uint256 { limbs: (primitive_types::U256(a.limbs) + primitive_types::U256(b.limbs)).0 }
}

/// `U256`'s `-`, which panics on underflow.
#[verifier::external_body]
fn u256_sub(a: Uint256, b: Uint256) -> (r: Uint256)
    requires
        a@ >= b@,
    ensures
        r@ == a@ - b@,
{
    Uint256 { limbs: (primitive_types::U256(a.limbs) - primitive_types::U256(b.limbs)).0 }
}

/// `U256`'s `<<` by a `u64`: the bits shifted past 256 are lost.
#[verifier::external_body]
fn u256_shl(a: Uint256, shift: u64) -> (r: Uint256)
    requires
        shift < 256,
    ensures
        r@ == ((a@ * pow2(shift as nat)) as int) % two_256(),
{
    Uint256 { limbs: (primitive_types::U256(a.limbs) << shift).0 }
}

/// `U256`'s `>>` by a `u64`.
#[verifier::external_body]
fn u256_shr(a: Uint256, shift: u64) -> (r: Uint256)
    requires
        shift < 256,
    ensures
        r@ == a@ / pow2(shift as nat),
{
    Uint256 { limbs: (primitive_types::U256(a.limbs) >> shift).0 }
}

/// `U256`'s `>=`.
#[verifier::external_body]
fn u256_ge(a: Uint256, b: Uint256) -> (r: bool)
    ensures
        r == (a@ >= b@),
{
    primitive_types::U256(a.limbs) >= primitive_types::U256(b.limbs)
}

// ---------------------------------------------------------------------------
// The filter
// ---------------------------------------------------------------------------

/// The fixed-point one, as an integer.
pub open spec fn one() -> int {
    1048576
}

/// The fixed-point quantities of one filter step on the measurement `z`,
/// the previous estimate `x` and the previous covariance `p` (all
/// unscaled): the scaled measurement and estimate, the measurement noise,
/// the predicted covariance and the gain.
pub open spec fn scaled_z(z: int) -> int {
    z * one()
}

pub open spec fn noise(z: int) -> int {
    scaled_z(z) * 2
}

pub open spec fn scaled_x(x: int) -> int {
    x * one()
}

pub open spec fn predicted(x: int, p: int) -> int {
    scaled_x(x) * 20971 / one() + p
}

pub open spec fn gain(z: int, x: int, p: int) -> int {
    (predicted(x, p) * one()) % two_256() / (predicted(x, p) + noise(z) + 1)
}

/// The distance between the scaled measurement and estimate.
pub open spec fn distance(z: int, x: int) -> int {
    if scaled_z(z) >= scaled_x(x) {
        scaled_z(z) - scaled_x(x)
    } else {
        scaled_x(x) - scaled_z(z)
    }
}

/// How far the estimate moves toward the measurement, scaled.
pub open spec fn correction(z: int, x: int, p: int) -> int {
    gain(z, x, p) * distance(z, x) / one()
}

/// The new estimate, scaled.
pub open spec fn scaled_estimate(z: int, x: int, p: int) -> int {
    if scaled_z(z) >= scaled_x(x) {
        scaled_x(x) + correction(z, x, p)
    } else {
        scaled_x(x) - correction(z, x, p)
    }
}

/// One step of the filter: the new estimate and the new covariance.
pub open spec fn kalman(z: int, x: int, p: int) -> (int, int) {
    (scaled_estimate(z, x, p) / one(), (one() - gain(z, x, p)) * predicted(x, p) / one())
}

/// The inputs on which every 256-bit operation of a filter step stays in
/// range (`U256` panics otherwise).
pub open spec fn kalman_completes(z: int, x: int, p: int) -> bool {
    &&& noise(z) < two_256()
    &&& scaled_x(x) * PROCESS_NOISE_COVAR < two_256()
    &&& predicted(x, p) + noise(z) + 1 < two_256()
    &&& gain(z, x, p) * distance(z, x) < two_256()
    &&& scaled_estimate(z, x, p) < two_256()
    &&& (one() - gain(z, x, p)) * predicted(x, p) < two_256()
}

/// For non-negative inputs the gain is below the fixed-point one, so the
/// estimate never overshoots the measurement.
proof fn lemma_gain_below_one(z: int, x: int, p: int)
    requires
        z >= 0,
        x >= 0,
        p >= 0,
    ensures
        0 <= gain(z, x, p) < one(),
        0 <= correction(z, x, p) <= distance(z, x),
{
    let pp = predicted(x, p);
    assert(scaled_x(x) * 20971 >= 0) by (nonlinear_arith)
        requires
            x >= 0,
    ;
    assert(scaled_z(z) >= 0) by (nonlinear_arith)
        requires
            z >= 0,
    ;
    assert(pp >= 0);
    let d = pp + noise(z) + 1;
    let s = (pp * one()) % two_256();
    assert(0 <= s <= pp * one()) by (nonlinear_arith)
        requires
            pp >= 0,
            s == (pp * 1048576) % 0x10000000000000000000000000000000000000000000000000000000000000000int,
    ;
    assert(0 <= s / d < one()) by (nonlinear_arith)
        requires
            0 <= s <= pp * 1048576,
            d >= pp + 1,
    {
        assert(s < d * 1048576);
    }
    let g = gain(z, x, p);
    let diff = distance(z, x);
    assert(0 <= g * diff / 1048576 <= diff) by (nonlinear_arith)
        requires
            0 <= g < 1048576,
            diff >= 0,
    {
        assert(g * diff <= 1048576 * diff);
    }
}

pub fn kalman_filter(z: Uint256, x_est_prev: Uint256, p_prev: Uint256) -> (r: (Uint256, Uint256))
    requires
        kalman_completes(z@ as int, x_est_prev@ as int, p_prev@ as int),
    ensures
        (r.0@ as int, r.1@ as int) == kalman(z@ as int, x_est_prev@ as int, p_prev@ as int),
{
    proof {
        lemma2_to64();
        lemma_gain_below_one(z@ as int, x_est_prev@ as int, p_prev@ as int);
    }
    let left_shift = Uint256::from_u64(LEFT_SHIFT);
    let process_noise = Uint256::from_u64(PROCESS_NOISE_COVAR);
    let z_scaled = u256_mul(z, left_shift);
    let r = u256_mul(z_scaled, Uint256::from_u64(2));
    let x_scaled = u256_mul(x_est_prev, left_shift);
    let p_pred = u256_add(u256_shr(u256_mul(x_scaled, process_noise), SHIFT), p_prev);
    let k = u256_div(u256_shl(p_pred, SHIFT), u256_add(u256_add(p_pred, r), Uint256::one()));
    let x_est_new = if u256_ge(z_scaled, x_scaled) {
        u256_add(x_scaled, u256_shr(u256_mul(k, u256_sub(z_scaled, x_scaled)), SHIFT))
    } else {
        u256_sub(x_scaled, u256_shr(u256_mul(k, u256_sub(x_scaled, z_scaled)), SHIFT))
    };
    let p_new = u256_shr(u256_mul(u256_sub(left_shift, k), p_pred), SHIFT);
    (u256_shr(x_est_new, SHIFT), p_new)
}


// ---------------------------------------------------------------------------
// The adjustment
// ---------------------------------------------------------------------------

/// A solve time of zero counts as one millisecond.
pub open spec fn effective_solve_time(solve_time: u64) -> int {
    if solve_time == 0 {
        1
    } else {
        solve_time as int
    }
}

/// The hash rate the solve time implies: the previous difficulty per
/// second of solving.
pub open spec fn measurement(previous: u64, solve_time: u64) -> int {
    previous * 1000 / effective_solve_time(solve_time)
}

/// The hash rate the target implies.
pub open spec fn expectation(previous: u64, target: u64) -> int {
    previous * 1000 / (target as int)
}

/// The adjusted difficulty and covariance: the filter's new estimate
/// scaled back to the target time (its low 64 bits), and the filter's new
/// covariance (its low 64 bits); a difficulty below the minimum is raised
/// to it, and the covariance then restarts from `INITIAL_P`.
pub open spec fn difficulty_v2(solve_time: u64, previous: u64, p: u64, minimum: u64, target: u64) -> (u64, u64) {
    let (x, p_new) = kalman(measurement(previous, solve_time), expectation(previous, target), p as int);
    let d = (x * target / 1000) % two_64();
    if d < minimum {
        (minimum, INITIAL_P)
    } else {
        (d as u64, (p_new % two_64()) as u64)
    }
}

/// The largest measurement or expectation a `u64` difficulty gives.
pub open spec fn max_rate() -> int {
    18446744073709551615000
}

/// For rates and a covariance of at most `u64` size, a filter step stays
/// within 256 bits, and its estimate stays between the previous estimate
/// and the measurement.
proof fn lemma_kalman_in_range(z: int, x: int, p: int)
    requires
        0 <= z <= max_rate(),
        0 <= x <= max_rate(),
        0 <= p <= u64::MAX,
    ensures
        kalman_completes(z, x, p),
        (if z <= x { z } else { x }) <= kalman(z, x, p).0 <= (if z <= x { x } else { z }),
        kalman(z, x, p).1 >= 0,
{
    lemma_gain_below_one(z, x, p);
    let m = max_rate();
    let big = two_256();
    assert(scaled_z(z) <= m * 1048576) by (nonlinear_arith)
        requires
            0 <= z <= m,
    ;
    assert(scaled_x(x) <= m * 1048576) by (nonlinear_arith)
        requires
            0 <= x <= m,
    ;
    assert(scaled_x(x) * 20971 <= m * 1048576 * 20971) by (nonlinear_arith)
        requires
            0 <= scaled_x(x) <= m * 1048576,
    ;
    assert(scaled_x(x) * 20971 / 1048576 <= m * 20971) by (nonlinear_arith)
        requires
            0 <= scaled_x(x) * 20971 <= m * 1048576 * 20971,
    ;
    let pp = predicted(x, p);
    assert(0 <= pp <= m * 20971 + 18446744073709551615);
    let g = gain(z, x, p);
    assert(g * distance(z, x) <= 1048576 * (m * 1048576)) by (nonlinear_arith)
        requires
            0 <= g < 1048576,
            0 <= distance(z, x) <= m * 1048576,
    ;
    assert((1048576 - g) * pp <= 1048576 * (m * 20971 + 18446744073709551615)) by (nonlinear_arith)
        requires
            0 <= g < 1048576,
            0 <= pp <= m * 20971 + 18446744073709551615,
    ;
    let se = scaled_estimate(z, x, p);
    assert((if z <= x { scaled_z(z) } else { scaled_x(x) }) <= se <= (if z <= x { scaled_x(x) } else { scaled_z(z) }));
    assert((if z <= x { z } else { x }) <= se / 1048576 <= (if z <= x { x } else { z })) by (nonlinear_arith)
        requires
            (if z <= x { z * 1048576 } else { x * 1048576 }) <= se <= (if z <= x { x * 1048576 } else { z * 1048576 }),
            z >= 0,
            x >= 0,
    ;
    assert(kalman(z, x, p).1 >= 0) by (nonlinear_arith)
        requires
            0 <= g < 1048576,
            pp >= 0,
            kalman(z, x, p).1 == (1048576 - g) * pp / 1048576,
    ;
}

pub fn calculate_difficulty_v2(solve_time: u64, previous_difficulty: u64, p: u64, minimum_difficulty: u64, block_time_target: u64) -> (r: (u64, u64))
    requires
        block_time_target > 0,
    ensures
        r == difficulty_v2(solve_time, previous_difficulty, p, minimum_difficulty, block_time_target),
{
    let prev_diff = Uint256::from_u64(previous_difficulty);
    let p_var = Uint256::from_u64(p);
    let solve_time = if solve_time == 0 {
        1
    } else {
        solve_time
    };
    let millis = Uint256::from_u64(MILLIS_PER_SECOND);
    let target = Uint256::from_u64(block_time_target);
    let scaled_prev = u256_mul(prev_diff, millis);
    let z = u256_div(scaled_prev, Uint256::from_u64(solve_time));
    let x_expected = u256_div(scaled_prev, target);
    proof {
        assert(z@ <= max_rate()) by (nonlinear_arith)
            requires
                z@ == previous_difficulty * 1000 / (solve_time as int),
                solve_time >= 1,
        {
            assert(previous_difficulty * 1000 / (solve_time as int) <= previous_difficulty * 1000);
        }
        assert(x_expected@ <= max_rate()) by (nonlinear_arith)
            requires
                x_expected@ == previous_difficulty * 1000 / (block_time_target as int),
                block_time_target >= 1,
        {
            assert(previous_difficulty * 1000 / (block_time_target as int) <= previous_difficulty * 1000);
        }
        lemma_kalman_in_range(z@ as int, x_expected@ as int, p as int);
    }
    let (x_est_new, p_new) = kalman_filter(z, x_expected, p_var);
    proof {
        assert(x_est_new@ * block_time_target <= max_rate() * 18446744073709551615) by (nonlinear_arith)
            requires
                0 <= x_est_new@ <= max_rate(),
                block_time_target <= 18446744073709551615,
        ;
    }
    let difficulty = u256_div(u256_mul(x_est_new, target), millis);
    let diff_u64 = difficulty.low_u64();
    let p_new_u64 = p_new.low_u64();
    if diff_u64 < minimum_difficulty {
        return (minimum_difficulty, INITIAL_P);
    }
    (diff_u64, p_new_u64)
}

// ---------------------------------------------------------------------------
// Laws
// ---------------------------------------------------------------------------

/// The adjusted difficulty never falls below the network minimum.
pub proof fn law_minimum_floor(solve_time: u64, previous: u64, p: u64, minimum: u64, target: u64)
    ensures
        difficulty_v2(solve_time, previous, p, minimum, target).0 >= minimum,
{
}

/// The filter's estimate moves toward the measurement without passing it:
/// it lies between the previous estimate and the measurement.
pub proof fn law_estimate_between(z: int, x: int, p: int)
    requires
        0 <= z <= max_rate(),
        0 <= x <= max_rate(),
        0 <= p <= u64::MAX,
    ensures
        (if z <= x { z } else { x }) <= kalman(z, x, p).0 <= (if z <= x { x } else { z }),
{
    lemma_kalman_in_range(z, x, p);
}

/// A block solved exactly at the target time leaves the difficulty
/// unchanged (but for the minimum), when the target divides the previous
/// difficulty in milliseconds.
pub proof fn law_on_target_unchanged(previous: u64, p: u64, minimum: u64, target: u64)
    requires
        target > 0,
        (previous * 1000) % (target as int) == 0,
    ensures
        difficulty_v2(target, previous, p, minimum, target).0 == if previous < minimum {
            minimum
        } else {
            previous
        },
{
    let z = measurement(previous, target);
    let x = expectation(previous, target);
    assert(z == x);
    assert(0 <= x <= max_rate()) by (nonlinear_arith)
        requires
            x == previous * 1000 / (target as int),
            target >= 1,
    {
        assert(previous * 1000 / (target as int) <= previous * 1000);
    }
    lemma_kalman_in_range(z, x, p as int);
    let est = kalman(z, x, p as int).0;
    assert(est == x);
    assert(x * target == previous * 1000) by (nonlinear_arith)
        requires
            x == previous * 1000 / (target as int),
            (previous * 1000) % (target as int) == 0,
            target > 0,
    ;
    assert(est * target / 1000 == previous as int);
    assert((previous as int) % two_64() == previous as int);
}

} // verus!
