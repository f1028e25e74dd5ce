//! An estimate of the Shannon entropy of some bytes, in integers.
//!
//! The entropy of `n` bytes in which the byte `b` occurs `c(b)` times is the
//! sum over `b` of `c(b) / n * log2(n / c(b))` bits per byte. Here the
//! logarithms are taken in fixed point with sixteen binary places, each
//! place found by a squaring whose low bits are cut off, and the sum is kept
//! times `n`. The functions below say exactly what is computed. Of how
//! near the estimate comes to the entropy, two things are proved: bytes
//! that are all the same have an estimate of zero, and bytes in which all
//! 256 values occur equally often have the full eight bits.

use vstd::prelude::*;
use vstd::arithmetic::power2::{lemma2_to64, lemma2_to64_rest, lemma_pow2_unfold, pow2};

verus! {

/// One in the fixed-point scale of the logarithms.
pub const LOG_ONE: u64 = 65536;

/// Two to the 63rd.
pub const TOP_BIT: u64 = 0x8000_0000_0000_0000;

/// The whole part of the binary logarithm of `x`, found in at most `fuel`
/// halvings.
pub open spec fn log2_whole(x: nat, fuel: nat) -> nat
    decreases fuel,
{
    if fuel == 0 || x <= 1 {
        0
    } else {
        1 + log2_whole(x / 2, (fuel - 1) as nat)
    }
}

/// `x` doubled until it is at least 2^63, in at most `fuel` doublings.
pub open spec fn normalized(x: nat, fuel: nat) -> nat
    decreases fuel,
{
    if fuel == 0 || x >= TOP_BIT {
        x
    } else {
        normalized(2 * x, (fuel - 1) as nat)
    }
}

/// The binary places of the logarithm of `m / 2^63`, for `m` from 2^63 up
/// to 2^64, from the place of weight `weight` on: `m` is squared; if the
/// square reaches 2, the place is set and the square is halved.
pub open spec fn log2_places(m: nat, weight: nat) -> nat
    decreases weight,
{
    if weight == 0 {
        0
    } else {
        let square = m * m / (TOP_BIT as nat);
        if square >= 0x1_0000_0000_0000_0000 {
            weight + log2_places(square / 2, weight / 2)
        } else {
            log2_places(square, weight / 2)
        }
    }
}

/// The binary logarithm of `x`, for `x` from 1 up to 2^64, times 2^16, as
/// sixteen squarings give it.
pub open spec fn log2_q16(x: nat) -> nat {
    let m = normalized(x, 64);
    let places = if TOP_BIT <= m < 0x1_0000_0000_0000_0000 {
        log2_places(m, 32768)
    } else {
        0
    };
    (log2_whole(x, 64) * LOG_ONE + places) as nat
}

/// The whole part is at most the fuel, and the places stay below twice the
/// first weight.
pub proof fn lemma_log2_bounds(x: nat, fuel: nat, m: nat, weight: nat)
    ensures
        log2_whole(x, fuel) <= fuel,
        log2_places(m, weight) <= 2 * weight,
        weight > 0 ==> log2_places(m, weight) < 2 * weight,
    decreases fuel + weight,
{
    if fuel > 0 && x > 1 {
        lemma_log2_bounds(x / 2, (fuel - 1) as nat, m, 0);
    }
    if weight > 0 {
        let square = m * m / (TOP_BIT as nat);
        lemma_log2_bounds(x, 0, square / 2, weight / 2);
        lemma_log2_bounds(x, 0, square, weight / 2);
    }
}

/// The binary logarithm of `x` in fixed point.
pub fn log2_fixed(x: u64) -> (log: u64)
    requires
        x >= 1,
    ensures
        log == log2_q16(x as nat),
        log < 65 * LOG_ONE,
{
    let mut whole: u64 = 0;
    let mut y: u64 = x;
    while y > 1 && whole < 64
        invariant
            whole <= 64,
            log2_whole(x as nat, 64) == whole + log2_whole(y as nat, (64 - whole) as nat),
        decreases 64 - whole,
    {
        y = y / 2;
        whole = whole + 1;
    }
    let mut m: u64 = x;
    let mut doublings: u64 = 0;
    while m < TOP_BIT && doublings < 64
        invariant
            doublings <= 64,
            normalized(x as nat, 64) == normalized(m as nat, (64 - doublings) as nat),
        decreases 64 - doublings,
    {
        m = m * 2;
        doublings = doublings + 1;
    }
    let mut places: u64 = 0;
    let ghost first = m;
    if m >= TOP_BIT {
        let mut weight: u64 = 32768;
        while weight > 0
            invariant
                TOP_BIT <= m,
                places + 2 * weight <= LOG_ONE,
                log2_places(first as nat, 32768) == places + log2_places(m as nat, weight as nat),
            decreases weight,
        {
            assert(0x4000_0000_0000_0000_0000_0000_0000_0000 <= m * m
                < 0x1_0000_0000_0000_0000_0000_0000_0000_0000 * 0x1) by (nonlinear_arith)
                requires
                    0x8000_0000_0000_0000 <= m < 0x1_0000_0000_0000_0000,
            ;
            let square: u128 = (m as u128 * m as u128) / (TOP_BIT as u128);
            if square >= 0x1_0000_0000_0000_0000 {
                places = places + weight;
                m = (square / 2) as u64;
            } else {
                m = square as u64;
            }
            weight = weight / 2;
        }
    }
    proof {
        lemma_log2_bounds(x as nat, 64, first as nat, 32768);
    }
    whole * LOG_ONE + places
}

/// How often a byte occurs in some bytes.
pub open spec fn occurrences(input: Seq<u8>, byte: u8) -> nat
    decreases input.len(),
{
    if input.len() == 0 {
        0
    } else {
        occurrences(input.drop_last(), byte) + if input.last() == byte {
            1nat
        } else {
            0nat
        }
    }
}

/// A byte occurs no more often than there are bytes.
pub proof fn lemma_occurrences(input: Seq<u8>, byte: u8)
    ensures
        occurrences(input, byte) <= input.len(),
    decreases input.len(),
{
    if input.len() > 0 {
        lemma_occurrences(input.drop_last(), byte);
    }
}

/// What a byte value that occurs `count` times among `total` bytes adds to
/// the estimate: `count` times the logarithm of `total / count`.
pub open spec fn surprise(count: nat, total: nat) -> nat {
    if count == 0 || log2_q16(total) < log2_q16(count) {
        0
    } else {
        count * (log2_q16(total) - log2_q16(count)) as nat
    }
}

/// The estimate summed over the byte values below `upto`: the entropy in
/// bits per byte, times the number of bytes, times 2^16.
pub open spec fn entropy_sum(input: Seq<u8>, upto: nat) -> nat
    decreases upto,
{
    if upto == 0 {
        0
    } else {
        entropy_sum(input, (upto - 1) as nat) + surprise(
            occurrences(input, (upto - 1) as u8),
            input.len(),
        )
    }
}

/// Whether the bytes have high entropy: the estimate, as a fraction of the
/// eight bits a byte can carry, is above 0.8.
pub open spec fn high_entropy(input: Seq<u8>) -> bool {
    input.len() > 0 && 5 * entropy_sum(input, 256) > 32 * LOG_ONE * input.len()
}

/// How often each byte value occurs.
fn histogram(input: &[u8]) -> (counts: Vec<u64>)
    ensures
        counts@.len() == 256,
        forall|b: int| 0 <= b < 256 ==> #[trigger] counts@[b] == occurrences(input@, b as u8),
{
    let mut counts: Vec<u64> = vec![0u64; 256];
    let mut i: usize = 0;
    while i < input.len()
        invariant
            i <= input@.len(),
            counts@.len() == 256,
            forall|b: int|
                0 <= b < 256 ==> #[trigger] counts@[b] == occurrences(
                    input@.take(i as int),
                    b as u8,
                ),
        decreases input@.len() - i,
    {
        let byte = input[i];
        proof {
            assert(input@.take(i + 1).drop_last() =~= input@.take(i as int));
            lemma_occurrences(input@.take(i as int), byte);
        }
        let count = counts[byte as usize];
        counts[byte as usize] = count + 1;
        i = i + 1;
    }
    proof {
        assert(input@.take(input@.len() as int) =~= input@);
    }
    counts
}

/// Whether the bytes have high entropy.
pub fn is_high_entropy(input: &[u8]) -> (high: bool)
    ensures
        high == high_entropy(input@),
{
    if input.len() == 0 {
        return false;
    }
    let total = input.len() as u64;
    let counts = histogram(input);
    let log_total = log2_fixed(total);
    let mut sum: u128 = 0;
    let mut b: usize = 0;
    while b < 256
        invariant
            b <= 256,
            counts@.len() == 256,
            total == input@.len(),
            total >= 1,
            log_total == log2_q16(total as nat),
            log_total < 65 * LOG_ONE,
            forall|k: int| 0 <= k < 256 ==> #[trigger] counts@[k] == occurrences(input@, k as u8),
            sum == entropy_sum(input@, b as nat),
            sum <= b * 0x1_0000_0000_0000_0000 * 65 * 65536,
        decreases 256 - b,
    {
        let count = counts[b];
        if count > 0 {
            let log_count = log2_fixed(count);
            if log_total >= log_count {
                let gap: u64 = log_total - log_count;
                assert(count * gap <= 0x1_0000_0000_0000_0000 * 65 * 65536) by (nonlinear_arith)
                    requires
                        count < 0x1_0000_0000_0000_0000,
                        gap < 65 * 65536,
                ;
                sum = sum + count as u128 * gap as u128;
            }
        }
        b = b + 1;
    }
    5 * sum > 2097152u128 * (total as u128)
}

/// With fuel for every bit of `x`, more fuel finds the same whole part.
proof fn lemma_whole_fuel(x: nat, fuel: nat)
    requires
        x < pow2(fuel),
    ensures
        log2_whole(x, fuel) == log2_whole(x, fuel + 1),
    decreases fuel,
{
    lemma2_to64();
    if x > 1 {
        if fuel >= 1 {
            lemma_pow2_unfold(fuel);
        }
        lemma_whole_fuel(x / 2, (fuel - 1) as nat);
    }
}

/// With fuel to bring `x` up to 2^63, more fuel normalizes it alike.
proof fn lemma_normalized_fuel(x: nat, fuel: nat)
    requires
        x * pow2(fuel) >= TOP_BIT,
    ensures
        normalized(x, fuel) == normalized(x, fuel + 1),
    decreases fuel,
{
    lemma2_to64();
    if x < TOP_BIT {
        assert(fuel > 0) by {
            if fuel == 0 {
                assert(x * pow2(0) == x) by (nonlinear_arith)
                    requires
                        pow2(0) == 1,
                ;
            }
        }
        lemma_pow2_unfold(fuel);
        assert((2 * x) * pow2((fuel - 1) as nat) == x * (2 * pow2((fuel - 1) as nat)))
            by (nonlinear_arith);
        lemma_normalized_fuel(2 * x, (fuel - 1) as nat);
    }
}

/// Twice the number has a logarithm that is greater by one.
pub proof fn lemma_log2_doubles(x: nat)
    requires
        1 <= x,
        2 * x < 0x1_0000_0000_0000_0000,
    ensures
        log2_q16(2 * x) == log2_q16(x) + LOG_ONE,
{
    lemma2_to64();
    lemma2_to64_rest();
    assert((2 * x) / 2 == x);
    lemma_whole_fuel(x, 63);
    assert((2 * x) * pow2(63) >= TOP_BIT) by (nonlinear_arith)
        requires
            x >= 1,
            pow2(63) == 0x8000_0000_0000_0000,
    ;
    lemma_normalized_fuel(2 * x, 63);
}

/// 256 times the number has a logarithm that is greater by eight.
pub proof fn lemma_log2_times_256(x: nat)
    requires
        1 <= x,
        256 * x < 0x1_0000_0000_0000_0000,
    ensures
        log2_q16(256 * x) == log2_q16(x) + 8 * LOG_ONE,
{
    lemma_log2_doubles(x);
    lemma_log2_doubles(2 * x);
    lemma_log2_doubles(4 * x);
    lemma_log2_doubles(8 * x);
    lemma_log2_doubles(16 * x);
    lemma_log2_doubles(32 * x);
    lemma_log2_doubles(64 * x);
    lemma_log2_doubles(128 * x);
}

/// In bytes that are all the same, that byte occurs as often as there are
/// bytes, and no other byte occurs.
proof fn lemma_occurrences_constant(input: Seq<u8>, byte: u8, other: u8)
    requires
        forall|i: int| 0 <= i < input.len() ==> input[i] == byte,
    ensures
        occurrences(input, other) == if other == byte {
            input.len()
        } else {
            0
        },
    decreases input.len(),
{
    if input.len() > 0 {
        assert forall|i: int| 0 <= i < input.drop_last().len() implies input.drop_last()[i]
            == byte by {
            assert(input.drop_last()[i] == input[i]);
        }
        lemma_occurrences_constant(input.drop_last(), byte, other);
        assert(input.last() == input[input.len() - 1]);
    }
}

/// Bytes that are all the same have an estimate of zero.
proof fn lemma_constant_sum(input: Seq<u8>, byte: u8, upto: nat)
    requires
        forall|i: int| 0 <= i < input.len() ==> input[i] == byte,
        upto <= 256,
    ensures
        entropy_sum(input, upto) == 0,
    decreases upto,
{
    if upto > 0 {
        lemma_constant_sum(input, byte, (upto - 1) as nat);
        lemma_occurrences_constant(input, byte, (upto - 1) as u8);
        let count = occurrences(input, (upto - 1) as u8);
        let gap = (log2_q16(input.len()) - log2_q16(count)) as nat;
        if count != 0 {
            assert(count * gap == 0) by (nonlinear_arith)
                requires
                    gap == 0,
            ;
        }
        assert(surprise(count, input.len()) == 0);
    }
}

/// Bytes that are all the same never have high entropy, however many they
/// are.
pub proof fn lemma_constant_is_not_high(input: Seq<u8>, byte: u8)
    requires
        forall|i: int| 0 <= i < input.len() ==> input[i] == byte,
    ensures
        !high_entropy(input),
{
    lemma_constant_sum(input, byte, 256);
}

/// Where each of the 256 byte values occurs `each` times, the estimate over
/// the values below `upto` is `upto * each` times eight bits.
proof fn lemma_uniform_sum(input: Seq<u8>, each: nat, upto: nat)
    requires
        each >= 1,
        input.len() == 256 * each,
        input.len() < 0x1_0000_0000_0000_0000,
        forall|v: u8| occurrences(input, v) == each,
        upto <= 256,
    ensures
        entropy_sum(input, upto) == upto * (each * 524288),
    decreases upto,
{
    if upto > 0 {
        lemma_uniform_sum(input, each, (upto - 1) as nat);
        lemma_log2_times_256(each);
        assert(occurrences(input, (upto - 1) as u8) == each);
        let gap = (log2_q16(input.len()) - log2_q16(each)) as nat;
        assert(gap == 524288);
        assert(each * gap == each * 524288) by (nonlinear_arith)
            requires
                gap == 524288,
        ;
        assert(surprise(each, input.len()) == each * 524288);
        assert((upto - 1) * (each * 524288) + each * 524288 == upto * (each * 524288))
            by (nonlinear_arith);
    } else {
        assert(upto * (each * 524288) == 0) by (nonlinear_arith)
            requires
                upto == 0,
        ;
    }
}

/// Bytes in which each of the 256 byte values occurs equally often, at
/// least once, always have high entropy.
pub proof fn lemma_uniform_is_high(input: Seq<u8>, each: nat)
    requires
        each >= 1,
        input.len() == 256 * each,
        input.len() < 0x1_0000_0000_0000_0000,
        forall|v: u8| occurrences(input, v) == each,
    ensures
        high_entropy(input),
{
    lemma_uniform_sum(input, each, 256);
    assert(entropy_sum(input, 256) == 256 * (each * 524288));
    assert(5 * entropy_sum(input, 256) == 671088640 * each);
    assert(32 * LOG_ONE == 2097152);
    assert(32 * LOG_ONE * input.len() == 536870912 * each) by (nonlinear_arith)
        requires
            32 * LOG_ONE == 2097152,
            input.len() == 256 * each,
    ;
}

} // verus!
