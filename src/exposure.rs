//! The exposure gain `2^EV` in 16-bit fixed point, computed in integers:
//! whole stops are exact powers of two, and the fraction of a stop comes
//! from a table of `2^(k/100)` for k in 0..100, each entry rounded up.
use vstd::prelude::*;
use crate::suggest::{clamp, floor_div};

verus! {

/// Exposures are limited to [-16, 16] EV (in hundredths of a stop).
pub const MAX_EXPOSURE: i64 = 1600;

pub open spec fn two_pow(k: nat) -> int
    decreases k,
{
    if k == 0 {
        1
    } else {
        2 * two_pow((k - 1) as nat)
    }
}

/// `65536 * 2^(k/100)` rounded up, for k in 0..100.
pub open spec fn gain_entry(k: int) -> int {
    if k == 0 {
        65536
    } else if k == 1 {
        65992
    } else if k == 2 {
        66451
    } else if k == 3 {
        66914
    } else if k == 4 {
        67379
    } else if k == 5 {
        67848
    } else if k == 6 {
        68320
    } else if k == 7 {
        68795
    } else if k == 8 {
        69273
    } else if k == 9 {
        69755
    } else if k == 10 {
        70240
    } else if k == 11 {
        70729
    } else if k == 12 {
        71221
    } else if k == 13 {
        71716
    } else if k == 14 {
        72215
    } else if k == 15 {
        72717
    } else if k == 16 {
        73223
    } else if k == 17 {
        73732
    } else if k == 18 {
        74245
    } else if k == 19 {
        74762
    } else if k == 20 {
        75282
    } else if k == 21 {
        75805
    } else if k == 22 {
        76332
    } else if k == 23 {
        76863
    } else if k == 24 {
        77398
    } else if k == 25 {
        77936
    } else if k == 26 {
        78478
    } else if k == 27 {
        79024
    } else if k == 28 {
        79574
    } else if k == 29 {
        80127
    } else if k == 30 {
        80685
    } else if k == 31 {
        81246
    } else if k == 32 {
        81811
    } else if k == 33 {
        82380
    } else if k == 34 {
        82953
    } else if k == 35 {
        83530
    } else if k == 36 {
        84111
    } else if k == 37 {
        84696
    } else if k == 38 {
        85285
    } else if k == 39 {
        85878
    } else if k == 40 {
        86476
    } else if k == 41 {
        87077
    } else if k == 42 {
        87683
    } else if k == 43 {
        88293
    } else if k == 44 {
        88907
    } else if k == 45 {
        89525
    } else if k == 46 {
        90148
    } else if k == 47 {
        90775
    } else if k == 48 {
        91406
    } else if k == 49 {
        92042
    } else if k == 50 {
        92682
    } else if k == 51 {
        93327
    } else if k == 52 {
        93976
    } else if k == 53 {
        94630
    } else if k == 54 {
        95288
    } else if k == 55 {
        95951
    } else if k == 56 {
        96618
    } else if k == 57 {
        97290
    } else if k == 58 {
        97967
    } else if k == 59 {
        98648
    } else if k == 60 {
        99335
    } else if k == 61 {
        100025
    } else if k == 62 {
        100721
    } else if k == 63 {
        101422
    } else if k == 64 {
        102127
    } else if k == 65 {
        102838
    } else if k == 66 {
        103553
    } else if k == 67 {
        104273
    } else if k == 68 {
        104998
    } else if k == 69 {
        105729
    } else if k == 70 {
        106464
    } else if k == 71 {
        107205
    } else if k == 72 {
        107950
    } else if k == 73 {
        108701
    } else if k == 74 {
        109457
    } else if k == 75 {
        110218
    } else if k == 76 {
        110985
    } else if k == 77 {
        111757
    } else if k == 78 {
        112534
    } else if k == 79 {
        113317
    } else if k == 80 {
        114105
    } else if k == 81 {
        114899
    } else if k == 82 {
        115698
    } else if k == 83 {
        116503
    } else if k == 84 {
        117313
    } else if k == 85 {
        118129
    } else if k == 86 {
        118951
    } else if k == 87 {
        119778
    } else if k == 88 {
        120611
    } else if k == 89 {
        121450
    } else if k == 90 {
        122295
    } else if k == 91 {
        123146
    } else if k == 92 {
        124002
    } else if k == 93 {
        124865
    } else if k == 94 {
        125733
    } else if k == 95 {
        126608
    } else if k == 96 {
        127488
    } else if k == 97 {
        128375
    } else if k == 98 {
        129268
    } else {
        130167
    }
}

/// The gain of `e` hundredths of a stop, `e` clamped to [-16, 16] EV:
/// with `e = 100 q + k`, the table entry for `k` times `2^q`, or divided by
/// `2^-q` and rounded up when `q` is negative.
pub open spec fn exposure_gain(e: int) -> int {
    let c = clamp(e, -(MAX_EXPOSURE as int), MAX_EXPOSURE as int);
    let q = c / 100;
    let k = c % 100;
    if q >= 0 {
        gain_entry(k) * two_pow(q as nat)
    } else {
        (gain_entry(k) + two_pow((-q) as nat) - 1) / two_pow((-q) as nat)
    }
}

/// An entry, and its product with the complementary entry, are within the
/// bounds the round-trip argument needs.
pub open spec fn entry_ok(k: int) -> bool {
    &&& 65536 <= gain_entry(k) <= 131072
    &&& k > 0 ==> 0x2_0000_0000 <= gain_entry(k) * gain_entry(100 - k) < 0x2_0000_0000
        + 0x4_0000
}

pub open spec fn entries_ok_from(k: nat) -> bool
    decreases 100 - k,
{
    if k >= 100 {
        true
    } else {
        entry_ok(k as int) && entries_ok_from(k + 1)
    }
}

proof fn lemma_entries_ok_from(k: nat, j: int)
    requires
        entries_ok_from(k),
        k <= j < 100,
    ensures
        entry_ok(j),
    decreases j - k,
{
    if k < j {
        lemma_entries_ok_from(k + 1, j);
    }
}

proof fn lemma_table(j: int)
    requires
        0 <= j < 100,
    ensures
        entry_ok(j),
{
    assert(entries_ok_from(90)) by {
        reveal_with_fuel(entries_ok_from, 11);
    }
    assert(entries_ok_from(80)) by {
        reveal_with_fuel(entries_ok_from, 11);
    }
    assert(entries_ok_from(70)) by {
        reveal_with_fuel(entries_ok_from, 11);
    }
    assert(entries_ok_from(60)) by {
        reveal_with_fuel(entries_ok_from, 11);
    }
    assert(entries_ok_from(50)) by {
        reveal_with_fuel(entries_ok_from, 11);
    }
    assert(entries_ok_from(40)) by {
        reveal_with_fuel(entries_ok_from, 11);
    }
    assert(entries_ok_from(30)) by {
        reveal_with_fuel(entries_ok_from, 11);
    }
    assert(entries_ok_from(20)) by {
        reveal_with_fuel(entries_ok_from, 11);
    }
    assert(entries_ok_from(10)) by {
        reveal_with_fuel(entries_ok_from, 11);
    }
    assert(entries_ok_from(0)) by {
        reveal_with_fuel(entries_ok_from, 11);
    }
    lemma_entries_ok_from(0, j);
}

proof fn lemma_two_pow_add(a: nat, b: nat)
    ensures
        two_pow(a + b) == two_pow(a) * two_pow(b),
        two_pow(a) >= 1,
    decreases a,
{
    if a > 0 {
        lemma_two_pow_add((a - 1) as nat, b);
        assert(two_pow(a + b) == 2 * two_pow((a - 1 + b) as nat));
        assert(2 * (two_pow((a - 1) as nat) * two_pow(b)) == (2 * two_pow((a - 1) as nat)) * two_pow(b))
            by (nonlinear_arith);
    }
}

proof fn lemma_two_pow_le(a: nat, b: nat)
    requires
        a <= b,
    ensures
        1 <= two_pow(a) <= two_pow(b),
    decreases b,
{
    lemma_two_pow_add(a, 0);
    if a < b {
        lemma_two_pow_le(a, (b - 1) as nat);
    }
}

proof fn lemma_two_pow_16()
    ensures
        two_pow(16) == 65536,
{
    reveal_with_fuel(two_pow, 17);
}

/// `2^k` for k at most 16.
fn pow2_small(k: u64) -> (p: u64)
    requires
        k <= 16,
    ensures
        p == two_pow(k as nat),
        1 <= p <= 65536,
{
    let mut p: u64 = 1;
    let mut i: u64 = 0;
    proof {
        lemma_two_pow_16();
    }
    while i < k
        invariant
            i <= k <= 16,
            p == two_pow(i as nat),
            two_pow(16) == 65536,
        decreases k - i,
    {
        proof {
            lemma_two_pow_le((i + 1) as nat, 16);
        }
        p = p * 2;
        i = i + 1;
    }
    proof {
        lemma_two_pow_le(k as nat, 16);
    }
    p
}

fn table_entry(k: u64) -> (g: u64)
    requires
        k < 100,
    ensures
        g == gain_entry(k as int),
{
    if k == 0 {
        65536
    } else if k == 1 {
        65992
    } else if k == 2 {
        66451
    } else if k == 3 {
        66914
    } else if k == 4 {
        67379
    } else if k == 5 {
        67848
    } else if k == 6 {
        68320
    } else if k == 7 {
        68795
    } else if k == 8 {
        69273
    } else if k == 9 {
        69755
    } else if k == 10 {
        70240
    } else if k == 11 {
        70729
    } else if k == 12 {
        71221
    } else if k == 13 {
        71716
    } else if k == 14 {
        72215
    } else if k == 15 {
        72717
    } else if k == 16 {
        73223
    } else if k == 17 {
        73732
    } else if k == 18 {
        74245
    } else if k == 19 {
        74762
    } else if k == 20 {
        75282
    } else if k == 21 {
        75805
    } else if k == 22 {
        76332
    } else if k == 23 {
        76863
    } else if k == 24 {
        77398
    } else if k == 25 {
        77936
    } else if k == 26 {
        78478
    } else if k == 27 {
        79024
    } else if k == 28 {
        79574
    } else if k == 29 {
        80127
    } else if k == 30 {
        80685
    } else if k == 31 {
        81246
    } else if k == 32 {
        81811
    } else if k == 33 {
        82380
    } else if k == 34 {
        82953
    } else if k == 35 {
        83530
    } else if k == 36 {
        84111
    } else if k == 37 {
        84696
    } else if k == 38 {
        85285
    } else if k == 39 {
        85878
    } else if k == 40 {
        86476
    } else if k == 41 {
        87077
    } else if k == 42 {
        87683
    } else if k == 43 {
        88293
    } else if k == 44 {
        88907
    } else if k == 45 {
        89525
    } else if k == 46 {
        90148
    } else if k == 47 {
        90775
    } else if k == 48 {
        91406
    } else if k == 49 {
        92042
    } else if k == 50 {
        92682
    } else if k == 51 {
        93327
    } else if k == 52 {
        93976
    } else if k == 53 {
        94630
    } else if k == 54 {
        95288
    } else if k == 55 {
        95951
    } else if k == 56 {
        96618
    } else if k == 57 {
        97290
    } else if k == 58 {
        97967
    } else if k == 59 {
        98648
    } else if k == 60 {
        99335
    } else if k == 61 {
        100025
    } else if k == 62 {
        100721
    } else if k == 63 {
        101422
    } else if k == 64 {
        102127
    } else if k == 65 {
        102838
    } else if k == 66 {
        103553
    } else if k == 67 {
        104273
    } else if k == 68 {
        104998
    } else if k == 69 {
        105729
    } else if k == 70 {
        106464
    } else if k == 71 {
        107205
    } else if k == 72 {
        107950
    } else if k == 73 {
        108701
    } else if k == 74 {
        109457
    } else if k == 75 {
        110218
    } else if k == 76 {
        110985
    } else if k == 77 {
        111757
    } else if k == 78 {
        112534
    } else if k == 79 {
        113317
    } else if k == 80 {
        114105
    } else if k == 81 {
        114899
    } else if k == 82 {
        115698
    } else if k == 83 {
        116503
    } else if k == 84 {
        117313
    } else if k == 85 {
        118129
    } else if k == 86 {
        118951
    } else if k == 87 {
        119778
    } else if k == 88 {
        120611
    } else if k == 89 {
        121450
    } else if k == 90 {
        122295
    } else if k == 91 {
        123146
    } else if k == 92 {
        124002
    } else if k == 93 {
        124865
    } else if k == 94 {
        125733
    } else if k == 95 {
        126608
    } else if k == 96 {
        127488
    } else if k == 97 {
        128375
    } else if k == 98 {
        129268
    } else {
        130167
    }
}

/// The exposure gain of `exposure` hundredths of a stop, in 16-bit fixed
/// point.
pub fn exposure_gain_q16(exposure: i64) -> (g: u64)
    ensures
        g == exposure_gain(exposure as int),
{
    let c: i64 = if exposure < -MAX_EXPOSURE {
        -MAX_EXPOSURE
    } else if exposure > MAX_EXPOSURE {
        MAX_EXPOSURE
    } else {
        exposure
    };
    let q: i128 = floor_div(c as i128, 100);
    let k: i128 = c as i128 - 100 * q;
    assert(k == (c as int) % 100 && q == (c as int) / 100) by {
        vstd::arithmetic::div_mod::lemma_fundamental_div_mod(c as int, 100);
    }
    let entry = table_entry(k as u64);
    proof {
        lemma_table(k as int);
    }
    if q >= 0 {
        let p = pow2_small(q as u64);
        assert(entry as int * p as int <= 131072 * 65536) by (nonlinear_arith)
            requires
                entry <= 131072,
                p <= 65536,
        ;
        entry * p
    } else {
        let p = pow2_small((-q) as u64);
        (entry + p - 1) / p
    }
}

/// Whole stops are exact: `k` stops up is `65536 * 2^k`.
pub proof fn lemma_whole_stops(k: int)
    requires
        0 <= k <= 16,
    ensures
        exposure_gain(100 * k) == 65536 * two_pow(k as nat),
{
}

/// A brightening gain and the gain of the opposite exposure: the first is at
/// least 1, the second at most 1, and their product is at least 1 and
/// exceeds it by less than `2^-14` plus the first gain times `2^-32` (all
/// in 16-bit fixed point).
pub proof fn lemma_gain_pair(e: int)
    requires
        0 < e <= MAX_EXPOSURE,
    ensures
        65536 <= exposure_gain(e),
        0 < exposure_gain(-e) <= 65536,
        0x1_0000_0000 <= exposure_gain(e) * exposure_gain(-e),
        exposure_gain(e) * exposure_gain(-e) < 0x1_0000_0000 + 0x4_0000 + exposure_gain(e),
{
    let q = e / 100;
    let k = e % 100;
    let g = exposure_gain(e);
    let g2 = exposure_gain(-e);
    lemma_table(k);
    lemma_two_pow_le(0, q as nat);
    lemma_two_pow_le(q as nat, 16);
    lemma_two_pow_16();
    let p = two_pow(q as nat);
    assert(g == gain_entry(k) * p);
    assert(g >= 65536) by (nonlinear_arith)
        requires
            g == gain_entry(k) * p,
            gain_entry(k) >= 65536,
            p >= 1,
    ;
    if k == 0 {
        assert(-e / 100 == -q && -e % 100 == 0);
        lemma_two_pow_add((16 - q) as nat, q as nat);
        let p2 = two_pow((16 - q) as nat);
        assert(65536 == p2 * p);
        assert(g2 == (65536 + p - 1) / p);
        assert(g2 == p2) by (nonlinear_arith)
            requires
                g2 == (65536 + p - 1) / p,
                65536 == p2 * p,
                p >= 1,
        ;
        assert(g * g2 == 0x1_0000_0000) by (nonlinear_arith)
            requires
                g == 65536 * p,
                g2 == p2,
                65536 == p2 * p,
        ;
        assert(p2 <= 65536) by (nonlinear_arith)
            requires
                65536 == p2 * p,
                p >= 1,
        ;
    } else {
        assert(-e / 100 == -q - 1 && -e % 100 == 100 - k);
        lemma_table(100 - k);
        let t = gain_entry(k);
        let t2 = gain_entry(100 - k);
        let d = two_pow((q + 1) as nat);
        assert(d == 2 * p);
        assert(g2 == (t2 + d - 1) / d);
        assert(g2 * d <= t2 + d - 1 && g2 * d >= t2 && 0 < g2 <= 65536) by (nonlinear_arith)
            requires
                g2 == (t2 + d - 1) / d,
                d >= 2,
                65536 <= t2 <= 131072,
        ;
        assert(g * g2 * d == t * p * (g2 * d)) by (nonlinear_arith)
            requires
                g == t * p,
        ;
        assert(2 * (g * g2) >= t * t2) by (nonlinear_arith)
            requires
                g * g2 * d == t * p * (g2 * d),
                g2 * d >= t2,
                d == 2 * p,
                t > 0,
                p > 0,
        ;
        assert(2 * (g * g2) <= t * t2 + t * (d - 1)) by (nonlinear_arith)
            requires
                g * g2 * d == t * p * (g2 * d),
                g2 * d <= t2 + d - 1,
                d == 2 * p,
                t > 0,
                p > 0,
        ;
        assert(t * (d - 1) < 2 * g) by (nonlinear_arith)
            requires
                g == t * p,
                d == 2 * p,
                t > 0,
        ;
    }
}

} // verus!
