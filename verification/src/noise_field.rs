use vstd::prelude::*;
use vstd::arithmetic::div_mod::{
    lemma_div_is_ordered, lemma_div_multiples_vanish, lemma_div_pos_is_pos,
};
use vstd::arithmetic::mul::lemma_mul_inequality;
use vstd::wrapping::u64_specs;

verus! {

// A seeded, deterministic coherent-noise field over the plane, in fixed-point
// arithmetic: coordinates are given in thousandths of a cell, and values are
// returned in thousandths of the unit interval. The field is a pure function
// of (seed, coordinates, parameters), which is what makes every generator
// built on it reproducible. A smoothed value-noise lattice provides the base
// field; `layered_milli` sums octaves of it at doubling frequency and
// geometrically falling amplitude, and `ridged_milli` does the same with each
// octave folded through an absolute-value ridge transform.

pub const LATTICE_MIX_X: u64 = 0x9E37_79B9_7F4A_7C15;

pub const LATTICE_MIX_Y: u64 = 0xC2B2_AE3D_27D4_EB4F;

/// A 64-bit finalizing mixer: the output bits depend heavily on every input
/// bit, so nearby lattice points receive unrelated values.
pub open spec fn spec_mix64(z: u64) -> u64 {
    let a = u64_specs::wrapping_mul(z ^ (z >> 30), 0xBF58_476D_1CE4_E5B9);
    let b = u64_specs::wrapping_mul(a ^ (a >> 27), 0x94D0_49BB_1331_11EB);
    b ^ (b >> 31)
}

pub fn mix64(z: u64) -> (r: u64)
    ensures
        r == spec_mix64(z),
{
    let a: u64 = (z ^ (z >> 30)).wrapping_mul(0xBF58_476D_1CE4_E5B9);
    let b: u64 = (a ^ (a >> 27)).wrapping_mul(0x94D0_49BB_1331_11EB);
    b ^ (b >> 31)
}

/// The value the field of `seed` takes at the lattice point `(xi, yi)`, in
/// `[-1000, 1000]`.
pub open spec fn spec_lattice(seed: u64, xi: u64, yi: u64) -> int {
    let h = spec_mix64(
        seed ^ u64_specs::wrapping_mul(xi, LATTICE_MIX_X) ^ u64_specs::wrapping_mul(
            yi,
            LATTICE_MIX_Y,
        ),
    );
    (h % 2001) - 1000
}

pub fn lattice_milli(seed: u64, xi: u64, yi: u64) -> (r: i64)
    ensures
        r == spec_lattice(seed, xi, yi),
        -1000 <= r <= 1000,
{
    let h: u64 = mix64(seed ^ xi.wrapping_mul(LATTICE_MIX_X) ^ yi.wrapping_mul(LATTICE_MIX_Y));
    (h % 2001) as i64 - 1000
}

/// The quintic-free smooth step in thousandths: `3t^2 - 2t^3` over the unit
/// interval, clamped to `[0, 1000]`.
pub open spec fn spec_fade(t: int) -> int {
    let g = t * t * (3000 - 2 * t) / 1_000_000;
    if g < 0 {
        0
    } else if g > 1000 {
        1000
    } else {
        g
    }
}

pub fn fade_milli(t: i64) -> (r: i64)
    requires
        0 <= t <= 1000,
    ensures
        r == spec_fade(t as int),
        0 <= r <= 1000,
{
    proof {
        lemma_mul_upper(t as int, t as int, 1000, 1000);
        lemma_mul_upper(t as int * t as int, 3000 - 2 * t, 1_000_000, 3000);
    }
    let g: i64 = t * t * (3000 - 2 * t) / 1_000_000;
    proof {
        lemma_div_pos_is_pos(t as int * t as int * (3000 - 2 * t), 1_000_000);
    }
    if g > 1000 {
        1000
    } else {
        g
    }
}

/// Linear interpolation from `a` to `b` by `t` thousandths, computed over
/// values shifted into `[0, 2000]` so that the division is of a nonnegative
/// quantity.
pub open spec fn spec_lerp(a: int, b: int, t: int) -> int {
    ((a + 1000) * (1000 - t) + (b + 1000) * t) / 1000 - 1000
}

fn lerp_milli(a: i64, b: i64, t: i64) -> (r: i64)
    requires
        -1000 <= a <= 1000,
        -1000 <= b <= 1000,
        0 <= t <= 1000,
    ensures
        r == spec_lerp(a as int, b as int, t as int),
        -1000 <= r <= 1000,
{
    let ap: i64 = a + 1000;
    let bp: i64 = b + 1000;
    proof {
        lemma_mul_upper(ap as int, 1000 - t, 2000, 1000);
        lemma_mul_upper(bp as int, t as int, 2000, 1000);
        let num = ap as int * (1000 - t) + bp as int * (t as int);
        assert(num <= 2_000_000) by (nonlinear_arith)
            requires
                0 <= ap <= 2000,
                0 <= bp <= 2000,
                0 <= t <= 1000,
                num == ap as int * (1000 - t) + bp as int * (t as int),
        ;
        lemma_div_pos_is_pos(num, 1000);
        lemma_div_is_ordered(num, 2_000_000, 1000);
        lemma_div_multiples_vanish(2000, 1000);
        assert(1000 * 2000 == 2_000_000) by (nonlinear_arith);
    }
    let num: u64 = (ap * (1000 - t) + bp * t) as u64;
    (num / 1000) as i64 - 1000
}

/// The base scalar field of `seed` at the point `(xm / 1000, ym / 1000)`:
/// the four surrounding lattice values, blended by the smooth step of the
/// fractional offsets. The value lies in `[-1000, 1000]`.
#[verifier::opaque]
pub open spec fn spec_sample(seed: u64, xm: u64, ym: u64) -> int {
    let xi = xm / 1000;
    let yi = ym / 1000;
    let fx = (xm % 1000) as int;
    let fy = (ym % 1000) as int;
    let u = spec_fade(fx);
    let v = spec_fade(fy);
    let a = spec_lerp(
        spec_lattice(seed, xi, yi),
        spec_lattice(seed, u64_specs::wrapping_add(xi, 1), yi),
        u,
    );
    let b = spec_lerp(
        spec_lattice(seed, xi, u64_specs::wrapping_add(yi, 1)),
        spec_lattice(seed, u64_specs::wrapping_add(xi, 1), u64_specs::wrapping_add(yi, 1)),
        u,
    );
    spec_lerp(a, b, v)
}

pub fn sample_milli(seed: u64, xm: u64, ym: u64) -> (r: i64)
    ensures
        r == spec_sample(seed, xm, ym),
        -1000 <= r <= 1000,
{
    proof {
        reveal(spec_sample);
    }
    let xi: u64 = xm / 1000;
    let yi: u64 = ym / 1000;
    let fx: i64 = (xm % 1000) as i64;
    let fy: i64 = (ym % 1000) as i64;
    let u: i64 = fade_milli(fx);
    let v: i64 = fade_milli(fy);
    let v00: i64 = lattice_milli(seed, xi, yi);
    let v10: i64 = lattice_milli(seed, xi.wrapping_add(1), yi);
    let v01: i64 = lattice_milli(seed, xi, yi.wrapping_add(1));
    let v11: i64 = lattice_milli(seed, xi.wrapping_add(1), yi.wrapping_add(1));
    let a: i64 = lerp_milli(v00, v10, u);
    let b: i64 = lerp_milli(v01, v11, u);
    lerp_milli(a, b, v)
}

/// `b` to the power `e`.
pub open spec fn pow_int(b: int, e: nat) -> int
    decreases e,
{
    if e == 0 {
        1
    } else {
        b * pow_int(b, (e - 1) as nat)
    }
}

/// The amplitude of octave `i` out of `octaves`, for a persistence of
/// `pn / pd`, scaled by `pd^(octaves - 1)` so that it is an integer.
pub open spec fn octave_weight(pn: int, pd: int, octaves: nat, i: nat) -> int {
    pow_int(pn, i) * pow_int(pd, (octaves - 1 - i) as nat)
}

/// The sample point of octave `i`: the cell coordinate scaled by `scale`
/// thousandths per cell, at frequency `2^i`.
pub open spec fn octave_point(c: int, scale: int, i: nat) -> u64 {
    (c * scale * pow_int(2, i)) as u64
}

/// The accumulated weighted sample total of the first `k` octaves of the
/// layered field.
pub open spec fn layered_total(
    seed: u64,
    x: int,
    y: int,
    scale: int,
    pn: int,
    pd: int,
    octaves: nat,
    k: nat,
) -> int
    decreases k,
{
    if k == 0 {
        0
    } else {
        let i = (k - 1) as nat;
        layered_total(seed, x, y, scale, pn, pd, octaves, i) + spec_sample(
            seed,
            octave_point(x, scale, i),
            octave_point(y, scale, i),
        ) * octave_weight(pn, pd, octaves, i)
    }
}

/// The sum of the first `k` octave weights.
pub open spec fn weight_total(pn: int, pd: int, octaves: nat, k: nat) -> int
    decreases k,
{
    if k == 0 {
        0
    } else {
        weight_total(pn, pd, octaves, (k - 1) as nat) + octave_weight(
            pn,
            pd,
            octaves,
            (k - 1) as nat,
        )
    }
}

/// The layered (fractal) field: the weighted octave total, normalized by the
/// weight sum and remapped from [-1, 1] to [0, 1], in thousandths.
pub open spec fn layered_value(
    seed: u64,
    x: int,
    y: int,
    scale: int,
    pn: int,
    pd: int,
    octaves: nat,
) -> int {
    let total = layered_total(seed, x, y, scale, pn, pd, octaves, octaves);
    let wsum = weight_total(pn, pd, octaves, octaves);
    (total + 1000 * wsum) / (2 * wsum)
}

proof fn lemma_pow_le(b: int, c: int, e: nat)
    requires
        0 <= b <= c,
    ensures
        0 <= pow_int(b, e) <= pow_int(c, e),
    decreases e,
{
    if e > 0 {
        lemma_pow_le(b, c, (e - 1) as nat);
        assert(b * pow_int(b, (e - 1) as nat) <= c * pow_int(c, (e - 1) as nat)) by (nonlinear_arith)
            requires
                0 <= b <= c,
                0 <= pow_int(b, (e - 1) as nat) <= pow_int(c, (e - 1) as nat),
        ;
    }
}

proof fn lemma_pow_pos(b: int, e: nat)
    requires
        b >= 1,
    ensures
        pow_int(b, e) >= 1,
    decreases e,
{
    if e > 0 {
        lemma_pow_pos(b, (e - 1) as nat);
        assert(b * pow_int(b, (e - 1) as nat) >= 1) by (nonlinear_arith)
            requires
                b >= 1,
                pow_int(b, (e - 1) as nat) >= 1,
        ;
    }
}

proof fn lemma_pow_add(b: int, e1: nat, e2: nat)
    ensures
        pow_int(b, e1) * pow_int(b, e2) == pow_int(b, (e1 + e2) as nat),
    decreases e1,
{
    if e1 == 0 {
    } else {
        lemma_pow_add(b, (e1 - 1) as nat, e2);
        assert(b * pow_int(b, (e1 - 1) as nat) * pow_int(b, e2) == b * (pow_int(b, (e1 - 1) as nat)
            * pow_int(b, e2))) by (nonlinear_arith);
    }
}

proof fn lemma_pow_mono_exp(b: int, e1: nat, e2: nat)
    requires
        b >= 1,
        e1 <= e2,
    ensures
        pow_int(b, e1) <= pow_int(b, e2),
    decreases e2,
{
    if e1 < e2 {
        lemma_pow_mono_exp(b, e1, (e2 - 1) as nat);
        lemma_pow_pos(b, (e2 - 1) as nat);
        assert(pow_int(b, (e2 - 1) as nat) <= b * pow_int(b, (e2 - 1) as nat)) by (nonlinear_arith)
            requires
                b >= 1,
                pow_int(b, (e2 - 1) as nat) >= 1,
        ;
    }
}

proof fn lemma_pow_one(e: nat)
    ensures
        pow_int(1, e) == 1,
    decreases e,
{
    if e > 0 {
        lemma_pow_one((e - 1) as nat);
    }
}

proof fn lemma_pow2_7()
    ensures
        pow_int(2, 7) == 128,
{
    reveal_with_fuel(pow_int, 8);
}

proof fn lemma_pow10_7()
    ensures
        pow_int(10, 7) == 10_000_000,
{
    reveal_with_fuel(pow_int, 8);
}

/// Each octave weight lies in `[1, 10^(octaves-1)]` when `1 <= pn <= pd <= 10`.
proof fn lemma_weight_bounds(pn: int, pd: int, octaves: nat, i: nat)
    requires
        1 <= pn <= pd <= 10,
        i < octaves,
    ensures
        1 <= octave_weight(pn, pd, octaves, i) <= pow_int(10, (octaves - 1) as nat),
{
    let j = (octaves - 1 - i) as nat;
    lemma_pow_pos(pn, i);
    lemma_pow_pos(pd, j);
    lemma_pow_le(pn, 10, i);
    lemma_pow_le(pd, 10, j);
    assert(1 <= pow_int(pn, i) * pow_int(pd, j)) by (nonlinear_arith)
        requires
            pow_int(pn, i) >= 1,
            pow_int(pd, j) >= 1,
    ;
    assert(pow_int(pn, i) * pow_int(pd, j) <= pow_int(10, i) * pow_int(10, j)) by (nonlinear_arith)
        requires
            1 <= pow_int(pn, i) <= pow_int(10, i),
            1 <= pow_int(pd, j) <= pow_int(10, j),
    ;
    lemma_pow_add(10, i, j);
}

proof fn lemma_weight_total_pos(pn: int, pd: int, octaves: nat, k: nat)
    requires
        1 <= pn <= pd <= 10,
        k <= octaves,
        octaves >= 1,
    ensures
        weight_total(pn, pd, octaves, k) >= k,
    decreases k,
{
    if k > 0 {
        lemma_weight_total_pos(pn, pd, octaves, (k - 1) as nat);
        lemma_weight_bounds(pn, pd, octaves, (k - 1) as nat);
    }
}

/// The product of two values within nonnegative bounds stays within the
/// product of the bounds.
pub proof fn lemma_mul_upper(a: int, b: int, bound_a: int, bound_b: int)
    requires
        0 <= a <= bound_a,
        0 <= b <= bound_b,
    ensures
        0 <= a * b <= bound_a * bound_b,
{
    assert(0 <= a * b <= bound_a * bound_b) by (nonlinear_arith)
        requires
            0 <= a <= bound_a,
            0 <= b <= bound_b,
    ;
}

/// `b` to the power `e`, for the small bases and exponents the layered field
/// uses.
pub fn pow_u64(b: u64, e: u64) -> (r: u64)
    requires
        b <= 10,
        e <= 7,
    ensures
        r == pow_int(b as int, e as nat),
        r <= 10_000_000,
{
    let mut r: u64 = 1;
    let mut i: u64 = 0;
    while i < e
        invariant
            0 <= i <= e,
            b <= 10,
            e <= 7,
            r == pow_int(b as int, i as nat),
            r <= pow_int(10, i as nat),
        decreases e - i,
    {
        proof {
            lemma_pow_le(b as int, 10, i as nat);
            lemma_pow_mono_exp(10, (i + 1) as nat, 7);
            lemma_pow10_7();
            assert(b * pow_int(b as int, i as nat) <= 10 * pow_int(10, i as nat))
                by (nonlinear_arith)
                requires
                    0 <= b <= 10,
                    0 <= pow_int(b as int, i as nat) <= pow_int(10, i as nat),
            ;
        }
        r = r * b;
        i = i + 1;
    }
    proof {
        lemma_pow_mono_exp(10, e as nat, 7);
        lemma_pow10_7();
    }
    r
}

/// A layered field in the generators' configuration: `x`, `y` are cell
/// coordinates, `scale` the base frequency in thousandths per cell, and
/// `pn / pd` the persistence. Returns the fractal value in thousandths,
/// within `[0, 1000]`.
#[verifier::rlimit(80)]
pub fn layered_milli(
    seed: u64,
    x: usize,
    y: usize,
    scale: u64,
    pn: u64,
    pd: u64,
    octaves: u64,
) -> (r: u32)
    requires
        x <= 0x1000_0000,
        y <= 0x1000_0000,
        1 <= scale <= 1000,
        1 <= pn <= pd <= 10,
        1 <= octaves <= 8,
    ensures
        r == layered_value(seed, x as int, y as int, scale as int, pn as int, pd as int,
            octaves as nat),
        r <= 1000,
{
    let ghost oct: nat = octaves as nat;
    let mut total: i64 = 0;
    let mut wsum: u64 = 0;
    let mut freq: u64 = 1;
    let mut i: u64 = 0;
    while i < octaves
        invariant
            0 <= i <= octaves,
            x <= 0x1000_0000,
            y <= 0x1000_0000,
            1 <= scale <= 1000,
            1 <= pn <= pd <= 10,
            1 <= octaves <= 8,
            oct == octaves as nat,
            freq == pow_int(2, i as nat),
            freq <= 256,
            total == layered_total(seed, x as int, y as int, scale as int, pn as int, pd as int,
                oct, i as nat),
            wsum == weight_total(pn as int, pd as int, oct, i as nat),
            wsum <= i * 10_000_000,
            -1000 * (wsum as int) <= total <= 1000 * (wsum as int),
        decreases octaves - i,
    {
        let wa: u64 = pow_u64(pn, i);
        let wb: u64 = pow_u64(pd, octaves - 1 - i);
        proof {
            lemma_mul_upper(wa as int, wb as int, 10_000_000, 10_000_000);
            lemma_weight_bounds(pn as int, pd as int, oct, i as nat);
            lemma_pow_mono_exp(10, (octaves - 1) as nat, 7);
            lemma_pow10_7();
        }
        let w: u64 = wa * wb;
        proof {
            lemma_pow_mono_exp(2, i as nat, 7);
            lemma_pow2_7();
            lemma_mul_upper(x as int, scale as int, 0x1000_0000, 1000);
            lemma_mul_upper(y as int, scale as int, 0x1000_0000, 1000);
        }
        let xs: u64 = (x as u64) * scale;
        let ys: u64 = (y as u64) * scale;
        proof {
            lemma_mul_upper(xs as int, freq as int, (0x1000_0000 * 1000) as int, 128);
            lemma_mul_upper(ys as int, freq as int, (0x1000_0000 * 1000) as int, 128);
        }
        let xm: u64 = xs * freq;
        let ym: u64 = ys * freq;
        let s: i64 = sample_milli(seed, xm, ym);
        proof {
            let wi = octave_weight(pn as int, pd as int, oct, i as nat);
            lemma_mul_inequality(s as int, 1000, wi);
            lemma_mul_inequality(-1000, s as int, wi);
        }
        total = total + s * (w as i64);
        wsum = wsum + w;
        freq = freq * 2;
        i = i + 1;
    }
    proof {
        lemma_weight_total_pos(pn as int, pd as int, oct, oct);
    }
    let num: u64 = ((total + 1000 * (wsum as i64)) as u64);
    let den: u64 = 2 * wsum;
    let r64: u64 = num / den;
    proof {
        let t = total as int;
        let ws = wsum as int;
        lemma_div_pos_is_pos(t + 1000 * ws, 2 * ws);
        lemma_div_is_ordered(t + 1000 * ws, 2000 * ws, 2 * ws);
        lemma_div_multiples_vanish(1000, 2 * ws);
        assert(1000 * (2 * ws) == 2000 * ws) by (nonlinear_arith);
    }
    r64 as u32
}

/// The ridge transform of a base sample: sharp maxima where the base field
/// crosses zero.
pub open spec fn ridge_of(s: int) -> int {
    if s >= 0 {
        1000 - s
    } else {
        1000 + s
    }
}

/// The accumulated weighted ridge total of the first `k` octaves, with the
/// amplitude of octave `i` falling as `2^(octaves - 1 - i)`.
pub open spec fn ridged_total(seed: u64, x: int, y: int, scale: int, octaves: nat, k: nat) -> int
    decreases k,
{
    if k == 0 {
        0
    } else {
        let i = (k - 1) as nat;
        ridged_total(seed, x, y, scale, octaves, i) + ridge_of(
            spec_sample(seed, octave_point(x, scale, i), octave_point(y, scale, i)),
        ) * octave_weight(1, 2, octaves, i)
    }
}

/// The ridged fractal field, normalized to `[0, 1000]`.
pub open spec fn ridged_value(seed: u64, x: int, y: int, scale: int, octaves: nat) -> int {
    ridged_total(seed, x, y, scale, octaves, octaves) / weight_total(1, 2, octaves, octaves)
}

/// The ridged fractal field in the river carver's shape: octaves of the base
/// field folded through the ridge transform, summed at doubling frequency and
/// halving amplitude, normalized to thousandths within `[0, 1000]`.
#[verifier::rlimit(80)]
pub fn ridged_milli(seed: u64, x: usize, y: usize, scale: u64, octaves: u64) -> (r: u32)
    requires
        x <= 0x1000_0000,
        y <= 0x1000_0000,
        1 <= scale <= 1000,
        1 <= octaves <= 8,
    ensures
        r == ridged_value(seed, x as int, y as int, scale as int, octaves as nat),
        r <= 1000,
{
    let ghost oct: nat = octaves as nat;
    let mut total: u64 = 0;
    let mut wsum: u64 = 0;
    let mut freq: u64 = 1;
    let mut i: u64 = 0;
    while i < octaves
        invariant
            0 <= i <= octaves,
            x <= 0x1000_0000,
            y <= 0x1000_0000,
            1 <= scale <= 1000,
            1 <= octaves <= 8,
            oct == octaves as nat,
            freq == pow_int(2, i as nat),
            freq <= 256,
            total == ridged_total(seed, x as int, y as int, scale as int, oct, i as nat),
            wsum == weight_total(1, 2, oct, i as nat),
            wsum <= i * 10_000_000,
            0 <= total <= 1000 * (wsum as int),
        decreases octaves - i,
    {
        let w: u64 = pow_u64(2, octaves - 1 - i);
        proof {
            lemma_weight_bounds(1, 2, oct, i as nat);
            lemma_pow_mono_exp(10, (octaves - 1) as nat, 7);
            lemma_pow10_7();
            lemma_pow_one(i as nat);
        }
        proof {
            lemma_pow_mono_exp(2, i as nat, 7);
            lemma_pow2_7();
            lemma_mul_upper(x as int, scale as int, 0x1000_0000, 1000);
            lemma_mul_upper(y as int, scale as int, 0x1000_0000, 1000);
        }
        let xs: u64 = (x as u64) * scale;
        let ys: u64 = (y as u64) * scale;
        proof {
            lemma_mul_upper(xs as int, freq as int, (0x1000_0000 * 1000) as int, 128);
            lemma_mul_upper(ys as int, freq as int, (0x1000_0000 * 1000) as int, 128);
        }
        let xm: u64 = xs * freq;
        let ym: u64 = ys * freq;
        let s: i64 = sample_milli(seed, xm, ym);
        let t: i64 = if s >= 0 {
            1000 - s
        } else {
            1000 + s
        };
        proof {
            let wi = octave_weight(1, 2, oct, i as nat);
            lemma_mul_inequality(t as int, 1000, wi);
            lemma_mul_inequality(0, t as int, wi);
        }
        total = total + (t as u64) * w;
        wsum = wsum + w;
        freq = freq * 2;
        i = i + 1;
    }
    proof {
        lemma_weight_total_pos(1, 2, oct, oct);
        lemma_div_pos_is_pos(total as int, wsum as int);
        lemma_div_is_ordered(total as int, 1000 * (wsum as int), wsum as int);
        lemma_div_multiples_vanish(1000, wsum as int);
        assert(1000 * (wsum as int) == (wsum as int) * 1000) by (nonlinear_arith);
    }
    let r64: u64 = total / wsum;
    r64 as u32
}

} // verus!
