//! Lightness of a colour.
//!
//! Each channel `c` is raised to the power 2.2, the three powers are weighted
//! into a luminance `Y = 0.2126 R + 0.7152 G + 0.0722 B`, and the lightness is
//! `116 * cbrt(Y) - 16`, held to the range 0..=255 and rounded down.
//!
//! All of it is stated and computed in whole numbers. `c^2.2` is `c^(11/5)`, so
//! `p <= c^2.2 * s` says the same as `p^5 <= c^11 * s^5`; and `116 * cbrt(Y) - 16
//! >= n` says the same as `116^3 * Y >= (n + 16)^3`. The powers are taken to six
//! decimal places.

use vstd::prelude::*;

verus! {

/// The powers `c^2.2` are held as whole multiples of `1 / GAMMA_SCALE`.
pub const GAMMA_SCALE: u64 = 1_000_000;

/// Weight of the red channel in the luminance, in ten-thousandths.
pub const RED_WEIGHT: u64 = 2126;

/// Weight of the green channel in the luminance, in ten-thousandths.
pub const GREEN_WEIGHT: u64 = 7152;

/// Weight of the blue channel in the luminance, in ten-thousandths.
pub const BLUE_WEIGHT: u64 = 722;

/// `c^2.2 * GAMMA_SCALE`, rounded down, for the channels 0 to 10. A brighter
/// channel needs no entry: it alone brings the lightness to 255.
pub const GAMMA_TABLE: [u64; 11] = [
    0,
    1_000_000,
    4_594_793,
    11_211_578,
    21_112_126,
    34_493_241,
    51_514_886,
    72_312_884,
    97_005_860,
    125_699_491,
    158_489_319,
];

/// `x^3`.
pub open spec fn cube(x: int) -> int {
    x * x * x
}

/// `x^5`.
pub open spec fn pow5(x: int) -> int {
    x * x * x * x * x
}

/// `x^11`.
pub open spec fn pow11(x: int) -> int {
    x * x * x * x * x * x * x * x * x * x * x
}

/// Whether `p` is `c^2.2 * GAMMA_SCALE` rounded down:
/// `p^5 <= c^11 * GAMMA_SCALE^5 < (p + 1)^5`.
pub open spec fn is_gamma_floor(c: int, p: int) -> bool {
    &&& 0 <= p
    &&& pow5(p) <= pow11(c) * pow5(GAMMA_SCALE as int)
    &&& pow11(c) * pow5(GAMMA_SCALE as int) < pow5(p + 1)
}

/// `c^2.2 * GAMMA_SCALE`, rounded down.
pub open spec fn gamma_floor(c: int) -> int {
    choose|p: int| is_gamma_floor(c, p)
}

/// The luminance of a colour, `Y * 10_000 * GAMMA_SCALE`.
pub open spec fn luminance(r: int, g: int, b: int) -> int {
    RED_WEIGHT * gamma_floor(r) + GREEN_WEIGHT * gamma_floor(g) + BLUE_WEIGHT * gamma_floor(b)
}

/// Whether a luminance `y` gives a lightness of at least `n`:
/// `116 * cbrt(Y) - 16 >= n`, cubed and cleared of fractions.
pub open spec fn reaches(y: int, n: int) -> bool {
    cube(116) * y >= 10_000 * GAMMA_SCALE * cube(n + 16)
}

/// The largest lightness from 1 to `n` that the luminance `y` reaches, or 0
/// when it reaches none of them.
pub open spec fn level(y: int, n: int) -> int
    decreases n,
{
    if n <= 0 {
        0
    } else if reaches(y, n) {
        n
    } else {
        level(y, n - 1)
    }
}

/// The lightness of the colour `(r, g, b)`: `116 * cbrt(Y) - 16`, not below 0,
/// not above 255, rounded down.
pub open spec fn lightness_of(r: u8, g: u8, b: u8) -> u8 {
    level(luminance(r as int, g as int, b as int), 255) as u8
}

/// A product of two numbers that are not negative grows with both.
proof fn lemma_product_increases(a: int, b: int, c: int, d: int)
    requires
        0 <= a <= b,
        0 <= c <= d,
    ensures
        0 <= a * c <= b * d,
        (a < b && c < d) ==> a * c < b * d,
{
    assert(0 <= a * c <= b * d) by (nonlinear_arith)
        requires
            0 <= a <= b,
            0 <= c <= d,
    ;
    assert((a < b && c < d) ==> a * c < b * d) by (nonlinear_arith)
        requires
            0 <= a <= b,
            0 <= c <= d,
    ;
}

/// From 0 on, a greater number has a greater cube.
proof fn lemma_cube_increases(a: int, b: int)
    requires
        0 <= a <= b,
    ensures
        0 <= cube(a) <= cube(b),
        0 < a ==> 0 < cube(a),
{
    lemma_product_increases(a, b, a, b);
    lemma_product_increases(a * a, b * b, a, b);
    assert(0 < a ==> 0 < a * a * a) by (nonlinear_arith);
}

/// From 0 on, a greater number has a greater fifth power, and no number is
/// above its own fifth power.
proof fn lemma_pow5_increases(a: int, b: int)
    requires
        0 <= a <= b,
    ensures
        0 <= pow5(a) <= pow5(b),
        a < b ==> pow5(a) < pow5(b),
        a <= pow5(a),
{
    lemma_product_increases(a, b, a, b);
    lemma_product_increases(a * a, b * b, a, b);
    lemma_product_increases(a * a * a, b * b * b, a, b);
    lemma_product_increases(a * a * a * a, b * b * b * b, a, b);
    if a > 0 {
        lemma_product_increases(1, a, 1, a);
        lemma_product_increases(1, a * a, 1, a);
        lemma_product_increases(1, a * a * a, 1, a);
        lemma_product_increases(1, a * a * a * a, a, a);
    }
}

/// From 0 on, a greater number has a greater eleventh power.
proof fn lemma_pow11_increases(a: int, b: int)
    requires
        0 <= a <= b,
    ensures
        0 <= pow11(a) <= pow11(b),
{
    lemma_product_increases(a, b, a, b);
    lemma_product_increases(a * a, b * b, a, b);
    lemma_product_increases(a * a * a, b * b * b, a, b);
    lemma_product_increases(a * a * a * a, b * b * b * b, a, b);
    lemma_product_increases(a * a * a * a * a, b * b * b * b * b, a, b);
    lemma_product_increases(a * a * a * a * a * a, b * b * b * b * b * b, a, b);
    lemma_product_increases(a * a * a * a * a * a * a, b * b * b * b * b * b * b, a, b);
    lemma_product_increases(a * a * a * a * a * a * a * a, b * b * b * b * b * b * b * b, a, b);
    lemma_product_increases(
        a * a * a * a * a * a * a * a * a,
        b * b * b * b * b * b * b * b * b,
        a,
        b,
    );
    lemma_product_increases(
        a * a * a * a * a * a * a * a * a * a,
        b * b * b * b * b * b * b * b * b * b,
        a,
        b,
    );
}

/// `GAMMA_SCALE^5` is a one with thirty noughts.
proof fn lemma_scale_pow5(x: int)
    ensures
        pow5(GAMMA_SCALE as int) == 1_000_000_000_000_000_000_000_000_000_000,
        x * pow5(GAMMA_SCALE as int) == x * 1_000_000_000_000_000_000_000_000_000_000,
{
    assert(pow5(1_000_000) == 1_000_000_000_000_000_000_000_000_000_000);
    assert(x * pow5(GAMMA_SCALE as int) == x * 1_000_000_000_000_000_000_000_000_000_000)
        by (nonlinear_arith)
        requires
            pow5(GAMMA_SCALE as int) == 1_000_000_000_000_000_000_000_000_000_000,
    ;
}

/// Some whole number from `p` on is the fifth root of `n`, rounded down.
proof fn lemma_fifth_root_exists(n: int, p: int)
    requires
        0 <= p,
        pow5(p) <= n,
    ensures
        exists|q: int| 0 <= q && #[trigger] pow5(q) <= n && n < pow5(q + 1),
    decreases n - p,
{
    lemma_pow5_increases(p + 1, p + 1);
    if pow5(p + 1) <= n {
        lemma_fifth_root_exists(n, p + 1);
    } else {
        assert(0 <= p && pow5(p) <= n && n < pow5(p + 1));
    }
}

/// Every channel has its rounded power, and only one.
pub proof fn lemma_gamma_floor_unique(c: int, p: int)
    requires
        0 <= c,
    ensures
        is_gamma_floor(c, gamma_floor(c)),
        is_gamma_floor(c, p) ==> p == gamma_floor(c),
{
    let n = pow11(c) * pow5(GAMMA_SCALE as int);
    lemma_pow11_increases(0, c);
    lemma_scale_pow5(pow11(c));
    assert(pow5(0) == 0);
    lemma_fifth_root_exists(n, 0);
    let q = choose|q: int| 0 <= q && #[trigger] pow5(q) <= n && n < pow5(q + 1);
    assert(is_gamma_floor(c, q));
    let f = gamma_floor(c);
    assert(is_gamma_floor(c, f));
    if is_gamma_floor(c, p) {
        if p < f {
            lemma_pow5_increases(p + 1, f);
        } else if f < p {
            lemma_pow5_increases(f + 1, p);
        }
    }
}

/// A channel of at least `c0` has a power of at least `q`, where `q` is any
/// number not above the power of `c0`.
proof fn lemma_gamma_floor_at_least(c0: int, q: int, c: int)
    requires
        0 <= c0 <= c,
        0 <= q,
        pow5(q) <= pow11(c0) * 1_000_000_000_000_000_000_000_000_000_000,
    ensures
        q <= gamma_floor(c),
{
    let f = gamma_floor(c);
    lemma_gamma_floor_unique(c, f);
    lemma_pow11_increases(c0, c);
    lemma_scale_pow5(pow11(c));
    if f < q {
        lemma_pow5_increases(f + 1, q);
        assert(pow5(q) <= pow11(c) * 1_000_000_000_000_000_000_000_000_000_000);
        assert(pow11(c) * pow5(GAMMA_SCALE as int) < pow5(f + 1));
    }
}

/// `p` is the rounded power of `c` when its fifth power and that of `p + 1`
/// enclose `c^11 * GAMMA_SCALE^5`.
proof fn lemma_gamma_floor_is(c: int, p: int)
    requires
        0 <= c,
        0 <= p,
        pow5(p) <= pow11(c) * 1_000_000_000_000_000_000_000_000_000_000,
        pow11(c) * 1_000_000_000_000_000_000_000_000_000_000 < pow5(p + 1),
    ensures
        gamma_floor(c) == p,
{
    lemma_scale_pow5(pow11(c));
    lemma_gamma_floor_unique(c, p);
}

/// The table holds the rounded powers of the channels 0 to 10.
pub proof fn lemma_gamma_table(c: int)
    requires
        0 <= c <= 10,
    ensures
        gamma_floor(c) == GAMMA_TABLE@[c],
{
    if c == 0 {
        lemma_gamma_floor_is(0, 0);
    } else if c == 1 {
        lemma_gamma_floor_is(1, 1_000_000);
    } else if c == 2 {
        lemma_gamma_floor_is(2, 4_594_793);
    } else if c == 3 {
        lemma_gamma_floor_is(3, 11_211_578);
    } else if c == 4 {
        lemma_gamma_floor_is(4, 21_112_126);
    } else if c == 5 {
        lemma_gamma_floor_is(5, 34_493_241);
    } else if c == 6 {
        lemma_gamma_floor_is(6, 51_514_886);
    } else if c == 7 {
        lemma_gamma_floor_is(7, 72_312_884);
    } else if c == 8 {
        lemma_gamma_floor_is(8, 97_005_860);
    } else if c == 9 {
        lemma_gamma_floor_is(9, 125_699_491);
    } else {
        lemma_gamma_floor_is(10, 158_489_319);
    }
}

/// `reaches` with its constants worked out: `116^3` and `10_000 * GAMMA_SCALE`.
proof fn lemma_reaches_worked_out(y: int, n: int)
    ensures
        reaches(y, n) == (1_560_896 * y >= 10_000_000_000 * cube(n + 16)),
{
    assert(cube(116) == 1_560_896);
    assert(cube(116) * y == 1_560_896 * y) by (nonlinear_arith)
        requires
            cube(116) == 1_560_896,
    ;
    assert(10_000 * GAMMA_SCALE * cube(n + 16) == 10_000_000_000 * cube(n + 16))
        by (nonlinear_arith)
        requires
            GAMMA_SCALE == 1_000_000,
    ;
}

/// A luminance that reaches a lightness reaches every lower one, and so does
/// every greater luminance.
pub proof fn lemma_reaches_monotone(y: int, n: int, greater: int, lower: int)
    requires
        reaches(y, n),
        y <= greater,
        -16 <= lower <= n,
    ensures
        reaches(greater, lower),
{
    lemma_reaches_worked_out(y, n);
    lemma_reaches_worked_out(greater, lower);
    lemma_cube_increases(lower + 16, n + 16);
}

/// The level is one of the lightnesses it was searched among.
pub proof fn lemma_level_in_range(y: int, n: int)
    requires
        0 <= n,
    ensures
        0 <= level(y, n) <= n,
    decreases n,
{
    if n > 0 && !reaches(y, n) {
        lemma_level_in_range(y, n - 1);
    }
}

/// The level is `n` when the luminance reaches `n`, or `n` is 0, and does not
/// reach `n + 1`, or `n` is the last lightness searched.
pub proof fn lemma_level_is(y: int, n: int, top: int)
    requires
        0 <= n <= top,
        n == 0 || reaches(y, n),
        n == top || !reaches(y, n + 1),
    ensures
        level(y, top) == n,
    decreases top - n,
{
    if n < top {
        if reaches(y, top) {
            lemma_reaches_monotone(y, top, y, n + 1);
        }
        lemma_level_is(y, n, top - 1);
    }
}

/// A luminance of nothing reaches no lightness above 0.
proof fn lemma_level_zero(y: int, n: int)
    requires
        y <= 0,
        0 <= n,
    ensures
        level(y, n) == 0,
{
    lemma_reaches_worked_out(y, 1);
    assert(cube(17) == 4913);
    lemma_level_is(y, 0, n);
}

/// A luminance that one bright channel brings about by itself, and that
/// gives the lightness 255.
spec fn saturating_luminance() -> int {
    127_560_000_000
}

/// One bright channel brings the luminance to where the lightness is 255:
/// red from 7, green from 4, blue from 11.
proof fn lemma_bright_channel_saturates(r: u8, g: u8, b: u8)
    requires
        r > 6 || g > 3 || b > 10,
    ensures
        luminance(r as int, g as int, b as int) >= saturating_luminance(),
{
    lemma_gamma_floor_unique(r as int, 0);
    lemma_gamma_floor_unique(g as int, 0);
    lemma_gamma_floor_unique(b as int, 0);
    if r > 6 {
        lemma_gamma_floor_at_least(7, 60_000_000, r as int);
    } else if g > 3 {
        lemma_gamma_floor_at_least(4, 18_000_000, g as int);
    } else {
        lemma_gamma_floor_at_least(11, 180_000_000, b as int);
    }
}

/// From the saturating luminance on, the level is 255.
proof fn lemma_saturated_level(y: int)
    requires
        y >= saturating_luminance(),
    ensures
        level(y, 255) == 255,
{
    lemma_reaches_worked_out(y, 255);
    assert(cube(271) == 19_902_511);
}

/// Whether `n` is the level of the dark colour `(r, g, b)`, and stays its
/// level when 10_000 is added to the luminance.
spec fn is_dark_level(r: int, g: int, b: int, n: int) -> bool {
    let y = 2126 * GAMMA_TABLE@[r] + 7152 * GAMMA_TABLE@[g] + 722 * GAMMA_TABLE@[b];
    &&& 0 <= n <= 255
    &&& n == 0 || 1_560_896 * y >= 10_000_000_000 * cube(n + 16)
    &&& n == 255 || 1_560_896 * (y + 10_000) < 10_000_000_000 * cube(n + 17)
}

/// The levels of the eleven dark colours `(r, g, 0)` to `(r, g, 10)`, each
/// unchanged over the whole range from the luminance to 10_000 above it.
proof fn lemma_dark_row(r: int, g: int, b: int, y: int, levels: Seq<int>)
    requires
        0 <= r <= 10,
        0 <= g <= 10,
        0 <= b <= 10,
        luminance(r, g, b) <= y <= luminance(r, g, b) + 10_000,
        levels.len() == 11,
        forall|k: int| 0 <= k <= 10 ==> is_dark_level(r, g, k, #[trigger] levels[k]),
    ensures
        level(y, 255) == levels[b],
        level(luminance(r, g, b), 255) == levels[b],
{
    lemma_gamma_table(r);
    lemma_gamma_table(g);
    lemma_gamma_table(b);
    let low = luminance(r, g, b);
    let n = levels[b];
    assert(is_dark_level(r, g, b, n));
    lemma_reaches_worked_out(low, n);
    lemma_reaches_worked_out(low + 10_000, n + 1);
    if n != 0 {
        lemma_reaches_monotone(low, n, y, n);
    }
    if n != 255 && reaches(y, n + 1) {
        lemma_reaches_monotone(y, n + 1, low + 10_000, n + 1);
    }
    lemma_level_is(y, n, 255);
    lemma_level_is(low, n, 255);
}

/// The level of a dark colour is the same over the whole range from its
/// luminance to 10_000 above it.
proof fn lemma_dark_colour(r: int, g: int, b: int, y: int)
    requires
        0 <= r <= 6,
        0 <= g <= 3,
        0 <= b <= 10,
        luminance(r, g, b) <= y <= luminance(r, g, b) + 10_000,
    ensures
        level(y, 255) == level(luminance(r, g, b), 255),
{
    let levels = if r == 0 {
        if g == 0 {
            seq![0int, 32, 64, 92, 117, 141, 163, 185, 205, 225, 245]
        } else if g == 1 {
            seq![87int, 91, 101, 117, 135, 155, 174, 194, 213, 232, 250]
        } else if g == 2 {
            seq![156int, 157, 162, 169, 179, 192, 205, 220, 236, 252, 255]
        } else {
            seq![216int, 216, 219, 223, 230, 238, 247, 255, 255, 255, 255]
        }
    } else if r == 1 {
        if g == 0 {
            seq![53int, 60, 78, 100, 123, 145, 167, 187, 208, 227, 247]
        } else if g == 1 {
            seq![97int, 100, 109, 123, 140, 158, 177, 196, 215, 233, 252]
        } else if g == 2 {
            seq![160int, 161, 165, 172, 182, 194, 208, 222, 238, 253, 255]
        } else {
            seq![218int, 218, 221, 225, 231, 239, 249, 255, 255, 255, 255]
        }
    } else if r == 2 {
        if g == 0 {
            seq![99int, 101, 110, 124, 141, 159, 178, 197, 215, 234, 252]
        } else if g == 1 {
            seq![122int, 124, 130, 141, 155, 170, 187, 204, 222, 240, 255]
        } else if g == 2 {
            seq![172int, 173, 176, 183, 192, 203, 215, 229, 244, 255, 255]
        } else {
            seq![225int, 225, 228, 232, 238, 245, 254, 255, 255, 255, 255]
        }
    } else if r == 3 {
        if g == 0 {
            seq![138int, 140, 145, 154, 166, 180, 195, 212, 228, 245, 255]
        } else if g == 1 {
            seq![153int, 154, 158, 166, 177, 189, 203, 219, 234, 250, 255]
        } else if g == 2 {
            seq![190int, 191, 194, 200, 207, 217, 228, 241, 254, 255, 255]
        } else {
            seq![237int, 237, 239, 243, 249, 255, 255, 255, 255, 255, 255]
        }
    } else if r == 4 {
        if g == 0 {
            seq![175int, 176, 179, 186, 194, 205, 217, 231, 245, 255, 255]
        } else if g == 1 {
            seq![185int, 185, 189, 194, 202, 213, 224, 237, 251, 255, 255]
        } else if g == 2 {
            seq![213int, 214, 217, 221, 227, 236, 245, 255, 255, 255, 255]
        } else {
            seq![253int, 253, 255, 255, 255, 255, 255, 255, 255, 255, 255]
        }
    } else if r == 5 {
        if g == 0 {
            seq![209int, 210, 212, 217, 224, 232, 242, 253, 255, 255, 255]
        } else if g == 1 {
            seq![216int, 217, 219, 224, 230, 238, 247, 255, 255, 255, 255]
        } else if g == 2 {
            seq![238int, 239, 241, 245, 250, 255, 255, 255, 255, 255, 255]
        } else {
            seq![255int, 255, 255, 255, 255, 255, 255, 255, 255, 255, 255]
        }
    } else {
        if g == 0 {
            seq![241int, 242, 244, 247, 253, 255, 255, 255, 255, 255, 255]
        } else if g == 1 {
            seq![247int, 247, 249, 253, 255, 255, 255, 255, 255, 255, 255]
        } else {
            seq![255int, 255, 255, 255, 255, 255, 255, 255, 255, 255, 255]
        }
    };
    assert forall|k: int| 0 <= k <= 10 implies is_dark_level(r, g, k, #[trigger] levels[k]) by {
        assert(is_dark_level(r, g, 0, levels[0]));
        assert(is_dark_level(r, g, 1, levels[1]));
        assert(is_dark_level(r, g, 2, levels[2]));
        assert(is_dark_level(r, g, 3, levels[3]));
        assert(is_dark_level(r, g, 4, levels[4]));
        assert(is_dark_level(r, g, 5, levels[5]));
        assert(is_dark_level(r, g, 6, levels[6]));
        assert(is_dark_level(r, g, 7, levels[7]));
        assert(is_dark_level(r, g, 8, levels[8]));
        assert(is_dark_level(r, g, 9, levels[9]));
        assert(is_dark_level(r, g, 10, levels[10]));
    }
    lemma_dark_row(r, g, b, y, levels);
}

/// Tells whether the luminance `y` gives a lightness of at least `n`.
fn reaches_level(y: u64, n: u8) -> (reached: bool)
    ensures
        reached == reaches(y as int, n as int),
{
    let side: u128 = (n as u128) + 16;
    assert(side * side <= 271 * 271) by (nonlinear_arith)
        requires
            side <= 271,
    ;
    let area: u128 = side * side;
    assert(area * side <= 73_441 * 271) by (nonlinear_arith)
        requires
            area <= 73_441,
            side <= 271,
    ;
    let volume: u128 = area * side;
    proof {
        lemma_reaches_worked_out(y as int, n as int);
    }
    1_560_896u128 * (y as u128) >= 10_000_000_000u128 * volume
}

/// Computes the lightness of the colour `(r, g, b)`: 0 for black, 255 for
/// white and for every colour with one bright channel.
pub fn lightness(r: u8, g: u8, b: u8) -> (l: u8)
    ensures
        l == lightness_of(r, g, b),
{
    if r > 6 || g > 3 || b > 10 {
        proof {
            lemma_bright_channel_saturates(r, g, b);
            lemma_saturated_level(luminance(r as int, g as int, b as int));
        }
        return 255;
    }
    proof {
        lemma_gamma_table(r as int);
        lemma_gamma_table(g as int);
        lemma_gamma_table(b as int);
    }
    let y: u64 = RED_WEIGHT * GAMMA_TABLE[r as usize] + GREEN_WEIGHT * GAMMA_TABLE[g as usize]
        + BLUE_WEIGHT * GAMMA_TABLE[b as usize];
    let mut n: u8 = 255;
    while n > 0 && !reaches_level(y, n)
        invariant
            level(y as int, 255) == level(y as int, n as int),
        decreases n,
    {
        n = n - 1;
    }
    proof {
        lemma_level_in_range(y as int, n as int);
    }
    n
}

/// A greater luminance has no lower level.
pub proof fn lemma_level_monotone(y: int, greater: int, n: int)
    requires
        y <= greater,
        0 <= n,
    ensures
        level(y, n) <= level(greater, n),
    decreases n,
{
    if n > 0 {
        if reaches(y, n) {
            lemma_reaches_monotone(y, n, greater, n);
        } else {
            lemma_level_monotone(y, greater, n - 1);
            lemma_level_in_range(y, n - 1);
        }
    }
}

/// A colour that is at least as bright in every channel is at least as light.
pub proof fn lemma_lightness_monotone(r: u8, g: u8, b: u8, r2: u8, g2: u8, b2: u8)
    requires
        r <= r2,
        g <= g2,
        b <= b2,
    ensures
        lightness_of(r, g, b) <= lightness_of(r2, g2, b2),
{
    lemma_gamma_floor_unique(r as int, 0);
    lemma_gamma_floor_unique(g as int, 0);
    lemma_gamma_floor_unique(b as int, 0);
    lemma_scale_pow5(pow11(r as int));
    lemma_scale_pow5(pow11(g as int));
    lemma_scale_pow5(pow11(b as int));
    lemma_gamma_floor_at_least(r as int, gamma_floor(r as int), r2 as int);
    lemma_gamma_floor_at_least(g as int, gamma_floor(g as int), g2 as int);
    lemma_gamma_floor_at_least(b as int, gamma_floor(b as int), b2 as int);
    lemma_level_monotone(
        luminance(r as int, g as int, b as int),
        luminance(r2 as int, g2 as int, b2 as int),
        255,
    );
    lemma_lightness_in_range(r, g, b);
    lemma_lightness_in_range(r2, g2, b2);
}

/// The lightness of every colour lies between 0 and 255, so that holding it
/// in a byte loses nothing; black has 0 and white 255.
pub proof fn lemma_lightness_in_range(r: u8, g: u8, b: u8)
    ensures
        0 <= level(luminance(r as int, g as int, b as int), 255) <= 255,
        lightness_of(r, g, b) == level(luminance(r as int, g as int, b as int), 255),
        lightness_of(0, 0, 0) == 0,
        lightness_of(255, 255, 255) == 255,
{
    lemma_level_in_range(luminance(r as int, g as int, b as int), 255);
    lemma_gamma_table(0);
    lemma_level_zero(luminance(0, 0, 0), 255);
    lemma_bright_channel_saturates(255, 255, 255);
    lemma_saturated_level(luminance(255, 255, 255));
}

/// Rounding the powers does not touch the lightness. Each power lies between
/// its rounded value and the next whole number, and the three weights add up
/// to 10_000: so the luminance of the colour, with powers that are not
/// rounded, lies between `luminance` and 10_000 above it. Every luminance in
/// that range has the level of `luminance` itself.
pub proof fn lemma_rounding_keeps_lightness(r: u8, g: u8, b: u8, y: int)
    requires
        luminance(r as int, g as int, b as int) <= y <= luminance(r as int, g as int, b as int)
            + RED_WEIGHT + GREEN_WEIGHT + BLUE_WEIGHT,
    ensures
        level(y, 255) == lightness_of(r, g, b),
{
    lemma_lightness_in_range(r, g, b);
    if r > 6 || g > 3 || b > 10 {
        lemma_bright_channel_saturates(r, g, b);
        lemma_saturated_level(luminance(r as int, g as int, b as int));
        lemma_saturated_level(y);
    } else {
        lemma_dark_colour(r as int, g as int, b as int, y);
    }
}

} // verus!
