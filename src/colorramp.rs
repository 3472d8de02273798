//! Color ramp computation: turns a color setting into 16-bit gamma ramps.
//!
//! All arithmetic is on integers. White point coefficients are stored in
//! ten-thousandths (10000 is full intensity) and brightness in thousandths
//! (1000 is full brightness). Interpolation between table entries is kept
//! exact as a weight (5000000 is full intensity), and each scaling of a
//! level is rounded once to the nearest integer.
use vstd::prelude::*;

verus! {

/// Lowest color temperature that can be requested, in Kelvin.
pub const MIN_TEMP: i32 = 1000;

/// Highest color temperature that can be requested, in Kelvin.
pub const MAX_TEMP: i32 = 25000;

/// Color temperature at which no correction is applied, in Kelvin.
pub const NEUTRAL_TEMP: i32 = 6500;

/// Distance in Kelvin between two entries of the white point table.
pub const TEMP_STEP: i32 = 500;

/// Index of the last entry of the white point table.
pub const LAST_ENTRY: usize = 48;

/// Table value that stands for full intensity of a channel.
pub const FULL_COEFFICIENT: u32 = 10000;

/// Channel weight that stands for full intensity: a full table value times
/// the table step.
pub const FULL_WEIGHT: u32 = 5000000;

/// Brightness that leaves the ramp as it is.
pub const FULL_BRIGHTNESS: u32 = 1000;

/// A color setting: temperature in Kelvin and brightness in thousandths.
#[derive(Clone, Copy, Debug, PartialEq, Eq)]
pub struct ColorSetting {
    pub temp: i32,
    pub brightness: u32,
}

impl ColorSetting {
    /// The setting is one that the ramp computation accepts.
    pub open spec fn wf(&self) -> bool {
        &&& MIN_TEMP <= self.temp <= MAX_TEMP
        &&& 1 <= self.brightness <= FULL_BRIGHTNESS
    }

    /// The neutral setting at the given temperature: full brightness.
    pub fn at_temperature(temp: i32) -> (r: ColorSetting)
        ensures
            r.temp == temp,
            r.brightness == FULL_BRIGHTNESS,
    {
        ColorSetting { temp, brightness: FULL_BRIGHTNESS }
    }
}

/// Relative (red, green, blue) intensity of a black body at temperature
/// 1000 + 500 * k Kelvin, in ten-thousandths; entry 11 (6500 K) is neutral.
pub open spec fn white_point(k: int) -> (int, int, int) {
    if k == 0 {
        (10000, 2673, 0)
    } else if k == 1 {
        (10000, 4260, 0)
    } else if k == 2 {
        (10000, 5386, 556)
    } else if k == 3 {
        (10000, 6260, 2802)
    } else if k == 4 {
        (10000, 6973, 4396)
    } else if k == 5 {
        (10000, 7577, 5632)
    } else if k == 6 {
        (10000, 8099, 6642)
    } else if k == 7 {
        (10000, 8561, 7496)
    } else if k == 8 {
        (10000, 8973, 8236)
    } else if k == 9 {
        (10000, 9346, 8888)
    } else if k == 10 {
        (10000, 9687, 9472)
    } else if k == 11 {
        (10000, 10000, 10000)
    } else if k == 12 {
        (9329, 9344, 10000)
    } else if k == 13 {
        (8839, 9062, 10000)
    } else if k == 14 {
        (8506, 8867, 10000)
    } else if k == 15 {
        (8257, 8719, 10000)
    } else if k == 16 {
        (8059, 8600, 10000)
    } else if k == 17 {
        (7895, 8500, 10000)
    } else if k == 18 {
        (7756, 8415, 10000)
    } else if k == 19 {
        (7635, 8340, 10000)
    } else if k == 20 {
        (7529, 8274, 10000)
    } else if k == 21 {
        (7434, 8215, 10000)
    } else if k == 22 {
        (7348, 8161, 10000)
    } else if k == 23 {
        (7270, 8112, 10000)
    } else if k == 24 {
        (7199, 8067, 10000)
    } else if k == 25 {
        (7133, 8025, 10000)
    } else if k == 26 {
        (7072, 7986, 10000)
    } else if k == 27 {
        (7015, 7949, 10000)
    } else if k == 28 {
        (6962, 7915, 10000)
    } else if k == 29 {
        (6912, 7883, 10000)
    } else if k == 30 {
        (6865, 7852, 10000)
    } else if k == 31 {
        (6821, 7823, 10000)
    } else if k == 32 {
        (6778, 7796, 10000)
    } else if k == 33 {
        (6738, 7770, 10000)
    } else if k == 34 {
        (6700, 7745, 10000)
    } else if k == 35 {
        (6664, 7721, 10000)
    } else if k == 36 {
        (6629, 7698, 10000)
    } else if k == 37 {
        (6596, 7676, 10000)
    } else if k == 38 {
        (6564, 7655, 10000)
    } else if k == 39 {
        (6533, 7635, 10000)
    } else if k == 40 {
        (6504, 7616, 10000)
    } else if k == 41 {
        (6476, 7597, 10000)
    } else if k == 42 {
        (6448, 7579, 10000)
    } else if k == 43 {
        (6422, 7561, 10000)
    } else if k == 44 {
        (6397, 7544, 10000)
    } else if k == 45 {
        (6372, 7527, 10000)
    } else if k == 46 {
        (6348, 7511, 10000)
    } else if k == 47 {
        (6325, 7496, 10000)
    } else {
        (6302, 7481, 10000)
    }
}

/// One channel (0 red, 1 green, 2 blue) of a point of the table.
pub open spec fn channel_of(p: (int, int, int), c: int) -> int {
    if c == 0 {
        p.0
    } else if c == 1 {
        p.1
    } else {
        p.2
    }
}

/// Weight of channel c at a temperature: the linear interpolation between
/// the two surrounding table entries, kept as the unrounded weighted sum
/// `lo * (500 - a) + hi * a`, where `a` is the distance in Kelvin above the
/// lower entry. It stands for the coefficient weight / 5000000; the last
/// entry holds at the top of the range.
pub open spec fn channel_weight(temp: int, c: int) -> int {
    let k = (temp - MIN_TEMP) / (TEMP_STEP as int);
    let a = (temp - MIN_TEMP) % (TEMP_STEP as int);
    if k >= LAST_ENTRY {
        channel_of(white_point(LAST_ENTRY as int), c) * TEMP_STEP
    } else {
        channel_of(white_point(k), c) * (TEMP_STEP - a) + channel_of(white_point(k + 1), c) * a
    }
}

/// Identity ramp: the level of index i in a ramp of n entries, that is
/// i / n * 65536 rounded to the nearest integer and kept at most 65535.
pub open spec fn linear_level(i: int, n: int) -> int {
    let v = (2 * i * 65536 + n) / (2 * n);
    if v > 65535 {
        65535
    } else {
        v
    }
}

/// A level scaled by the coefficient weight / 5000000, rounded to the
/// nearest integer.
pub open spec fn weighted_level(level: int, weight: int) -> int {
    (2 * level * weight + FULL_WEIGHT) / (2 * FULL_WEIGHT as int)
}

/// A level scaled by brightness / 1000, rounded to the nearest integer.
pub open spec fn bright_level(level: int, brightness: int) -> int {
    (2 * level * brightness + FULL_BRIGHTNESS) / (2 * FULL_BRIGHTNESS as int)
}

/// Level of index i of a channel of weight `weight`.
pub open spec fn scaled_level(i: int, n: int, weight: int, brightness: int) -> int {
    bright_level(weighted_level(linear_level(i, n), weight), brightness)
}

/// Level of index i of channel c of the ramp for a setting.
pub open spec fn ramp_level(i: int, n: int, s: ColorSetting, c: int) -> int {
    scaled_level(i, n, channel_weight(s.temp as int, c), s.brightness as int)
}

/// The buffer holds channel c of the ramp of n entries for a setting.
pub open spec fn is_ramp_channel(buf: Seq<u16>, n: int, s: ColorSetting, c: int) -> bool {
    &&& buf.len() == n
    &&& forall|i: int| 0 <= i < n ==> buf[i] as int == #[trigger] ramp_level(i, n, s, c)
}

proof fn lemma_white_point_bounded(k: int)
    ensures
        forall|c: int| 0 <= #[trigger] channel_of(white_point(k), c) <= FULL_COEFFICIENT,
{
}

fn white_point_entry(k: usize) -> (r: (u32, u32, u32))
    requires
        k <= LAST_ENTRY,
    ensures
        (r.0 as int, r.1 as int, r.2 as int) == white_point(k as int),
{
    if k == 0 {
        (10000, 2673, 0)
    } else if k == 1 {
        (10000, 4260, 0)
    } else if k == 2 {
        (10000, 5386, 556)
    } else if k == 3 {
        (10000, 6260, 2802)
    } else if k == 4 {
        (10000, 6973, 4396)
    } else if k == 5 {
        (10000, 7577, 5632)
    } else if k == 6 {
        (10000, 8099, 6642)
    } else if k == 7 {
        (10000, 8561, 7496)
    } else if k == 8 {
        (10000, 8973, 8236)
    } else if k == 9 {
        (10000, 9346, 8888)
    } else if k == 10 {
        (10000, 9687, 9472)
    } else if k == 11 {
        (10000, 10000, 10000)
    } else if k == 12 {
        (9329, 9344, 10000)
    } else if k == 13 {
        (8839, 9062, 10000)
    } else if k == 14 {
        (8506, 8867, 10000)
    } else if k == 15 {
        (8257, 8719, 10000)
    } else if k == 16 {
        (8059, 8600, 10000)
    } else if k == 17 {
        (7895, 8500, 10000)
    } else if k == 18 {
        (7756, 8415, 10000)
    } else if k == 19 {
        (7635, 8340, 10000)
    } else if k == 20 {
        (7529, 8274, 10000)
    } else if k == 21 {
        (7434, 8215, 10000)
    } else if k == 22 {
        (7348, 8161, 10000)
    } else if k == 23 {
        (7270, 8112, 10000)
    } else if k == 24 {
        (7199, 8067, 10000)
    } else if k == 25 {
        (7133, 8025, 10000)
    } else if k == 26 {
        (7072, 7986, 10000)
    } else if k == 27 {
        (7015, 7949, 10000)
    } else if k == 28 {
        (6962, 7915, 10000)
    } else if k == 29 {
        (6912, 7883, 10000)
    } else if k == 30 {
        (6865, 7852, 10000)
    } else if k == 31 {
        (6821, 7823, 10000)
    } else if k == 32 {
        (6778, 7796, 10000)
    } else if k == 33 {
        (6738, 7770, 10000)
    } else if k == 34 {
        (6700, 7745, 10000)
    } else if k == 35 {
        (6664, 7721, 10000)
    } else if k == 36 {
        (6629, 7698, 10000)
    } else if k == 37 {
        (6596, 7676, 10000)
    } else if k == 38 {
        (6564, 7655, 10000)
    } else if k == 39 {
        (6533, 7635, 10000)
    } else if k == 40 {
        (6504, 7616, 10000)
    } else if k == 41 {
        (6476, 7597, 10000)
    } else if k == 42 {
        (6448, 7579, 10000)
    } else if k == 43 {
        (6422, 7561, 10000)
    } else if k == 44 {
        (6397, 7544, 10000)
    } else if k == 45 {
        (6372, 7527, 10000)
    } else if k == 46 {
        (6348, 7511, 10000)
    } else if k == 47 {
        (6325, 7496, 10000)
    } else {
        (6302, 7481, 10000)
    }
}

fn interpolate(lo: u32, hi: u32, a: u32) -> (r: u32)
    requires
        lo <= FULL_COEFFICIENT,
        hi <= FULL_COEFFICIENT,
        a < TEMP_STEP,
    ensures
        r == lo * (TEMP_STEP - a) + hi * a,
        r <= FULL_WEIGHT,
{
    let w: u32 = (TEMP_STEP as u32) - a;
    proof {
        assert(lo * w <= 10000 * w) by (nonlinear_arith)
            requires lo <= 10000, 0 <= w;
        assert(hi * a <= 10000 * a) by (nonlinear_arith)
            requires hi <= 10000, 0 <= a;
    }
    lo * w + hi * a
}

/// The (red, green, blue) weights for a temperature.
pub fn channel_weights(temp: i32) -> (r: (u32, u32, u32))
    requires
        MIN_TEMP <= temp <= MAX_TEMP,
    ensures
        r.0 == channel_weight(temp as int, 0),
        r.1 == channel_weight(temp as int, 1),
        r.2 == channel_weight(temp as int, 2),
        r.0 <= FULL_WEIGHT,
        r.1 <= FULL_WEIGHT,
        r.2 <= FULL_WEIGHT,
{
    let d: i32 = temp - MIN_TEMP;
    let k: usize = (d / TEMP_STEP) as usize;
    let a: u32 = (d % TEMP_STEP) as u32;
    proof {
        lemma_white_point_bounded(k as int);
        lemma_white_point_bounded(k as int + 1);
        lemma_white_point_bounded(LAST_ENTRY as int);
    }
    if k >= LAST_ENTRY {
        let top = white_point_entry(LAST_ENTRY);
        (interpolate(top.0, top.0, 0), interpolate(top.1, top.1, 0), interpolate(top.2, top.2, 0))
    } else {
        let lo = white_point_entry(k);
        let hi = white_point_entry(k + 1);
        assert(channel_of(white_point(k as int), 0) == lo.0);
        assert(channel_of(white_point(k as int), 1) == lo.1);
        assert(channel_of(white_point(k as int), 2) == lo.2);
        assert(channel_of(white_point(k + 1), 0) == hi.0);
        assert(channel_of(white_point(k + 1), 1) == hi.1);
        assert(channel_of(white_point(k + 1), 2) == hi.2);
        (interpolate(lo.0, hi.0, a), interpolate(lo.1, hi.1, a), interpolate(lo.2, hi.2, a))
    }
}

/// The quotient of x by d is q when x lies in [d * q, d * (q + 1)).
proof fn lemma_quotient(x: int, d: int, q: int)
    requires
        d > 0,
        d * q <= x < d * (q + 1),
    ensures
        x / d == q,
{
    vstd::arithmetic::div_mod::lemma_fundamental_div_mod(x, d);
    let p = x / d;
    assert(0 <= x % d < d) by {
        vstd::arithmetic::div_mod::lemma_mod_bound(x, d);
    }
    assert(p == q) by (nonlinear_arith)
        requires d > 0, d * q <= x, x < d * (q + 1), x == d * p + x % d, 0 <= x % d < d;
}

/// Rounding a level scaled by a factor of at most one keeps it between 0 and
/// the level; a factor of exactly one keeps it as it is.
proof fn lemma_round_scaled(level: int, f: int, full: int)
    requires
        0 <= level,
        0 <= f <= full,
        full > 0,
    ensures
        0 <= (2 * level * f + full) / (2 * full) <= level,
        f == full ==> (2 * level * f + full) / (2 * full) == level,
{
    let x = 2 * level * f + full;
    let q = x / (2 * full);
    vstd::arithmetic::div_mod::lemma_fundamental_div_mod(x, 2 * full);
    vstd::arithmetic::div_mod::lemma_mod_bound(x, 2 * full);
    assert(0 <= x <= 2 * full * level + full) by (nonlinear_arith)
        requires x == 2 * level * f + full, 0 <= level, 0 <= f <= full;
    assert(0 <= q <= level) by (nonlinear_arith)
        requires
            full > 0,
            0 <= x <= 2 * full * level + full,
            x == 2 * full * q + x % (2 * full),
            0 <= x % (2 * full) < 2 * full;
    if f == full {
        assert(2 * full * level <= x < 2 * full * (level + 1)) by (nonlinear_arith)
            requires x == 2 * level * f + full, f == full, full > 0;
        lemma_quotient(x, 2 * full, level);
    }
}

proof fn lemma_level_bounds(i: int, n: int, weight: int, brightness: int)
    requires
        0 <= i < n,
        0 <= weight <= FULL_WEIGHT,
        0 <= brightness <= FULL_BRIGHTNESS,
    ensures
        0 <= linear_level(i, n) < 65536,
        0 <= weighted_level(linear_level(i, n), weight) <= linear_level(i, n),
        0 <= scaled_level(i, n, weight, brightness) <= weighted_level(linear_level(i, n), weight),
{
    let v = (2 * i * 65536 + n) / (2 * n);
    assert(0 <= v) by (nonlinear_arith)
        requires v == (2 * i * 65536 + n) / (2 * n), 0 <= i < n;
    let b = linear_level(i, n);
    lemma_round_scaled(b, weight, FULL_WEIGHT as int);
    lemma_round_scaled(weighted_level(b, weight), brightness, FULL_BRIGHTNESS as int);
}

fn fill_channel(buf: &mut Vec<u16>, weight: u32, brightness: u32, n: usize)
    requires
        old(buf)@.len() == n,
        weight <= FULL_WEIGHT,
        brightness <= FULL_BRIGHTNESS,
    ensures
        final(buf)@.len() == n,
        forall|i: int|
            0 <= i < n ==> final(buf)@[i] as int == #[trigger] scaled_level(
                i,
                n as int,
                weight as int,
                brightness as int,
            ),
{
    let mut i: usize = 0;
    while i < n
        invariant
            buf@.len() == n,
            i <= n,
            weight <= FULL_WEIGHT,
            brightness <= FULL_BRIGHTNESS,
            forall|j: int|
                0 <= j < i ==> buf@[j] as int == #[trigger] scaled_level(
                    j,
                    n as int,
                    weight as int,
                    brightness as int,
                ),
        decreases n - i,
    {
        let rounded: u128 = (2 * (i as u128) * 65536 + (n as u128)) / (2 * (n as u128));
        let base: u64 = if rounded > 65535 {
            65535
        } else {
            rounded as u64
        };
        proof {
            lemma_level_bounds(i as int, n as int, weight as int, brightness as int);
            assert(2 * base * weight <= 2 * 65535 * 5000000) by (nonlinear_arith)
                requires base <= 65535, weight <= 5000000;
        }
        let tinted: u64 = (2 * base * (weight as u64) + (FULL_WEIGHT as u64)) / (2 * (FULL_WEIGHT as u64));
        proof {
            assert(2 * tinted * brightness <= 2 * 65535 * 1000) by (nonlinear_arith)
                requires tinted <= 65535, brightness <= 1000;
        }
        let level: u64 = (2 * tinted * (brightness as u64) + (FULL_BRIGHTNESS as u64)) / (2 * (
        FULL_BRIGHTNESS as u64));
        buf.set(i, level as u16);
        i = i + 1;
    }
}

/// Fills the three channels with the ramp of `ramp_size` entries for a
/// setting. The buffers must already have `ramp_size` entries each; what they
/// held before is not read.
pub fn fill(
    red: &mut Vec<u16>,
    green: &mut Vec<u16>,
    blue: &mut Vec<u16>,
    setting: &ColorSetting,
    ramp_size: usize,
)
    requires
        old(red)@.len() == ramp_size,
        old(green)@.len() == ramp_size,
        old(blue)@.len() == ramp_size,
        setting.wf(),
    ensures
        is_ramp_channel(final(red)@, ramp_size as int, *setting, 0),
        is_ramp_channel(final(green)@, ramp_size as int, *setting, 1),
        is_ramp_channel(final(blue)@, ramp_size as int, *setting, 2),
{
    let weights = channel_weights(setting.temp);
    fill_channel(red, weights.0, setting.brightness, ramp_size);
    fill_channel(green, weights.1, setting.brightness, ramp_size);
    fill_channel(blue, weights.2, setting.brightness, ramp_size);
}

proof fn lemma_weight_bounded(temp: int, c: int)
    requires
        MIN_TEMP <= temp <= MAX_TEMP,
    ensures
        0 <= channel_weight(temp, c) <= FULL_WEIGHT,
{
    let k = (temp - MIN_TEMP) / (TEMP_STEP as int);
    let a = (temp - MIN_TEMP) % (TEMP_STEP as int);
    lemma_white_point_bounded(k);
    lemma_white_point_bounded(k + 1);
    lemma_white_point_bounded(LAST_ENTRY as int);
    if k < LAST_ENTRY {
        let lo = channel_of(white_point(k), c);
        let hi = channel_of(white_point(k + 1), c);
        assert(0 <= lo * (500 - a) + hi * a <= 10000 * 500) by (nonlinear_arith)
            requires 0 <= lo <= 10000, 0 <= hi <= 10000, 0 <= a < 500;
    }
}

/// Ramps are a function of the setting and the size alone: two buffers
/// that both hold channel c of the ramp for one setting are equal.
pub proof fn lemma_fill_deterministic(a: Seq<u16>, b: Seq<u16>, n: int, s: ColorSetting, c: int)
    requires
        is_ramp_channel(a, n, s, c),
        is_ramp_channel(b, n, s, c),
    ensures
        a == b,
{
    assert forall|i: int| 0 <= i < n implies a[i] == b[i] by {
        assert(a[i] as int == ramp_level(i, n, s, c));
        assert(b[i] as int == ramp_level(i, n, s, c));
    }
    assert(a =~= b);
}

/// At full brightness the first entry of every channel is 0 and the last is
/// the top of the identity ramp times the channel's interpolated coefficient
/// (weight / 5000000), rounded once to the nearest integer.
pub proof fn lemma_ramp_endpoints(n: int, s: ColorSetting, c: int)
    requires
        n > 0,
        s.wf(),
        s.brightness == FULL_BRIGHTNESS,
        0 <= c < 3,
    ensures
        ramp_level(0, n, s, c) == 0,
        ramp_level(n - 1, n, s, c) == (2 * linear_level(n - 1, n) * channel_weight(s.temp as int, c)
            + FULL_WEIGHT) / (2 * FULL_WEIGHT as int),
{
    assert(2 * 0 * 65536 + n == n);
    vstd::arithmetic::div_mod::lemma_basic_div(n, 2 * n);
    assert(linear_level(0, n) == 0);
    let w = channel_weight(s.temp as int, c);
    lemma_weight_bounded(s.temp as int, c);
    lemma_level_bounds(0, n, w, 1000);
    lemma_level_bounds(n - 1, n, w, 1000);
    lemma_round_scaled(weighted_level(linear_level(n - 1, n), w), 1000, 1000);
}

/// Raising the brightness, with the temperature kept, never lowers an entry.
pub proof fn lemma_brightness_monotonic(i: int, n: int, s1: ColorSetting, s2: ColorSetting, c: int)
    requires
        0 <= i < n,
        s1.wf(),
        s2.wf(),
        s1.temp == s2.temp,
        s1.brightness <= s2.brightness,
        0 <= c < 3,
    ensures
        ramp_level(i, n, s1, c) <= ramp_level(i, n, s2, c),
{
    let w = channel_weight(s1.temp as int, c);
    lemma_weight_bounded(s1.temp as int, c);
    lemma_level_bounds(i, n, w, s1.brightness as int);
    let x = weighted_level(linear_level(i, n), w);
    let b1 = s1.brightness as int;
    let b2 = s2.brightness as int;
    assert(2 * x * b1 + 1000 <= 2 * x * b2 + 1000) by (nonlinear_arith)
        requires 0 <= x, 0 <= b1 <= b2;
    vstd::arithmetic::div_mod::lemma_div_is_ordered(2 * x * b1 + 1000, 2 * x * b2 + 1000, 2000);
}

/// At the neutral temperature and full brightness every channel is the
/// identity ramp.
pub proof fn lemma_neutral_identity(i: int, n: int, c: int)
    requires
        0 <= i < n,
        0 <= c < 3,
    ensures
        ramp_level(i, n, (ColorSetting { temp: NEUTRAL_TEMP, brightness: FULL_BRIGHTNESS }), c)
            == linear_level(i, n),
{
    assert(channel_weight(NEUTRAL_TEMP as int, c) == FULL_WEIGHT);
    lemma_level_bounds(i, n, FULL_WEIGHT as int, 1000);
    let b = linear_level(i, n);
    lemma_round_scaled(b, FULL_WEIGHT as int, FULL_WEIGHT as int);
    lemma_round_scaled(b, 1000, 1000);
}

} // verus!
