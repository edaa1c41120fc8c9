use vstd::prelude::*;

verus! {

/// Fixed-point scale of a color channel: the value `ONE` stands for intensity 1.0.
pub const ONE: i64 = 16777216;

/// Largest 8-bit channel level written out.
pub const MAX_LEVEL: i64 = 255;

/// A linear RGB radiance value, each channel in fixed point with scale `ONE`.
#[derive(Clone, Copy, Debug, PartialEq, Eq, Structural)]
pub struct Color {
    pub r: i64,
    pub g: i64,
    pub b: i64,
}

/// Every channel lies in [0, 1]: a fraction of full intensity.
pub open spec fn is_unit(c: Color) -> bool {
    0 <= c.r <= ONE && 0 <= c.g <= ONE && 0 <= c.b <= ONE
}

/// Every channel lies in [0, n].
pub open spec fn is_bounded(c: Color, n: int) -> bool {
    0 <= c.r <= n * ONE && 0 <= c.g <= n * ONE && 0 <= c.b <= n * ONE
}

pub open spec fn black() -> Color {
    Color { r: 0, g: 0, b: 0 }
}

pub open spec fn white() -> Color {
    Color { r: ONE, g: ONE, b: ONE }
}

pub open spec fn add_spec(a: Color, b: Color) -> Color {
    Color { r: (a.r + b.r) as i64, g: (a.g + b.g) as i64, b: (a.b + b.b) as i64 }
}

/// Fixed-point product of two channels, rounded down.
pub open spec fn mul_channel(a: int, b: int) -> int {
    (a * b) / (ONE as int)
}

pub open spec fn mul_spec(a: Color, b: Color) -> Color {
    Color {
        r: mul_channel(a.r as int, b.r as int) as i64,
        g: mul_channel(a.g as int, b.g as int) as i64,
        b: mul_channel(a.b as int, b.b as int) as i64,
    }
}

/// Sum of a sequence of colors, channel by channel.
pub open spec fn color_sum(s: Seq<Color>) -> Color
    decreases s.len(),
{
    if s.len() == 0 {
        black()
    } else {
        add_spec(color_sum(s.drop_last()), s.last())
    }
}

/// `q` is the 8-bit level of a channel sum `c` over `spp` samples: the
/// average `c / (spp * ONE)` is gamma corrected by a square root, scaled by
/// 256, truncated and clamped to [0, 255]. A sum that is not positive gives 0.
/// With `ONE == 2^24`, floor(256 * sqrt(c / (spp * ONE))) is the integer
/// square root of `c / (256 * spp)`; clamping at 0.999 before scaling by
/// 256 caps the level at 255.
pub open spec fn is_gamma_level(c: int, spp: int, q: int) -> bool {
    let x = if c <= 0 { 0 } else { c / (256 * spp) };
    &&& 0 <= q <= MAX_LEVEL
    &&& q * q <= x
    &&& (q == MAX_LEVEL || x < (q + 1) * (q + 1))
}

pub open spec fn gamma_level(c: int, spp: int) -> int {
    choose|q: int| is_gamma_level(c, spp, q)
}

/// Decimal digits of `n`, most significant first, as ASCII bytes.
pub open spec fn decimal(n: nat) -> Seq<u8>
    decreases n,
{
    if n < 10 {
        seq![(48 + n) as u8]
    } else {
        decimal(n / 10).push((48 + n % 10) as u8)
    }
}

/// The text line of one pixel: three decimal levels separated by spaces.
pub open spec fn pixel_line(r: nat, g: nat, b: nat) -> Seq<u8> {
    decimal(r) + seq![32u8] + decimal(g) + seq![32u8] + decimal(b) + seq![10u8]
}

/// Bytes that `write_color` appends for `c` averaged over `spp` samples.
pub open spec fn encoded_pixel(c: Color, spp: int) -> Seq<u8> {
    pixel_line(
        gamma_level(c.r as int, spp) as nat,
        gamma_level(c.g as int, spp) as nat,
        gamma_level(c.b as int, spp) as nat,
    )
}

/// A gamma level is determined by the channel sum and the sample count.
pub proof fn lemma_gamma_level_unique(c: int, spp: int, q1: int, q2: int)
    requires
        is_gamma_level(c, spp, q1),
        is_gamma_level(c, spp, q2),
    ensures
        q1 == q2,
{
    let x = if c <= 0 { 0 } else { c / (256 * spp) };
    if q1 < q2 {
        assert((q1 + 1) * (q1 + 1) <= q2 * q2) by (nonlinear_arith)
            requires 0 <= q1 + 1 <= q2;
    } else if q2 < q1 {
        assert((q2 + 1) * (q2 + 1) <= q1 * q1) by (nonlinear_arith)
            requires 0 <= q2 + 1 <= q1;
    }
}

impl Color {
    /// Black: no radiance in any channel.
    pub fn zero() -> (c: Color)
        ensures
            c == black(),
    {
        Color { r: 0, g: 0, b: 0 }
    }

    /// A color from its three fixed-point channels.
    pub fn new(r: i64, g: i64, b: i64) -> (c: Color)
        ensures
            c == (Color { r, g, b }),
    {
        Color { r, g, b }
    }

    /// Channel-wise sum.
    pub fn add(&self, other: &Color) -> (c: Color)
        requires
            i64::MIN <= self.r + other.r <= i64::MAX,
            i64::MIN <= self.g + other.g <= i64::MAX,
            i64::MIN <= self.b + other.b <= i64::MAX,
        ensures
            c == add_spec(*self, *other),
    {
        Color { r: self.r + other.r, g: self.g + other.g, b: self.b + other.b }
    }

    /// Channel-wise product of two fractions: the attenuation of one color by another.
    pub fn mul(&self, other: &Color) -> (c: Color)
        requires
            is_unit(*self),
            is_unit(*other),
        ensures
            c == mul_spec(*self, *other),
            is_unit(c),
    {
        Color {
            r: mul_fraction(self.r, other.r),
            g: mul_fraction(self.g, other.g),
            b: mul_fraction(self.b, other.b),
        }
    }
}

fn mul_fraction(a: i64, b: i64) -> (c: i64)
    requires
        0 <= a <= ONE,
        0 <= b <= ONE,
    ensures
        c == mul_channel(a as int, b as int),
        0 <= c <= ONE,
{
    proof {
        assert(0 <= a * b <= ONE * ONE) by (nonlinear_arith)
            requires 0 <= a <= ONE, 0 <= b <= ONE;
        assert((a * b) / (ONE as int) <= ONE) by (nonlinear_arith)
            requires 0 <= a * b <= ONE * ONE;
    }
    (a * b) / ONE
}

/// Sum of the sample colors of one pixel.
pub fn sum_colors(samples: &Vec<Color>) -> (total: Color)
    requires
        samples.len() <= u32::MAX,
        forall|i: int| 0 <= i < samples.len() ==> is_unit(#[trigger] samples[i]),
    ensures
        total == color_sum(samples@),
        is_bounded(total, samples.len() as int),
{
    let mut total = Color::zero();
    let mut i: usize = 0;
    while i < samples.len()
        invariant
            i <= samples.len() <= u32::MAX,
            forall|j: int| 0 <= j < samples.len() ==> is_unit(#[trigger] samples[j]),
            total == color_sum(samples@.subrange(0, i as int)),
            is_bounded(total, i as int),
        decreases samples.len() - i,
    {
        let s = samples[i];
        proof {
            let prefix = samples@.subrange(0, i as int + 1);
            assert(prefix.drop_last() =~= samples@.subrange(0, i as int));
            assert((i as int) * ONE + ONE == (i as int + 1) * ONE) by (nonlinear_arith);
            assert((i as int + 1) * ONE <= 4294967296 * ONE) by (nonlinear_arith)
                requires i < 4294967296int;
        }
        total = total.add(&s);
        i = i + 1;
    }
    assert(samples@.subrange(0, samples.len() as int) =~= samples@);
    total
}

fn square(n: i64) -> (s: i64)
    requires
        0 <= n <= 256,
    ensures
        s == n * n,
{
    proof {
        assert(0 <= n * n <= 65536) by (nonlinear_arith)
            requires 0 <= n <= 256;
    }
    n * n
}

/// 8-bit level of one channel sum averaged over `spp` samples.
pub fn gamma_quantize(c: i64, spp: i32) -> (q: u8)
    requires
        spp > 0,
    ensures
        is_gamma_level(c as int, spp as int, q as int),
        q as int == gamma_level(c as int, spp as int),
{
    let x: i64 = if c <= 0 {
        0
    } else {
        c / (256 * spp as i64)
    };
    let mut q: i64 = 0;
    while q < MAX_LEVEL && square(q + 1) <= x
        invariant
            0 <= q <= MAX_LEVEL,
            q * q <= x,
        decreases MAX_LEVEL - q,
    {
        q = q + 1;
    }
    proof {
        assert(is_gamma_level(c as int, spp as int, q as int));
        let g = gamma_level(c as int, spp as int);
        assert(is_gamma_level(c as int, spp as int, g));
        lemma_gamma_level_unique(c as int, spp as int, q as int, g);
    }
    q as u8
}

/// Appends the decimal digits of `n` to `out`.
pub fn push_decimal(out: &mut Vec<u8>, n: u8)
    ensures
        final(out)@ == old(out)@ + decimal(n as nat),
{
    proof {
        reveal_with_fuel(decimal, 3);
    }
    if n >= 100 {
        out.push(48 + n / 100);
    }
    if n >= 10 {
        out.push(48 + (n / 10) % 10);
    }
    out.push(48 + n % 10);
    assert(final(out)@ =~= old(out)@ + decimal(n as nat));
}

/// Appends the text line of one pixel to `stream`: the sum of its
/// `samples_per_pixel` sample colors is averaged, gamma corrected and
/// quantized to three 8-bit levels, written in decimal.
pub fn write_color(stream: &mut Vec<u8>, pixel_color: &Color, samples_per_pixel: i32)
    requires
        samples_per_pixel > 0,
    ensures
        final(stream)@ == old(stream)@ + encoded_pixel(*pixel_color, samples_per_pixel as int),
{
    let ir = gamma_quantize(pixel_color.r, samples_per_pixel);
    let ig = gamma_quantize(pixel_color.g, samples_per_pixel);
    let ib = gamma_quantize(pixel_color.b, samples_per_pixel);
    push_decimal(stream, ir);
    stream.push(32);
    push_decimal(stream, ig);
    stream.push(32);
    push_decimal(stream, ib);
    stream.push(10);
    assert(final(stream)@ =~= old(stream)@ + pixel_line(ir as nat, ig as nat, ib as nat));
}

} // verus!
