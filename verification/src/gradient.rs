//! A radial gradient between two RGBA colours, painted pixel by pixel.
//!
//! The blend factor of a pixel depends on `d2 / R2`: the square of the pixel's
//! distance from the center of the canvas over the square of the radius. Both
//! are kept as whole numbers, so the ratio is exact.
use vstd::prelude::*;
use crate::canvas::{blank_canvas, canvas_bytes, canvas_dims, into_bytes, put_pixel, sample_index};

verus! {

/// The radius as a fraction `num / den` of the smaller side of the canvas.
/// Sixteen bits for each keep the ratio of every pixel within 128 bits.
#[derive(Clone, Copy, Debug, PartialEq, Eq, Structural)]
pub struct Radius {
    pub num: u16,
    pub den: u16,
}

/// How the blend factor `t` follows from `d2 / R2`.
#[derive(Clone, Copy, Debug, PartialEq, Eq, Structural)]
pub enum FalloffMode {
    /// `t` is what the caller's saturating curve makes of the ratio; with the
    /// hyperbolic tangent it climbs smoothly and never passes 1.
    Saturating,
    /// `t` is the ratio itself. Beyond the radius it passes 1, the blend
    /// leaves the range between the two colours, and the channel keeps the
    /// low eight bits of it.
    Linear,
}

/// Why a gradient cannot be painted.
#[derive(Clone, Copy, Debug, PartialEq, Eq, Structural)]
pub enum ConfigError {
    /// The radius is zero, or its denominator is.
    DegenerateRadius,
    /// The canvas has no pixels.
    EmptyCanvas,
    /// The samples of the canvas would outgrow the largest vector.
    CanvasTooLarge,
}

/// A painted canvas: `width * height` pixels of four samples each, row by row
/// from the top, in a pixel red, green, blue, alpha.
#[derive(Debug)]
pub struct PixelBuffer {
    pub width: u32,
    pub height: u32,
    pub data: Vec<u8>,
}

/// The blend factor 1 as a saturating curve returns it: factors are counted
/// in units of `1 / FACTOR_ONE`.
pub const FACTOR_ONE: u64 = 0x1_0000_0000;

/// The largest numerator and denominator that [`blend_channel`] takes.
pub const FACTOR_LIMIT: u128 = 0x1_0000_0000_0000_0000_0000_0000_0000;

/// Four times the square of the distance of pixel `(x, y)` from the center
/// `(width / 2, height / 2)` of the canvas.
pub open spec fn quad_distance(width: int, height: int, x: int, y: int) -> int {
    (2 * x - width) * (2 * x - width) + (2 * y - height) * (2 * y - height)
}

/// The smaller side of the canvas.
pub open spec fn min_side(width: int, height: int) -> int {
    if width <= height {
        width
    } else {
        height
    }
}

/// Numerator of `d2 / R2` for pixel `(x, y)`.
pub open spec fn ratio_num(width: int, height: int, radius: Radius, x: int, y: int) -> int {
    quad_distance(width, height, x, y) * (radius.den * radius.den)
}

/// Denominator of `d2 / R2`; it is the same for every pixel.
pub open spec fn ratio_den(width: int, height: int, radius: Radius) -> int {
    4 * (radius.num * radius.num) * (min_side(width, height) * min_side(width, height))
}

/// `a / d` rounded toward zero.
pub open spec fn trunc_div(a: int, d: int) -> int {
    if a >= 0 {
        a / d
    } else {
        -((-a) / d)
    }
}

/// `c1 * (1 - t) + c2 * t` for `t = num / den`, rounded toward zero.
pub open spec fn blend_value(c1: int, c2: int, num: int, den: int) -> int {
    trunc_div(c1 * (den - num) + c2 * num, den)
}

/// The channel that a blend gives: the low eight bits of its value.
pub open spec fn blend(c1: u8, c2: u8, num: int, den: int) -> u8 {
    (blend_value(c1 as int, c2 as int, num, den) % 256) as u8
}

/// The pixel that the factor `num / den` gives: each of the four channels
/// blended by it.
pub open spec fn shade(color1: Seq<u8>, color2: Seq<u8>, num: int, den: int) -> Seq<u8> {
    Seq::new(4, |c: int| blend(color1[c], color2[c], num, den))
}

/// Why the canvas cannot be painted, if it cannot.
pub open spec fn config_error(width: int, height: int, radius: Radius) -> Option<ConfigError> {
    if radius.num == 0 || radius.den == 0 {
        Some(ConfigError::DegenerateRadius)
    } else if width == 0 || height == 0 {
        Some(ConfigError::EmptyCanvas)
    } else if 4 * width * height > isize::MAX {
        Some(ConfigError::CanvasTooLarge)
    } else {
        None
    }
}

/// The four samples of pixel `(x, y)` among the samples of a canvas `width`
/// pixels wide.
pub open spec fn pixel_of(samples: Seq<u8>, width: int, x: int, y: int) -> Seq<u8> {
    samples.subrange(sample_index(width, x, y), sample_index(width, x, y) + 4)
}

/// `pixel` is what the falloff makes of the ratio `num / den`: under `Linear`
/// the shade of the ratio itself, under `Saturating` the shade of a factor
/// that the curve returns for it.
pub open spec fn paints<F: Fn(u128, u128) -> u64>(
    saturate: F,
    falloff: FalloffMode,
    color1: Seq<u8>,
    color2: Seq<u8>,
    num: int,
    den: int,
    pixel: Seq<u8>,
) -> bool {
    match falloff {
        FalloffMode::Linear => pixel == shade(color1, color2, num, den),
        FalloffMode::Saturating => exists|t: u64|
            call_ensures(saturate, (num as u128, den as u128), t) && pixel == shade(
                color1,
                color2,
                t as int,
                FACTOR_ONE as int,
            ),
    }
}

/// `buffer` is the gradient asked for: a canvas of the given size in which
/// every pixel is what the falloff makes of the pixel's `d2 / R2`.
pub open spec fn is_gradient<F: Fn(u128, u128) -> u64>(
    saturate: F,
    falloff: FalloffMode,
    width: u32,
    height: u32,
    color1: Seq<u8>,
    color2: Seq<u8>,
    radius: Radius,
    buffer: PixelBuffer,
) -> bool {
    &&& buffer.width == width
    &&& buffer.height == height
    &&& buffer.wf()
    &&& forall|x: int, y: int|
        0 <= x < width && 0 <= y < height ==> paints(
            saturate,
            falloff,
            color1,
            color2,
            ratio_num(width as int, height as int, radius, x, y),
            ratio_den(width as int, height as int, radius),
            #[trigger] pixel_of(buffer.data@, width as int, x, y),
        )
}

impl PixelBuffer {
    /// The buffer holds the samples of every one of its pixels.
    pub open spec fn wf(self) -> bool {
        self.data@.len() == 4 * self.width * self.height
    }

    /// The pixel `(x, y)`, if the buffer has it.
    pub fn pixel(&self, x: u32, y: u32) -> (pixel: Option<[u8; 4]>)
        ensures
            match pixel {
                Some(p) => x < self.width && y < self.height && self.wf() && p@ == pixel_of(
                    self.data@,
                    self.width as int,
                    x as int,
                    y as int,
                ),
                None => !(x < self.width && y < self.height && self.wf()),
            },
    {
        proof {
            lemma_product_le(self.width as int, 0xffff_ffff, self.height as int, 0xffff_ffff);
            assert(4 * self.width * self.height == 4 * (self.width * self.height)) by (nonlinear_arith);
        }
        if x >= self.width || y >= self.height || self.data.len() as u128 != 4 * (self.width as u128
            * self.height as u128) {
            return None;
        }
        proof {
            lemma_sample_index(self.width as int, self.height as int, x as int, y as int);
            lemma_product_le(y as int, 0xffff_ffff, self.width as int, 0xffff_ffff);
        }
        let first: usize = (4 * (y as u128 * self.width as u128 + x as u128)) as usize;
        let p = [self.data[first], self.data[first + 1], self.data[first + 2], self.data[first + 3]];
        assert(p@ =~= pixel_of(self.data@, self.width as int, x as int, y as int));
        Some(p)
    }
}

proof fn lemma_product_le(a: int, b: int, c: int, d: int)
    by (nonlinear_arith)
    requires
        0 <= a <= b,
        0 <= c <= d,
    ensures
        0 <= a * c <= b * d,
{
}

/// One channel of a blend: `c1 * (1 - t) + c2 * t` for `t = num / den`,
/// rounded toward zero, of which the channel keeps the low eight bits.
pub fn blend_channel(c1: u8, c2: u8, num: u128, den: u128) -> (c: u8)
    requires
        0 < den <= FACTOR_LIMIT,
        num <= FACTOR_LIMIT,
    ensures
        c == blend(c1, c2, num as int, den as int),
{
    proof {
        lemma_product_le(c1 as int, 255, den as int, FACTOR_LIMIT as int);
        if c2 >= c1 {
            lemma_product_le((c2 - c1) as int, 255, num as int, FACTOR_LIMIT as int);
        } else {
            lemma_product_le((c1 - c2) as int, 255, num as int, FACTOR_LIMIT as int);
        }
        assert(c1 * (den - num) + c2 * num == c1 * den + (c2 - c1) * num) by (nonlinear_arith);
        assert(c1 * (den - num) + c2 * num == c1 * den - (c1 - c2) * num) by (nonlinear_arith);
    }
    let keep: u128 = c1 as u128 * den;
    if c2 >= c1 {
        let gain: u128 = (c2 - c1) as u128 * num;
        (((keep + gain) / den) % 256) as u8
    } else {
        let loss: u128 = (c1 - c2) as u128 * num;
        if keep >= loss {
            (((keep - loss) / den) % 256) as u8
        } else {
            let low: u128 = ((loss - keep) / den) % 256;
            if low == 0 {
                0
            } else {
                (256 - low) as u8
            }
        }
    }
}

/// The pixel that the factor `num / den` gives between two colours.
pub fn shade_pixel(color1: [u8; 4], color2: [u8; 4], num: u128, den: u128) -> (pixel: [u8; 4])
    requires
        0 < den <= FACTOR_LIMIT,
        num <= FACTOR_LIMIT,
    ensures
        pixel@ == shade(color1@, color2@, num as int, den as int),
{
    let pixel = [
        blend_channel(color1[0], color2[0], num, den),
        blend_channel(color1[1], color2[1], num, den),
        blend_channel(color1[2], color2[2], num, den),
        blend_channel(color1[3], color2[3], num, den),
    ];
    assert(pixel@ =~= shade(color1@, color2@, num as int, den as int));
    pixel
}

proof fn lemma_square_same(a: int, b: int)
    by (nonlinear_arith)
    requires
        a == b || a == -b,
    ensures
        a * a == b * b,
{
}

/// The ratio `d2 / R2` for pixel `(x, y)`, as numerator and denominator.
pub fn falloff_ratio(width: u32, height: u32, radius: Radius, x: u32, y: u32) -> (ratio: (u128, u128))
    ensures
        ratio.0 == ratio_num(width as int, height as int, radius, x as int, y as int),
        ratio.1 == ratio_den(width as int, height as int, radius),
        ratio.0 <= FACTOR_LIMIT,
        ratio.1 <= FACTOR_LIMIT,
        radius.num > 0 && width > 0 && height > 0 ==> ratio.1 > 0,
{
    let dx: u128 = if 2 * (x as u64) >= width as u64 {
        (2 * (x as u64) - width as u64) as u128
    } else {
        (width as u64 - 2 * (x as u64)) as u128
    };
    let dy: u128 = if 2 * (y as u64) >= height as u64 {
        (2 * (y as u64) - height as u64) as u128
    } else {
        (height as u64 - 2 * (y as u64)) as u128
    };
    let side: u128 = if width <= height {
        width as u128
    } else {
        height as u128
    };
    proof {
        lemma_product_le(dx as int, 0x2_0000_0000, dx as int, 0x2_0000_0000);
        lemma_product_le(dy as int, 0x2_0000_0000, dy as int, 0x2_0000_0000);
        lemma_square_same(2 * x - width, dx as int);
        lemma_square_same(2 * y - height, dy as int);
        lemma_product_le(radius.den as int, 0xffff, radius.den as int, 0xffff);
        lemma_product_le(radius.num as int, 0xffff, radius.num as int, 0xffff);
        lemma_product_le(side as int, 0xffff_ffff, side as int, 0xffff_ffff);
        lemma_product_le(
            dx * dx + dy * dy,
            0x8_0000_0000_0000_0000,
            radius.den * radius.den,
            0xfffe_0001,
        );
        lemma_product_le(
            4 * (radius.num * radius.num),
            0x3_fff8_0004,
            side * side,
            0xffff_fffe_0000_0001,
        );
        if radius.num > 0 && side > 0 {
            lemma_product_le(1, radius.num as int, 1, radius.num as int);
            lemma_product_le(1, side as int, 1, side as int);
            lemma_product_le(1, 4 * (radius.num * radius.num), 1, side * side);
        }
    }
    let quad: u128 = dx * dx + dy * dy;
    let den2: u128 = radius.den as u128 * radius.den as u128;
    let num2: u128 = radius.num as u128 * radius.num as u128;
    (quad * den2, 4 * num2 * (side * side))
}

/// Where the samples of a pixel stand.
proof fn lemma_sample_index(width: int, height: int, x: int, y: int)
    by (nonlinear_arith)
    requires
        0 <= x < width,
        0 <= y < height,
    ensures
        0 <= sample_index(width, x, y),
        sample_index(width, x, y) + 4 <= 4 * width * height,
{
}

/// The samples of two pixels do not overlap.
proof fn lemma_samples_apart(width: int, x: int, y: int, px: int, py: int)
    by (nonlinear_arith)
    requires
        0 <= x < width,
        0 <= px < width,
        0 <= y,
        0 <= py,
        x != px || y != py,
    ensures
        sample_index(width, px, py) + 4 <= sample_index(width, x, y) || sample_index(width, x, y) + 4
            <= sample_index(width, px, py),
{
}

proof fn lemma_whole_quotient(c: int, den: int)
    by (nonlinear_arith)
    requires
        0 <= c,
        0 < den,
    ensures
        (c * den) / den == c,
{
}

proof fn lemma_quotient_between(a: int, lo: int, hi: int, den: int)
    by (nonlinear_arith)
    requires
        0 < den,
        0 <= lo,
        lo * den <= a <= hi * den,
    ensures
        lo <= a / den <= hi,
{
}

/// With the factor 0 a blend is the first colour.
pub proof fn lemma_blend_at_zero(c1: u8, c2: u8, den: int)
    requires
        0 < den,
    ensures
        blend(c1, c2, 0, den) == c1,
{
    assert(c1 * (den - 0) + c2 * 0 == c1 * den) by (nonlinear_arith);
    lemma_whole_quotient(c1 as int, den);
}

/// With the factor 1 a blend is the second colour.
pub proof fn lemma_blend_at_one(c1: u8, c2: u8, den: int)
    requires
        0 < den,
    ensures
        blend(c1, c2, den, den) == c2,
{
    assert(c1 * (den - den) + c2 * den == c2 * den) by (nonlinear_arith);
    lemma_whole_quotient(c2 as int, den);
}

/// With a factor from 0 to 1 a blend lies between the two colours, and
/// nothing of it is lost in the channel.
pub proof fn lemma_blend_between(c1: u8, c2: u8, num: int, den: int)
    requires
        0 < den,
        0 <= num <= den,
    ensures
        blend(c1, c2, num, den) == blend_value(c1 as int, c2 as int, num, den),
        c1 <= c2 ==> c1 <= blend(c1, c2, num, den) <= c2,
        c2 <= c1 ==> c2 <= blend(c1, c2, num, den) <= c1,
{
    let a = c1 * (den - num) + c2 * num;
    if c1 <= c2 {
        assert(c1 * den <= a <= c2 * den) by (nonlinear_arith)
            requires
                a == c1 * (den - num) + c2 * num,
                0 <= num <= den,
                0 <= c1 <= c2,
        ;
        lemma_quotient_between(a, c1 as int, c2 as int, den);
    } else {
        assert(c2 * den <= a <= c1 * den) by (nonlinear_arith)
            requires
                a == c1 * (den - num) + c2 * num,
                0 <= num <= den,
                0 <= c2 <= c1,
        ;
        lemma_quotient_between(a, c2 as int, c1 as int, den);
    }
}

/// On a canvas of even width and height the pixel `(width / 2, height / 2)`
/// is the center itself: its distance, and with it the ratio, is zero.
pub proof fn lemma_center_ratio(width: int, height: int, radius: Radius)
    requires
        width % 2 == 0,
        height % 2 == 0,
    ensures
        ratio_num(width, height, radius, width / 2, height / 2) == 0,
{
    assert(ratio_num(width, height, radius, width / 2, height / 2) == 0) by (nonlinear_arith)
        requires
            2 * (width / 2) - width == 0,
            2 * (height / 2) - height == 0,
            ratio_num(width, height, radius, width / 2, height / 2) == ((2 * (width / 2) - width) * (2 * (
                width / 2) - width) + (2 * (height / 2) - height) * (2 * (height / 2) - height)) * (
                radius.den * radius.den),
    ;
}

proof fn lemma_ratio_den_positive(width: int, height: int, radius: Radius)
    requires
        config_error(width, height, radius) is None,
        0 <= width,
        0 <= height,
    ensures
        0 < ratio_den(width, height, radius),
{
    let side = min_side(width, height);
    lemma_product_le(1, radius.num as int, 1, radius.num as int);
    lemma_product_le(1, side, 1, side);
    lemma_product_le(1, 4 * (radius.num * radius.num), 1, side * side);
}

/// On a canvas of even width and height the pixel at the very center has
/// the first colour: under `Linear` always, under `Saturating` with every
/// curve that makes zero of zero.
pub proof fn lemma_center_pixel<F: Fn(u128, u128) -> u64>(
    saturate: F,
    falloff: FalloffMode,
    width: u32,
    height: u32,
    color1: Seq<u8>,
    color2: Seq<u8>,
    radius: Radius,
    buffer: PixelBuffer,
)
    requires
        config_error(width as int, height as int, radius) is None,
        is_gradient(saturate, falloff, width, height, color1, color2, radius, buffer),
        color1.len() == 4,
        width % 2 == 0,
        height % 2 == 0,
        falloff == FalloffMode::Saturating ==> forall|t: u64| #[trigger]
            call_ensures(saturate, (0u128, ratio_den(width as int, height as int, radius) as u128), t) ==> t
                == 0,
    ensures
        pixel_of(buffer.data@, width as int, width as int / 2, height as int / 2) == color1,
{
    let den = ratio_den(width as int, height as int, radius);
    let pixel = pixel_of(buffer.data@, width as int, width as int / 2, height as int / 2);
    lemma_center_ratio(width as int, height as int, radius);
    lemma_ratio_den_positive(width as int, height as int, radius);
    assert forall|c: int| 0 <= c < 4 implies pixel[c] == color1[c] by {
        lemma_blend_at_zero(color1[c], color2[c], den);
        lemma_blend_at_zero(color1[c], color2[c], FACTOR_ONE as int);
    }
    assert(pixel =~= color1);
}

/// Under `Linear` a pixel whose distance from the center is the radius, so
/// that its ratio is one, has the second colour.
pub proof fn lemma_radius_pixel<F: Fn(u128, u128) -> u64>(
    saturate: F,
    width: u32,
    height: u32,
    color1: Seq<u8>,
    color2: Seq<u8>,
    radius: Radius,
    buffer: PixelBuffer,
    x: int,
    y: int,
)
    requires
        config_error(width as int, height as int, radius) is None,
        is_gradient(saturate, FalloffMode::Linear, width, height, color1, color2, radius, buffer),
        color2.len() == 4,
        0 <= x < width,
        0 <= y < height,
        ratio_num(width as int, height as int, radius, x, y) == ratio_den(width as int, height as int, radius),
    ensures
        pixel_of(buffer.data@, width as int, x, y) == color2,
{
    let den = ratio_den(width as int, height as int, radius);
    let pixel = pixel_of(buffer.data@, width as int, x, y);
    lemma_ratio_den_positive(width as int, height as int, radius);
    assert forall|c: int| 0 <= c < 4 implies pixel[c] == color2[c] by {
        lemma_blend_at_one(color1[c], color2[c], den);
    }
    assert(pixel =~= color2);
}

/// Paints the gradient: every pixel of a `width` by `height` canvas gets the
/// shade between `color1` and `color2` that the falloff makes of the pixel's
/// `d2 / R2`, where `R` is the `radius` fraction of the smaller side.
///
/// `saturate` is the curve of the `Saturating` mode. It is handed the ratio
/// as numerator and denominator and returns the factor in units of
/// `1 / FACTOR_ONE`; it is called once for each pixel, row by row. The
/// `Linear` mode never calls it.
pub fn synthesize<F: Fn(u128, u128) -> u64>(
    width: u32,
    height: u32,
    color1: [u8; 4],
    color2: [u8; 4],
    radius: Radius,
    falloff: FalloffMode,
    saturate: F,
) -> (result: Result<PixelBuffer, ConfigError>)
    requires
        forall|n: u128, d: u128| d > 0 ==> call_requires(saturate, (n, d)),
    ensures
        match result {
            Ok(buffer) => config_error(width as int, height as int, radius) is None && is_gradient(
                saturate,
                falloff,
                width,
                height,
                color1@,
                color2@,
                radius,
                buffer,
            ),
            Err(e) => config_error(width as int, height as int, radius) == Some(e),
        },
{
    if radius.num == 0 || radius.den == 0 {
        return Err(ConfigError::DegenerateRadius);
    }
    if width == 0 || height == 0 {
        return Err(ConfigError::EmptyCanvas);
    }
    proof {
        lemma_product_le(width as int, 0xffff_ffff, height as int, 0xffff_ffff);
        assert(4 * width * height == 4 * (width * height)) by (nonlinear_arith);
    }
    if 4 * (width as u128 * height as u128) > isize::MAX as u128 {
        return Err(ConfigError::CanvasTooLarge);
    }
    let mut canvas = blank_canvas(width, height);
    let mut y: u32 = 0;
    while y < height
        invariant
            y <= height,
            radius.num > 0,
            width > 0,
            forall|n: u128, d: u128| d > 0 ==> call_requires(saturate, (n, d)),
            canvas_dims(canvas) == (width, height),
            canvas_bytes(canvas).len() == 4 * width * height,
            forall|px: int, py: int|
                0 <= px < width && 0 <= py < y ==> paints(
                    saturate,
                    falloff,
                    color1@,
                    color2@,
                    ratio_num(width as int, height as int, radius, px, py),
                    ratio_den(width as int, height as int, radius),
                    #[trigger] pixel_of(canvas_bytes(canvas), width as int, px, py),
                ),
        decreases height - y,
    {
        let mut x: u32 = 0;
        while x < width
            invariant
                y < height,
                x <= width,
                radius.num > 0,
                forall|n: u128, d: u128| d > 0 ==> call_requires(saturate, (n, d)),
                canvas_dims(canvas) == (width, height),
                canvas_bytes(canvas).len() == 4 * width * height,
                forall|px: int, py: int|
                    0 <= px < width && (0 <= py < y || (py == y && px < x)) ==> paints(
                        saturate,
                        falloff,
                        color1@,
                        color2@,
                        ratio_num(width as int, height as int, radius, px, py),
                        ratio_den(width as int, height as int, radius),
                        #[trigger] pixel_of(canvas_bytes(canvas), width as int, px, py),
                    ),
            decreases width - x,
        {
            let ratio = falloff_ratio(width, height, radius, x, y);
            let color = match falloff {
                FalloffMode::Linear => shade_pixel(color1, color2, ratio.0, ratio.1),
                FalloffMode::Saturating => {
                    let factor = saturate(ratio.0, ratio.1);
                    shade_pixel(color1, color2, factor as u128, FACTOR_ONE as u128)
                },
            };
            let ghost before = canvas_bytes(canvas);
            put_pixel(&mut canvas, x, y, color);
            proof {
                let after = canvas_bytes(canvas);
                assert forall|px: int, py: int|
                    0 <= px < width && (0 <= py < y || (py == y && px < x + 1)) implies paints(
                    saturate,
                    falloff,
                    color1@,
                    color2@,
                    ratio_num(width as int, height as int, radius, px, py),
                    ratio_den(width as int, height as int, radius),
                    #[trigger] pixel_of(after, width as int, px, py),
                ) by {
                    lemma_sample_index(width as int, height as int, px, py);
                    lemma_sample_index(width as int, height as int, x as int, y as int);
                    if px == x && py == y {
                        assert(pixel_of(after, width as int, px, py) =~= color@);
                    } else {
                        lemma_samples_apart(width as int, x as int, y as int, px, py);
                        assert(pixel_of(after, width as int, px, py) =~= pixel_of(before, width as int, px, py));
                    }
                }
            }
            x = x + 1;
        }
        y = y + 1;
    }
    Ok(PixelBuffer { width, height, data: into_bytes(canvas) })
}

/// Paints the gradient with the saturating falloff: see [`synthesize`].
pub fn create_radial_gradient<F: Fn(u128, u128) -> u64>(
    radius: Radius,
    width: u32,
    height: u32,
    color1: [u8; 4],
    color2: [u8; 4],
    saturate: F,
) -> (result: Result<PixelBuffer, ConfigError>)
    requires
        forall|n: u128, d: u128| d > 0 ==> call_requires(saturate, (n, d)),
    ensures
        match result {
            Ok(buffer) => config_error(width as int, height as int, radius) is None && is_gradient(
                saturate,
                FalloffMode::Saturating,
                width,
                height,
                color1@,
                color2@,
                radius,
                buffer,
            ),
            Err(e) => config_error(width as int, height as int, radius) == Some(e),
        },
{
    synthesize(width, height, color1, color2, radius, FalloffMode::Saturating, saturate)
}

} // verus!
