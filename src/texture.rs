use vstd::prelude::*;

use crate::fixed::ONE;
use crate::matrix::Vector3;

verus! {

/// A decoded bitmap: `width` by `height` pixels, four bytes each (R, G, B, A),
/// row by row from the top.
#[derive(Clone, Debug)]
pub struct Texture {
    pub width: u32,
    pub height: u32,
    pub data: Vec<u8>,
}

/// Why a bitmap could not be read.
#[derive(Clone, Copy, Debug, PartialEq, Eq, Structural)]
pub enum TextureError {
    /// The bytes are in no format the decoder knows, or are damaged.
    Decode,
}

/// What the image decoder makes of an encoded file: width, height and RGBA
/// bytes, or nothing where it cannot decode it.
pub uninterp spec fn decoded_rgba(bytes: Seq<u8>) -> Option<(u32, u32, Seq<u8>)>;

/// Relies on `image::load_from_memory` followed by `DynamicImage::to_rgba8`,
/// `ImageBuffer::dimensions` and `ImageBuffer::into_raw`: the decoded size and
/// 8-bit RGBA samples, a function of the encoded bytes alone.
#[verifier::external_body]
fn decode_rgba(bytes: &[u8]) -> (r: Option<(u32, u32, Vec<u8>)>)
    ensures
        r.is_some() == decoded_rgba(bytes@).is_some(),
        r.is_some() ==> decoded_rgba(bytes@) == Some((r.unwrap().0, r.unwrap().1, r.unwrap().2@)),
{
    match image::load_from_memory(bytes) {
        Ok(img) => {
            let rgba = img.to_rgba8();
            let (w, h) = rgba.dimensions();
            Some((w, h, rgba.into_raw()))
        },
        Err(_) => None,
    }
}

/// A byte `0 ..= 255` as a fixed-point channel `0 ..= 1`.
pub open spec fn byte_unit(b: u8) -> i64 {
    (b * ONE / 255) as i64
}

pub open spec fn white() -> Vector3 {
    Vector3 { x: ONE, y: ONE, z: ONE }
}

/// Every channel lies in `[0, 1]`.
pub open spec fn unit_color(c: Vector3) -> bool {
    0 <= c.x <= ONE && 0 <= c.y <= ONE && 0 <= c.z <= ONE
}

/// The fractional part of `u`, with the sign of `u`.
pub open spec fn fract(u: int) -> int {
    if u >= 0 {
        u % (ONE as int)
    } else {
        -((-u) % (ONE as int))
    }
}

/// The pixel column (or row) that fractional coordinate `f` selects among
/// `n`: negative coordinates select the first, the last is the limit.
pub open spec fn texel(f: int, n: int) -> int {
    let c = if f < 0 { 0 } else { f * n / (ONE as int) };
    if c < n - 1 { c } else { n - 1 }
}

/// `a + (b - a) * t` on each channel, `t` in fixed-point units.
pub open spec fn mix(a: Vector3, b: Vector3, t: int) -> Vector3 {
    Vector3 {
        x: ((a.x * (ONE - t) + b.x * t) / (ONE as int)) as i64,
        y: ((a.y * (ONE - t) + b.y * t) / (ONE as int)) as i64,
        z: ((a.z * (ONE - t) + b.z * t) / (ONE as int)) as i64,
    }
}

impl Texture {
    /// The colour stored at column `x`, row `y`; white where the data ends
    /// before that pixel's blue byte.
    pub open spec fn texel_color(self, x: int, y: int) -> Vector3 {
        let i = (y * self.width + x) * 4;
        if i + 2 < self.data@.len() {
            Vector3 {
                x: byte_unit(self.data@[i]),
                y: byte_unit(self.data@[i + 1]),
                z: byte_unit(self.data@[i + 2]),
            }
        } else {
            white()
        }
    }

    /// Nearest-pixel lookup at `(u, v)`; only the fractional parts count.
    pub open spec fn sample_spec(self, u: int, v: int) -> Vector3 {
        self.texel_color(texel(fract(u), self.width as int), texel(fract(v), self.height as int))
    }
}

fn channel_mix(a: i64, b: i64, t: i64) -> (r: i64)
    requires
        0 <= a <= ONE,
        0 <= b <= ONE,
        0 <= t <= ONE,
    ensures
        r == (a * (ONE - t) + b * t) / (ONE as int),
        0 <= r <= ONE,
{
    assert(0 <= a * (ONE - t) + b * t <= ONE * ONE) by (nonlinear_arith)
        requires 0 <= a <= ONE, 0 <= b <= ONE, 0 <= t <= ONE;
    assert(0 <= (a * (ONE - t) + b * t) / 65536 <= 65536) by (nonlinear_arith)
        requires 0 <= a * (ONE - t) + b * t <= ONE * ONE;
    (a * (ONE - t) + b * t) / ONE
}

/// Blends `a` toward `b` by `t`, channel by channel.
pub fn mix_vec3(a: Vector3, b: Vector3, t: i64) -> (r: Vector3)
    requires
        unit_color(a),
        unit_color(b),
        0 <= t <= ONE,
    ensures
        r == mix(a, b, t as int),
        unit_color(r),
{
    Vector3 { x: channel_mix(a.x, b.x, t), y: channel_mix(a.y, b.y, t), z: channel_mix(a.z, b.z, t) }
}

fn fract_exec(u: i64) -> (r: i64)
    requires
        u > i64::MIN,
    ensures
        r == fract(u as int),
        -ONE < r < ONE,
{
    if u >= 0 {
        u % ONE
    } else {
        -((-u) % ONE)
    }
}

fn texel_exec(f: i64, n: u32) -> (r: u32)
    requires
        -ONE < f < ONE,
        n >= 1,
    ensures
        r == texel(f as int, n as int),
        r < n,
{
    let c: i64 = if f < 0 {
        0
    } else {
        assert(0 <= f * n / 65536 <= n) by (nonlinear_arith)
            requires 0 <= f < 65536, n >= 1;
        f * (n as i64) / ONE
    };
    if c < n as i64 - 1 {
        c as u32
    } else {
        n - 1
    }
}

fn byte_to_unit(b: u8) -> (r: i64)
    ensures
        r == byte_unit(b),
        0 <= r <= ONE,
{
    assert(0 <= b * 65536 / 255 <= 65536) by (nonlinear_arith)
        requires 0 <= b <= 255;
    (b as i64) * ONE / 255
}

impl Texture {
    /// Decodes an encoded bitmap (PNG or JPEG) into RGBA pixels.
    pub fn decode(bytes: &[u8]) -> (r: Result<Texture, TextureError>)
        ensures
            r.is_ok() == decoded_rgba(bytes@).is_some(),
            r.is_ok() ==> decoded_rgba(bytes@) == Some(
                (r.unwrap().width, r.unwrap().height, r.unwrap().data@),
            ),
            r.is_err() ==> r == Err::<Texture, TextureError>(TextureError::Decode),
    {
        match decode_rgba(bytes) {
            Some((width, height, data)) => Ok(Texture { width, height, data }),
            None => Err(TextureError::Decode),
        }
    }

    /// The colour of pixel `(x, y)`, or white where the data is too short.
    fn get_pixel(&self, x: u32, y: u32) -> (r: Vector3)
        ensures
            r == self.texel_color(x as int, y as int),
            unit_color(r),
    {
        assert((y as int) * (self.width as int) <= 0xffff_ffff * 0xffff_ffff) by (nonlinear_arith)
            requires 0 <= y <= 0xffff_ffff, 0 <= self.width <= 0xffff_ffff;
        let i: u128 = ((y as u128) * (self.width as u128) + (x as u128)) * 4;
        if i + 2 < self.data.len() as u128 {
            let k = i as usize;
            Vector3 {
                x: byte_to_unit(self.data[k]),
                y: byte_to_unit(self.data[k + 1]),
                z: byte_to_unit(self.data[k + 2]),
            }
        } else {
            Vector3 { x: ONE, y: ONE, z: ONE }
        }
    }

    /// The colour of the pixel under `(u, v)`, each taken modulo one.
    pub fn sample(&self, u: i64, v: i64) -> (r: Vector3)
        requires
            self.width >= 1,
            self.height >= 1,
            u > i64::MIN,
            v > i64::MIN,
        ensures
            r == self.sample_spec(u as int, v as int),
            unit_color(r),
    {
        let x = texel_exec(fract_exec(u), self.width);
        let y = texel_exec(fract_exec(v), self.height);
        self.get_pixel(x, y)
    }
}

/// Where fractional coordinate `f` falls among `n` pixel centres: the pixel
/// at or before it (never before the first) ...
pub open spec fn axis_lo(f: int, n: int) -> int {
    let p = (f * n - ONE / 2) / (ONE as int);
    if p > 0 { p } else { 0 }
}

/// ... the pixel after that one (never past the last) ...
pub open spec fn axis_hi(f: int, n: int) -> int {
    let q = axis_lo(f, n) + 1;
    if q < n - 1 { q } else { n - 1 }
}

/// ... and how far past the earlier centre it lies, in fixed-point units.
pub open spec fn axis_t(f: int, n: int) -> int {
    (f * n - ONE / 2) % (ONE as int)
}

impl Texture {
    /// Bilinear filtering at `(u, v)`, each taken modulo one: the four pixels
    /// around the point blended by its distance from their centres.
    pub open spec fn bilinear_spec(self, u: int, v: int) -> Vector3 {
        let (fu, fv) = (fract(u), fract(v));
        let (w, h) = (self.width as int, self.height as int);
        let (x0, x1, tx) = (axis_lo(fu, w), axis_hi(fu, w), axis_t(fu, w));
        let (y0, y1, ty) = (axis_lo(fv, h), axis_hi(fv, h), axis_t(fv, h));
        mix(
            mix(self.texel_color(x0, y0), self.texel_color(x1, y0), tx),
            mix(self.texel_color(x0, y1), self.texel_color(x1, y1), tx),
            ty,
        )
    }
}

struct Axis {
    lo: u32,
    hi: u32,
    t: i64,
}

fn axis(f: i64, n: u32) -> (r: Axis)
    requires
        -ONE < f < ONE,
        n >= 1,
    ensures
        r.lo == axis_lo(f as int, n as int),
        r.hi == axis_hi(f as int, n as int),
        r.t == axis_t(f as int, n as int),
        r.lo < n,
        r.hi < n,
        0 <= r.t < ONE,
{
    assert(-65536 * 0x1_0000_0000 <= f * n <= 65536 * 0x1_0000_0000) by (nonlinear_arith)
        requires -65536 < f < 65536, 1 <= n <= 0xffff_ffff;
    let p: i64 = f * (n as i64) - ONE / 2;
    assert(p / 65536 <= n - 1) by (nonlinear_arith)
        requires p == f * n - 32768, f < 65536, n >= 1;
    assert(p / 65536 >= -0x1_0000_0001) by (nonlinear_arith)
        requires p >= -65536 * 0x1_0000_0000 - 32768;
    let (q, t) = match (p.checked_div_euclid(ONE), p.checked_rem_euclid(ONE)) {
        (Some(q), Some(t)) => (q, t),
        _ => (0, 0),
    };
    let lo: u32 = if q > 0 { q as u32 } else { 0 };
    let hi: u32 = if lo + 1 < n { lo + 1 } else { n - 1 };
    Axis { lo, hi, t }
}

impl Texture {
    /// The colour at `(u, v)` with bilinear filtering (see `bilinear_spec`).
    pub fn sample_bilinear(&self, u: i64, v: i64) -> (r: Vector3)
        requires
            self.width >= 1,
            self.height >= 1,
            u > i64::MIN,
            v > i64::MIN,
        ensures
            r == self.bilinear_spec(u as int, v as int),
            unit_color(r),
    {
        let ax = axis(fract_exec(u), self.width);
        let ay = axis(fract_exec(v), self.height);
        let c00 = self.get_pixel(ax.lo, ay.lo);
        let c10 = self.get_pixel(ax.hi, ay.lo);
        let c01 = self.get_pixel(ax.lo, ay.hi);
        let c11 = self.get_pixel(ax.hi, ay.hi);
        let c0 = mix_vec3(c00, c10, ax.t);
        let c1 = mix_vec3(c01, c11, ax.t);
        mix_vec3(c0, c1, ay.t)
    }
}

} // verus!
