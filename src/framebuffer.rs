use vstd::prelude::*;

use crate::fixed::ONE;
use crate::matrix::Vector3;

verus! {

/// One 8-bit RGBA pixel.
#[derive(Clone, Copy, Debug, PartialEq, Eq, Structural)]
pub struct Pixel {
    pub r: u8,
    pub g: u8,
    pub b: u8,
    pub a: u8,
}

/// A background star: its pixel and its brightness in percent.
#[derive(Clone, Copy, Debug, PartialEq, Eq, Structural)]
pub struct Star {
    pub x: i32,
    pub y: i32,
    pub brightness: u32,
}

/// A colour to be written at a pixel.
#[derive(Clone, Copy, Debug, PartialEq, Eq, Structural)]
pub struct Plot {
    pub x: i32,
    pub y: i32,
    pub color: Vector3,
}

/// A `width` by `height` RGBA pixel buffer, stored row by row, with its
/// background colour and a star field fixed at construction, which `clear`
/// draws while `show_stars` holds.
pub struct Framebuffer {
    pub width: u32,
    pub height: u32,
    pub pixels: Vec<Pixel>,
    pub background_color: Vector3,
    pub star_field: Vec<Star>,
    pub show_stars: bool,
}

/// Number of stars in the background field.
pub const STAR_COUNT: usize = 800;

/// Stars brighter than this many percent get a cross of dimmer neighbours.
pub const BRIGHT_STAR: u32 = 80;

pub const LCG_A: u64 = 1103515245;

pub const LCG_C: u64 = 12345;

pub const LCG_M: u64 = 2147483648;

pub const LCG_SEED: u64 = 12345;

/// One step of the star field's linear-congruential generator.
pub open spec fn lcg_step(s: int) -> int {
    (LCG_A * s + LCG_C) % (LCG_M as int)
}

/// The generator's state after `n` steps.
pub open spec fn seed_at(n: nat) -> int
    decreases n,
{
    if n == 0 {
        LCG_SEED as int
    } else {
        lcg_step(seed_at((n - 1) as nat))
    }
}

/// Star `k` of the field for a `w` by `h` buffer: three draws give its
/// column, its row and a brightness from 30 to 99 percent.
pub open spec fn star_at(w: int, h: int, k: int) -> Star {
    star_from(seed_at((3 * k + 1) as nat), seed_at((3 * k + 2) as nat), seed_at((3 * k + 3) as nat), w, h)
}

/// The star drawn from three successive generator states.
pub open spec fn star_from(s1: int, s2: int, s3: int, w: int, h: int) -> Star {
    Star { x: (s1 % w) as i32, y: (s2 % h) as i32, brightness: (30 + s3 % 70) as u32 }
}

/// A star that lies in a `w` by `h` buffer, with a brightness from 30 to 99.
pub open spec fn star_ok(st: Star, w: int, h: int) -> bool {
    0 <= st.x < w && 0 <= st.y < h && 30 <= st.brightness < 100
}

/// A fixed-point channel limited to `[0, 1]` and scaled to `0 ..= 255`.
pub open spec fn channel_byte(c: int) -> u8 {
    let k = if c < 0 {
        0
    } else if c > ONE {
        ONE as int
    } else {
        c
    };
    (k * 255 / (ONE as int)) as u8
}

/// The opaque pixel for a fixed-point colour.
pub open spec fn pixel_of(c: Vector3) -> Pixel {
    Pixel { r: channel_byte(c.x as int), g: channel_byte(c.y as int), b: channel_byte(c.z as int), a: 255 }
}

/// `s` with pixel `(x, y)` of a `w` by `h` buffer set to `p`; unchanged when
/// `(x, y)` is outside the buffer.
pub open spec fn put(s: Seq<Pixel>, w: int, h: int, x: int, y: int, p: Pixel) -> Seq<Pixel> {
    if 0 <= x < w && 0 <= y < h {
        s.update(y * w + x, p)
    } else {
        s
    }
}

/// The centre pixel of a star.
pub open spec fn star_core(b: int) -> Pixel {
    Pixel { r: (255 * b / 100) as u8, g: (255 * b / 100) as u8, b: (255 * b * 9 / 1000) as u8, a: 255 }
}

/// The four neighbours of a bright star, at half its brightness.
pub open spec fn star_halo(b: int) -> Pixel {
    Pixel { r: (255 * b / 200) as u8, g: (255 * b / 200) as u8, b: (255 * b * 45 / 10000) as u8, a: 255 }
}

/// `s` with one star drawn on it: its centre, and for a bright star the
/// neighbours left, right, above and below that lie in the buffer.
pub open spec fn paint_star(s: Seq<Pixel>, w: int, h: int, st: Star) -> Seq<Pixel> {
    let (x, y, b) = (st.x as int, st.y as int, st.brightness as int);
    let core = put(s, w, h, x, y, star_core(b));
    if b > BRIGHT_STAR {
        let s1 = if x > 0 { put(core, w, h, x - 1, y, star_halo(b)) } else { core };
        let s2 = if x < w - 1 { put(s1, w, h, x + 1, y, star_halo(b)) } else { s1 };
        let s3 = if y > 0 { put(s2, w, h, x, y - 1, star_halo(b)) } else { s2 };
        if y < h - 1 { put(s3, w, h, x, y + 1, star_halo(b)) } else { s3 }
    } else {
        core
    }
}

/// `s` with the first `n` stars drawn in order.
pub open spec fn paint_stars(s: Seq<Pixel>, w: int, h: int, stars: Seq<Star>, n: int) -> Seq<Pixel>
    decreases n,
{
    if n <= 0 {
        s
    } else {
        paint_star(paint_stars(s, w, h, stars, n - 1), w, h, stars[n - 1])
    }
}

/// `s` with the writes drawn one after another.
pub open spec fn paint_all(s: Seq<Pixel>, w: int, h: int, writes: Seq<Plot>) -> Seq<Pixel>
    decreases writes.len(),
{
    if writes.len() == 0 {
        s
    } else {
        let last = writes.last();
        put(paint_all(s, w, h, writes.drop_last()), w, h, last.x as int, last.y as int, pixel_of(last.color))
    }
}

/// A buffer of `n` pixels all of colour `c`.
pub open spec fn filled(n: int, c: Vector3) -> Seq<Pixel> {
    Seq::new(n as nat, |i: int| pixel_of(c))
}

fn channel_to_byte(c: i64) -> (r: u8)
    ensures
        r == channel_byte(c as int),
{
    let k: i64 = if c < 0 {
        0
    } else if c > ONE {
        ONE
    } else {
        c
    };
    assert(0 <= k * 255 / 65536 <= 255) by (nonlinear_arith)
        requires 0 <= k <= 65536;
    (k * 255 / ONE) as u8
}

fn color_to_pixel(c: Vector3) -> (r: Pixel)
    ensures
        r == pixel_of(c),
{
    Pixel { r: channel_to_byte(c.x), g: channel_to_byte(c.y), b: channel_to_byte(c.z), a: 255 }
}

impl Framebuffer {
    /// The pixels, row by row.
    pub open spec fn view(&self) -> Seq<Pixel> {
        self.pixels@
    }

    /// The stars that `clear` draws: the star field, or none where it is
    /// switched off.
    pub open spec fn stars(&self) -> Seq<Star> {
        if self.show_stars {
            self.star_field@
        } else {
            seq![]
        }
    }

    pub open spec fn background(&self) -> Vector3 {
        self.background_color
    }

    /// The buffer holds one pixel per position and every star lies in it.
    pub open spec fn wf(&self) -> bool {
        &&& self.pixels@.len() == self.width * self.height
        &&& forall|k: int|
            0 <= k < self.star_field@.len() ==> star_ok(
                #[trigger] self.star_field@[k],
                self.width as int,
                self.height as int,
            )
    }
}

fn make_star(s1: u64, s2: u64, s3: u64, width: u32, height: u32) -> (r: Star)
    requires
        1 <= width <= i32::MAX,
        1 <= height <= i32::MAX,
    ensures
        r == star_from(s1 as int, s2 as int, s3 as int, width as int, height as int),
        star_ok(r, width as int, height as int),
{
    Star { x: (s1 % width as u64) as i32, y: (s2 % height as u64) as i32, brightness: (30 + s3 % 70) as u32 }
}

fn next_seed(seed: u64) -> (r: u64)
    requires
        seed < LCG_M,
    ensures
        r == lcg_step(seed as int),
        r < LCG_M,
{
    assert(seed * LCG_A <= 0x7fff_ffff * LCG_A) by (nonlinear_arith)
        requires seed < LCG_M;
    (LCG_A * seed + LCG_C) % LCG_M
}

proof fn lemma_seed_step(n: nat)
    ensures
        seed_at(n + 1) == lcg_step(seed_at(n)),
{
    assert(seed_at(n + 1) == lcg_step(seed_at(((n + 1) - 1) as nat)));
}

impl Framebuffer {
    /// A black buffer of `width` by `height` pixels, with a black background
    /// and the star field for that size.
    pub fn new(width: u32, height: u32) -> (r: Framebuffer)
        requires
            1 <= width <= i32::MAX,
            1 <= height <= i32::MAX,
            width * height <= usize::MAX,
        ensures
            r.wf(),
            r.width == width,
            r.height == height,
            r@ == filled(width * height, Vector3 { x: 0, y: 0, z: 0 }),
            r.background() == (Vector3 { x: 0, y: 0, z: 0 }),
            r.stars().len() == STAR_COUNT,
            forall|k: int| 0 <= k < STAR_COUNT ==> #[trigger] r.stars()[k] == star_at(width as int, height as int, k),
    {
        let n: usize = (width as u64 * height as u64) as usize;
        let black = Vector3 { x: 0, y: 0, z: 0 };
        let p = color_to_pixel(black);
        let mut pixels: Vec<Pixel> = Vec::new();
        let mut i: usize = 0;
        while i < n
            invariant
                i <= n,
                n == width * height,
                p == pixel_of(black),
                pixels@ == filled(i as int, black),
            decreases n - i,
        {
            pixels.push(p);
            i = i + 1;
            assert(pixels@ =~= filled(i as int, black));
        }
        let star_field = Self::generate_stars(width, height);
        Framebuffer { width, height, pixels, background_color: black, star_field, show_stars: true }
    }

    fn generate_stars(width: u32, height: u32) -> (r: Vec<Star>)
        requires
            1 <= width <= i32::MAX,
            1 <= height <= i32::MAX,
        ensures
            r@.len() == STAR_COUNT,
            forall|k: int| 0 <= k < STAR_COUNT ==> #[trigger] r@[k] == star_at(width as int, height as int, k),
            forall|k: int| 0 <= k < r@.len() ==> star_ok(#[trigger] r@[k], width as int, height as int),
    {
        let mut stars: Vec<Star> = Vec::new();
        let mut seed: u64 = LCG_SEED;
        let mut k: usize = 0;
        let ghost n: nat = 0;
        while k < STAR_COUNT
            invariant
                k <= STAR_COUNT,
                stars@.len() == k,
                n == 3 * k,
                seed == seed_at(n),
                seed < LCG_M,
                1 <= width <= i32::MAX,
                1 <= height <= i32::MAX,
                forall|j: int| 0 <= j < k ==> #[trigger] stars@[j] == star_at(width as int, height as int, j),
                forall|j: int| 0 <= j < k ==> star_ok(#[trigger] stars@[j], width as int, height as int),
            decreases STAR_COUNT - k,
        {
            let s1 = next_seed(seed);
            let s2 = next_seed(s1);
            let s3 = next_seed(s2);
            proof {
                lemma_seed_step(n);
                lemma_seed_step(n + 1);
                lemma_seed_step(n + 2);
                assert(star_at(width as int, height as int, k as int) == star_from(
                    seed_at(n + 1),
                    seed_at(n + 2),
                    seed_at(n + 3),
                    width as int,
                    height as int,
                ));
            }
            let st = make_star(s1, s2, s3, width, height);
            stars.push(st);
            seed = s3;
            k = k + 1;
            proof {
                n = n + 3;
            }
        }
        stars
    }

    /// Writes colour `color` at column `x`, row `y`, each channel limited to
    /// `[0, 1]`; a position outside the buffer leaves it unchanged.
    pub fn point(&mut self, x: i32, y: i32, color: Vector3)
        requires
            old(self).wf(),
        ensures
            final(self).wf(),
            final(self).width == old(self).width,
            final(self).height == old(self).height,
            final(self).stars() == old(self).stars(),
            final(self).background() == old(self).background(),
            final(self)@ == put(old(self)@, old(self).width as int, old(self).height as int, x as int, y as int, pixel_of(color)),
            !(0 <= x < old(self).width && 0 <= y < old(self).height) ==> final(self)@ == old(self)@,
    {
        if x >= 0 && y >= 0 && (x as u32) < self.width && (y as u32) < self.height {
            let p = color_to_pixel(color);
            self.set_pixel(x as u32, y as u32, p);
        }
    }

    fn set_pixel(&mut self, x: u32, y: u32, p: Pixel)
        requires
            old(self).wf(),
            x < old(self).width,
            y < old(self).height,
        ensures
            final(self).wf(),
            final(self).width == old(self).width,
            final(self).height == old(self).height,
            final(self).stars() == old(self).stars(),
            final(self).background() == old(self).background(),
            final(self)@ == put(old(self)@, old(self).width as int, old(self).height as int, x as int, y as int, p),
    {
        proof {
            let (w, h) = (self.width as int, self.height as int);
            assert(y * w + x < w * h) by (nonlinear_arith)
                requires x < w, y < h;
            assert(0 <= y * w) by (nonlinear_arith)
                requires y >= 0, w >= 0;
        }
        let n = self.pixels.len();
        let i: usize = y as usize * self.width as usize + x as usize;
        self.pixels.set(i, p);
    }

    /// Writes each colour in turn, as `point` does: a later write wins.
    pub fn draw_plots(&mut self, plots: &Vec<Plot>)
        requires
            old(self).wf(),
        ensures
            final(self).wf(),
            final(self).width == old(self).width,
            final(self).height == old(self).height,
            final(self).stars() == old(self).stars(),
            final(self).background() == old(self).background(),
            final(self)@ == paint_all(old(self)@, old(self).width as int, old(self).height as int, plots@),
    {
        let mut i: usize = 0;
        while i < plots.len()
            invariant
                self.wf(),
                i <= plots@.len(),
                self.width == old(self).width,
                self.height == old(self).height,
                self.stars() == old(self).stars(),
                self.background() == old(self).background(),
                self@ == paint_all(old(self)@, self.width as int, self.height as int, plots@.take(i as int)),
            decreases plots@.len() - i,
        {
            let q = plots[i];
            self.point(q.x, q.y, q.color);
            assert(plots@.take(i + 1).drop_last() =~= plots@.take(i as int));
            i = i + 1;
        }
        assert(plots@.take(i as int) =~= plots@);
    }

    /// Sets the colour that `clear` fills the buffer with.
    pub fn set_background_color(&mut self, color: Vector3)
        requires
            old(self).wf(),
        ensures
            final(self).wf(),
            final(self).width == old(self).width,
            final(self).height == old(self).height,
            final(self)@ == old(self)@,
            final(self).stars() == old(self).stars(),
            final(self).background() == color,
    {
        self.background_color = color;
    }

    /// The pixel at column `x`, row `y`, if that lies in the buffer.
    pub fn pixel(&self, x: u32, y: u32) -> (r: Option<Pixel>)
        requires
            self.wf(),
        ensures
            (x < self.width && y < self.height) ==> r == Some(self@[y * self.width + x]),
            !(x < self.width && y < self.height) ==> r.is_none(),
    {
        if x < self.width && y < self.height {
            proof {
                let (w, h) = (self.width as int, self.height as int);
                assert(y * w + x < w * h) by (nonlinear_arith)
                    requires x < w, y < h;
                assert(0 <= y * w) by (nonlinear_arith)
                    requires y >= 0, w >= 0;
            }
            let n = self.pixels.len();
            Some(self.pixels[y as usize * self.width as usize + x as usize])
        } else {
            None
        }
    }

    /// The star field, in drawing order.
    pub fn star_field(&self) -> (r: &Vec<Star>)
        ensures
            r@ == self.star_field@,
    {
        &self.star_field
    }

    /// Switches the drawing of the star field by `clear` on or off.
    pub fn set_show_stars(&mut self, on: bool)
        requires
            old(self).wf(),
        ensures
            final(self).wf(),
            final(self).width == old(self).width,
            final(self).height == old(self).height,
            final(self)@ == old(self)@,
            final(self).background() == old(self).background(),
            final(self).star_field@ == old(self).star_field@,
            final(self).stars() == (if on { old(self).star_field@ } else { seq![] }),
    {
        self.show_stars = on;
    }

    /// The pixels as bytes, four per pixel in the order R, G, B, A, row by row:
    /// the layout handed to a display.
    pub fn to_rgba_bytes(&self) -> (r: Vec<u8>)
        requires
            self.wf(),
            4 * self@.len() <= usize::MAX,
        ensures
            r@.len() == 4 * self@.len(),
            forall|i: int|
                0 <= i < self@.len() ==> r@[4 * i] == (#[trigger] self@[i]).r && r@[4 * i + 1] == self@[i].g
                    && r@[4 * i + 2] == self@[i].b && r@[4 * i + 3] == self@[i].a,
    {
        let mut out: Vec<u8> = Vec::new();
        let mut i: usize = 0;
        while i < self.pixels.len()
            invariant
                i <= self@.len(),
                self@ == self.pixels@,
                out@.len() == 4 * i,
                forall|j: int|
                    0 <= j < i ==> out@[4 * j] == (#[trigger] self@[j]).r && out@[4 * j + 1] == self@[j].g
                        && out@[4 * j + 2] == self@[j].b && out@[4 * j + 3] == self@[j].a,
            decreases self@.len() - i,
        {
            let p = self.pixels[i];
            out.push(p.r);
            out.push(p.g);
            out.push(p.b);
            out.push(p.a);
            i = i + 1;
        }
        out
    }
}

impl Framebuffer {
    /// Sets pixel `(x, y)` to `p` where it lies in the buffer.
    fn put_pixel(&mut self, x: i64, y: i64, p: Pixel)
        requires
            old(self).wf(),
        ensures
            final(self).wf(),
            final(self).width == old(self).width,
            final(self).height == old(self).height,
            final(self).stars() == old(self).stars(),
            final(self).background() == old(self).background(),
            final(self)@ == put(old(self)@, old(self).width as int, old(self).height as int, x as int, y as int, p),
    {
        if 0 <= x && x < self.width as i64 && 0 <= y && y < self.height as i64 {
            self.set_pixel(x as u32, y as u32, p);
        }
    }

    fn draw_star(&mut self, st: Star)
        requires
            old(self).wf(),
            star_ok(st, old(self).width as int, old(self).height as int),
        ensures
            final(self).wf(),
            final(self).width == old(self).width,
            final(self).height == old(self).height,
            final(self).stars() == old(self).stars(),
            final(self).background() == old(self).background(),
            final(self)@ == paint_star(old(self)@, old(self).width as int, old(self).height as int, st),
    {
        let b = st.brightness;
        let (x, y) = (st.x as i64, st.y as i64);
        let core = Pixel {
            r: (255 * b / 100) as u8,
            g: (255 * b / 100) as u8,
            b: (255 * b * 9 / 1000) as u8,
            a: 255,
        };
        self.put_pixel(x, y, core);
        if b > BRIGHT_STAR {
            let halo = Pixel {
                r: (255 * b / 200) as u8,
                g: (255 * b / 200) as u8,
                b: (255 * b * 45 / 10000) as u8,
                a: 255,
            };
            let w = self.width as i64;
            let h = self.height as i64;
            if x > 0 {
                self.put_pixel(x - 1, y, halo);
            }
            if x < w - 1 {
                self.put_pixel(x + 1, y, halo);
            }
            if y > 0 {
                self.put_pixel(x, y - 1, halo);
            }
            if y < h - 1 {
                self.put_pixel(x, y + 1, halo);
            }
        }
    }

    /// Fills the buffer with the background colour, then draws the star field
    /// over it in order.
    pub fn clear(&mut self)
        requires
            old(self).wf(),
        ensures
            final(self).wf(),
            final(self).width == old(self).width,
            final(self).height == old(self).height,
            final(self).stars() == old(self).stars(),
            final(self).background() == old(self).background(),
            final(self)@ == paint_stars(
                filled(old(self)@.len() as int, old(self).background()),
                old(self).width as int,
                old(self).height as int,
                old(self).stars(),
                old(self).stars().len() as int,
            ),
    {
        let bg = color_to_pixel(self.background_color);
        let n = self.pixels.len();
        let mut i: usize = 0;
        while i < n
            invariant
                self.wf(),
                n == self@.len(),
                i <= n,
                bg == pixel_of(self.background()),
                self.width == old(self).width,
                self.height == old(self).height,
                self.stars() == old(self).stars(),
                self.background() == old(self).background(),
                forall|j: int| 0 <= j < i ==> #[trigger] self@[j] == bg,
            decreases n - i,
        {
            self.pixels.set(i, bg);
            i = i + 1;
        }
        assert(self@ =~= filled(n as int, self.background()));
        let m = if self.show_stars { self.star_field.len() } else { 0 };
        let mut k: usize = 0;
        while k < m
            invariant
                self.wf(),
                m == self.stars().len(),
                k <= m,
                self.width == old(self).width,
                self.height == old(self).height,
                self.stars() == old(self).stars(),
                self.background() == old(self).background(),
                self@ == paint_stars(
                    filled(n as int, self.background()),
                    self.width as int,
                    self.height as int,
                    self.stars(),
                    k as int,
                ),
            decreases m - k,
        {
            let st = self.star_field[k];
            self.draw_star(st);
            k = k + 1;
        }
    }
}

/// The pixel index that a write lands on, if it lands in a `w` by `h` buffer.
pub open spec fn hits(p: Plot, w: int, h: int, k: int) -> bool {
    0 <= p.x < w && 0 <= p.y < h && p.y * w + p.x == k
}

proof fn lemma_paint_all_len(s: Seq<Pixel>, w: int, h: int, writes: Seq<Plot>)
    requires
        w >= 0,
        h >= 0,
        s.len() == w * h,
    ensures
        paint_all(s, w, h, writes).len() == s.len(),
    decreases writes.len(),
{
    if writes.len() > 0 {
        lemma_paint_all_len(s, w, h, writes.drop_last());
        let p = writes.last();
        if 0 <= p.x < w && 0 <= p.y < h {
            assert(p.y * w + p.x < w * h) by (nonlinear_arith)
                requires 0 <= p.x < w, 0 <= p.y < h;
        }
    }
}

proof fn lemma_covered_ignores_below(t: Seq<Pixel>, u: Seq<Pixel>, w: int, h: int, writes: Seq<Plot>, k: int)
    requires
        w >= 0,
        h >= 0,
        t.len() == w * h,
        u.len() == w * h,
        exists|i: int| 0 <= i < writes.len() && hits(#[trigger] writes[i], w, h, k),
    ensures
        paint_all(t, w, h, writes)[k] == paint_all(u, w, h, writes)[k],
    decreases writes.len(),
{
    let p = writes.last();
    let rest = writes.drop_last();
    lemma_paint_all_len(t, w, h, rest);
    lemma_paint_all_len(u, w, h, rest);
    let pt = paint_all(t, w, h, rest);
    let pu = paint_all(u, w, h, rest);
    if hits(p, w, h, k) {
        assert(p.y * w + p.x < w * h) by (nonlinear_arith)
            requires 0 <= p.x < w, 0 <= p.y < h;
        assert(paint_all(t, w, h, writes) == pt.update(k, pixel_of(p.color)));
        assert(paint_all(u, w, h, writes) == pu.update(k, pixel_of(p.color)));
    } else {
        let i = choose|i: int| 0 <= i < writes.len() && hits(#[trigger] writes[i], w, h, k);
        assert(i < writes.len() - 1);
        assert(hits(rest[i], w, h, k));
        lemma_covered_ignores_below(t, u, w, h, rest, k);
        assert(0 <= k < w * h) by (nonlinear_arith)
            requires 0 <= rest[i].x < w, 0 <= rest[i].y < h, k == rest[i].y * w + rest[i].x;
        if 0 <= p.x < w && 0 <= p.y < h {
            assert(p.y * w + p.x < w * h) by (nonlinear_arith)
                requires 0 <= p.x < w, 0 <= p.y < h;
        }
    }
}

/// Drawing is by order alone: at every pixel that a later batch of writes
/// reaches, the result is what that batch alone leaves there, whatever an
/// earlier batch drew first.
pub proof fn lemma_later_draw_wins(s: Seq<Pixel>, w: int, h: int, first: Seq<Plot>, second: Seq<Plot>, k: int)
    requires
        w >= 0,
        h >= 0,
        s.len() == w * h,
        exists|i: int| 0 <= i < second.len() && hits(#[trigger] second[i], w, h, k),
    ensures
        paint_all(paint_all(s, w, h, first), w, h, second)[k] == paint_all(s, w, h, second)[k],
{
    lemma_paint_all_len(s, w, h, first);
    lemma_covered_ignores_below(paint_all(s, w, h, first), s, w, h, second, k);
}

} // verus!
