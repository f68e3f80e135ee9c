//! Pixel maps, and the bytes that a panel blits: packed one-bit, RGB565 or PNG.

use vstd::prelude::*;

verus! {

/// One premultiplied RGBA pixel.
#[derive(Debug, Clone, Copy, PartialEq, Eq, Structural)]
pub struct Pixel {
    pub r: u8,
    pub g: u8,
    pub b: u8,
    pub a: u8,
}

/// A raster of premultiplied pixels, row by row, top row first.
#[derive(Debug)]
pub struct Raster {
    pub width: u32,
    pub height: u32,
    pub pixels: Vec<Pixel>,
}

/// The model of a [`Raster`].
#[verifier::ext_equal]
pub struct RasterView {
    pub width: int,
    pub height: int,
    pub pixels: Seq<Pixel>,
}

impl View for Raster {
    type V = RasterView;

    open spec fn view(&self) -> RasterView {
        RasterView {
            width: self.width as int,
            height: self.height as int,
            pixels: self.pixels@,
        }
    }
}

impl RasterView {
    /// A raster is never empty, and holds one pixel for each position.
    pub open spec fn wf(self) -> bool {
        &&& self.width > 0
        &&& self.height > 0
        &&& self.pixels.len() == self.width * self.height
    }

    /// The pixel in column `x` of row `y`.
    pub open spec fn at(self, x: int, y: int) -> Pixel {
        self.pixels[y * self.width + x]
    }
}

proof fn lemma_position(x: int, y: int, w: int, h: int)
    requires
        0 <= x < w,
        0 <= y < h,
    ensures
        0 <= y * w + x < w * h,
        (y * w + x) / w == y,
        (y * w + x) % w == x,
{
    assert(0 <= y * w + x < w * h) by (nonlinear_arith)
        requires
            0 <= x < w,
            0 <= y < h,
    ;
    assert((y * w + x) / w == y) by (nonlinear_arith)
        requires
            0 <= x < w,
            0 <= y,
    ;
    assert((y * w + x) % w == x) by (nonlinear_arith)
        requires
            0 <= x < w,
            0 <= y,
    ;
}

proof fn lemma_coordinates(i: int, w: int, h: int)
    requires
        0 <= i < w * h,
        w > 0,
        h > 0,
    ensures
        0 <= i % w < w,
        0 <= i / w < h,
        (i / w) * w + i % w == i,
{
    assert((i / w) * w + i % w == i) by (nonlinear_arith)
        requires
            w > 0,
    ;
    assert(0 <= i % w < w) by (nonlinear_arith)
        requires
            w > 0,
    ;
    assert(0 <= i / w < h) by (nonlinear_arith)
        requires
            0 <= i < w * h,
            w > 0,
    ;
}

// ---- rotation ------------------------------------------------------------

/// The width of a raster after clockwise quarter turns.
pub open spec fn turned_width(v: RasterView, quarter: int) -> int {
    if quarter == 1 || quarter == 3 {
        v.height
    } else {
        v.width
    }
}

/// The height of a raster after clockwise quarter turns.
pub open spec fn turned_height(v: RasterView, quarter: int) -> int {
    if quarter == 1 || quarter == 3 {
        v.width
    } else {
        v.height
    }
}

/// The pixel that clockwise quarter turns bring to column `x` of row `y`.
pub open spec fn turned_at(v: RasterView, quarter: int, x: int, y: int) -> Pixel {
    if quarter == 0 {
        v.at(x, y)
    } else if quarter == 1 {
        v.at(y, v.height - 1 - x)
    } else if quarter == 2 {
        v.at(v.width - 1 - x, v.height - 1 - y)
    } else {
        v.at(v.width - 1 - y, x)
    }
}

/// A raster after clockwise quarter turns.
pub open spec fn turned(v: RasterView, quarter: int) -> RasterView {
    let w = turned_width(v, quarter);
    let h = turned_height(v, quarter);
    RasterView {
        width: w,
        height: h,
        pixels: Seq::new((w * h) as nat, |i: int| turned_at(v, quarter, i % w, i / w)),
    }
}

/// A raster turned clockwise by `quarter` quarter turns.
pub fn rotate_pixmap(src: &Raster, quarter: u16) -> (r: Raster)
    requires
        src@.wf(),
        quarter < 4,
    ensures
        r@ == turned(src@, quarter as int),
        r@.wf(),
{
    let sw = src.width;
    let sh = src.height;
    let swapped = quarter == 1 || quarter == 3;
    let dw: u32 = if swapped { sh } else { sw };
    let dh: u32 = if swapped { sw } else { sh };
    let mut pixels: Vec<Pixel> = Vec::new();
    let ghost goal = turned(src@, quarter as int).pixels;
    assert(dw * dh == sw * sh) by (nonlinear_arith)
        requires
            (dw == sw && dh == sh) || (dw == sh && dh == sw),
    ;
    assert(dw * dh >= 0) by (nonlinear_arith);
    assert(0 * dw == 0);
    assert(goal.take(0) =~= Seq::<Pixel>::empty());
    let count: usize = src.pixels.len();
    for y in 0..dh
        invariant
            src@.wf(),
            quarter < 4,
            sw == src.width,
            sh == src.height,
            swapped == (quarter == 1 || quarter == 3),
            dw == turned_width(src@, quarter as int),
            dh == turned_height(src@, quarter as int),
            goal == turned(src@, quarter as int).pixels,
            goal.len() == dw * dh,
            count == src.pixels.len(),
            pixels@ == goal.take(y * dw),
            0 <= y * dw <= dw * dh,
    {
        proof {
            assert(0 <= y * dw && y * dw + dw <= dw * dh) by (nonlinear_arith)
                requires
                    y < dh,
            ;
        }
        for x in 0..dw
            invariant
                src@.wf(),
                quarter < 4,
                y < dh,
                sw == src.width,
                sh == src.height,
                swapped == (quarter == 1 || quarter == 3),
                dw == turned_width(src@, quarter as int),
                dh == turned_height(src@, quarter as int),
                goal == turned(src@, quarter as int).pixels,
                goal.len() == dw * dh,
                count == src.pixels.len(),
                pixels@ == goal.take(y * dw + x),
                0 <= y * dw,
                y * dw + dw <= dw * dh,
        {
            let (sx, sy): (u32, u32) = if quarter == 0 {
                (x, y)
            } else if quarter == 1 {
                (y, sh - 1 - x)
            } else if quarter == 2 {
                (sw - 1 - x, sh - 1 - y)
            } else {
                (sw - 1 - y, x)
            };
            proof {
                lemma_position(sx as int, sy as int, sw as int, sh as int);
                lemma_position(x as int, y as int, dw as int, dh as int);
                assert(0 <= sy * sw) by (nonlinear_arith);
                assert(sy * sw + sx < count);
            }
            let row: usize = sy as usize * sw as usize;
            let i: usize = row + sx as usize;
            pixels.push(src.pixels[i]);
            assert(pixels@ =~= goal.take(y * dw + x + 1));
        }
        assert((y + 1) * dw == y * dw + dw) by (nonlinear_arith);
    }
    assert(goal.take(dh * dw) =~= goal) by {
        assert(dh * dw == dw * dh) by (nonlinear_arith);
    }
    Raster { width: dw, height: dh, pixels }
}

proof fn lemma_turned(v: RasterView, quarter: int)
    requires
        v.wf(),
        0 <= quarter < 4,
    ensures
        turned(v, quarter).wf(),
        forall|x: int, y: int|
            0 <= x < turned_width(v, quarter) && 0 <= y < turned_height(v, quarter) ==> (
            #[trigger] turned(v, quarter).at(x, y)) == turned_at(v, quarter, x, y),
{
    let w = turned_width(v, quarter);
    let h = turned_height(v, quarter);
    assert(w * h >= 0) by (nonlinear_arith)
        requires
            w > 0,
            h > 0,
    ;
    assert forall|x: int, y: int| 0 <= x < w && 0 <= y < h implies (#[trigger] turned(
        v,
        quarter,
    ).at(x, y)) == turned_at(v, quarter, x, y) by {
        lemma_position(x, y, w, h);
    }
}

/// Quarter turns add up: turning by `a` and then by `b` is turning by their sum. Four
/// quarter turns are none.
pub proof fn law_quarter_turns_add_up(v: RasterView, a: int, b: int)
    requires
        v.wf(),
        0 <= a < 4,
        0 <= b < 4,
    ensures
        turned(turned(v, a), b) == turned(v, (a + b) % 4),
{
    let t = turned(v, a);
    lemma_turned(v, a);
    let left = turned(t, b);
    let right = turned(v, (a + b) % 4);
    assert(left.width == right.width && left.height == right.height);
    assert forall|i: int| 0 <= i < left.pixels.len() implies left.pixels[i] == right.pixels[i] by {
        let w = left.width;
        lemma_coordinates(i, w, left.height);
        let x = i % w;
        let y = i / w;
        if b == 0 {
            assert(t.at(x, y) == turned_at(v, a, x, y));
        } else if b == 1 {
            assert(t.at(y, t.height - 1 - x) == turned_at(v, a, y, t.height - 1 - x));
        } else if b == 2 {
            assert(t.at(t.width - 1 - x, t.height - 1 - y) == turned_at(
                v,
                a,
                t.width - 1 - x,
                t.height - 1 - y,
            ));
        } else {
            assert(t.at(t.width - 1 - y, x) == turned_at(v, a, t.width - 1 - y, x));
        }
    }
    assert(left =~= right);
}

/// No quarter turn changes nothing.
pub proof fn law_no_turn_is_identity(v: RasterView)
    requires
        v.wf(),
    ensures
        turned(v, 0) == v,
{
    assert forall|i: int| 0 <= i < v.pixels.len() implies turned(v, 0).pixels[i] == v.pixels[i] by {
        lemma_coordinates(i, v.width, v.height);
    }
    assert(turned(v, 0) =~= v);
}

// ---- one-bit packing -----------------------------------------------------

/// A premultiplied channel composited over white.
pub open spec fn over_white(channel: u8, alpha: u8) -> int {
    channel + (255 - alpha)
}

/// The luminance of a pixel composited over white.
pub open spec fn luminance(p: Pixel) -> int {
    (over_white(p.r, p.a) * 77 + over_white(p.g, p.a) * 150 + over_white(p.b, p.a) * 29) / 256
}

/// The threshold of the ordered dither in column `x` of row `y`: a four by four Bayer
/// matrix, scaled to a byte, and never zero.
pub open spec fn dither_threshold(x: int, y: int) -> int {
    let rows = seq![
        seq![1int, 128, 32, 160],
        seq![192int, 64, 224, 96],
        seq![48int, 176, 16, 144],
        seq![240int, 112, 208, 80],
    ];
    rows[y % 4][x % 4]
}

/// Whether a pixel at this position becomes ink.
pub open spec fn inked(p: Pixel, x: int, y: int) -> bool {
    luminance(p) < dither_threshold(x, y)
}

/// The bytes of one packed row of `w` pixels.
pub open spec fn row_bytes(w: int) -> int {
    (w + 7) / 8
}

/// The bit of value `2^k` of a byte.
pub open spec fn bit(byte: u8, k: u8) -> bool {
    (byte >> k) & 1 == 1
}

/// Whether position `(x, y)` of a packed image is white. The leftmost pixel of a byte is
/// its highest bit.
pub open spec fn white_at(bytes: Seq<u8>, w: int, x: int, y: int) -> bool {
    bit(bytes[y * row_bytes(w) + x / 8], (7 - x % 8) as u8)
}

/// Whether `bytes` are a raster packed to one bit per pixel: rows are byte aligned, one is
/// white, ink is zero, and the positions that pad a row are white.
pub open spec fn packed(bytes: Seq<u8>, pixels: Seq<Pixel>, w: int, h: int) -> bool {
    &&& bytes.len() == row_bytes(w) * h
    &&& forall|x: int, y: int|
        0 <= x < 8 * row_bytes(w) && 0 <= y < h ==> (#[trigger] white_at(bytes, w, x, y) <==> x >= w
            || !inked(pixels[y * w + x], x, y))
}

fn dither_cell(x: u32, y: u32) -> (r: u32)
    ensures
        r == dither_threshold(x as int, y as int),
{
    let row: u32 = y % 4;
    let col: u32 = x % 4;
    if row == 0 {
        if col == 0 { 1 } else if col == 1 { 128 } else if col == 2 { 32 } else { 160 }
    } else if row == 1 {
        if col == 0 { 192 } else if col == 1 { 64 } else if col == 2 { 224 } else { 96 }
    } else if row == 2 {
        if col == 0 { 48 } else if col == 1 { 176 } else if col == 2 { 16 } else { 144 }
    } else {
        if col == 0 { 240 } else if col == 1 { 112 } else if col == 2 { 208 } else { 80 }
    }
}

proof fn lemma_threshold_range(x: int, y: int)
    ensures
        1 <= dither_threshold(x, y) <= 240,
{
    let (row, col) = (y % 4, x % 4);
    assert(row == 0 || row == 1 || row == 2 || row == 3);
    assert(col == 0 || col == 1 || col == 2 || col == 3);
}

fn is_inked(p: Pixel, x: u32, y: u32) -> (r: bool)
    ensures
        r == inked(p, x as int, y as int),
{
    let clear: u32 = 255 - p.a as u32;
    let red: u32 = p.r as u32 + clear;
    let green: u32 = p.g as u32 + clear;
    let blue: u32 = p.b as u32 + clear;
    let lum: u32 = (red * 77 + green * 150 + blue * 29) / 256;
    lum < dither_cell(x, y)
}

proof fn lemma_bits_of_white()
    ensures
        forall|k: u8| k < 8 ==> #[trigger] bit(0xff, k),
{
    assert(forall|k: u8| k < 8 ==> #[trigger] ((0xffu8 >> k) & 1) == 1) by (bit_vector);
}

proof fn lemma_clear_bit(byte: u8, k: u8)
    requires
        k < 8,
    ensures
        forall|j: u8| j < 8 ==> (#[trigger] bit(byte & !(1u8 << k), j) <==> bit(byte, j) && j != k),
{
    assert forall|j: u8| j < 8 implies (#[trigger] bit(byte & !(1u8 << k), j) <==> bit(byte, j) && j
        != k) by {
        assert((((byte & !(1u8 << k)) >> j) & 1 == 1) <==> ((byte >> j) & 1 == 1 && j != k))
            by (bit_vector)
            requires
                k < 8,
                j < 8,
        ;
    }
}

/// A raster packed to the one-bit format of an e-ink panel of `w` by `h` pixels.
pub fn pack_1bit(pixmap: &Raster, w: u32, h: u32) -> (r: Vec<u8>)
    requires
        w * h <= pixmap.pixels.len(),
    ensures
        packed(r@, pixmap.pixels@, w as int, h as int),
{
    let count: usize = pixmap.pixels.len();
    let stride: usize = if w % 8 == 0 { (w / 8) as usize } else { (w / 8 + 1) as usize };
    assert(stride == row_bytes(w as int));
    proof {
        assert(stride * h <= w * h) by (nonlinear_arith)
            requires
                0 <= stride <= w,
                0 <= h,
        ;
    }
    let size: usize = stride * h as usize;
    let mut out: Vec<u8> = Vec::new();
    for i in 0..size
        invariant
            out@.len() == i,
            forall|j: int| 0 <= j < i ==> out@[j] == 0xff,
    {
        out.push(0xff);
    }
    let ghost px = pixmap.pixels@;
    proof {
        lemma_bits_of_white();
        assert forall|x: int, y: int| 0 <= x < 8 * stride && 0 <= y < h implies #[trigger] white_at(
            out@,
            w as int,
            x,
            y,
        ) by {
            lemma_position(x / 8, y, stride as int, h as int);
        }
    }
    for y in 0..h
        invariant
            count == pixmap.pixels.len(),
            px == pixmap.pixels@,
            w * h <= count,
            stride == row_bytes(w as int),
            size == stride * h,
            out@.len() == size,
            forall|a: int, b: int|
                0 <= a < 8 * stride && 0 <= b < h ==> (#[trigger] white_at(out@, w as int, a, b)
                    <==> b >= y || a >= w || !inked(px[b * w + a], a, b)),
    {
        for x in 0..w
            invariant
                count == pixmap.pixels.len(),
                px == pixmap.pixels@,
                w * h <= count,
                y < h,
                stride == row_bytes(w as int),
                size == stride * h,
                out@.len() == size,
                forall|a: int, b: int|
                    0 <= a < 8 * stride && 0 <= b < h ==> (#[trigger] white_at(out@, w as int, a, b)
                        <==> b > y || (b == y && a >= x) || a >= w || !inked(px[b * w + a], a, b)),
        {
            proof {
                lemma_position(x as int, y as int, w as int, h as int);
                lemma_position(x as int / 8, y as int, stride as int, h as int);
                assert(0 <= y * w) by (nonlinear_arith);
                assert(0 <= y * stride) by (nonlinear_arith);
            }
            let index: usize = y as usize * w as usize + x as usize;
            let ghost before = out@;
            if is_inked(pixmap.pixels[index], x, y) {
                let byte: usize = y as usize * stride + (x / 8) as usize;
                let k: u8 = 7 - (x % 8) as u8;
                let old_byte: u8 = out[byte];
                proof {
                    lemma_clear_bit(old_byte, k);
                }
                out.set(byte, old_byte & !(1u8 << k));
                assert forall|a: int, b: int| 0 <= a < 8 * stride && 0 <= b < h implies (
                #[trigger] white_at(out@, w as int, a, b) <==> white_at(before, w as int, a, b) && !(
                a == x && b == y)) by {
                    lemma_position(a / 8, b, stride as int, h as int);
                    let at = b * stride + a / 8;
                    if at == byte {
                        assert(b == y && a / 8 == x / 8) by {
                            lemma_position(a / 8, b, stride as int, h as int);
                            lemma_position(x as int / 8, y as int, stride as int, h as int);
                        }
                        let j = (7 - a % 8) as u8;
                        assert(bit(old_byte & !(1u8 << k), j) <==> bit(old_byte, j) && j != k);
                    }
                }
            }
            assert forall|a: int, b: int| 0 <= a < 8 * stride && 0 <= b < h implies (
            #[trigger] white_at(out@, w as int, a, b) <==> b > y || (b == y && a >= x + 1) || a >= w
                || !inked(px[b * w + a], a, b)) by {
                assert(white_at(before, w as int, a, b) <==> b > y || (b == y && a >= x) || a >= w
                    || !inked(px[b * w + a], a, b));
            }
        }
    }
    out
}

/// A packed image is determined by its raster: two packings of one raster are equal.
pub proof fn law_packing_is_determined(a: Seq<u8>, b: Seq<u8>, pixels: Seq<Pixel>, w: int, h: int)
    requires
        w >= 0,
        h >= 0,
        packed(a, pixels, w, h),
        packed(b, pixels, w, h),
    ensures
        a == b,
{
    let stride = row_bytes(w);
    assert forall|i: int| 0 <= i < a.len() implies a[i] == b[i] by {
        if h == 0 || stride == 0 {
            assert(stride * h == 0) by (nonlinear_arith)
                requires
                    h == 0 || stride == 0,
            ;
        }
        lemma_coordinates(i, stride, h);
        let y = i / stride;
        let x = 8 * (i % stride);
        let (p, q) = (a[i], b[i]);
        assert forall|j: u8| j < 8 implies #[trigger] bit(p, j) == bit(q, j) by {
            let k = 7 - j;
            assert((x + k) / 8 == i % stride && (x + k) % 8 == k);
            assert(white_at(a, w, x + k, y) == white_at(b, w, x + k, y));
        }
        assert(bit(p, 7) == bit(q, 7) && bit(p, 6) == bit(q, 6) && bit(p, 5) == bit(q, 5));
        assert(bit(p, 4) == bit(q, 4) && bit(p, 3) == bit(q, 3) && bit(p, 2) == bit(q, 2));
        assert(bit(p, 1) == bit(q, 1) && bit(p, 0) == bit(q, 0));
        assert(p == q) by (bit_vector)
            requires
                ((p >> 7) & 1 == 1) == ((q >> 7) & 1 == 1),
                ((p >> 6) & 1 == 1) == ((q >> 6) & 1 == 1),
                ((p >> 5) & 1 == 1) == ((q >> 5) & 1 == 1),
                ((p >> 4) & 1 == 1) == ((q >> 4) & 1 == 1),
                ((p >> 3) & 1 == 1) == ((q >> 3) & 1 == 1),
                ((p >> 2) & 1 == 1) == ((q >> 2) & 1 == 1),
                ((p >> 1) & 1 == 1) == ((q >> 1) & 1 == 1),
                ((p >> 0) & 1 == 1) == ((q >> 0) & 1 == 1),
        ;
    }
    assert(a =~= b);
}

/// A raster of opaque white pixels packs to bytes that are all ones.
pub proof fn law_blank_packs_to_white(bytes: Seq<u8>, pixels: Seq<Pixel>, w: int, h: int)
    requires
        w >= 0,
        h >= 0,
        pixels.len() >= w * h,
        packed(bytes, pixels, w, h),
        forall|i: int|
            0 <= i < pixels.len() ==> pixels[i] == (Pixel { r: 255, g: 255, b: 255, a: 255 }),
    ensures
        bytes == Seq::new((row_bytes(w) * h) as nat, |i: int| 0xffu8),
{
    let blank = Seq::new((row_bytes(w) * h) as nat, |i: int| 0xffu8);
    let stride = row_bytes(w);
    assert(stride * h >= 0) by (nonlinear_arith)
        requires
            stride >= 0,
            h >= 0,
    ;
    lemma_bits_of_white();
    assert forall|x: int, y: int| 0 <= x < 8 * stride && 0 <= y < h implies (#[trigger] white_at(
        blank,
        w,
        x,
        y,
    ) <==> x >= w || !inked(pixels[y * w + x], x, y)) by {
        lemma_position(x / 8, y, stride, h);
        if x < w {
            lemma_position(x, y, w, h);
            lemma_threshold_range(x, y);
            assert(luminance(pixels[y * w + x]) == 255);
        }
    }
    law_packing_is_determined(bytes, blank, pixels, w, h);
}

// ---- RGB565 --------------------------------------------------------------

/// A premultiplied channel composited over white, as a byte.
pub open spec fn shade(channel: u8, alpha: u8) -> int {
    if over_white(channel, alpha) > 255 {
        255
    } else {
        over_white(channel, alpha)
    }
}

/// A pixel over white in sixteen bits: five of red, six of green, five of blue.
pub open spec fn rgb565(p: Pixel) -> int {
    (shade(p.r, p.a) / 8) * 2048 + (shade(p.g, p.a) / 4) * 32 + shade(p.b, p.a) / 8
}

/// A raster as big-endian RGB565: two bytes for each pixel, the high byte first.
pub open spec fn rgb565_bytes(pixels: Seq<Pixel>) -> Seq<u8> {
    Seq::new(
        (2 * pixels.len()) as nat,
        |i: int|
            if i % 2 == 0 {
                (rgb565(pixels[i / 2]) / 256) as u8
            } else {
                (rgb565(pixels[i / 2]) % 256) as u8
            },
    )
}

fn shade_of(channel: u8, alpha: u8) -> (r: u16)
    ensures
        r == shade(channel, alpha),
        r <= 255,
{
    let sum: u16 = channel as u16 + (255 - alpha as u16);
    if sum > 255 {
        255
    } else {
        sum
    }
}

fn rgb565_of(p: Pixel) -> (r: u16)
    ensures
        r == rgb565(p),
{
    let red: u16 = shade_of(p.r, p.a) / 8;
    let green: u16 = shade_of(p.g, p.a) / 4;
    let blue: u16 = shade_of(p.b, p.a) / 8;
    red * 2048 + green * 32 + blue
}

proof fn lemma_rgb565_pair(pixels: Seq<Pixel>, i: int)
    requires
        0 <= i < pixels.len(),
    ensures
        rgb565_bytes(pixels).len() == 2 * pixels.len(),
        rgb565_bytes(pixels)[2 * i] == (rgb565(pixels[i]) / 256) as u8,
        rgb565_bytes(pixels)[2 * i + 1] == (rgb565(pixels[i]) % 256) as u8,
        0 <= rgb565(pixels[i]) < 0x1_0000,
{
    assert((2 * i) % 2 == 0 && (2 * i) / 2 == i);
    assert((2 * i + 1) % 2 == 1 && (2 * i + 1) / 2 == i);
}

/// A raster packed to big-endian RGB565.
pub fn to_rgb565(pixmap: &Raster) -> (r: Vec<u8>)
    ensures
        r@ == rgb565_bytes(pixmap.pixels@),
{
    let mut out: Vec<u8> = Vec::new();
    let ghost goal = rgb565_bytes(pixmap.pixels@);
    for i in 0..pixmap.pixels.len()
        invariant
            goal == rgb565_bytes(pixmap.pixels@),
            goal.len() == 2 * pixmap.pixels@.len(),
            out@ == goal.take(2 * i),
    {
        let p = pixmap.pixels[i];
        let v = rgb565_of(p);
        let hi: u8 = (v / 256) as u8;
        let lo: u8 = (v % 256) as u8;
        proof {
            lemma_rgb565_pair(pixmap.pixels@, i as int);
        }
        out.push(hi);
        assert(out@ =~= goal.take(2 * i + 1));
        out.push(lo);
        assert(out@ =~= goal.take(2 * i + 2));
    }
    assert(goal.take(goal.len() as int) =~= goal);
    out
}

// ---- PNG -----------------------------------------------------------------

/// A channel with the alpha divided out, rounded to the nearest byte.
pub open spec fn divided_out(channel: u8, alpha: u8) -> int {
    if alpha == 0 {
        0
    } else {
        let q = (channel * 255 + alpha as int / 2) / alpha as int;
        if q > 255 {
            255
        } else {
            q
        }
    }
}

/// A raster as straight RGBA: four bytes for each pixel.
pub open spec fn straight_bytes(pixels: Seq<Pixel>) -> Seq<u8> {
    Seq::new(
        (4 * pixels.len()) as nat,
        |i: int|
            {
                let p = pixels[i / 4];
                if i % 4 == 0 {
                    divided_out(p.r, p.a) as u8
                } else if i % 4 == 1 {
                    divided_out(p.g, p.a) as u8
                } else if i % 4 == 2 {
                    divided_out(p.b, p.a) as u8
                } else {
                    p.a
                }
            },
    )
}

fn straight_channel(channel: u8, alpha: u8) -> (r: u8)
    ensures
        r == divided_out(channel, alpha),
{
    if alpha == 0 {
        0
    } else {
        let q: u16 = (channel as u16 * 255 + alpha as u16 / 2) / alpha as u16;
        if q > 255 {
            255
        } else {
            q as u8
        }
    }
}

proof fn lemma_straight_quad(pixels: Seq<Pixel>, i: int)
    requires
        0 <= i < pixels.len(),
    ensures
        straight_bytes(pixels).len() == 4 * pixels.len(),
        straight_bytes(pixels)[4 * i] == divided_out(pixels[i].r, pixels[i].a) as u8,
        straight_bytes(pixels)[4 * i + 1] == divided_out(pixels[i].g, pixels[i].a) as u8,
        straight_bytes(pixels)[4 * i + 2] == divided_out(pixels[i].b, pixels[i].a) as u8,
        straight_bytes(pixels)[4 * i + 3] == pixels[i].a,
{
    assert((4 * i) % 4 == 0 && (4 * i) / 4 == i);
    assert((4 * i + 1) % 4 == 1 && (4 * i + 1) / 4 == i);
    assert((4 * i + 2) % 4 == 2 && (4 * i + 2) / 4 == i);
    assert((4 * i + 3) % 4 == 3 && (4 * i + 3) / 4 == i);
}

/// The bytes of a raster as straight RGBA, which PNG stores.
pub fn straight_rgba(pixmap: &Raster) -> (r: Vec<u8>)
    ensures
        r@ == straight_bytes(pixmap.pixels@),
{
    let mut out: Vec<u8> = Vec::new();
    let ghost goal = straight_bytes(pixmap.pixels@);
    for i in 0..pixmap.pixels.len()
        invariant
            goal == straight_bytes(pixmap.pixels@),
            goal.len() == 4 * pixmap.pixels@.len(),
            out@ == goal.take(4 * i),
    {
        let p = pixmap.pixels[i];
        proof {
            lemma_straight_quad(pixmap.pixels@, i as int);
        }
        out.push(straight_channel(p.r, p.a));
        assert(out@ =~= goal.take(4 * i + 1));
        out.push(straight_channel(p.g, p.a));
        assert(out@ =~= goal.take(4 * i + 2));
        out.push(straight_channel(p.b, p.a));
        assert(out@ =~= goal.take(4 * i + 3));
        out.push(p.a);
        assert(out@ =~= goal.take(4 * i + 4));
    }
    assert(goal.take(goal.len() as int) =~= goal);
    out
}

/// Why no PNG was written: its header or its data was refused.
#[derive(Debug)]
pub enum PngFault {
    Header(String),
    Data(String),
}

/// The model of a [`PngFault`].
pub enum PngFaultView {
    Header(Seq<char>),
    Data(Seq<char>),
}

impl View for PngFault {
    type V = PngFaultView;

    open spec fn view(&self) -> PngFaultView {
        match *self {
            PngFault::Header(e) => PngFaultView::Header(e@),
            PngFault::Data(e) => PngFaultView::Data(e@),
        }
    }
}

impl PngFaultView {
    /// The fault in words.
    pub open spec fn message(self) -> Seq<char> {
        match self {
            PngFaultView::Header(e) => "png header: "@ + e,
            PngFaultView::Data(e) => "png data: "@ + e,
        }
    }
}

/// The PNG signature.
pub open spec fn png_signature() -> Seq<u8> {
    seq![0x89u8, 0x50, 0x4e, 0x47, 0x0d, 0x0a, 0x1a, 0x0a]
}

/// Whether an outcome of encoding is the named one.
pub open spec fn same_png(
    r: Result<Vec<u8>, PngFault>,
    named: Result<Seq<u8>, PngFaultView>,
) -> bool {
    match r {
        Ok(bytes) => named == Ok::<Seq<u8>, PngFaultView>(bytes@),
        Err(fault) => named == Err::<Seq<u8>, PngFaultView>(fault@),
    }
}

/// What `png` makes of eight-bit RGBA samples and the size of the image.
pub uninterp spec fn png_of(data: Seq<u8>, w: u32, h: u32) -> Result<Seq<u8>, PngFaultView>;

/// Calls `png::Encoder` with colour type RGBA and eight bits, then `write_header` and
/// `write_image_data`: the outcome depends on the samples and the size alone, the header is
/// refused when the width or the height is zero, the data when there are not four bytes for
/// each pixel, and what is written starts with the PNG signature. The number of bytes in the
/// image must be one that the machine can count.
#[verifier::external_body]
fn write_png(data: &[u8], w: u32, h: u32) -> (r: Result<Vec<u8>, PngFault>)
    requires
        4 * w * h <= usize::MAX,
        4 * w < usize::MAX,
    ensures
        same_png(r, png_of(data@, w, h)),
        w == 0 || h == 0 ==> r matches Err(PngFault::Header(_)),
        w > 0 && h > 0 && data@.len() != 4 * w * h ==> r matches Err(PngFault::Data(_)),
        r matches Ok(bytes) ==> bytes@.len() >= 8 && bytes@.take(8) == png_signature(),
{
    let mut out = Vec::new();
    {
        let mut encoder = png::Encoder::new(&mut out, w, h);
        encoder.set_color(png::ColorType::Rgba);
        encoder.set_depth(png::BitDepth::Eight);
        let mut writer = encoder.write_header().map_err(|e| PngFault::Header(e.to_string()))?;
        writer.write_image_data(data).map_err(|e| PngFault::Data(e.to_string()))?;
    }
    Ok(out)
}

/// A raster as a PNG of `w` by `h` pixels.
pub fn encode_png(pixmap: &Raster, w: u32, h: u32) -> (r: Result<Vec<u8>, String>)
    requires
        4 * w * h <= usize::MAX,
        4 * w < usize::MAX,
    ensures
        match png_of(straight_bytes(pixmap.pixels@), w, h) {
            Ok(bytes) => r matches Ok(b) && b@ == bytes,
            Err(fault) => r matches Err(e) && e@ == fault.message(),
        },
        w == 0 || h == 0 || pixmap.pixels@.len() != w * h ==> r is Err,
        r matches Ok(bytes) ==> bytes@.len() >= 8 && bytes@.take(8) == png_signature(),
{
    let data = straight_rgba(pixmap);
    assert(4 * w * h == 4 * (w * h)) by (nonlinear_arith);
    match write_png(data.as_slice(), w, h) {
        Ok(bytes) => Ok(bytes),
        Err(PngFault::Header(e)) => {
            let mut text = "png header: ".to_owned();
            text.append(e.as_str());
            Err(text)
        },
        Err(PngFault::Data(e)) => {
            let mut text = "png data: ".to_owned();
            text.append(e.as_str());
            Err(text)
        },
    }
}

// ---- content hash --------------------------------------------------------

/// The offset basis of 64-bit FNV-1a.
pub const FNV_OFFSET: u64 = 0xcbf2_9ce4_8422_2325;

/// The prime of 64-bit FNV-1a.
pub const FNV_PRIME: u64 = 0x0000_0100_0000_01b3;

/// One step of FNV-1a.
pub open spec fn fnv_step(h: u64, b: u8) -> u64 {
    ((((h ^ b as u64) as int) * FNV_PRIME) % 0x1_0000_0000_0000_0000) as u64
}

/// FNV-1a over bytes, from the state `h`.
pub open spec fn fnv_from(h: u64, bytes: Seq<u8>) -> u64
    decreases bytes.len(),
{
    if bytes.len() == 0 {
        h
    } else {
        fnv_step(fnv_from(h, bytes.drop_last()), bytes.last())
    }
}

fn fnv_mix(h: u64, b: u8) -> (r: u64)
    ensures
        r == fnv_step(h, b),
{
    (h ^ b as u64).wrapping_mul(FNV_PRIME)
}

/// FNV-1a over `bytes`, from the state `h`.
pub fn fnv_extend(h: u64, bytes: &[u8]) -> (r: u64)
    ensures
        r == fnv_from(h, bytes@),
{
    let mut state: u64 = h;
    assert(bytes@.take(0) =~= Seq::<u8>::empty());
    for i in 0..bytes.len()
        invariant
            state == fnv_from(h, bytes@.take(i as int)),
    {
        assert(bytes@.take(i + 1).drop_last() =~= bytes@.take(i as int));
        state = fnv_mix(state, bytes[i]);
    }
    assert(bytes@.take(bytes@.len() as int) =~= bytes@);
    state
}

/// The 64-bit FNV-1a hash of `bytes`.
pub fn fnv1a64(bytes: &[u8]) -> (r: u64)
    ensures
        r == fnv_from(FNV_OFFSET, bytes@),
{
    fnv_extend(FNV_OFFSET, bytes)
}

/// The inverse of [`FNV_PRIME`] among the odd numbers of 64 bits.
const FNV_INVERSE: u64 = 0xce96_5057_aff6_957b;

proof fn lemma_prime_inverse(x: u64)
    ensures
        (((x * FNV_PRIME) % 0x1_0000_0000_0000_0000) * FNV_INVERSE) % 0x1_0000_0000_0000_0000 == x,
{
    let m: int = 0x1_0000_0000_0000_0000;
    let k: int = 0x00ce_9650_590f;
    assert(0x0100_0000_01b3int * 0xce96_5057_aff6_957bint == 1 + 0x00ce_9650_590fint * 0x1_0000_0000_0000_0000int);
    assert((x * FNV_PRIME) * FNV_INVERSE == x * (FNV_PRIME as int * FNV_INVERSE as int))
        by (nonlinear_arith);
    assert(x * (1 + k * m) == x + (x * k) * m) by (nonlinear_arith);
    vstd::arithmetic::div_mod::lemma_mul_mod_noop_left(x * FNV_PRIME, FNV_INVERSE as int, m);
    vstd::arithmetic::div_mod::lemma_mod_multiples_vanish(x * k, x as int, m);
    assert(m * (x * k) + x == x + (x * k) * m) by (nonlinear_arith);
    vstd::arithmetic::div_mod::lemma_small_mod(x as nat, m as nat);
}

proof fn lemma_step_injective(h1: u64, b1: u8, h2: u64, b2: u8)
    requires
        fnv_step(h1, b1) == fnv_step(h2, b2),
    ensures
        h1 ^ b1 as u64 == h2 ^ b2 as u64,
{
    let x = h1 ^ b1 as u64;
    let y = h2 ^ b2 as u64;
    lemma_prime_inverse(x);
    lemma_prime_inverse(y);
    assert(0 <= (x * FNV_PRIME) % 0x1_0000_0000_0000_0000 < 0x1_0000_0000_0000_0000);
    assert(0 <= (y * FNV_PRIME) % 0x1_0000_0000_0000_0000 < 0x1_0000_0000_0000_0000);
}

proof fn lemma_states_stay_apart(h1: u64, h2: u64, bytes: Seq<u8>)
    requires
        h1 != h2,
    ensures
        fnv_from(h1, bytes) != fnv_from(h2, bytes),
    decreases bytes.len(),
{
    if bytes.len() > 0 {
        lemma_states_stay_apart(h1, h2, bytes.drop_last());
        let a = fnv_from(h1, bytes.drop_last());
        let b = fnv_from(h2, bytes.drop_last());
        let c = bytes.last() as u64;
        if fnv_step(a, bytes.last()) == fnv_step(b, bytes.last()) {
            lemma_step_injective(a, bytes.last(), b, bytes.last());
            assert(a == b) by (bit_vector)
                requires
                    a ^ c == b ^ c,
            ;
        }
    }
}

/// Hashing a concatenation is hashing on from the hash of its first part.
pub proof fn law_hash_continues(h: u64, a: Seq<u8>, b: Seq<u8>)
    ensures
        fnv_from(h, a + b) == fnv_from(fnv_from(h, a), b),
    decreases b.len(),
{
    if b.len() == 0 {
        assert(a + b =~= a);
    } else {
        law_hash_continues(h, a, b.drop_last());
        assert((a + b).drop_last() =~= a + b.drop_last());
    }
}

/// Two texts of bytes that differ in one place have different hashes.
pub proof fn law_one_changed_byte_changes_the_hash(h: u64, bytes: Seq<u8>, i: int, byte: u8)
    requires
        0 <= i < bytes.len(),
        bytes[i] != byte,
    ensures
        fnv_from(h, bytes.update(i, byte)) != fnv_from(h, bytes),
{
    let head = bytes.take(i);
    let tail = bytes.skip(i + 1);
    assert(bytes =~= head + (seq![bytes[i]] + tail));
    assert(bytes.update(i, byte) =~= head + (seq![byte] + tail));
    let at = fnv_from(h, head);
    law_hash_continues(h, head, seq![bytes[i]] + tail);
    law_hash_continues(h, head, seq![byte] + tail);
    law_hash_continues(at, seq![bytes[i]], tail);
    law_hash_continues(at, seq![byte], tail);
    assert(seq![bytes[i]].drop_last() =~= Seq::<u8>::empty());
    assert(seq![byte].drop_last() =~= Seq::<u8>::empty());
    let (p, q) = (bytes[i], byte);
    let (p64, q64) = (p as u64, q as u64);
    reveal_with_fuel(fnv_from, 2);
    if fnv_step(at, p) == fnv_step(at, q) {
        lemma_step_injective(at, p, at, q);
        assert(p64 == q64) by (bit_vector)
            requires
                at ^ p64 == at ^ q64,
        ;
    }
    lemma_states_stay_apart(fnv_step(at, p), fnv_step(at, q), tail);
}

} // verus!
