//! Turning, shading, packing and hashing images.

use vstd::prelude::*;

use crate::model::Widget;
use crate::panel::{document, DeviceProfile, Palette, PanelGeometry};
use crate::raster::{
    bit, dither_threshold, divided_out, fnv_from, inked, luminance, packed, png_of, rgb565,
    rgb565_bytes, straight_bytes, turned, Pixel, PngFaultView, RasterView, FNV_OFFSET,
};
use crate::render::{
    edge, encoded, low_bytes, paintable, rendering, rev_input, svg_fault,
    RenderedImage,
};
use crate::text::{hex_digit, hex_of};

verus! {

// ---- turning -------------------------------------------------------------

proof fn lemma_spot(x: int, y: int, w: int, h: int)
    requires
        0 <= x < w,
        0 <= y < h,
    ensures
        0 <= y * w + x < w * h,
        (y * w + x) / w == y,
        (y * w + x) % w == x,
{
    assert(0 <= y * w + x < w * h) by (nonlinear_arith)
        requires
            0 <= x < w,
            0 <= y < h,
    ;
    assert((y * w + x) / w == y) by (nonlinear_arith)
        requires
            0 <= x < w,
            0 <= y,
    ;
    assert((y * w + x) % w == x) by (nonlinear_arith)
        requires
            0 <= x < w,
            0 <= y,
    ;
}

/// A clockwise quarter turn brings the top row to the right edge: what stood in column `x` of
/// row `y` stands, from the right, in column `y` of row `x`. Two turns bring it to the other
/// end of both, three from the bottom, and none leaves it. Every other turn swaps the sides.
pub proof fn law_turns_are_clockwise(v: RasterView, x: int, y: int)
    requires
        v.wf(),
        0 <= x < v.width,
        0 <= y < v.height,
    ensures
        turned(v, 0).at(x, y) == v.at(x, y),
        turned(v, 1).at(v.height - 1 - y, x) == v.at(x, y),
        turned(v, 2).at(v.width - 1 - x, v.height - 1 - y) == v.at(x, y),
        turned(v, 3).at(y, v.width - 1 - x) == v.at(x, y),
        turned(v, 0).width == v.width && turned(v, 0).height == v.height,
        turned(v, 1).width == v.height && turned(v, 1).height == v.width,
        turned(v, 2).width == v.width && turned(v, 2).height == v.height,
        turned(v, 3).width == v.height && turned(v, 3).height == v.width,
{
    let (w, h) = (v.width, v.height);
    lemma_spot(x, y, w, h);
    lemma_spot(h - 1 - y, x, h, w);
    lemma_spot(w - 1 - x, h - 1 - y, w, h);
    lemma_spot(y, w - 1 - x, h, w);
}

// ---- shading -------------------------------------------------------------

/// The luminance of an opaque pixel weighs red with 77, green with 150 and blue with 29 parts of
/// 256, and a grey is as light as its channels say.
pub proof fn law_luminance_weighs_the_channels(p: Pixel)
    requires
        p.a == 255,
    ensures
        256 * luminance(p) <= 77 * p.r + 150 * p.g + 29 * p.b < 256 * luminance(p) + 256,
        p.r == p.g && p.g == p.b ==> luminance(p) == p.r,
{
}

/// What lets light through shows the white below it: a clear pixel is white.
pub proof fn law_clear_pixels_are_white(p: Pixel)
    requires
        p.r == 0 && p.g == 0 && p.b == 0 && p.a == 0,
    ensures
        luminance(p) == 255,
        rgb565(p) == 0xffff,
{
}

/// A channel over white: what lets light through is as much lighter, and nothing is lighter than
/// white.
pub open spec fn lit(channel: u8, alpha: u8) -> int {
    if channel + 255 - alpha > 255 {
        255
    } else {
        channel + 255 - alpha
    }
}

/// The luminance of any pixel is that of its channels over white.
pub proof fn law_luminance_is_over_white(p: Pixel)
    requires
        p.r <= p.a && p.g <= p.a && p.b <= p.a,
    ensures
        256 * luminance(p) <= 77 * lit(p.r, p.a) + 150 * lit(p.g, p.a) + 29 * lit(p.b, p.a) < 256
            * luminance(p) + 256,
{
}

/// The ordered dither repeats every four columns and rows, with sixteen different thresholds.
pub proof fn law_dither_thresholds(x: int, y: int)
    requires
        x >= 0,
        y >= 0,
    ensures
        dither_threshold(x + 4, y) == dither_threshold(x, y),
        dither_threshold(x, y + 4) == dither_threshold(x, y),
        dither_threshold(0, 0) == 1 && dither_threshold(1, 0) == 128,
        dither_threshold(2, 0) == 32 && dither_threshold(3, 0) == 160,
        dither_threshold(0, 1) == 192 && dither_threshold(1, 1) == 64,
        dither_threshold(2, 1) == 224 && dither_threshold(3, 1) == 96,
        dither_threshold(0, 2) == 48 && dither_threshold(1, 2) == 176,
        dither_threshold(2, 2) == 16 && dither_threshold(3, 2) == 144,
        dither_threshold(0, 3) == 240 && dither_threshold(1, 3) == 112,
        dither_threshold(2, 3) == 208 && dither_threshold(3, 3) == 80,
        1 <= dither_threshold(x, y) <= 240,
{
    assert((x + 4) % 4 == x % 4);
    assert((y + 4) % 4 == y % 4);
}

/// Black is ink and white is not, wherever they stand; and a pixel that becomes ink would do so
/// if it were darker.
pub proof fn law_dark_pixels_become_ink(p: Pixel, q: Pixel, x: int, y: int)
    requires
        x >= 0,
        y >= 0,
    ensures
        p.r == 0 && p.g == 0 && p.b == 0 && p.a == 255 ==> inked(p, x, y),
        p.r == 255 && p.g == 255 && p.b == 255 && p.a == 255 ==> !inked(p, x, y),
        inked(p, x, y) && luminance(q) <= luminance(p) ==> inked(q, x, y),
        inked(p, x, y) <==> luminance(p) < dither_threshold(x, y),
{
    law_dither_thresholds(x, y);
}

// ---- packing -------------------------------------------------------------

/// Two to the power of a number below eight.
pub open spec fn weight_of(k: int) -> int {
    if k == 0 {
        1
    } else if k == 1 {
        2
    } else if k == 2 {
        4
    } else if k == 3 {
        8
    } else if k == 4 {
        16
    } else if k == 5 {
        32
    } else if k == 6 {
        64
    } else {
        128
    }
}

proof fn lemma_bit(b: u8, k: u8)
    requires
        k < 8,
    ensures
        bit(b, k) <==> (b as int / weight_of(k as int)) % 2 == 1,
{
    assert((b >> 0) & 1 == (b / 1) % 2) by (bit_vector);
    assert((b >> 1) & 1 == (b / 2) % 2) by (bit_vector);
    assert((b >> 2) & 1 == (b / 4) % 2) by (bit_vector);
    assert((b >> 3) & 1 == (b / 8) % 2) by (bit_vector);
    assert((b >> 4) & 1 == (b / 16) % 2) by (bit_vector);
    assert((b >> 5) & 1 == (b / 32) % 2) by (bit_vector);
    assert((b >> 6) & 1 == (b / 64) % 2) by (bit_vector);
    assert((b >> 7) & 1 == (b / 128) % 2) by (bit_vector);
}

/// In a packed image, each row takes whole bytes, of which the highest bit is the leftmost
/// pixel. A bit is one where the pixel is at least as light as its threshold, and in what pads
/// the row.
pub proof fn law_packed_bits(bytes: Seq<u8>, pixels: Seq<Pixel>, w: int, h: int, x: int, y: int)
    requires
        packed(bytes, pixels, w, h),
        w >= 0,
        0 <= y < h,
        0 <= x < (w + 7) / 8 * 8,
    ensures
        bytes.len() == (w + 7) / 8 * h,
        ({
            let byte = bytes[y * ((w + 7) / 8) + x / 8];
            let one = (byte as int / weight_of(7 - x % 8)) % 2 == 1;
            &&& x < w ==> (one <==> luminance(pixels[y * w + x]) >= dither_threshold(x, y))
            &&& x >= w ==> one
        }),
{
    let byte = bytes[y * ((w + 7) / 8) + x / 8];
    lemma_bit(byte, (7 - x % 8) as u8);
    assert(crate::raster::white_at(bytes, w, x, y) <==> x >= w || !inked(
        pixels[y * w + x],
        x,
        y,
    ));
}

/// An RGB565 image holds two bytes for each pixel, the high one first: five bits of red, six of
/// green and five of blue, each of the channel over white.
pub proof fn law_rgb565_pixels(pixels: Seq<Pixel>, i: int)
    requires
        0 <= i < pixels.len(),
    ensures
        rgb565_bytes(pixels).len() == 2 * pixels.len(),
        ({
            let p = pixels[i];
            let value = rgb565_bytes(pixels)[2 * i] * 256 + rgb565_bytes(pixels)[2 * i + 1];
            &&& p.a == 255 ==> value == (p.r as int / 8) * 2048 + (p.g as int / 4) * 32 + p.b as int
                / 8
            &&& value == (lit(p.r, p.a) / 8) * 2048 + (lit(p.g, p.a) / 4) * 32 + lit(p.b, p.a) / 8
        }),
{
    assert((2 * i) / 2 == i && (2 * i) % 2 == 0);
    assert((2 * i + 1) / 2 == i && (2 * i + 1) % 2 == 1);
    assert(0 <= rgb565(pixels[i]) <= 0xffff);
}

proof fn lemma_quotient(n: int, d: int)
    requires
        d > 0,
        n >= 0,
    ensures
        (n / d) * d <= n < (n / d) * d + d,
{
    assert((n / d) * d <= n < (n / d) * d + d) by (nonlinear_arith)
        requires
            d > 0,
            n >= 0,
    ;
}

/// A straight RGBA image holds four bytes for each pixel, red, green, blue and alpha. An opaque
/// pixel keeps its channels, a clear one has none, and each channel of any other is the nearest
/// whole number to it divided by the alpha.
pub proof fn law_straight_pixels(pixels: Seq<Pixel>, i: int)
    requires
        0 <= i < pixels.len(),
    ensures
        straight_bytes(pixels).len() == 4 * pixels.len(),
        ({
            let p = pixels[i];
            let r = straight_bytes(pixels)[4 * i];
            let g = straight_bytes(pixels)[4 * i + 1];
            let b = straight_bytes(pixels)[4 * i + 2];
            let a = straight_bytes(pixels)[4 * i + 3];
            &&& a == p.a
            &&& p.a == 255 ==> r == p.r && g == p.g && b == p.b
            &&& p.a == 0 ==> r == 0 && g == 0 && b == 0
            &&& 0 < p.a < p.r ==> r == 255
            &&& 0 < p.a < p.g ==> g == 255
            &&& 0 < p.a < p.b ==> b == 255
            &&& p.a > 0 && p.r <= p.a ==> -p.a <= 2 * (r * p.a - p.r * 255) <= p.a
            &&& p.a > 0 && p.g <= p.a ==> -p.a <= 2 * (g * p.a - p.g * 255) <= p.a
            &&& p.a > 0 && p.b <= p.a ==> -p.a <= 2 * (b * p.a - p.b * 255) <= p.a
        }),
{
    assert((4 * i) / 4 == i && (4 * i) % 4 == 0);
    assert((4 * i + 1) / 4 == i && (4 * i + 1) % 4 == 1);
    assert((4 * i + 2) / 4 == i && (4 * i + 2) % 4 == 2);
    assert((4 * i + 3) / 4 == i && (4 * i + 3) % 4 == 3);
    let p = pixels[i];
    lemma_divided(p.r, p.a);
    lemma_divided(p.g, p.a);
    lemma_divided(p.b, p.a);
}

proof fn lemma_divided(c: u8, a: u8)
    ensures
        0 <= divided_out(c, a) <= 255,
        a == 255 ==> divided_out(c, a) == c,
        a == 0 ==> divided_out(c, a) == 0,
        0 < a < c ==> divided_out(c, a) == 255,
        a > 0 && c <= a ==> -a <= 2 * (divided_out(c, a) * a - c * 255) <= a,
{
    if a > 0 {
        let d = a as int;
        let n = c * 255 + d / 2;
        lemma_quotient(n, d);
        let q = n / d;
        if a == 255 {
            assert(q == c) by {
                assert(q * 255 <= c * 255 + 127 < q * 255 + 255);
            }
        }
        if c > a {
            assert(q >= 255) by (nonlinear_arith)
                requires
                    c * 255 + d / 2 < q * d + d,
                    c >= d + 1,
                    d > 0,
            ;
        }
        if c <= a {
            assert(q <= 255) by (nonlinear_arith)
                requires
                    q * d <= c * 255 + d / 2,
                    c <= d,
                    d > 0,
                    d / 2 < d,
            ;
        }
    }
}

// ---- hashing -------------------------------------------------------------

/// The hash is 64-bit FNV-1a: from its offset basis, each byte is mixed in and the state
/// multiplied by the prime, modulo two to the power of 64.
pub proof fn law_hashes_are_fnv1a(h: u64, bytes: Seq<u8>, b: u8)
    ensures
        FNV_OFFSET == 14_695_981_039_346_656_037,
        fnv_from(h, Seq::empty()) == h,
        fnv_from(h, bytes.push(b)) == ((fnv_from(h, bytes) ^ (b as u64)) * 1_099_511_628_211)
            % 18_446_744_073_709_551_616,
{
    assert(bytes.push(b).drop_last() =~= bytes);
}

/// The value of digits, the highest first, in a base.
pub open spec fn value_in(digits: Seq<int>, base: int) -> int
    decreases digits.len(),
{
    if digits.len() == 0 {
        0
    } else {
        value_in(digits.drop_last(), base) * base + digits.last()
    }
}

/// The value of a lower-case hexadecimal digit.
pub open spec fn hex_value(c: char) -> int {
    if '0' <= c <= '9' {
        c as int - 48
    } else if 'a' <= c <= 'f' {
        c as int - 87
    } else {
        -1
    }
}

/// The values of hexadecimal digits.
pub open spec fn hex_values(s: Seq<char>) -> Seq<int> {
    Seq::new(s.len(), |i: int| hex_value(s[i]))
}

/// A hexadecimal numeral has as many digits as are asked for, all of them lower-case, and reads
/// back as its number where that fits.
pub proof fn law_hex_numerals_read_back(n: nat, width: nat)
    requires
        n < crate::text::sixteen_to(width),
    ensures
        hex_of(n, width).len() == width,
        forall|i: int| 0 <= i < width ==> 0 <= hex_value(#[trigger] hex_of(n, width)[i]) < 16,
        value_in(hex_values(hex_of(n, width)), 16) == n,
    decreases width,
{
    let s = hex_of(n, width);
    if width > 0 {
        let before = (width - 1) as nat;
        law_hex_numerals_read_back(n / 16, before);
        let head = hex_of(n / 16, before);
        assert(hex_values(s).drop_last() =~= hex_values(head));
        assert(hex_value(hex_digit(n % 16)) == n % 16);
        assert forall|i: int| 0 <= i < width implies 0 <= hex_value(#[trigger] s[i]) < 16 by {
            if i < before {
                assert(s[i] == head[i]);
            }
        }
    }
}

proof fn lemma_low_bytes(m: nat, n: nat, count: nat)
    requires
        low_bytes(m, count) == low_bytes(n, count),
        m < bytes_hold(count),
        n < bytes_hold(count),
    ensures
        m == n,
    decreases count,
{
    if count > 0 {
        let (a, b) = (low_bytes(m, count), low_bytes(n, count));
        let (p, q) = (
            low_bytes(m / 256, (count - 1) as nat),
            low_bytes(n / 256, (count - 1) as nat),
        );
        assert(a[0] == (m % 256) as u8 && b[0] == (n % 256) as u8);
        assert(a.skip(1) =~= p);
        assert(b.skip(1) =~= q);
        lemma_low_bytes(m / 256, n / 256, (count - 1) as nat);
    }
}

/// How many numbers so many bytes hold.
pub open spec fn bytes_hold(count: nat) -> nat
    decreases count,
{
    if count == 0 {
        1
    } else {
        256 * bytes_hold((count - 1) as nat)
    }
}

proof fn lemma_low_len(n: nat, count: nat)
    ensures
        low_bytes(n, count).len() == count,
    decreases count,
{
    if count > 0 {
        lemma_low_len(n / 256, (count - 1) as nat);
    }
}

/// Everything that an image is goes into its revision: images that agree in what is hashed have
/// the same bytes, and were made for panels of one size and depth of pictures of one hash.
pub proof fn law_revisions_take_in_the_whole_image(a: RenderedImage, b: RenderedImage)
    requires
        rev_input(a) == rev_input(b),
    ensures
        a.bytes@ == b.bytes@,
        a.profile.w == b.profile.w,
        a.profile.h == b.profile.h,
        a.profile.bit_depth == b.profile.bit_depth,
        a.source_hash == b.source_hash,
{
    let (x, y) = (rev_input(a), rev_input(b));
    lemma_low_len(a.source_hash as nat, 8);
    lemma_low_len(b.source_hash as nat, 8);
    lemma_low_len(a.profile.w as nat, 4);
    lemma_low_len(b.profile.w as nat, 4);
    lemma_low_len(a.profile.h as nat, 4);
    lemma_low_len(b.profile.h as nat, 4);
    assert(x.take(8) =~= low_bytes(a.source_hash as nat, 8));
    assert(y.take(8) =~= low_bytes(b.source_hash as nat, 8));
    assert(x.subrange(8, 12) =~= low_bytes(a.profile.w as nat, 4));
    assert(y.subrange(8, 12) =~= low_bytes(b.profile.w as nat, 4));
    assert(x.subrange(12, 16) =~= low_bytes(a.profile.h as nat, 4));
    assert(y.subrange(12, 16) =~= low_bytes(b.profile.h as nat, 4));
    assert(x[16] == a.profile.bit_depth && y[16] == b.profile.bit_depth);
    assert(x.skip(17) =~= a.bytes@);
    assert(y.skip(17) =~= b.bytes@);
    reveal_with_fuel(bytes_hold, 9);
    lemma_low_bytes(a.source_hash as nat, b.source_hash as nat, 8);
    lemma_low_bytes(a.profile.w as nat, b.profile.w as nat, 4);
    lemma_low_bytes(a.profile.h as nat, b.profile.h as nat, 4);
}

/// Numbers go into the hash by their bytes, the lowest first.
pub proof fn law_numbers_go_in_lowest_byte_first(n: nat, count: nat)
    requires
        count > 0,
    ensures
        low_bytes(n, count).len() == count,
        low_bytes(n, count)[0] == n % 256,
        low_bytes(n, count).skip(1) == low_bytes(n / 256, (count - 1) as nat),
{
    lemma_low_len(n, count);
    assert(low_bytes(n, count).skip(1) =~= low_bytes(n / 256, (count - 1) as nat));
}

// ---- rendering -----------------------------------------------------------

/// An image that was rendered for a panel tells that panel, and the hash of the very document
/// that the dashboard has on it, laid out upright.
pub proof fn law_images_are_of_their_dashboard(
    image: RenderedImage,
    widgets: Seq<Widget>,
    profile: DeviceProfile,
    geometry: PanelGeometry,
)
    requires
        rendering(Ok(image), widgets, profile, geometry),
    ensures
        image.profile == profile,
        image.source_hash == fnv_from(
            14_695_981_039_346_656_037,
            vstd::utf8::encode_utf8(document(widgets, profile.upright(), geometry)),
        ),
        svg_fault(document(widgets, profile.upright(), geometry)) is None,
        profile.palette == Palette::Mono || profile.palette == Palette::Rgb565
            ==> image.content_type@ == "application/octet-stream"@,
        profile.palette == Palette::Rgba ==> image.content_type@ == "image/png"@,
{
}

/// Rendering fails only where it must: when the document is refused, when the picture is too
/// wide, or when a PNG cannot be written.
pub proof fn law_rendering_fails_only_where_it_must(
    r: Result<RenderedImage, String>,
    widgets: Seq<Widget>,
    profile: DeviceProfile,
    geometry: PanelGeometry,
)
    requires
        rendering(r, widgets, profile, geometry),
        svg_fault(document(widgets, profile.upright(), geometry)) is None,
        profile.upright().w <= 536_870_911,
        profile.palette != Palette::Rgba,
    ensures
        r is Ok,
{
}

/// A document that is refused gives no image, and the answer says why.
pub proof fn law_refused_documents_give_no_image(
    r: Result<RenderedImage, String>,
    widgets: Seq<Widget>,
    profile: DeviceProfile,
    geometry: PanelGeometry,
    fault: Seq<char>,
)
    requires
        rendering(r, widgets, profile, geometry),
        svg_fault(document(widgets, profile.upright(), geometry)) == Some(fault),
    ensures
        r matches Err(e) && e@ == "parsing dashboard SVG failed: "@ + fault,
{
}

/// A picture that is wider than any canvas gives no image, and neither does a PNG that cannot be
/// written; each says so in words.
pub proof fn law_failures_of_rendering_are_told(
    r: Result<RenderedImage, String>,
    widgets: Seq<Widget>,
    profile: DeviceProfile,
    geometry: PanelGeometry,
    reason: Seq<char>,
)
    ensures
        rendering(r, widgets, profile, geometry) && svg_fault(
            document(widgets, profile.upright(), geometry),
        ) is None && profile.upright().w > 536_870_911 ==> (r matches Err(e) && e@
            == "pixmap alloc failed"@),
        PngFaultView::Header(reason).message() == "png header: "@ + reason,
        PngFaultView::Data(reason).message() == "png data: "@ + reason,
{
}

/// A one-bit image shows, at each place, the pixel that the panel's turns bring there.
pub proof fn law_one_bit_images_are_turned(
    bytes: Seq<u8>,
    content_type: Seq<char>,
    upright: RasterView,
    profile: DeviceProfile,
    x: int,
    y: int,
)
    requires
        encoded(bytes, content_type, upright, profile),
        profile.palette == Palette::Mono,
        0 <= x < profile.w,
        0 <= y < profile.h,
    ensures
        content_type == "application/octet-stream"@,
        ({
            let byte = bytes[y * ((profile.w as int + 7) / 8) + x / 8];
            let one = (byte as int / weight_of(7 - x % 8)) % 2 == 1;
            one <==> luminance(
                turned(upright, profile.rotation as int / 90 % 4).pixels[y * profile.w + x],
            ) >= dither_threshold(x, y)
        }),
{
    law_packed_bits(
        bytes,
        turned(upright, profile.quarter()).pixels,
        profile.w as int,
        profile.h as int,
        x,
        y,
    );
}

/// A colour image is made of the pixels that the panel's turns give: as RGB565, or as a PNG of
/// their straight samples.
pub proof fn law_colour_images_are_turned(
    bytes: Seq<u8>,
    content_type: Seq<char>,
    upright: RasterView,
    profile: DeviceProfile,
)
    requires
        encoded(bytes, content_type, upright, profile),
    ensures
        ({
            let pixels = turned(upright, profile.rotation as int / 90 % 4).pixels;
            &&& profile.palette == Palette::Rgb565 ==> content_type == "application/octet-stream"@
                && bytes == rgb565_bytes(pixels)
            &&& profile.palette == Palette::Rgba ==> content_type == "image/png"@ && png_of(
                straight_bytes(pixels),
                profile.w,
                profile.h,
            ) == Ok::<Seq<u8>, PngFaultView>(bytes)
        }),
{
}

/// A panel without a size is painted as one of a pixel; a picture past the widest canvas is
/// refused and need not fit.
pub proof fn law_sizes_that_can_be_painted(w: u32, h: u32)
    ensures
        edge(0) == 1,
        w >= 1 ==> edge(w) == w,
        w > 536_870_911 ==> paintable(w, h),
        w <= 429_496_729 && h <= 429_496_729 && 4 * edge(w) * edge(h) <= isize::MAX ==> paintable(w, h),
        w <= 536_870_911 && (w > 429_496_729 || h > 429_496_729) ==> !paintable(w, h),
{
}

} // verus!
