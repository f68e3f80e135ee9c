//! Rendering a dashboard to the image that a device shows.
//!
//! The picture of [`crate::panel`] is rasterized, turned to the panel's orientation and
//! encoded as the panel expects.

use std::sync::Arc;

use vstd::prelude::*;

use crate::model::Widget;
use crate::panel::{build_svg, content_profile, document, DeviceProfile, Palette, PanelGeometry};
use crate::raster::{
    encode_png, fnv1a64, fnv_extend, fnv_from, law_hash_continues,
    law_one_changed_byte_changes_the_hash, pack_1bit, packed, png_of,
    png_signature, rgb565_bytes, rotate_pixmap, row_bytes, straight_bytes, to_rgb565, turned, Pixel,
    Raster, RasterView, FNV_OFFSET,
};
use crate::text::{hex16, hex_of, law_hex_numerals_are_distinct, opt_text, sixteen_to};

verus! {

/// A rendered image with what it was rendered for.
#[derive(Debug)]
pub struct RenderedImage {
    /// The image in the panel's encoding.
    pub bytes: Vec<u8>,
    /// The content type of the bytes.
    pub content_type: &'static str,
    /// The panel that the image is for.
    pub profile: DeviceProfile,
    /// The hash of the picture that the image was made of. A small change of the picture can
    /// leave the bytes of a one-bit image as they were.
    pub source_hash: u64,
}

/// The low `count` bytes of a number, the lowest first.
pub open spec fn low_bytes(n: nat, count: nat) -> Seq<u8>
    decreases count,
{
    if count == 0 {
        Seq::empty()
    } else {
        seq![(n % 256) as u8] + low_bytes(n / 256, (count - 1) as nat)
    }
}

fn mix_low_bytes(h: u64, n: u64, count: u32) -> (r: u64)
    ensures
        r == fnv_from(h, low_bytes(n as nat, count as nat)),
    decreases count,
{
    if count == 0 {
        h
    } else {
        let first: u8 = (n % 256) as u8;
        let mut one: Vec<u8> = Vec::new();
        one.push(first);
        assert(one@ =~= seq![first]);
        let state = fnv_extend(h, one.as_slice());
        proof {
            law_hash_continues(h, seq![first], low_bytes(n as nat / 256, (count - 1) as nat));
        }
        mix_low_bytes(state, n / 256, count - 1)
    }
}

/// What the revision of an image is a hash of: the picture's hash, the panel's size and
/// depth, and the bytes.
pub open spec fn rev_input(image: RenderedImage) -> Seq<u8> {
    low_bytes(image.source_hash as nat, 8) + (low_bytes(image.profile.w as nat, 4) + (low_bytes(
        image.profile.h as nat,
        4,
    ) + (seq![image.profile.bit_depth] + image.bytes@)))
}

impl RenderedImage {
    /// The revision of the image: sixteen hexadecimal digits that change with the content.
    pub fn rev(&self) -> (r: String)
        ensures
            r@ == hex_of(fnv_from(FNV_OFFSET, rev_input(*self)) as nat, 16),
    {
        let ghost a = low_bytes(self.source_hash as nat, 8);
        let ghost b = low_bytes(self.profile.w as nat, 4);
        let ghost c = low_bytes(self.profile.h as nat, 4);
        let ghost d = seq![self.profile.bit_depth];
        let h1 = mix_low_bytes(FNV_OFFSET, self.source_hash, 8);
        let h2 = mix_low_bytes(h1, self.profile.w as u64, 4);
        let h3 = mix_low_bytes(h2, self.profile.h as u64, 4);
        let mut depth: Vec<u8> = Vec::new();
        depth.push(self.profile.bit_depth);
        assert(depth@ =~= d);
        let h4 = fnv_extend(h3, depth.as_slice());
        let h5 = fnv_extend(h4, self.bytes.as_slice());
        proof {
            law_hash_continues(FNV_OFFSET, a, b + (c + (d + self.bytes@)));
            law_hash_continues(h1, b, c + (d + self.bytes@));
            law_hash_continues(h2, c, d + self.bytes@);
            law_hash_continues(h3, d, self.bytes@);
        }
        hex16(h5)
    }
}

/// An image for a panel of the same size and depth that differs from another in one byte has
/// another revision.
pub proof fn law_one_changed_byte_changes_the_rev(a: RenderedImage, b: RenderedImage, i: int)
    requires
        a.profile.w == b.profile.w,
        a.profile.h == b.profile.h,
        a.profile.bit_depth == b.profile.bit_depth,
        a.source_hash == b.source_hash,
        0 <= i < a.bytes@.len(),
        a.bytes@[i] != b.bytes@[i],
        b.bytes@ == a.bytes@.update(i, b.bytes@[i]),
    ensures
        hex_of(fnv_from(FNV_OFFSET, rev_input(a)) as nat, 16) != hex_of(
            fnv_from(FNV_OFFSET, rev_input(b)) as nat,
            16,
        ),
{
    let at = rev_input(a).len() - a.bytes@.len() + i;
    assert(rev_input(a)[at] == a.bytes@[i]);
    assert(rev_input(b) =~= rev_input(a).update(at, b.bytes@[i]));
    law_one_changed_byte_changes_the_hash(FNV_OFFSET, rev_input(a), at, b.bytes@[i]);
    let (p, q) = (fnv_from(FNV_OFFSET, rev_input(a)), fnv_from(FNV_OFFSET, rev_input(b)));
    assert(sixteen_to(16) == 0x1_0000_0000_0000_0000) by {
        reveal_with_fuel(sixteen_to, 17);
    }
    if hex_of(p as nat, 16) == hex_of(q as nat, 16) {
        law_hex_numerals_are_distinct(p as nat, q as nat, 16);
    }
}

// ---- rasterizing ---------------------------------------------------------

/// `fontdb::Database`, the fonts that text is drawn with.
#[verifier::external_type_specification]
#[verifier::external_body]
pub struct ExFontDatabase(resvg::usvg::fontdb::Database);

/// `tiny_skia::Pixmap`, the canvas that a document is painted on.
#[verifier::external_type_specification]
#[verifier::external_body]
pub struct ExCanvas(resvg::tiny_skia::Pixmap);

/// The width and height of a canvas.
pub uninterp spec fn canvas_size(canvas: resvg::tiny_skia::Pixmap) -> (u32, u32);

/// The pixels of a canvas, row by row.
pub uninterp spec fn canvas_pixels(canvas: resvg::tiny_skia::Pixmap) -> Seq<Pixel>;

/// The message with which `usvg::Tree::from_str` refuses a document, if it does.
pub uninterp spec fn svg_fault(svg: Seq<char>) -> Option<Seq<char>>;

/// Whether `after` are pixels that `resvg::render` can leave, with the fonts of some machine,
/// when it paints what `usvg::Tree::from_str` makes of a document on a canvas of `w` by `h`
/// pixels that holds `before`.
pub uninterp spec fn painting(
    svg: Seq<char>,
    w: u32,
    h: u32,
    before: Seq<Pixel>,
    after: Seq<Pixel>,
) -> bool;

/// Transparent black pixels.
pub open spec fn blank_pixels(count: int) -> Seq<Pixel> {
    Seq::new(count as nat, |i: int| (Pixel { r: 0, g: 0, b: 0, a: 0 }))
}

/// The largest width or height that a document is painted at.
pub const MAX_EDGE: u32 = 429_496_729;

/// The largest width that a canvas can have.
pub const MAX_WIDTH: u32 = 536_870_911;

/// Whether a text is the document of a dashboard on a panel.
pub open spec fn is_document(svg: Seq<char>) -> bool {
    exists|widgets: Seq<Widget>, profile: DeviceProfile, geometry: PanelGeometry|
        {
            &&& geometry.cells@.len() == widgets.len()
            &&& geometry.sound()
            &&& svg == #[trigger] document(widgets, profile, geometry)
        }
}

/// Calls `usvg::Tree::from_str` with the default options and the given fonts, and keeps the
/// message of its refusal. Whether the document is refused, and with which message, depends on
/// its text alone: it is when a text in it holds a character that XML does not allow, when it
/// holds too many nodes, or when it has no valid size. Of documents that are no dashboard's
/// some make `usvg` panic.
#[verifier::external_body]
fn svg_refusal(svg: &str, fonts: &Arc<resvg::usvg::fontdb::Database>) -> (r: Option<String>)
    requires
        is_document(svg@),
    ensures
        opt_text(r) == svg_fault(svg@),
{
    let mut options = resvg::usvg::Options::default();
    options.fontdb = fonts.clone();
    resvg::usvg::Tree::from_str(svg, &options).err().map(|e| e.to_string())
}

/// Calls `tiny_skia::Pixmap::new`: a canvas of that size, with every pixel transparent
/// black; none when an edge is zero or a row has more bytes than a 32-bit signed integer
/// counts. The bytes of a canvas that is made must be as few as an allocation can hold.
#[verifier::external_body]
fn new_canvas(w: u32, h: u32) -> (r: Option<resvg::tiny_skia::Pixmap>)
    requires
        w > MAX_WIDTH || 4 * w * h <= isize::MAX,
    ensures
        r is Some == (w > 0 && w <= MAX_WIDTH && h > 0),
        r matches Some(canvas) ==> canvas_size(canvas) == (w, h),
        r matches Some(canvas) ==> canvas_pixels(canvas) == blank_pixels(w * h),
{
    resvg::tiny_skia::Pixmap::new(w, h)
}

/// Calls `usvg::Tree::from_str` with the default options and the given fonts, and
/// `resvg::render` with the identity transform on the tree that it makes. A document that is
/// refused leaves the canvas as it was; any other is painted over the pixels of the canvas,
/// which keeps its size. Which pixels come out, of those that the document allows, is not
/// claimed: that rests on the machine's fonts and on its floating-point units. Edges past
/// [`MAX_EDGE`] make `resvg` panic, and so do some documents that are no dashboard's.
#[verifier::external_body]
fn paint(
    svg: &str,
    canvas: &mut resvg::tiny_skia::Pixmap,
    fonts: &Arc<resvg::usvg::fontdb::Database>,
) -> (r: Result<(), String>)
    requires
        is_document(svg@),
        canvas_size(*old(canvas)).0 <= MAX_EDGE,
        canvas_size(*old(canvas)).1 <= MAX_EDGE,
    ensures
        canvas_size(*final(canvas)) == canvas_size(*old(canvas)),
        match r {
            Ok(()) => svg_fault(svg@) is None && painting(
                svg@,
                canvas_size(*old(canvas)).0,
                canvas_size(*old(canvas)).1,
                canvas_pixels(*old(canvas)),
                canvas_pixels(*final(canvas)),
            ),
            Err(e) => svg_fault(svg@) == Some(e@) && canvas_pixels(*final(canvas))
                == canvas_pixels(*old(canvas)),
        },
{
    let mut options = resvg::usvg::Options::default();
    options.fontdb = fonts.clone();
    let tree = resvg::usvg::Tree::from_str(svg, &options).map_err(|e| e.to_string())?;
    resvg::render(&tree, resvg::tiny_skia::Transform::identity(), &mut canvas.as_mut());
    Ok(())
}

/// Calls `tiny_skia::Pixmap::pixels`: one pixel for each position of the canvas, row by row.
#[verifier::external_body]
fn read_pixels(canvas: &resvg::tiny_skia::Pixmap) -> (r: Vec<Pixel>)
    ensures
        r@ == canvas_pixels(*canvas),
        r@.len() == canvas_size(*canvas).0 * canvas_size(*canvas).1,
{
    canvas.pixels().iter().map(
        |p| Pixel { r: p.red(), g: p.green(), b: p.blue(), a: p.alpha() },
    ).collect()
}

/// An edge of at least one pixel.
pub open spec fn edge(n: u32) -> u32 {
    if n < 1 {
        1
    } else {
        n
    }
}

/// Whether a canvas of this size can be painted, with bytes that one allocation can hold.
pub open spec fn fits(w: u32, h: u32) -> bool {
    &&& w <= MAX_EDGE
    &&& h <= MAX_EDGE
    &&& 4 * edge(w) * edge(h) <= isize::MAX
}

/// Whether a picture of this size can be painted, or is refused because it is too wide.
pub open spec fn paintable(w: u32, h: u32) -> bool {
    w > MAX_WIDTH || fits(w, h)
}

/// Whether a picture of this size can be painted, or is refused because it is too wide.
pub fn is_paintable(w: u32, h: u32) -> (r: bool)
    ensures
        r == paintable(w, h),
{
    if w > MAX_WIDTH {
        return true;
    }
    if w > MAX_EDGE || h > MAX_EDGE {
        return false;
    }
    let a: u64 = if w < 1 { 1 } else { w as u64 };
    let b: u64 = if h < 1 { 1 } else { h as u64 };
    assert(4 * a * b <= u64::MAX) by (nonlinear_arith)
        requires
            a <= 429_496_729,
            b <= 429_496_729,
    ;
    assert(4 * a <= u64::MAX);
    4 * a * b <= isize::MAX as u64
}

/// Whether a raster is what painting a document on a blank canvas of the given size can give.
pub open spec fn pictured(svg: Seq<char>, w: u32, h: u32, raster: RasterView) -> bool {
    &&& raster.wf()
    &&& raster.width == edge(w)
    &&& raster.height == edge(h)
    &&& painting(svg, edge(w), edge(h), blank_pixels(edge(w) * edge(h)), raster.pixels)
}

/// Why a document is not painted.
pub open spec fn not_parsed(fault: Seq<char>) -> Seq<char> {
    "parsing dashboard SVG failed: "@ + fault
}

/// Why a canvas is not made.
pub open spec fn too_wide() -> Seq<char> {
    "pixmap alloc failed"@
}

fn not_painted(fault: &str) -> (r: String)
    ensures
        r@ == not_parsed(fault@),
{
    let mut text = "parsing dashboard SVG failed: ".to_owned();
    text.append(fault);
    text
}

/// Rasterizes the document of a dashboard at the given size, each edge at least one pixel. A
/// document that cannot be parsed is refused, and else a canvas that is too wide.
pub fn rasterize(
    svg: &str,
    w: u32,
    h: u32,
    fonts: &Arc<resvg::usvg::fontdb::Database>,
) -> (r: Result<Raster, String>)
    requires
        is_document(svg@),
        paintable(w, h),
    ensures
        match svg_fault(svg@) {
            None => if w > MAX_WIDTH {
                r matches Err(e) && e@ == too_wide()
            } else {
                r matches Ok(raster) && pictured(svg@, w, h, raster@)
            },
            Some(fault) => r matches Err(e) && e@ == not_parsed(fault),
        },
{
    let width: u32 = if w < 1 { 1 } else { w };
    let height: u32 = if h < 1 { 1 } else { h };
    match new_canvas(width, height) {
        None => match svg_refusal(svg, fonts) {
            Some(fault) => Err(not_painted(fault.as_str())),
            None => Err("pixmap alloc failed".to_owned()),
        },
        Some(fresh) => {
            let mut canvas = fresh;
            match paint(svg, &mut canvas, fonts) {
                Err(fault) => Err(not_painted(fault.as_str())),
                Ok(()) => {
                    let pixels = read_pixels(&canvas);
                    Ok(Raster { width, height, pixels })
                },
            }
        },
    }
}

// ---- encoding ------------------------------------------------------------

/// Whether `bytes` and `content_type` are a raster, turned to the panel's orientation, in
/// the panel's encoding.
pub open spec fn encoded(
    bytes: Seq<u8>,
    content_type: Seq<char>,
    upright: RasterView,
    profile: DeviceProfile,
) -> bool {
    let pixels = turned(upright, profile.quarter()).pixels;
    match profile.palette {
        Palette::Mono => content_type == "application/octet-stream"@ && packed(
            bytes,
            pixels,
            profile.w as int,
            profile.h as int,
        ),
        Palette::Rgb565 => content_type == "application/octet-stream"@ && bytes == rgb565_bytes(
            pixels,
        ),
        Palette::Rgba => content_type == "image/png"@ && png_of(
            straight_bytes(pixels),
            profile.w,
            profile.h,
        ) == Ok::<Seq<u8>, crate::raster::PngFaultView>(bytes),
    }
}

/// Whether the panel expects a PNG, and the raster, turned to its orientation, makes none
/// for the given reason.
pub open spec fn not_encoded(e: Seq<char>, upright: RasterView, profile: DeviceProfile) -> bool {
    &&& profile.palette == Palette::Rgba
    &&& png_of(
        straight_bytes(turned(upright, profile.quarter()).pixels),
        profile.w,
        profile.h,
    ) matches Err(fault)
    &&& e == fault.message()
}

/// An image has as many bytes as its panel takes, whichever way the panel is turned: whole
/// bytes for each row of a one-bit panel, and two bytes for each pixel of RGB565.
pub proof fn law_image_fills_the_panel(
    bytes: Seq<u8>,
    content_type: Seq<char>,
    upright: RasterView,
    profile: DeviceProfile,
)
    requires
        upright.wf(),
        upright.width == edge(profile.upright().w),
        upright.height == edge(profile.upright().h),
        encoded(bytes, content_type, upright, profile),
    ensures
        profile.palette == Palette::Mono ==> bytes.len() == row_bytes(profile.w as int) * profile.h,
        profile.palette == Palette::Rgb565 ==> bytes.len() == 2 * (edge(profile.w) * edge(
            profile.h,
        )),
{
    let (w, h) = (edge(profile.w), edge(profile.h));
    assert(w * h >= 0) by (nonlinear_arith)
        requires
            w >= 1,
            h >= 1,
    ;
    assert(turned(upright, profile.quarter()).pixels.len() == w * h);
}

/// Encodes the raster of a picture for a panel. Only a PNG can fail.
pub fn encode_image(svg: &str, upright: &Raster, profile: DeviceProfile) -> (r: Result<
    RenderedImage,
    String,
>)
    requires
        fits(profile.w, profile.h),
        upright@.wf(),
        upright@.width == edge(profile.upright().w),
        upright@.height == edge(profile.upright().h),
    ensures
        match r {
            Ok(image) => {
                &&& encoded(image.bytes@, image.content_type@, upright@, profile)
                &&& image.profile == profile
                &&& image.source_hash == fnv_from(FNV_OFFSET, vstd::utf8::encode_utf8(svg@))
                &&& profile.palette == Palette::Rgba ==> image.bytes@.len() >= 8
                    && image.bytes@.take(8) == png_signature()
            },
            Err(e) => not_encoded(e@, upright@, profile),
        },
{
    let (quarter, _content) = content_profile(profile);
    let pixmap = rotate_pixmap(upright, quarter);
    proof {
        let (w, h) = (profile.w as int, profile.h as int);
        let (a, b) = (edge(profile.w), edge(profile.h));
        assert(pixmap@.width == a && pixmap@.height == b);
        assert(w * h <= a * b) by (nonlinear_arith)
            requires
                0 <= w <= a,
                0 <= h <= b,
        ;
        assert(4 * w * h <= 4 * a * b) by (nonlinear_arith)
            requires
                w * h <= a * b,
        ;
        assert(4 * a * b >= 4 * w) by (nonlinear_arith)
            requires
                0 <= w <= a,
                b >= 1,
        ;
    }
    let source_hash = fnv1a64(svg.as_bytes());
    match profile.palette {
        Palette::Mono => Ok(
            RenderedImage {
                bytes: pack_1bit(&pixmap, profile.w, profile.h),
                content_type: "application/octet-stream",
                profile,
                source_hash,
            },
        ),
        Palette::Rgb565 => Ok(
            RenderedImage {
                bytes: to_rgb565(&pixmap),
                content_type: "application/octet-stream",
                profile,
                source_hash,
            },
        ),
        Palette::Rgba => match encode_png(&pixmap, profile.w, profile.h) {
            Ok(bytes) => Ok(
                RenderedImage { bytes, content_type: "image/png", profile, source_hash },
            ),
            Err(e) => Err(e),
        },
    }
}

/// Whether an image is a picture of a document, made for a panel.
pub open spec fn image_of(image: RenderedImage, svg: Seq<char>, profile: DeviceProfile) -> bool {
    &&& image.profile == profile
    &&& image.source_hash == fnv_from(FNV_OFFSET, vstd::utf8::encode_utf8(svg))
    &&& exists|raster: RasterView|
        #![trigger encoded(image.bytes@, image.content_type@, raster, profile)]
        pictured(svg, profile.upright().w, profile.upright().h, raster) && encoded(
            image.bytes@,
            image.content_type@,
            raster,
            profile,
        )
    &&& profile.palette == Palette::Rgba ==> image.bytes@.len() >= 8 && image.bytes@.take(8)
        == png_signature()
}

/// Whether `r` is what rendering a dashboard for a panel can give: an image of its picture, or
/// why there is none. It fails when the picture cannot be parsed or is too wide, and, on a
/// panel that expects a PNG, when none can be written.
pub open spec fn rendering(
    r: Result<RenderedImage, String>,
    widgets: Seq<Widget>,
    profile: DeviceProfile,
    geometry: PanelGeometry,
) -> bool {
    let svg = document(widgets, profile.upright(), geometry);
    match svg_fault(svg) {
        Some(fault) => r matches Err(e) && e@ == not_parsed(fault),
        None => if profile.upright().w > MAX_WIDTH {
            r matches Err(e) && e@ == too_wide()
        } else {
            match r {
                Ok(image) => image_of(image, svg, profile),
                Err(e) => exists|raster: RasterView|
                    #![trigger not_encoded(e@, raster, profile)]
                    pictured(svg, profile.upright().w, profile.upright().h, raster) && not_encoded(
                        e@,
                        raster,
                        profile,
                    ),
            }
        },
    }
}

/// Renders a dashboard's widgets to the image of a panel.
pub fn render(
    widgets: &[Widget],
    profile: DeviceProfile,
    geometry: &PanelGeometry,
    fonts: &Arc<resvg::usvg::fontdb::Database>,
) -> (r: Result<RenderedImage, String>)
    requires
        geometry.cells@.len() == widgets@.len(),
        geometry.sound(),
        paintable(profile.upright().w, profile.upright().h),
    ensures
        rendering(r, widgets@, profile, *geometry),
{
    let (_quarter, content) = content_profile(profile);
    let svg = build_svg(widgets, content, geometry);
    proof {
        let (w, h) = (edge(profile.w), edge(profile.h));
        assert(4 * w * h == 4 * h * w) by (nonlinear_arith);
    }
    match rasterize(svg.as_str(), content.w, content.h, fonts) {
        Err(e) => Err(e),
        Ok(upright) => encode_image(svg.as_str(), &upright, profile),
    }
}

} // verus!
