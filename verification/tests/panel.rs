//! Rendering dashboards to the images of panels.

use std::sync::Arc;

use ryu_dashboards::json::{parse_json, Json};
use ryu_dashboards::model::{GridLayout, Widget, WidgetKind, WidgetSource};
use ryu_dashboards::panel::{
    build_svg, content_profile, grid_span, has_fitting_edges, line_count, list_rows, metric_string,
    prose_string, renderer_for, source_rows, Cell, CellGeometry, DeviceProfile, Palette, PanelGeometry,
    Pixels, TextSpot, WidgetRenderer,
};
use ryu_dashboards::raster::{
    encode_png, fnv1a64, pack_1bit, rotate_pixmap, straight_rgba, to_rgb565, Pixel, Raster,
};
use ryu_dashboards::render::{encode_image, is_paintable, rasterize, render, RenderedImage};
use ryu_dashboards::text::is_blank;
use ryu_dashboards::typeset::{escape_xml, row_string, scalar_string, truncate, wrap};

fn json(text: &str) -> Json {
    parse_json(text).expect("valid JSON")
}

fn widget(kind: WidgetKind, title: &str, value: Json, config: Json) -> Widget {
    Widget {
        id: "w".into(),
        dashboard_id: "d".into(),
        kind,
        title: title.into(),
        config,
        source: WidgetSource::Static { data: Json::Null },
        refresh_interval: None,
        layout: GridLayout { x: 0, y: 0, w: 12, h: 4 },
        canvas: None,
        last_value: Some(value),
        last_refresh_at: None,
        last_error: None,
    }
}

fn one(n: f32) -> Pixels {
    let text = format!("{n:.1}");
    let tenths = text.replace(['-', '.'], "").parse().expect("a numeral with one decimal");
    Pixels { negative: text.starts_with('-'), tenths }
}

fn cell_geometry(widget: &Widget, x: f32, y: f32, w: f32, h: f32) -> CellGeometry {
    let max_chars = |size: f32| ((w - 24.0) / (size * 0.55)).max(1.0) as usize;
    let spot = |dy: f32, size: f32| TextSpot {
        x: one(x + 12.0),
        y: one(y + dy),
        size: one(size),
        max_chars: max_chars(size),
    };
    let titled = !is_blank(&widget.title);
    let (top, step) = match renderer_for(widget.kind) {
        WidgetRenderer::List => (if titled { 40.0 } else { 20.0 }, 22.0),
        _ => (if titled { 42.0 } else { 22.0 }, 19.0),
    };
    let fitting = (((h - top - 8.0) / step).floor() as usize).max(1);
    let count = fitting.min(line_count(widget, max_chars(14.0)));
    CellGeometry {
        frame_x: one(x + 1.0),
        frame_y: one(y + 1.0),
        frame_w: one((w - 2.0).max(0.0)),
        frame_h: one((h - 2.0).max(0.0)),
        title: spot(22.0, 13.0),
        value: spot(h * 0.62, (h * 0.34).clamp(20.0, 56.0)),
        label: spot(h - 12.0, 12.0),
        empty: spot(top + 4.0, 13.0),
        lines: (0..count).map(|i| spot(top + (i as f32) * step, 14.0)).collect(),
        line_chars: max_chars(14.0),
    }
}

fn geometry(widgets: &[Widget], profile: DeviceProfile) -> PanelGeometry {
    let (w, h) = (profile.w as f32, profile.h as f32);
    let cell_h = h / source_rows(widgets) as f32;
    let cells = widgets
        .iter()
        .map(|widget| {
            let span = grid_span(&widget.layout);
            let x0 = span.x as f32 / 12.0 * w;
            let wpx = span.w as f32 / 12.0 * w;
            let y0 = span.y as f32 * cell_h;
            let hpx = span.h as f32 * cell_h;
            cell_geometry(widget, x0, y0, wpx.min(w - x0), hpx.min(h - y0))
        })
        .collect();
    PanelGeometry { center_x: one(w / 2.0), center_y: one(h / 2.0), cells }
}

fn fonts() -> Arc<resvg::usvg::fontdb::Database> {
    let mut db = resvg::usvg::fontdb::Database::new();
    db.load_system_fonts();
    db.set_sans_serif_family("Arial");
    Arc::new(db)
}

fn picture(widgets: &[Widget], profile: DeviceProfile) -> String {
    build_svg(widgets, profile, &geometry(widgets, profile))
}

fn draw(widgets: &[Widget], profile: DeviceProfile) -> Result<RenderedImage, String> {
    let (_, content) = content_profile(profile);
    render(widgets, profile, &geometry(widgets, content), &fonts())
}

fn pixel(r: u8, g: u8, b: u8, a: u8) -> Pixel {
    Pixel { r, g, b, a }
}

const WHITE: Pixel = Pixel { r: 255, g: 255, b: 255, a: 255 };
const BLACK: Pixel = Pixel { r: 0, g: 0, b: 0, a: 255 };

#[test]
fn eink_pack_length_is_row_aligned() {
    let profile = DeviceProfile::desk_eink();
    let w = vec![widget(WidgetKind::Stat, "Online", json("42"), json("{}"))];
    let img = draw(&w, profile).expect("render");
    assert_eq!(img.bytes.len(), 100 * 480);
    assert_eq!(img.content_type, "application/octet-stream");
}

#[test]
fn non_byte_aligned_width_pads_rows() {
    let profile =
        DeviceProfile { w: 10, h: 3, bit_depth: 1, palette: Palette::Mono, rotation: 0 };
    let img = draw(&[], profile).expect("render");
    assert_eq!(img.bytes.len(), 2 * 3);
}

#[test]
fn lcd_path_is_png() {
    let profile = DeviceProfile::watch_lcd();
    let w = vec![widget(WidgetKind::Text, "Note", json("\"hello world\""), json("{}"))];
    let img = draw(&w, profile).expect("render");
    assert_eq!(img.content_type, "image/png");
    assert_eq!(&img.bytes[..8], &[0x89, b'P', b'N', b'G', 0x0d, 0x0a, 0x1a, 0x0a]);
}

#[test]
fn rgb565_length_is_two_bytes_per_pixel() {
    let profile =
        DeviceProfile { w: 16, h: 8, bit_depth: 16, palette: Palette::Rgb565, rotation: 0 };
    let img = draw(&[], profile).expect("render");
    assert_eq!(img.bytes.len(), 16 * 8 * 2);
}

#[test]
fn rev_changes_with_content() {
    let profile = DeviceProfile::desk_eink();
    let a = draw(&[widget(WidgetKind::Stat, "A", json("1"), json("{}"))], profile).unwrap().rev();
    let b = draw(&[widget(WidgetKind::Stat, "A", json("999"), json("{}"))], profile).unwrap().rev();
    assert_ne!(a, b, "different values must produce different revs");
}

#[test]
fn svg_escapes_untrusted_text() {
    let svg = picture(
        &[widget(WidgetKind::Text, "T", Json::String("<script>&\"'".into()), json("{}"))],
        DeviceProfile::watch_lcd(),
    );
    assert!(!svg.contains("<script>"), "raw markup must be escaped");
    assert!(svg.contains("&lt;script&gt;") || svg.contains("&amp;"));
}

#[test]
fn renderer_for_covers_every_kind() {
    for kind in [
        WidgetKind::Stat,
        WidgetKind::LineChart,
        WidgetKind::BarChart,
        WidgetKind::AreaChart,
        WidgetKind::PieChart,
        WidgetKind::Table,
        WidgetKind::List,
        WidgetKind::Text,
        WidgetKind::WorldMap,
        WidgetKind::AgentFeed,
    ] {
        let _ = renderer_for(kind);
    }
    assert_eq!(renderer_for(WidgetKind::Stat), WidgetRenderer::Metric);
    assert_eq!(renderer_for(WidgetKind::Table), WidgetRenderer::List);
    assert_eq!(renderer_for(WidgetKind::WorldMap), WidgetRenderer::Text);
}

#[test]
fn rotated_eink_keeps_panel_byte_length() {
    let profile =
        DeviceProfile { w: 800, h: 480, bit_depth: 1, palette: Palette::Mono, rotation: 90 };
    let img = draw(&[], profile).expect("render");
    assert_eq!(img.bytes.len(), 100 * 480);
}

#[test]
fn mono_blank_is_all_white_bits() {
    let profile =
        DeviceProfile { w: 16, h: 8, bit_depth: 1, palette: Palette::Mono, rotation: 0 };
    let img = draw(&[], profile).expect("render");
    assert!(
        img.bytes.iter().any(|&b| b == 0xFF),
        "a mostly-blank mono panel must contain white (0xFF) bytes"
    );
}

#[test]
fn wrap_breaks_on_width() {
    let lines = wrap("the quick brown fox jumps", 9);
    assert!(lines.len() >= 3);
    assert!(lines.iter().all(|l| l.chars().count() <= 9));
}

// ---- exact values --------------------------------------------------------

#[test]
fn wrapping_is_greedy_and_keeps_paragraphs() {
    assert_eq!(wrap("the quick brown fox jumps", 9), ["the quick", "brown fox", "jumps"]);
    assert_eq!(wrap("a\n\nb", 5), ["a", "", "b"]);
    assert_eq!(wrap("", 5), [""]);
    assert_eq!(wrap("immeasurable a", 4), ["imme", "asur", "able", "a"]);
    assert_eq!(wrap("x abcd yz", 3), ["x", "abc", "d", "yz"]);
    assert_eq!(wrap("abcde f", 4), ["abcd", "e f"]);
    assert_eq!(wrap("äöü", 1), ["ä", "ö", "ü"]);
    assert_eq!(wrap("a b", 0), ["a", "b"]);
    assert_eq!(wrap("  a \t b  ", 80), ["a b"]);
}

#[test]
fn truncating_counts_characters() {
    assert_eq!(truncate("hello", 5), "hello");
    assert_eq!(truncate("hello", 4), "hel…");
    assert_eq!(truncate("hello", 2), "h…");
    assert_eq!(truncate("hello", 1), "…");
    assert_eq!(truncate("hello", 0), "");
    assert_eq!(truncate("h", 1), "h");
    assert_eq!(truncate("", 0), "");
    assert_eq!(truncate("äöü", 2), "ä…");
}

#[test]
fn escaping_replaces_the_five_characters() {
    assert_eq!(escape_xml("a<b>&\"'"), "a&lt;b&gt;&amp;&quot;&apos;");
    assert_eq!(escape_xml("&amp;"), "&amp;amp;");
    assert_eq!(escape_xml("plain"), "plain");
}

#[test]
fn values_have_display_texts() {
    assert_eq!(scalar_string(&Json::Null), "—");
    assert_eq!(scalar_string(&json("true")), "Yes");
    assert_eq!(scalar_string(&json("false")), "No");
    assert_eq!(scalar_string(&json("42")), "42");
    assert_eq!(scalar_string(&json("-42")), "-42");
    assert_eq!(scalar_string(&json("1.5")), "1.5");
    assert_eq!(scalar_string(&json("\"s\"")), "s");
    assert_eq!(scalar_string(&json("[1, 2, 3]")), "3");
    assert_eq!(scalar_string(&json("{ \"b\": 1, \"a\": [true, null] }")), "{\"a\":[true,null],\"b\":1}");
}

#[test]
fn rows_show_the_most_title_like_field() {
    assert_eq!(row_string(&json("\"s\"")), "s");
    assert_eq!(row_string(&json("7")), "7");
    assert_eq!(row_string(&json("{\"name\":\"n\",\"title\":\"t\"}")), "t");
    assert_eq!(row_string(&json("{\"text\":\"x\",\"label\":\"l\"}")), "l");
    // A titling member that is no text does not give way to the next one.
    assert_eq!(row_string(&json("{\"name\":\"n\",\"title\":1}")), "{\"name\":\"n\",\"title\":1}");
    assert_eq!(row_string(&json("{\"other\":1}")), "{\"other\":1}");
}

#[test]
fn metrics_lists_and_prose_read_their_options() {
    let cfg = json("{\"value_key\":\"n\",\"unit\":\"ms\"}");
    assert_eq!(metric_string(&cfg, &json("{\"n\":7}")), "7 ms");
    assert_eq!(metric_string(&cfg, &json("{}")), "— ms");
    assert_eq!(metric_string(&json("{\"unit\":\"\"}"), &json("3")), "3");
    let items = json("{\"items_key\":\"xs\"}");
    assert_eq!(list_rows(&items, &json("{\"xs\":[1,\"b\"]}")), ["1", "b"]);
    assert!(list_rows(&items, &json("{\"xs\":1}")).is_empty());
    assert_eq!(list_rows(&items, &json("[5]")), ["5"]);
    assert_eq!(prose_string(&json("{\"markdown\":\"m\"}"), &json("1")), "m");
    assert_eq!(prose_string(&Json::Null, &json("{\"summary\":\"s\"}")), "s");
    assert_eq!(prose_string(&Json::Null, &json("{\"text\":1,\"summary\":\"s\"}")), "{\"summary\":\"s\",\"text\":1}");
    assert_eq!(prose_string(&Json::Null, &Json::Null), "");
    assert_eq!(prose_string(&Json::Null, &json("[1]")), "[1]");
}

#[test]
fn an_empty_panel_says_so() {
    let svg = picture(&[], DeviceProfile::watch_lcd());
    assert_eq!(
        svg,
        "<svg xmlns=\"http://www.w3.org/2000/svg\" width=\"240\" height=\"240\" viewBox=\"0 0 240 240\">\
         <rect x=\"0\" y=\"0\" width=\"240\" height=\"240\" fill=\"#ffffff\"/>\
         <text x=\"120.0\" y=\"120.0\" text-anchor=\"middle\" font-family=\"Helvetica, Arial, sans-serif\" \
         font-size=\"18\" fill=\"#000000\">No widgets on this dashboard</text></svg>"
    );
}

#[test]
fn a_metric_is_drawn_with_title_and_label() {
    let w = widget(WidgetKind::Stat, "Up", json("7"), json("{\"label\":\"now\"}"));
    let svg = picture(&[w], DeviceProfile::watch_lcd());
    assert!(svg.contains(
        "<rect x=\"1.0\" y=\"1.0\" width=\"238.0\" height=\"238.0\" fill=\"none\" stroke=\"#000000\" \
         stroke-width=\"1.5\" rx=\"6\"/>"
    ));
    assert!(svg.contains("font-size=\"13.0\" font-weight=\"600\" fill=\"#555555\">Up</text>"));
    assert!(svg.contains("font-size=\"56.0\" font-weight=\"700\" fill=\"#000000\">7</text>"));
    assert!(svg.contains("font-weight=\"500\" fill=\"#555555\">now</text>"));
    let w = widget(WidgetKind::List, " ", json("[]"), Json::Null);
    let svg = picture(&[w], DeviceProfile::desk_eink());
    assert!(svg.contains("y=\"24.0\""));
    assert!(svg.contains("fill=\"#000000\">No items</text>"));
}

#[test]
fn the_grid_reaches_as_far_as_its_lowest_widget() {
    let mut a = widget(WidgetKind::Stat, "", Json::Null, Json::Null);
    a.layout = GridLayout { x: 40, y: 3, w: 0, h: 0 };
    let mut b = widget(WidgetKind::Stat, "", Json::Null, Json::Null);
    b.layout = GridLayout { x: 0, y: 0, w: 2, h: 3 };
    assert_eq!(grid_span(&a.layout), GridLayout { x: 11, y: 3, w: 1, h: 1 });
    assert_eq!(source_rows(&[a, b]), 4);
    assert_eq!(source_rows(&[]), 1);
    let mut c = widget(WidgetKind::Stat, "", Json::Null, Json::Null);
    c.layout = GridLayout { x: 0, y: u32::MAX, w: 1, h: 0 };
    assert!(!has_fitting_edges(&[c]));
}

#[test]
fn packing_sets_one_bit_for_each_white_pixel() {
    // Ten pixels wide: the first row is white, the second black, the third alternates.
    let mut pixels = vec![WHITE; 10];
    pixels.extend(vec![BLACK; 10]);
    for x in 0..10 {
        pixels.push(if x % 2 == 0 { BLACK } else { WHITE });
    }
    let raster = Raster { width: 10, height: 3, pixels };
    assert_eq!(pack_1bit(&raster, 10, 3), [0xFF, 0xFF, 0x00, 0x3F, 0x55, 0x7F]);
}

#[test]
fn packing_dithers_greys_and_composites_over_white() {
    // A grey of 100 is ink where the threshold of the matrix is above it.
    let raster = Raster { width: 4, height: 4, pixels: vec![pixel(100, 100, 100, 255); 16] };
    assert_eq!(pack_1bit(&raster, 4, 4), [0b1010_1111, 0b0101_1111, 0b1010_1111, 0b0001_1111]);
    // Transparent pixels are white.
    let clear = Raster { width: 8, height: 1, pixels: vec![pixel(0, 0, 0, 0); 8] };
    assert_eq!(pack_1bit(&clear, 8, 1), [0xFF]);
}

#[test]
fn rgb565_is_big_endian() {
    let raster = Raster {
        width: 4,
        height: 1,
        pixels: vec![pixel(255, 0, 0, 255), pixel(0, 255, 0, 255), pixel(0, 0, 255, 255), pixel(0, 0, 0, 0)],
    };
    assert_eq!(to_rgb565(&raster), [0xF8, 0x00, 0x07, 0xE0, 0x00, 0x1F, 0xFF, 0xFF]);
}

#[test]
fn straight_colours_divide_the_alpha_out() {
    let raster = Raster {
        width: 3,
        height: 1,
        pixels: vec![pixel(64, 0, 128, 128), pixel(9, 9, 9, 0), pixel(1, 2, 3, 255)],
    };
    assert_eq!(straight_rgba(&raster), [128, 0, 255, 128, 0, 0, 0, 0, 1, 2, 3, 255]);
}

fn numbered(width: u32, height: u32) -> Raster {
    let pixels = (0..width * height).map(|i| pixel(i as u8, 0, 0, 255)).collect();
    Raster { width, height, pixels }
}

fn reds(r: &Raster) -> Vec<u8> {
    r.pixels.iter().map(|p| p.r).collect()
}

#[test]
fn quarter_turns_move_every_pixel() {
    // 0 1 2
    // 3 4 5
    let src = numbered(3, 2);
    let once = rotate_pixmap(&src, 1);
    assert_eq!((once.width, once.height), (2, 3));
    assert_eq!(reds(&once), [3, 0, 4, 1, 5, 2]);
    assert_eq!(reds(&rotate_pixmap(&src, 2)), [5, 4, 3, 2, 1, 0]);
    assert_eq!(reds(&rotate_pixmap(&src, 3)), [2, 5, 1, 4, 0, 3]);
    assert_eq!(reds(&rotate_pixmap(&src, 0)), [0, 1, 2, 3, 4, 5]);
    let mut turned = numbered(3, 2);
    for _ in 0..4 {
        turned = rotate_pixmap(&turned, 1);
    }
    assert_eq!((turned.width, turned.height, reds(&turned)), (3, 2, vec![0, 1, 2, 3, 4, 5]));
}

#[test]
fn png_round_trips_through_a_decoder() {
    let raster = Raster {
        width: 2,
        height: 1,
        pixels: vec![pixel(10, 20, 30, 255), pixel(64, 0, 128, 128)],
    };
    let bytes = encode_png(&raster, 2, 1).expect("png");
    let mut reader = png::Decoder::new(bytes.as_slice()).read_info().expect("decodes");
    let mut data = vec![0; reader.output_buffer_size()];
    let info = reader.next_frame(&mut data).expect("a frame");
    assert_eq!((info.width, info.height), (2, 1));
    assert_eq!(data, [10, 20, 30, 255, 128, 0, 255, 128]);
}

#[test]
fn png_refuses_an_empty_or_mismatched_image() {
    let raster = numbered(2, 1);
    assert!(encode_png(&raster, 0, 1).unwrap_err().starts_with("png header: "));
    assert!(encode_png(&raster, 3, 1).unwrap_err().starts_with("png data: "));
}

#[test]
fn hashes_are_those_of_fnv_1a() {
    assert_eq!(fnv1a64(b""), 0xcbf2_9ce4_8422_2325);
    assert_eq!(fnv1a64(b"a"), 0xaf63_dc4c_8601_ec8c);
    assert_eq!(fnv1a64(b"foobar"), 0x8594_4171_f739_67e8);
}

#[test]
fn a_revision_is_sixteen_hexadecimal_digits_of_all_that_counts() {
    let image = |bytes: Vec<u8>, w: u32, source_hash: u64| RenderedImage {
        bytes,
        content_type: "image/png",
        profile: DeviceProfile { w, ..DeviceProfile::watch_lcd() },
        source_hash,
    };
    let base = image(vec![1, 2, 3], 240, 7).rev();
    assert_eq!(base.len(), 16);
    assert!(base.chars().all(|c| c.is_ascii_hexdigit() && !c.is_ascii_uppercase()));
    let mut input: Vec<u8> = Vec::new();
    input.extend(7u64.to_le_bytes());
    input.extend(240u32.to_le_bytes());
    input.extend(240u32.to_le_bytes());
    input.push(24);
    input.extend([1, 2, 3]);
    assert_eq!(base, format!("{:016x}", fnv1a64(&input)));
    assert_eq!(base, image(vec![1, 2, 3], 240, 7).rev());
    assert_ne!(base, image(vec![1, 2, 4], 240, 7).rev());
    assert_ne!(base, image(vec![1, 2, 3], 241, 7).rev());
    assert_ne!(base, image(vec![1, 2, 3], 240, 8).rev());
}

/// A picture of one widget whose frame alone is in sight.
fn framed(profile: DeviceProfile, frame: [f32; 4], title: &str) -> String {
    let away = TextSpot { x: one(4000.0), y: one(4000.0), size: one(12.0), max_chars: 8 };
    let cell = CellGeometry {
        frame_x: one(frame[0]),
        frame_y: one(frame[1]),
        frame_w: one(frame[2]),
        frame_h: one(frame[3]),
        title: away,
        value: away,
        label: away,
        empty: away,
        lines: Vec::new(),
        line_chars: 8,
    };
    let geometry =
        PanelGeometry { center_x: one(0.0), center_y: one(0.0), cells: vec![cell] };
    assert!(geometry.is_sound());
    build_svg(&[widget(WidgetKind::Stat, title, json("1"), json("{}"))], profile, &geometry)
}

#[test]
fn documents_are_painted_at_their_size() {
    let profile =
        DeviceProfile { w: 40, h: 30, bit_depth: 16, palette: Palette::Rgb565, rotation: 0 };
    let svg = framed(profile, [10.5, 5.0, 20.0, 20.0], "");
    let raster = rasterize(&svg, 40, 30, &fonts()).expect("paints");
    assert_eq!((raster.width, raster.height, raster.pixels.len()), (40, 30, 1200));
    assert_eq!(raster.pixels[0], WHITE);
    assert_eq!(raster.pixels[15 * 40 + 10], BLACK);
    assert_eq!(raster.pixels[15 * 40 + 20], WHITE);
    let image = encode_image(&svg, &raster, profile).expect("encodes");
    assert_eq!(&image.bytes[..2], &[0xFF, 0xFF]);
    assert_eq!(&image.bytes[2 * (15 * 40 + 10)..][..2], &[0x00, 0x00]);
    assert_eq!(image.source_hash, fnv1a64(svg.as_bytes()));
    // A character that XML does not allow makes a document that cannot be parsed.
    let broken = framed(profile, [10.5, 5.0, 20.0, 20.0], "\u{1}");
    let err = rasterize(&broken, 40, 30, &fonts()).unwrap_err();
    assert!(err.starts_with("parsing dashboard SVG failed: "), "{err}");
    let err = rasterize(&broken, 536_870_912, 1, &fonts()).unwrap_err();
    assert!(err.starts_with("parsing dashboard SVG failed: "), "{err}");
}

#[test]
fn a_turned_panel_shows_the_turned_picture() {
    let profile =
        DeviceProfile { w: 16, h: 8, bit_depth: 1, palette: Palette::Mono, rotation: 90 };
    let (_, content) = content_profile(profile);
    assert_eq!((content.w, content.h), (8, 16));
    // The upper edge of the frame blackens the top row, and nothing of the third or below.
    let svg = framed(content, [-10.0, 0.5, 40.0, 100.0], "");
    let raster = rasterize(&svg, content.w, content.h, &fonts()).expect("paints");
    let image = encode_image(&svg, &raster, profile).expect("encodes");
    // The top row stands at the right edge after a clockwise quarter turn.
    assert_eq!(image.bytes.len(), 16);
    for row in image.bytes.chunks(2) {
        assert_eq!((row[0], row[1] | 0b10), (0xFF, 0xFE));
    }
}

#[test]
fn coordinates_have_one_decimal_and_a_reach() {
    let profile = DeviceProfile::watch_lcd();
    let svg = framed(profile, [-0.04, 12.0, 7.25, 429.96], "");
    assert!(svg.contains("<rect x=\"-0.0\" y=\"12.0\" width=\"7.2\" height=\"430.0\""), "{svg}");
    let reach = |negative, tenths| {
        let center_x = Pixels { negative, tenths };
        PanelGeometry { center_x, center_y: one(0.0), cells: Vec::new() }.is_sound()
    };
    assert!(reach(false, 50_000_000_000) && !reach(false, 50_000_000_001));
    assert!(reach(true, 10_000_000_000) && !reach(true, 10_000_000_001));
    let mut wide = geometry(&[widget(WidgetKind::Stat, "A", json("1"), json("{}"))], profile);
    assert!(wide.is_sound());
    wide.cells[0].value.size = one(56.1);
    assert!(!wide.is_sound());
}

#[test]
fn a_renderer_draws_any_kind_of_widget() {
    let w = widget(WidgetKind::Stat, "", json("[1,2]"), json("{}"));
    let profile = DeviceProfile::watch_lcd();
    let g = geometry(&[widget(WidgetKind::List, "", json("[1,2]"), json("{}"))], profile);
    let cell = Cell { geometry: &g.cells[0], mono: false };
    let mut rows = String::from("start ");
    WidgetRenderer::List.render(&mut rows, &cell, &w);
    assert!(rows.starts_with("start <rect "));
    assert!(rows.contains(">1</text>") && rows.contains(">2</text>"), "{rows}");
    let mut number = String::new();
    renderer_for(w.kind).render(&mut number, &cell, &w);
    assert!(number.contains("font-weight=\"700\""), "{number}");
}

#[test]
fn widgets_add_no_markup() {
    let tagged = "</text><script>x()</script>\"'&";
    let profile = DeviceProfile::desk_eink();
    let list = [WidgetKind::Stat, WidgetKind::List, WidgetKind::Text].map(|kind| {
        widget(kind, tagged, Json::Array(vec![Json::String(tagged.into())]), json("{}"))
    });
    let svg = picture(&list, profile);
    let own = ["<svg ", "<rect ", "<text ", "</text>", "</svg>"];
    for (at, _) in svg.match_indices('<') {
        assert!(own.iter().any(|tag| svg[at..].starts_with(tag)), "{}", &svg[at..]);
    }
}

#[test]
fn a_panel_without_pixels_has_no_png() {
    let profile =
        DeviceProfile { w: 0, h: 5, bit_depth: 24, palette: Palette::Rgba, rotation: 0 };
    assert!(is_paintable(0, 5));
    assert!(draw(&[], profile).unwrap_err().starts_with("parsing dashboard SVG failed: "));
    let raster = numbered(1, 5);
    assert!(encode_image("", &raster, profile).unwrap_err().starts_with("png header: "));
    assert!(!is_paintable(429_496_730, 1) && !is_paintable(1, u32::MAX));
    // Past the widest canvas a picture is refused.
    assert!(is_paintable(536_870_912, 1));
    let svg = picture(&[], DeviceProfile { w: 1, h: 1, ..profile });
    let refused = rasterize(&svg, 536_870_912, 1, &fonts()).unwrap_err();
    assert_eq!(refused, "pixmap alloc failed");
}

#[test]
fn profiles_have_their_defaults_and_names() {
    assert!(DeviceProfile::desk_eink().is_eink());
    assert!(!DeviceProfile::watch_lcd().is_eink());
    assert!(DeviceProfile { bit_depth: 1, ..DeviceProfile::watch_lcd() }.is_eink());
    assert_eq!(Palette::Mono.as_str(), "mono");
    assert_eq!(Palette::Rgba.as_str(), "rgba");
    assert_eq!(Palette::Rgb565.as_str(), "rgb565");
}
