//! The SVG picture of a dashboard on a device's panel.
//!
//! Each widget is drawn into its cell by the renderer of its kind, from its title, its
//! display options and its cached value. Where a cell's texts stand, and how many characters
//! fit, comes in as a [`PanelGeometry`].

use vstd::prelude::*;

use crate::json::{compact_json, printed_tree, stored_tree, trees, Json, JsonView};
use crate::model::{GridLayout, Widget, WidgetKind, WidgetView};
use crate::text::{blank, decimal, decimal_of, is_blank, occurs_at, push_decimal, texts};
use crate::typeset::{
    escape_xml, escaped, law_escaped_text_holds_no_markup, row_string, row_text, scalar_string,
    shown, truncate, truncated, wrap, wrapped,
};

verus! {

// ---- the panel -----------------------------------------------------------

/// The byte encoding that a panel expects.
#[derive(Debug, Clone, Copy, PartialEq, Eq, Structural)]
pub enum Palette {
    /// One bit per pixel, packed with the leftmost pixel highest, row by row.
    Mono,
    /// Full colour, as a PNG.
    Rgba,
    /// Sixteen bits per pixel, high byte first.
    Rgb565,
}

/// The wire name of a palette.
pub open spec fn palette_name(p: Palette) -> Seq<char> {
    match p {
        Palette::Mono => "mono"@,
        Palette::Rgba => "rgba"@,
        Palette::Rgb565 => "rgb565"@,
    }
}

impl Palette {
    /// The wire name of the palette.
    pub fn as_str(self) -> (r: &'static str)
        ensures
            r@ == palette_name(self),
    {
        match self {
            Palette::Mono => "mono",
            Palette::Rgba => "rgba",
            Palette::Rgb565 => "rgb565",
        }
    }
}

/// A device's screen.
#[derive(Debug, Clone, Copy, PartialEq, Eq, Structural)]
pub struct DeviceProfile {
    /// The width in pixels.
    pub w: u32,
    /// The height in pixels.
    pub h: u32,
    /// The bits of one pixel in the final encoding.
    pub bit_depth: u8,
    /// The final encoding.
    pub palette: Palette,
    /// The clockwise rotation of the panel in degrees.
    pub rotation: u16,
}

impl DeviceProfile {
    /// The desk panel: 800 by 480 pixels of e-ink.
    pub fn desk_eink() -> (r: DeviceProfile)
        ensures
            r == (DeviceProfile {
                w: 800,
                h: 480,
                bit_depth: 1,
                palette: Palette::Mono,
                rotation: 0,
            }),
    {
        DeviceProfile { w: 800, h: 480, bit_depth: 1, palette: Palette::Mono, rotation: 0 }
    }

    /// The watch panel: a colour screen of 240 by 240 pixels.
    pub fn watch_lcd() -> (r: DeviceProfile)
        ensures
            r == (DeviceProfile {
                w: 240,
                h: 240,
                bit_depth: 24,
                palette: Palette::Rgba,
                rotation: 0,
            }),
    {
        DeviceProfile { w: 240, h: 240, bit_depth: 24, palette: Palette::Rgba, rotation: 0 }
    }

    /// Whether the panel is e-ink.
    pub open spec fn eink(self) -> bool {
        self.palette == Palette::Mono || self.bit_depth == 1
    }

    /// Whether the panel is e-ink.
    pub fn is_eink(self) -> (r: bool)
        ensures
            r == self.eink(),
    {
        matches!(self.palette, Palette::Mono) || self.bit_depth == 1
    }

    /// The clockwise quarter turns of the panel.
    pub open spec fn quarter(self) -> int {
        (self.rotation / 90) as int % 4
    }

    /// The profile that the picture is laid out for: upright, before the panel's rotation.
    pub open spec fn upright(self) -> DeviceProfile {
        if self.quarter() == 1 || self.quarter() == 3 {
            DeviceProfile { w: self.h, h: self.w, ..self }
        } else {
            self
        }
    }
}

/// The quarter turns of a panel, and the profile that its picture is laid out for.
pub fn content_profile(profile: DeviceProfile) -> (r: (u16, DeviceProfile))
    ensures
        r.0 == profile.quarter(),
        r.1 == profile.upright(),
{
    let quarter: u16 = (profile.rotation / 90) % 4;
    if quarter == 1 || quarter == 3 {
        (
            quarter,
            DeviceProfile {
                w: profile.h,
                h: profile.w,
                bit_depth: profile.bit_depth,
                palette: profile.palette,
                rotation: profile.rotation,
            },
        )
    } else {
        (quarter, profile)
    }
}

// ---- the grid ------------------------------------------------------------

/// The columns of the grid that widgets are laid out on.
pub const GRID_COLUMNS: u32 = 12;

/// The rows from the top to the lower edge of a widget.
pub open spec fn lower_edge(layout: GridLayout) -> int {
    if layout.h < 1 {
        layout.y + 1
    } else {
        layout.y + layout.h
    }
}

/// The rows of the grid: as far down as the lowest widget reaches, and at least one.
pub open spec fn grid_rows(layouts: Seq<GridLayout>) -> int
    decreases layouts.len(),
{
    if layouts.len() == 0 {
        1
    } else {
        let rest = grid_rows(layouts.drop_last());
        let edge = lower_edge(layouts.last());
        if edge > rest {
            edge
        } else {
            rest
        }
    }
}

/// The layouts of widgets.
pub open spec fn layouts_of(widgets: Seq<Widget>) -> Seq<GridLayout> {
    Seq::new(widgets.len(), |i: int| widgets[i].layout)
}

/// Whether every widget's lower edge is a row that can be numbered.
pub open spec fn edges_fit(widgets: Seq<Widget>) -> bool {
    forall|i: int| 0 <= i < widgets.len() ==> lower_edge(#[trigger] widgets[i].layout) <= u32::MAX
}

/// Whether every widget's lower edge is a row that can be numbered.
pub fn has_fitting_edges(widgets: &[Widget]) -> (r: bool)
    ensures
        r == edges_fit(widgets@),
{
    for i in 0..widgets.len()
        invariant
            forall|j: int| 0 <= j < i ==> lower_edge(#[trigger] widgets@[j].layout) <= u32::MAX,
    {
        let layout = widgets[i].layout;
        let height: u32 = if layout.h < 1 { 1 } else { layout.h };
        if layout.y as u64 + height as u64 > u32::MAX as u64 {
            assert(lower_edge(widgets@[i as int].layout) > u32::MAX);
            return false;
        }
    }
    true
}

/// The rows of the grid that the widgets take up.
pub fn source_rows(widgets: &[Widget]) -> (r: u32)
    requires
        edges_fit(widgets@),
    ensures
        r == grid_rows(layouts_of(widgets@)),
        r >= 1,
{
    let ghost all = layouts_of(widgets@);
    let mut rows: u32 = 1;
    assert(all.take(0) =~= Seq::<GridLayout>::empty());
    for i in 0..widgets.len()
        invariant
            edges_fit(widgets@),
            all == layouts_of(widgets@),
            rows >= 1,
            rows == grid_rows(all.take(i as int)),
    {
        assert(all.take(i + 1).drop_last() =~= all.take(i as int));
        let layout = widgets[i].layout;
        assert(lower_edge(widgets@[i as int].layout) <= u32::MAX);
        let height: u32 = if layout.h < 1 { 1 } else { layout.h };
        let edge: u32 = layout.y + height;
        if edge > rows {
            rows = edge;
        }
    }
    assert(all.take(all.len() as int) =~= all);
    rows
}

/// Every widget ends within the rows of the grid.
pub proof fn law_rows_hold_every_widget(layouts: Seq<GridLayout>, i: int)
    requires
        0 <= i < layouts.len(),
    ensures
        lower_edge(layouts[i]) <= grid_rows(layouts),
    decreases layouts.len(),
{
    if i < layouts.len() - 1 {
        law_rows_hold_every_widget(layouts.drop_last(), i);
    }
}

/// The part of the grid that a widget is drawn in: it starts within the columns, and is at
/// least one column wide and one row high.
pub open spec fn span_of(layout: GridLayout) -> GridLayout {
    GridLayout {
        x: if layout.x < GRID_COLUMNS {
            layout.x
        } else {
            (GRID_COLUMNS - 1) as u32
        },
        y: layout.y,
        w: if layout.w < 1 {
            1
        } else {
            layout.w
        },
        h: if layout.h < 1 {
            1
        } else {
            layout.h
        },
    }
}

/// The part of the grid that a widget is drawn in.
pub fn grid_span(layout: &GridLayout) -> (r: GridLayout)
    ensures
        r == span_of(*layout),
{
    GridLayout {
        x: if layout.x < GRID_COLUMNS { layout.x } else { GRID_COLUMNS - 1 },
        y: layout.y,
        w: if layout.w < 1 { 1 } else { layout.w },
        h: if layout.h < 1 { 1 } else { layout.h },
    }
}

// ---- geometry ------------------------------------------------------------

/// The tenths of a pixel that a coordinate lies at most after the panel's origin: past every
/// edge that a panel can have.
pub const MAX_AFTER: u64 = 50_000_000_000;

/// The tenths of a pixel that a coordinate lies at most before the panel's origin.
pub const MAX_BEFORE: u64 = 10_000_000_000;

/// The largest font size, in tenths of a pixel.
pub const MAX_FONT: u64 = 560;

/// A coordinate or a length in tenths of a pixel.
#[derive(Debug, Clone, Copy, PartialEq, Eq, Structural)]
pub struct Pixels {
    pub negative: bool,
    pub tenths: u64,
}

impl Pixels {
    /// The numeral: pixels with one decimal.
    pub open spec fn text(self) -> Seq<char> {
        (if self.negative {
            "-"@
        } else {
            Seq::empty()
        }) + decimal_of((self.tenths / 10) as nat) + "."@ + decimal_of((self.tenths % 10) as nat)
    }

    /// Whether the coordinate is one that a panel can have.
    pub open spec fn near(self) -> bool {
        self.tenths <= if self.negative {
            MAX_BEFORE
        } else {
            MAX_AFTER
        }
    }

    fn is_near(&self) -> (r: bool)
        ensures
            r == self.near(),
    {
        if self.negative {
            self.tenths <= MAX_BEFORE
        } else {
            self.tenths <= MAX_AFTER
        }
    }

    fn write(&self, svg: &mut String)
        ensures
            final(svg)@ == old(svg)@ + self.text(),
    {
        let ghost start = svg@;
        if self.negative {
            svg.append("-");
        }
        push_decimal(svg, self.tenths / 10);
        svg.append(".");
        push_decimal(svg, self.tenths % 10);
        assert(svg@ =~= start + self.text());
    }
}

/// Where a text stands, its font size, and how many characters fit.
#[derive(Debug, Clone, Copy)]
pub struct TextSpot {
    pub x: Pixels,
    pub y: Pixels,
    pub size: Pixels,
    pub max_chars: usize,
}

impl TextSpot {
    /// Whether the spot is one that a panel can have.
    pub open spec fn sound(self) -> bool {
        self.x.near() && self.y.near() && !self.size.negative && self.size.tenths <= MAX_FONT
    }

    fn is_sound(&self) -> (r: bool)
        ensures
            r == self.sound(),
    {
        self.x.is_near() && self.y.is_near() && !self.size.negative && self.size.tenths <= MAX_FONT
    }
}

/// Where the parts of one widget's cell stand.
#[derive(Debug)]
pub struct CellGeometry {
    /// The frame: left, top, width and height.
    pub frame_x: Pixels,
    pub frame_y: Pixels,
    pub frame_w: Pixels,
    pub frame_h: Pixels,
    /// The title.
    pub title: TextSpot,
    /// The number of a metric.
    pub value: TextSpot,
    /// The label below a metric.
    pub label: TextSpot,
    /// The note of an empty list.
    pub empty: TextSpot,
    /// The lines that fit below the title, from the top.
    pub lines: Vec<TextSpot>,
    /// The characters that fit on a line.
    pub line_chars: usize,
}

impl CellGeometry {
    /// Whether the cell is one that a panel can have.
    pub open spec fn sound(self) -> bool {
        &&& self.frame_x.near() && self.frame_y.near()
        &&& self.frame_w.near() && self.frame_h.near()
        &&& self.title.sound() && self.value.sound()
        &&& self.label.sound() && self.empty.sound()
        &&& forall|i: int| 0 <= i < self.lines@.len() ==> (#[trigger] self.lines@[i]).sound()
    }

    fn is_sound(&self) -> (r: bool)
        ensures
            r == self.sound(),
    {
        for i in 0..self.lines.len()
            invariant
                forall|j: int| 0 <= j < i ==> (#[trigger] self.lines@[j]).sound(),
        {
            if !self.lines[i].is_sound() {
                assert(!self.lines@[i as int].sound());
                return false;
            }
        }
        self.frame_x.is_near() && self.frame_y.is_near() && self.frame_w.is_near()
            && self.frame_h.is_near() && self.title.is_sound() && self.value.is_sound()
            && self.label.is_sound() && self.empty.is_sound()
    }
}

/// Where everything on a panel stands: its centre, and the cell of each widget in turn.
#[derive(Debug)]
pub struct PanelGeometry {
    pub center_x: Pixels,
    pub center_y: Pixels,
    pub cells: Vec<CellGeometry>,
}

impl PanelGeometry {
    /// Whether everything stands where it can on a panel.
    pub open spec fn sound(self) -> bool {
        &&& self.center_x.near() && self.center_y.near()
        &&& forall|i: int| 0 <= i < self.cells@.len() ==> (#[trigger] self.cells@[i]).sound()
    }

    /// Whether everything stands where it can on a panel.
    pub fn is_sound(&self) -> (r: bool)
        ensures
            r == self.sound(),
    {
        for i in 0..self.cells.len()
            invariant
                forall|j: int| 0 <= j < i ==> (#[trigger] self.cells@[j]).sound(),
        {
            if !self.cells[i].is_sound() {
                assert(!self.cells@[i as int].sound());
                return false;
            }
        }
        self.center_x.is_near() && self.center_y.is_near()
    }
}

// ---- drawing -------------------------------------------------------------

/// The colour of text and strokes.
pub open spec fn foreground() -> Seq<char> {
    "#000000"@
}

/// The colour of secondary text: a soft grey, but black on a one-bit panel, where greys
/// turn to noise.
pub open spec fn muted_tone(mono: bool) -> Seq<char> {
    if mono {
        "#000000"@
    } else {
        "#555555"@
    }
}

/// The frame of a cell.
pub open spec fn frame_svg(g: CellGeometry) -> Seq<char> {
    "<rect x=\""@ + g.frame_x.text() + "\" y=\""@ + g.frame_y.text() + "\" width=\""@
        + g.frame_w.text() + "\" height=\""@ + g.frame_h.text()
        + "\" fill=\"none\" stroke=\""@ + foreground()
        + "\" stroke-width=\"1.5\" rx=\"6\"/>"@
}

/// A text in a cell, cut to the characters that fit and escaped.
pub open spec fn text_svg(
    spot: TextSpot,
    weight: Seq<char>,
    fill: Seq<char>,
    content: Seq<char>,
) -> Seq<char> {
    "<text x=\""@ + spot.x.text() + "\" y=\""@ + spot.y.text()
        + "\" font-family=\"Helvetica, Arial, sans-serif\" font-size=\""@ + spot.size.text()
        + "\" font-weight=\""@ + weight + "\" fill=\""@ + fill + "\">"@ + escaped(
        truncated(content, spot.max_chars as int),
    ) + "</text>"@
}

/// The title of a cell, unless it is blank.
pub open spec fn title_svg(g: CellGeometry, mono: bool, title: Seq<char>) -> Seq<char> {
    if blank(title) {
        Seq::empty()
    } else {
        text_svg(g.title, "600"@, muted_tone(mono), title)
    }
}

/// A drawing surface for one widget's cell.
pub struct Cell<'a> {
    /// Where the parts of the cell stand.
    pub geometry: &'a CellGeometry,
    /// Whether the panel has one bit per pixel.
    pub mono: bool,
}

impl<'a> Cell<'a> {
    fn fg(&self) -> (r: &'static str)
        ensures
            r@ == foreground(),
    {
        "#000000"
    }

    fn muted(&self) -> (r: &'static str)
        ensures
            r@ == muted_tone(self.mono),
    {
        if self.mono {
            "#000000"
        } else {
            "#555555"
        }
    }

    fn frame(&self, svg: &mut String)
        ensures
            final(svg)@ == old(svg)@ + frame_svg(*self.geometry),
    {
        let g = self.geometry;
        let ghost start = svg@;
        svg.append("<rect x=\"");
        g.frame_x.write(svg);
        svg.append("\" y=\"");
        g.frame_y.write(svg);
        svg.append("\" width=\"");
        g.frame_w.write(svg);
        svg.append("\" height=\"");
        g.frame_h.write(svg);
        svg.append("\" fill=\"none\" stroke=\"");
        svg.append(self.fg());
        svg.append("\" stroke-width=\"1.5\" rx=\"6\"/>");
        assert(svg@ =~= start + frame_svg(*g));
    }

    fn text(&self, svg: &mut String, spot: &TextSpot, weight: &str, fill: &str, content: &str)
        ensures
            final(svg)@ == old(svg)@ + text_svg(*spot, weight@, fill@, content@),
    {
        let ghost start = svg@;
        let cut = truncate(content, spot.max_chars);
        let safe = escape_xml(cut.as_str());
        svg.append("<text x=\"");
        spot.x.write(svg);
        svg.append("\" y=\"");
        spot.y.write(svg);
        svg.append("\" font-family=\"Helvetica, Arial, sans-serif\" font-size=\"");
        spot.size.write(svg);
        svg.append("\" font-weight=\"");
        svg.append(weight);
        svg.append("\" fill=\"");
        svg.append(fill);
        svg.append("\">");
        svg.append(safe.as_str());
        svg.append("</text>");
        assert(svg@ =~= start + text_svg(*spot, weight@, fill@, content@));
    }

    fn title(&self, svg: &mut String, title: &str)
        ensures
            final(svg)@ == old(svg)@ + title_svg(*self.geometry, self.mono, title@),
    {
        let ghost start = svg@;
        if !is_blank(title) {
            self.text(svg, &self.geometry.title, "600", self.muted(), title);
        }
        assert(svg@ =~= start + title_svg(*self.geometry, self.mono, title@));
    }
}

// ---- widget renderers ----------------------------------------------------

/// How a kind of widget is drawn on a panel.
#[derive(Debug, Clone, Copy, PartialEq, Eq, Structural)]
pub enum WidgetRenderer {
    /// One large number.
    Metric,
    /// The rows of a list.
    List,
    /// Wrapped text.
    Text,
}

/// The renderer of a kind: lists and tables as rows, a stat as a metric, and all else as
/// text.
pub open spec fn renderer_of(kind: WidgetKind) -> WidgetRenderer {
    match kind {
        WidgetKind::Stat => WidgetRenderer::Metric,
        WidgetKind::List => WidgetRenderer::List,
        WidgetKind::Table => WidgetRenderer::List,
        _ => WidgetRenderer::Text,
    }
}

/// The renderer of a kind.
pub fn renderer_for(kind: WidgetKind) -> (r: WidgetRenderer)
    ensures
        r == renderer_of(kind),
{
    match kind {
        WidgetKind::Stat => WidgetRenderer::Metric,
        WidgetKind::List => WidgetRenderer::List,
        WidgetKind::Table => WidgetRenderer::List,
        WidgetKind::Text => WidgetRenderer::Text,
        WidgetKind::AgentFeed => WidgetRenderer::Text,
        WidgetKind::LineChart => WidgetRenderer::Text,
        WidgetKind::BarChart => WidgetRenderer::Text,
        WidgetKind::AreaChart => WidgetRenderer::Text,
        WidgetKind::PieChart => WidgetRenderer::Text,
        WidgetKind::WorldMap => WidgetRenderer::Text,
    }
}

/// The value that a widget shows: its cached one, or null.
pub open spec fn cached(w: WidgetView) -> JsonView {
    match w.last_value {
        Some(v) => v,
        None => JsonView::Null,
    }
}

/// The number of a metric: the member that the display options pick, with its unit.
pub open spec fn metric_text(config: JsonView, value: JsonView) -> Seq<char> {
    let number = match config.text_at("value_key"@) {
        Some(key) => match value.member(key) {
            Some(v) => v,
            None => JsonView::Null,
        },
        None => value,
    };
    match config.text_at("unit"@) {
        Some(unit) => if unit.len() == 0 {
            shown(number)
        } else {
            shown(number) + " "@ + unit
        },
        None => shown(number),
    }
}

/// The text of a metric.
pub fn metric_string(config: &Json, value: &Json) -> (r: String)
    ensures
        r@ == metric_text(config@, value@),
{
    let mut out = match config.str_at("value_key") {
        Some(key) => match value.get(key) {
            Some(v) => scalar_string(v),
            None => scalar_string(&Json::Null),
        },
        None => scalar_string(value),
    };
    match config.str_at("unit") {
        Some(unit) => {
            if !unit.is_empty() {
                out.append(" ");
                out.append(unit);
            }
        },
        None => {},
    }
    out
}

/// The items of a list: those of the member that the display options pick, where the value
/// has it, or else of the value itself; nothing when that is no array.
pub open spec fn list_items(config: JsonView, value: JsonView) -> Seq<JsonView> {
    let whole = match config.text_at("items_key"@) {
        Some(key) => match value.member(key) {
            Some(v) => v,
            None => value,
        },
        None => value,
    };
    match whole {
        JsonView::Array(items) => items,
        _ => Seq::empty(),
    }
}

/// The rows of a list, as many as there are, each as its text.
pub open spec fn row_texts(items: Seq<JsonView>) -> Seq<Seq<char>> {
    Seq::new(items.len(), |i: int| row_text(items[i]))
}

/// The text of each row of a list.
pub fn list_rows(config: &Json, value: &Json) -> (r: Vec<String>)
    ensures
        texts(r@) == row_texts(list_items(config@, value@)),
{
    let whole = match config.str_at("items_key") {
        Some(key) => match value.get(key) {
            Some(v) => v,
            None => value,
        },
        None => value,
    };
    let mut out: Vec<String> = Vec::new();
    if let Json::Array(items) = whole {
        let ghost all = trees(items@);
        proof {
            crate::json::lemma_trees(items@);
        }
        for i in 0..items.len()
            invariant
                all == trees(items@),
                all.len() == items@.len(),
                forall|j: int| 0 <= j < items@.len() ==> all[j] == (#[trigger] items@[j])@,
                texts(out@) == row_texts(all).take(i as int),
        {
            let ghost before = texts(out@);
            out.push(row_string(&items[i]));
            assert(texts(out@) =~= before.push(row_text(all[i as int])));
            assert(texts(out@) =~= row_texts(all).take(i + 1));
        }
        assert(row_texts(all).take(all.len() as int) =~= row_texts(all));
    } else {
        assert(texts(out@) =~= row_texts(Seq::<JsonView>::empty()));
    }
    out
}

/// The prose of a text widget: the markdown of its display options, or else what its value
/// says.
pub open spec fn prose(config: JsonView, value: JsonView) -> Seq<char> {
    match config.text_at("markdown"@) {
        Some(s) => s,
        None => match value {
            JsonView::String(s) => s,
            JsonView::Object(_) => {
                let found = match value.member("text"@) {
                    Some(v) => Some(v),
                    None => value.member("summary"@),
                };
                match found {
                    Some(JsonView::String(s)) => s,
                    _ => printed_tree(stored_tree(value)),
                }
            },
            JsonView::Null => Seq::empty(),
            _ => printed_tree(stored_tree(value)),
        },
    }
}

/// The prose of a text widget.
pub fn prose_string(config: &Json, value: &Json) -> (r: String)
    ensures
        r@ == prose(config@, value@),
{
    match config.str_at("markdown") {
        Some(s) => s.to_owned(),
        None => match value {
            Json::String(s) => s.clone(),
            Json::Object(_) => {
                let found = match value.get("text") {
                    Some(v) => Some(v),
                    None => value.get("summary"),
                };
                match found {
                    Some(Json::String(s)) => s.clone(),
                    _ => compact_json(value),
                }
            },
            Json::Null => {
                let out = String::new();
                assert(out@ =~= Seq::<char>::empty());
                out
            },
            _ => compact_json(value),
        },
    }
}

/// The lines of text that a renderer would fill a widget's cell with, however many fit.
pub open spec fn wanted_lines(r: WidgetRenderer, w: WidgetView, line_chars: int) -> Seq<Seq<char>> {
    match r {
        WidgetRenderer::Metric => Seq::empty(),
        WidgetRenderer::List => row_texts(list_items(w.config, cached(w))),
        WidgetRenderer::Text => wrapped(prose(w.config, cached(w)), line_chars),
    }
}

fn lines_of(renderer: WidgetRenderer, widget: &Widget, line_chars: usize) -> (r: Vec<String>)
    ensures
        texts(r@) == wanted_lines(renderer, widget@, line_chars as int),
{
    let nothing = Json::Null;
    let value = match &widget.last_value {
        Some(v) => v,
        None => &nothing,
    };
    match renderer {
        WidgetRenderer::Metric => {
            let out: Vec<String> = Vec::new();
            assert(texts(out@) =~= Seq::<Seq<char>>::empty());
            out
        },
        WidgetRenderer::List => list_rows(&widget.config, value),
        WidgetRenderer::Text => {
            let body = prose_string(&widget.config, value);
            wrap(body.as_str(), line_chars)
        },
    }
}

/// How many lines of text a widget would fill its cell with.
pub fn line_count(widget: &Widget, line_chars: usize) -> (r: usize)
    ensures
        r == wanted_lines(renderer_of(widget.kind), widget@, line_chars as int).len(),
{
    lines_of(renderer_for(widget.kind), widget, line_chars).len()
}

/// Lines of text, one below the other, as far as there are spots for them.
pub open spec fn lines_svg(
    spots: Seq<TextSpot>,
    weight: Seq<char>,
    lines: Seq<Seq<char>>,
    count: int,
) -> Seq<char>
    decreases count,
{
    if count <= 0 {
        Seq::empty()
    } else {
        lines_svg(spots, weight, lines, count - 1) + text_svg(
            spots[count - 1],
            weight,
            foreground(),
            lines[count - 1],
        )
    }
}

/// The smaller of two lengths.
pub open spec fn shorter(a: nat, b: nat) -> int {
    if a < b {
        a as int
    } else {
        b as int
    }
}

/// What a renderer draws of a widget in its cell.
pub open spec fn drawing(r: WidgetRenderer, w: WidgetView, g: CellGeometry, mono: bool) -> Seq<char> {
    let head = frame_svg(g) + title_svg(g, mono, w.title);
    let lines = wanted_lines(r, w, g.line_chars as int);
    let count = shorter(lines.len(), g.lines@.len());
    match r {
        WidgetRenderer::Metric => {
            let number = text_svg(g.value, "700"@, foreground(), metric_text(w.config, cached(w)));
            match w.config.text_at("label"@) {
                Some(label) => head + number + text_svg(g.label, "500"@, muted_tone(mono), label),
                None => head + number,
            }
        },
        WidgetRenderer::List => if lines.len() == 0 {
            head + text_svg(g.empty, "400"@, muted_tone(mono), "No items"@)
        } else {
            head + lines_svg(g.lines@, "500"@, lines, count)
        },
        WidgetRenderer::Text => head + lines_svg(g.lines@, "400"@, lines, count),
    }
}

/// The picture of a widget in its cell: what the renderer of its kind draws.
pub open spec fn widget_svg(w: WidgetView, g: CellGeometry, mono: bool) -> Seq<char> {
    drawing(renderer_of(w.kind), w, g, mono)
}

impl<'a> Cell<'a> {
    fn draw_lines(&self, svg: &mut String, weight: &str, lines: &Vec<String>)
        ensures
            final(svg)@ == old(svg)@ + lines_svg(
                self.geometry.lines@,
                weight@,
                texts(lines@),
                shorter(lines@.len(), self.geometry.lines@.len()),
            ),
    {
        let spots_here = &self.geometry.lines;
        let count: usize = if lines.len() < spots_here.len() { lines.len() } else { spots_here.len() };
        let ghost start = svg@;
        for i in 0..count
            invariant
                count <= lines@.len(),
                count <= spots_here@.len(),
                spots_here@ == self.geometry.lines@,
                svg@ == start + lines_svg(
                    self.geometry.lines@,
                    weight@,
                    texts(lines@),
                    i as int,
                ),
        {
            self.text(svg, &spots_here[i], weight, self.fg(), lines[i].as_str());
            proof {
                lemma_appended(
                    start,
                    lines_svg(self.geometry.lines@, weight@, texts(lines@), i as int),
                    text_svg(spots_here@[i as int], weight@, foreground(), lines@[i as int]@),
                );
            }
        }
    }
}

impl WidgetRenderer {
    /// Draws a widget into its cell.
    pub fn render(&self, svg: &mut String, cell: &Cell<'_>, widget: &Widget)
        ensures
            final(svg)@ == old(svg)@ + drawing(*self, widget@, *cell.geometry, cell.mono),
    {
        let ghost start = svg@;
        let g = cell.geometry;
        let ghost (frame, title) = (frame_svg(*g), title_svg(*g, cell.mono, widget.title@));
        cell.frame(svg);
        cell.title(svg, widget.title.as_str());
        proof {
            lemma_appended(start, frame, title);
        }
        let ghost head = frame + title;
        let lines = lines_of(*self, widget, g.line_chars);
        assert(texts(lines@).len() == lines@.len());
        let ghost (drawn, at) = (texts(lines@), g.lines@);
        let ghost count = shorter(drawn.len(), at.len());
        match self {
            WidgetRenderer::Metric => {
                let nothing = Json::Null;
                let value = match &widget.last_value {
                    Some(v) => v,
                    None => &nothing,
                };
                let big = metric_string(&widget.config, value);
                cell.text(svg, &g.value, "700", cell.fg(), big.as_str());
                let ghost number = text_svg(g.value, "700"@, foreground(), big@);
                proof {
                    lemma_appended(start, head, number);
                }
                match widget.config.str_at("label") {
                    Some(label) => {
                        cell.text(svg, &g.label, "500", cell.muted(), label);
                        proof {
                            lemma_appended(
                                start,
                                head + number,
                                text_svg(g.label, "500"@, muted_tone(cell.mono), label@),
                            );
                        }
                    },
                    None => {},
                }
            },
            WidgetRenderer::List => {
                if lines.len() == 0 {
                    cell.text(svg, &g.empty, "400", cell.muted(), "No items");
                    proof {
                        lemma_appended(
                            start,
                            head,
                            text_svg(g.empty, "400"@, muted_tone(cell.mono), "No items"@),
                        );
                    }
                } else {
                    cell.draw_lines(svg, "500", &lines);
                    proof {
                        lemma_appended(start, head, lines_svg(at, "500"@, drawn, count));
                    }
                }
            },
            WidgetRenderer::Text => {
                cell.draw_lines(svg, "400", &lines);
                proof {
                    lemma_appended(start, head, lines_svg(at, "400"@, drawn, count));
                }
            },
        }
    }
}

// ---- the document --------------------------------------------------------

/// The opening of the document: its size, and a white ground.
pub open spec fn opening_svg(profile: DeviceProfile) -> Seq<char> {
    let w = decimal_of(profile.w as nat);
    let h = decimal_of(profile.h as nat);
    "<svg xmlns=\"http://www.w3.org/2000/svg\" width=\""@ + w + "\" height=\""@ + h
        + "\" viewBox=\"0 0 "@ + w + " "@ + h + "\"><rect x=\"0\" y=\"0\" width=\""@ + w
        + "\" height=\""@ + h + "\" fill=\"#ffffff\"/>"@
}

/// The note in the middle of a panel without widgets.
pub open spec fn empty_svg(center_x: Pixels, center_y: Pixels) -> Seq<char> {
    "<text x=\""@ + center_x.text() + "\" y=\""@ + center_y.text()
        + "\" text-anchor=\"middle\" font-family=\"Helvetica, Arial, sans-serif\" font-size=\"18\" fill=\"#000000\">No widgets on this dashboard</text>"@
}

/// The pictures of the first `count` widgets.
pub open spec fn cells_svg(
    widgets: Seq<Widget>,
    cells: Seq<CellGeometry>,
    mono: bool,
    count: int,
) -> Seq<char>
    decreases count,
{
    if count <= 0 {
        Seq::empty()
    } else {
        cells_svg(widgets, cells, mono, count - 1) + widget_svg(
            widgets[count - 1]@,
            cells[count - 1],
            mono,
        )
    }
}

/// The document of a dashboard on a panel.
pub open spec fn document(
    widgets: Seq<Widget>,
    profile: DeviceProfile,
    geometry: PanelGeometry,
) -> Seq<char> {
    opening_svg(profile) + (if widgets.len() == 0 {
        empty_svg(geometry.center_x, geometry.center_y)
    } else {
        cells_svg(widgets, geometry.cells@, profile.eink(), widgets.len() as int)
    }) + "</svg>"@
}

proof fn lemma_appended(a: Seq<char>, b: Seq<char>, c: Seq<char>)
    ensures
        (a + b) + c == a + (b + c),
{
    assert((a + b) + c =~= a + (b + c));
}

/// Builds the SVG document of a dashboard on a panel: every widget in its cell, in turn.
pub fn build_svg(widgets: &[Widget], profile: DeviceProfile, geometry: &PanelGeometry) -> (r: String)
    requires
        geometry.cells@.len() == widgets@.len(),
    ensures
        r@ == document(widgets@, profile, *geometry),
{
    let mono = profile.is_eink();
    let w = decimal(profile.w as u64);
    let h = decimal(profile.h as u64);
    let mut svg = String::new();
    svg.append("<svg xmlns=\"http://www.w3.org/2000/svg\" width=\"");
    svg.append(w.as_str());
    svg.append("\" height=\"");
    svg.append(h.as_str());
    svg.append("\" viewBox=\"0 0 ");
    svg.append(w.as_str());
    svg.append(" ");
    svg.append(h.as_str());
    svg.append("\"><rect x=\"0\" y=\"0\" width=\"");
    svg.append(w.as_str());
    svg.append("\" height=\"");
    svg.append(h.as_str());
    svg.append("\" fill=\"#ffffff\"/>");
    assert(svg@ =~= opening_svg(profile));
    let ghost start = svg@;
    if widgets.len() == 0 {
        svg.append("<text x=\"");
        geometry.center_x.write(&mut svg);
        svg.append("\" y=\"");
        geometry.center_y.write(&mut svg);
        svg.append(
            "\" text-anchor=\"middle\" font-family=\"Helvetica, Arial, sans-serif\" font-size=\"18\" fill=\"#000000\">No widgets on this dashboard</text>",
        );
        assert(svg@ =~= start + empty_svg(geometry.center_x, geometry.center_y));
    } else {
        for i in 0..widgets.len()
            invariant
                geometry.cells@.len() == widgets@.len(),
                mono == profile.eink(),
                svg@ == start + cells_svg(widgets@, geometry.cells@, mono, i as int),
        {
            let cell = Cell { geometry: &geometry.cells[i], mono };
            let renderer = renderer_for(widgets[i].kind);
            renderer.render(&mut svg, &cell, &widgets[i]);
            proof {
                lemma_appended(
                    start,
                    cells_svg(widgets@, geometry.cells@, mono, i as int),
                    widget_svg(widgets@[i as int]@, geometry.cells@[i as int], mono),
                );
            }
        }
    }
    svg.append("</svg>");
    svg
}

// ---- laws ----------------------------------------------------------------

/// Whether one of the tags that documents are made of stands at a position.
pub open spec fn tag_at(s: Seq<char>, i: int) -> bool {
    ||| occurs_at(s, "<svg "@, i)
    ||| occurs_at(s, "<rect "@, i)
    ||| occurs_at(s, "<text "@, i)
    ||| occurs_at(s, "</text>"@, i)
    ||| occurs_at(s, "</svg>"@, i)
}

/// Whether no tag opens or closes in a text but those that documents are made of.
pub open spec fn only_own_tags(s: Seq<char>) -> bool {
    forall|i: int| 0 <= i < s.len() && #[trigger] s[i] == '<' ==> tag_at(s, i)
}

/// Whether no tag opens or closes in a text.
pub open spec fn untagged(s: Seq<char>) -> bool {
    forall|i: int| 0 <= i < s.len() ==> #[trigger] s[i] != '<'
}

proof fn lemma_join(a: Seq<char>, b: Seq<char>)
    requires
        only_own_tags(a),
        only_own_tags(b),
    ensures
        only_own_tags(a + b),
{
    let s = a + b;
    assert forall|i: int| 0 <= i < s.len() && #[trigger] s[i] == '<' implies tag_at(s, i) by {
        if i < a.len() {
            assert(tag_at(a, i));
            lemma_tag_moves(a, s, i, 0);
        } else {
            assert(b[i - a.len()] == '<');
            assert(tag_at(b, i - a.len()));
            lemma_tag_moves(b, s, i - a.len(), a.len() as int);
        }
    }
}

proof fn lemma_tag_moves(part: Seq<char>, s: Seq<char>, i: int, by: int)
    requires
        tag_at(part, i),
        0 <= by,
        by + part.len() <= s.len(),
        forall|j: int| 0 <= j < part.len() ==> #[trigger] part[j] == s[j + by],
    ensures
        tag_at(s, i + by),
{
    assert forall|tag: Seq<char>| #[trigger] occurs_at(part, tag, i) implies occurs_at(
        s,
        tag,
        i + by,
    ) by {
        assert(s.subrange(i + by, i + by + tag.len()) =~= part.subrange(i, i + tag.len()));
    }
}

proof fn lemma_numerals_are_untagged(n: nat)
    ensures
        untagged(decimal_of(n)),
    decreases n,
{
    if n >= 10 {
        lemma_numerals_are_untagged(n / 10);
    }
}

proof fn lemma_pixels_are_untagged(p: Pixels)
    ensures
        untagged(p.text()),
{
    lemma_numerals_are_untagged((p.tenths / 10) as nat);
    lemma_numerals_are_untagged((p.tenths % 10) as nat);
    reveal_strlit("-");
    reveal_strlit(".");
}

proof fn lemma_frame_tags(g: CellGeometry)
    ensures
        only_own_tags(frame_svg(g)),
{
    reveal_strlit("<rect ");
    reveal_strlit("<rect x=\"");
    reveal_strlit("\" y=\"");
    reveal_strlit("\" width=\"");
    reveal_strlit("\" height=\"");
    reveal_strlit("\" fill=\"none\" stroke=\"");
    reveal_strlit("#000000");
    reveal_strlit("\" stroke-width=\"1.5\" rx=\"6\"/>");
    assert("<rect x=\""@.subrange(0, 6) =~= "<rect "@);
    lemma_pixels_are_untagged(g.frame_x);
    lemma_pixels_are_untagged(g.frame_y);
    lemma_pixels_are_untagged(g.frame_w);
    lemma_pixels_are_untagged(g.frame_h);
    let s0 = "<rect x=\""@;
    let s1 = s0 + g.frame_x.text();
    let s2 = s1 + "\" y=\""@;
    let s3 = s2 + g.frame_y.text();
    let s4 = s3 + "\" width=\""@;
    let s5 = s4 + g.frame_w.text();
    let s6 = s5 + "\" height=\""@;
    let s7 = s6 + g.frame_h.text();
    let s8 = s7 + "\" fill=\"none\" stroke=\""@;
    let s9 = s8 + foreground();
    lemma_join(s0, g.frame_x.text());
    lemma_join(s1, "\" y=\""@);
    lemma_join(s2, g.frame_y.text());
    lemma_join(s3, "\" width=\""@);
    lemma_join(s4, g.frame_w.text());
    lemma_join(s5, "\" height=\""@);
    lemma_join(s6, g.frame_h.text());
    lemma_join(s7, "\" fill=\"none\" stroke=\""@);
    lemma_join(s8, foreground());
    lemma_join(s9, "\" stroke-width=\"1.5\" rx=\"6\"/>"@);
}

proof fn lemma_text_tags(spot: TextSpot, weight: Seq<char>, fill: Seq<char>, content: Seq<char>)
    requires
        untagged(weight),
        untagged(fill),
    ensures
        only_own_tags(text_svg(spot, weight, fill, content)),
{
    let body = escaped(truncated(content, spot.max_chars as int));
    law_escaped_text_holds_no_markup(truncated(content, spot.max_chars as int));
    assert(untagged(body));
    reveal_strlit("<text ");
    reveal_strlit("<text x=\"");
    reveal_strlit("\" y=\"");
    reveal_strlit("\" font-family=\"Helvetica, Arial, sans-serif\" font-size=\"");
    reveal_strlit("\" font-weight=\"");
    reveal_strlit("\" fill=\"");
    reveal_strlit("\">");
    reveal_strlit("</text>");
    assert("<text x=\""@.subrange(0, 6) =~= "<text "@);
    assert("</text>"@.subrange(0, 7) =~= "</text>"@);
    lemma_pixels_are_untagged(spot.x);
    lemma_pixels_are_untagged(spot.y);
    lemma_pixels_are_untagged(spot.size);
    let s0 = "<text x=\""@;
    let s1 = s0 + spot.x.text();
    let s2 = s1 + "\" y=\""@;
    let s3 = s2 + spot.y.text();
    let s4 = s3 + "\" font-family=\"Helvetica, Arial, sans-serif\" font-size=\""@;
    let s5 = s4 + spot.size.text();
    let s6 = s5 + "\" font-weight=\""@;
    let s7 = s6 + weight;
    let s8 = s7 + "\" fill=\""@;
    let s9 = s8 + fill;
    let s10 = s9 + "\">"@;
    let s11 = s10 + body;
    lemma_join(s0, spot.x.text());
    lemma_join(s1, "\" y=\""@);
    lemma_join(s2, spot.y.text());
    lemma_join(s3, "\" font-family=\"Helvetica, Arial, sans-serif\" font-size=\""@);
    lemma_join(s4, spot.size.text());
    lemma_join(s5, "\" font-weight=\""@);
    lemma_join(s6, weight);
    lemma_join(s7, "\" fill=\""@);
    lemma_join(s8, fill);
    lemma_join(s9, "\">"@);
    lemma_join(s10, body);
    lemma_join(s11, "</text>"@);
}

proof fn lemma_styles_are_untagged(mono: bool)
    ensures
        untagged(foreground()),
        untagged(muted_tone(mono)),
        untagged("400"@),
        untagged("500"@),
        untagged("600"@),
        untagged("700"@),
{
    reveal_strlit("#000000");
    reveal_strlit("#555555");
    reveal_strlit("400");
    reveal_strlit("500");
    reveal_strlit("600");
    reveal_strlit("700");
}

proof fn lemma_lines_tags(
    spots: Seq<TextSpot>,
    weight: Seq<char>,
    lines: Seq<Seq<char>>,
    count: int,
)
    requires
        untagged(weight),
    ensures
        only_own_tags(lines_svg(spots, weight, lines, count)),
    decreases count,
{
    if count > 0 {
        lemma_styles_are_untagged(true);
        lemma_lines_tags(spots, weight, lines, count - 1);
        lemma_text_tags(spots[count - 1], weight, foreground(), lines[count - 1]);
        lemma_join(
            lines_svg(spots, weight, lines, count - 1),
            text_svg(spots[count - 1], weight, foreground(), lines[count - 1]),
        );
    }
}

/// Whatever a widget holds, what is drawn of it opens and closes no tag but those that
/// documents are made of.
pub proof fn law_widgets_add_no_markup(
    r: WidgetRenderer,
    w: WidgetView,
    g: CellGeometry,
    mono: bool,
)
    ensures
        only_own_tags(drawing(r, w, g, mono)),
{
    let (frame, title) = (frame_svg(g), title_svg(g, mono, w.title));
    let head = frame + title;
    let lines = wanted_lines(r, w, g.line_chars as int);
    let count = shorter(lines.len(), g.lines@.len());
    lemma_styles_are_untagged(mono);
    lemma_frame_tags(g);
    if !blank(w.title) {
        lemma_text_tags(g.title, "600"@, muted_tone(mono), w.title);
    }
    lemma_join(frame, title);
    match r {
        WidgetRenderer::Metric => {
            let big = metric_text(w.config, cached(w));
            let number = text_svg(g.value, "700"@, foreground(), big);
            lemma_text_tags(g.value, "700"@, foreground(), big);
            lemma_join(head, number);
            if let Some(label) = w.config.text_at("label"@) {
                lemma_text_tags(g.label, "500"@, muted_tone(mono), label);
                lemma_join(head + number, text_svg(g.label, "500"@, muted_tone(mono), label));
            }
        },
        WidgetRenderer::List => {
            lemma_text_tags(g.empty, "400"@, muted_tone(mono), "No items"@);
            lemma_join(head, text_svg(g.empty, "400"@, muted_tone(mono), "No items"@));
            lemma_lines_tags(g.lines@, "500"@, lines, count);
            lemma_join(head, lines_svg(g.lines@, "500"@, lines, count));
        },
        WidgetRenderer::Text => {
            lemma_lines_tags(g.lines@, "400"@, lines, count);
            lemma_join(head, lines_svg(g.lines@, "400"@, lines, count));
        },
    }
}

proof fn lemma_opening_tags(profile: DeviceProfile)
    ensures
        only_own_tags(opening_svg(profile)),
{
    let w = decimal_of(profile.w as nat);
    let h = decimal_of(profile.h as nat);
    lemma_numerals_are_untagged(profile.w as nat);
    lemma_numerals_are_untagged(profile.h as nat);
    reveal_strlit("<svg ");
    reveal_strlit("<rect ");
    reveal_strlit("<svg xmlns=\"http://www.w3.org/2000/svg\" width=\"");
    reveal_strlit("\" height=\"");
    reveal_strlit("\" viewBox=\"0 0 ");
    reveal_strlit(" ");
    reveal_strlit("\"><rect x=\"0\" y=\"0\" width=\"");
    reveal_strlit("\" fill=\"#ffffff\"/>");
    let s0 = "<svg xmlns=\"http://www.w3.org/2000/svg\" width=\""@;
    let ground = "\"><rect x=\"0\" y=\"0\" width=\""@;
    assert(s0.subrange(0, 5) =~= "<svg "@);
    assert(ground.subrange(2, 8) =~= "<rect "@);
    assert(only_own_tags(s0));
    assert(only_own_tags(ground));
    let s1 = s0 + w;
    let s2 = s1 + "\" height=\""@;
    let s3 = s2 + h;
    let s4 = s3 + "\" viewBox=\"0 0 "@;
    let s5 = s4 + w;
    let s6 = s5 + " "@;
    let s7 = s6 + h;
    let s8 = s7 + ground;
    let s9 = s8 + w;
    let s10 = s9 + "\" height=\""@;
    let s11 = s10 + h;
    lemma_join(s0, w);
    lemma_join(s1, "\" height=\""@);
    lemma_join(s2, h);
    lemma_join(s3, "\" viewBox=\"0 0 "@);
    lemma_join(s4, w);
    lemma_join(s5, " "@);
    lemma_join(s6, h);
    lemma_join(s7, ground);
    lemma_join(s8, w);
    lemma_join(s9, "\" height=\""@);
    lemma_join(s10, h);
    lemma_join(s11, "\" fill=\"#ffffff\"/>"@);
}

proof fn lemma_empty_tags(x: Pixels, y: Pixels)
    ensures
        only_own_tags(empty_svg(x, y)),
{
    reveal_strlit("<text ");
    reveal_strlit("</text>");
    reveal_strlit("<text x=\"");
    reveal_strlit("\" y=\"");
    reveal_strlit(
        "\" text-anchor=\"middle\" font-family=\"Helvetica, Arial, sans-serif\" font-size=\"18\" fill=\"#000000\">No widgets on this dashboard</text>",
    );
    lemma_pixels_are_untagged(x);
    lemma_pixels_are_untagged(y);
    let s0 = "<text x=\""@;
    let note = "\" text-anchor=\"middle\" font-family=\"Helvetica, Arial, sans-serif\" font-size=\"18\" fill=\"#000000\">No widgets on this dashboard</text>"@;
    assert(s0.subrange(0, 6) =~= "<text "@);
    assert(note.subrange(note.len() - 7, note.len() as int) =~= "</text>"@);
    assert(only_own_tags(note));
    let s1 = s0 + x.text();
    let s2 = s1 + "\" y=\""@;
    let s3 = s2 + y.text();
    lemma_join(s0, x.text());
    lemma_join(s1, "\" y=\""@);
    lemma_join(s2, y.text());
    lemma_join(s3, note);
}

proof fn lemma_cells_tags(widgets: Seq<Widget>, cells: Seq<CellGeometry>, mono: bool, count: int)
    ensures
        only_own_tags(cells_svg(widgets, cells, mono, count)),
    decreases count,
{
    if count > 0 {
        let w = widgets[count - 1]@;
        lemma_cells_tags(widgets, cells, mono, count - 1);
        law_widgets_add_no_markup(renderer_of(w.kind), w, cells[count - 1], mono);
        lemma_join(
            cells_svg(widgets, cells, mono, count - 1),
            widget_svg(w, cells[count - 1], mono),
        );
    }
}

/// Whatever the widgets of a dashboard hold, its document opens and closes no tag but those
/// that documents are made of.
pub proof fn law_documents_hold_only_own_tags(
    widgets: Seq<Widget>,
    profile: DeviceProfile,
    geometry: PanelGeometry,
)
    ensures
        only_own_tags(document(widgets, profile, geometry)),
{
    let cells = cells_svg(widgets, geometry.cells@, profile.eink(), widgets.len() as int);
    let middle = if widgets.len() == 0 {
        empty_svg(geometry.center_x, geometry.center_y)
    } else {
        cells
    };
    lemma_opening_tags(profile);
    lemma_empty_tags(geometry.center_x, geometry.center_y);
    lemma_cells_tags(widgets, geometry.cells@, profile.eink(), widgets.len() as int);
    reveal_strlit("</svg>");
    assert("</svg>"@.subrange(0, 6) =~= "</svg>"@);
    assert(only_own_tags("</svg>"@));
    lemma_join(opening_svg(profile), middle);
    lemma_join(opening_svg(profile) + middle, "</svg>"@);
}

} // verus!
