//! Drawing a series as a line of bar glyphs or as numeric text for a graph font, with one
//! position picked out in colour.
pub mod font;
pub mod quantize;

use vstd::prelude::*;
use vstd::string::*;

use crate::color::{hex_text, Color};
use crate::text::{dec_text, int_text, push_integer};

pub use self::font::{font_name, font_size, Font, Style, Weight};
pub use self::quantize::{
    bucket, calculate_min_max_and_ratio, level, lemma_series_bounds, present, ratio_for, ratio_ok,
    series_max, series_min, Ratio, SAMPLE_SCALE,
};

verus! {

/// One position of a graph to draw in colour.
#[derive(Eq, PartialEq, Structural, Copy, Clone, Debug, Default)]
pub struct Highlight {
    pub position: Option<usize>,
    pub fg: Option<Color>,
    pub bg: Option<Color>,
}

/// Why a series cannot be drawn.
#[derive(Eq, PartialEq, Structural, Copy, Clone, Debug)]
pub enum RenderError {
    /// The series has no positions.
    EmptySeries,
    /// No position of the series holds a sample.
    NoData,
    /// The highlighted position is not a position of the series.
    HighlightOutOfRange,
}

/// Levels above the lowest in a line of bar glyphs.
pub const SPARK_LEVELS: u32 = 7;

/// The bar glyphs, lowest first.
pub open spec fn bar_glyphs() -> Seq<char> {
    "▁▂▃▄▅▆▇█"@
}

/// The concatenation of `cells`, in order.
pub open spec fn joined(cells: Seq<Seq<char>>) -> Seq<char>
    decreases cells.len(),
{
    if cells.len() == 0 {
        Seq::empty()
    } else {
        joined(cells.drop_last()) + cells.last()
    }
}

/// The position a highlight asks for, if any.
pub open spec fn highlight_position(h: Option<Highlight>) -> Option<usize> {
    match h {
        Some(hl) => hl.position,
        None => None,
    }
}

/// What is wrong with drawing `values` with highlight `h`, if anything.
pub open spec fn render_problem(values: Seq<Option<i64>>, h: Option<Highlight>) -> Option<
    RenderError,
> {
    if values.len() == 0 {
        Some(RenderError::EmptySeries)
    } else if !present(values) {
        Some(RenderError::NoData)
    } else if highlight_position(h) is Some && highlight_position(h).unwrap() >= values.len() {
        Some(RenderError::HighlightOutOfRange)
    } else {
        None
    }
}

/// `cells` with the highlighted one, if any, replaced by `styled` of it.
pub open spec fn with_highlight(
    cells: Seq<Seq<char>>,
    h: Option<Highlight>,
    styled: spec_fn(Seq<char>, Option<Color>, Option<Color>) -> Seq<char>,
) -> Seq<Seq<char>> {
    match h {
        Some(hl) => match hl.position {
            Some(p) => cells.update(p as int, styled(cells[p as int], hl.fg, hl.bg)),
            None => cells,
        },
        None => cells,
    }
}

/// The foreground or background code of an RGB colour in a terminal escape sequence.
pub open spec fn rgb_code(c: Color) -> Seq<char> {
    dec_text(c.red as nat) + ";"@ + dec_text(c.green as nat) + ";"@ + dec_text(c.blue as nat)
}

/// `text` between the terminal escape sequences that set the background `bg` and the
/// foreground `fg` and reset them; `text` alone when neither is given.
pub open spec fn ansi_painted(text: Seq<char>, fg: Option<Color>, bg: Option<Color>) -> Seq<char> {
    let codes = match (bg, fg) {
        (Some(b), Some(f)) => "48;2;"@ + rgb_code(b) + ";"@ + "38;2;"@ + rgb_code(f),
        (Some(b), None) => "48;2;"@ + rgb_code(b),
        (None, Some(f)) => "38;2;"@ + rgb_code(f),
        (None, None) => Seq::empty(),
    };
    if fg is None && bg is None {
        text
    } else {
        "\x1B["@ + codes + "m"@ + text + "\x1B[0m"@
    }
}

/// A markup attribute naming a colour, or nothing when there is no colour.
pub open spec fn color_attribute(name: Seq<char>, c: Option<Color>) -> Seq<char> {
    match c {
        Some(color) => name + hex_text(color) + "'"@,
        None => Seq::empty(),
    }
}

/// `text` in a markup span with the given background and foreground.
pub open spec fn span_text(text: Seq<char>, fg: Option<Color>, bg: Option<Color>) -> Seq<char> {
    "<span "@ + color_attribute("background='"@, bg) + " "@ + color_attribute("foreground='"@, fg)
        + ">"@ + text + "</span>"@
}

/// The glyph of one position of a bar line: a bar for a sample, a blank for a gap.
pub open spec fn spark_cell(v: Option<i64>, min: i64, ratio: Ratio) -> Seq<char> {
    match v {
        Some(x) => {
            let k = level(x as int, min as int, ratio);
            bar_glyphs().subrange(k, k + 1)
        },
        None => " "@,
    }
}

/// The unstyled glyphs of a bar line of `values`.
pub open spec fn spark_cells(values: Seq<Option<i64>>) -> Seq<Seq<char>> {
    let min = series_min(values).unwrap();
    let ratio = ratio_for(min, series_max(values).unwrap(), SPARK_LEVELS);
    Seq::new(values.len(), |i: int| spark_cell(values[i], min, ratio))
}

/// A bar line of `values`, or why there is none.
pub open spec fn sparkline_text(values: Seq<Option<i64>>, h: Option<Highlight>) -> Result<
    Seq<char>,
    RenderError,
> {
    match render_problem(values, h) {
        Some(e) => Err(e),
        None => Ok(joined(with_highlight(spark_cells(values), h, |t, f, b| ansi_painted(t, f, b)))),
    }
}

/// The text of position `i` of `n` in font graph text: the level of its sample, a gap
/// counting as zero, then a comma; the first opens with `{`, the last closes with `}`.
pub open spec fn font_cell(i: int, n: int, v: Option<i64>, min: i64, ratio: Ratio) -> Seq<char> {
    let x: i64 = match v {
        Some(x) => x,
        None => 0,
    };
    (if i == 0 {
        "{"@
    } else {
        Seq::empty()
    }) + int_text(level(x as int, min as int, ratio)) + (if i == n - 1 {
        "}"@
    } else {
        ","@
    })
}

/// The unstyled texts of the positions of font graph text of `values`.
pub open spec fn font_cells(values: Seq<Option<i64>>, size: u32) -> Seq<Seq<char>> {
    let min = series_min(values).unwrap();
    let ratio = ratio_for(min, series_max(values).unwrap(), size);
    Seq::new(values.len(), |i: int| font_cell(i, values.len() as int, values[i], min, ratio))
}

/// Font graph text of `values` in `font`, or why there is none.
pub open spec fn font_graph_text(values: Seq<Option<i64>>, font: Font, h: Option<Highlight>) -> Result<
    Seq<char>,
    RenderError,
> {
    match render_problem(values, h) {
        Some(e) => Err(e),
        None => Ok(
            "<span font_desc='"@ + font_name(font) + "'>"@ + joined(
                with_highlight(font_cells(values, font_size(font)), h, |t, f, b| span_text(t, f, b)),
            ) + "</span>"@,
        ),
    }
}

/// The text a rendering gave, or its error.
pub open spec fn rendered(r: Result<String, RenderError>) -> Result<Seq<char>, RenderError> {
    match r {
        Ok(s) => Ok(s@),
        Err(e) => Err(e),
    }
}

proof fn lemma_joined_push(cells: Seq<Seq<char>>, i: int)
    requires
        0 <= i < cells.len(),
    ensures
        joined(cells.take(i + 1)) == joined(cells.take(i)) + cells[i],
{
    assert(cells.take(i + 1).drop_last() =~= cells.take(i));
}

/// A sample between the least and the greatest of a series lies on a level from zero to the
/// level count, both included, so a bar line never reaches past its last glyph.
pub proof fn lemma_level_in_range(x: i64, min: i64, max: i64, levels: u32)
    requires
        min <= x <= max,
    ensures
        0 <= level(x as int, min as int, ratio_for(min, max, levels)) <= levels,
{
    let r = ratio_for(min, max, levels);
    let a = (x - min) * r.num;
    if min == max {
        assert(x == min);
        assert((x - min) * r.num == 0) by (nonlinear_arith)
            requires
                x == min,
        ;
        assert(level(x as int, min as int, r) == 0);
    } else {
        let d = max - min;
        assert(0 <= (x - min) * levels <= levels * d) by (nonlinear_arith)
            requires
                0 <= x - min <= d,
                0 <= levels,
        ;
        vstd::arithmetic::div_mod::lemma_div_pos_is_pos(a, d);
        vstd::arithmetic::div_mod::lemma_div_is_ordered(a, levels * d, d);
        vstd::arithmetic::div_mod::lemma_div_by_multiple(levels as int, d);
    }
}

/// Relies on ansi_term: `Style::paint` with RGB colours writes the style's prefix
/// (`ESC[`, the background code `48;2;R;G;B`, then the foreground code `38;2;R;G;B`,
/// separated by `;`, then `m`), the text, and the reset `ESC[0m`; a style with no colour
/// writes the text alone.
#[verifier::external_body]
fn paint(text: &str, fg: Option<Color>, bg: Option<Color>) -> (r: String)
    ensures
        r@ == ansi_painted(text@, fg, bg),
{
    let style = ansi_term::Style {
        foreground: fg.map(|f| ansi_term::Colour::RGB(f.red, f.green, f.blue)),
        background: bg.map(|b| ansi_term::Colour::RGB(b.red, b.green, b.blue)),
        ..ansi_term::Style::default()
    };
    style.paint(text).to_string()
}

/// `text` in a markup span with the given background and foreground colours.
fn span(text: &str, fg: Option<Color>, bg: Option<Color>) -> (r: String)
    ensures
        r@ == span_text(text@, fg, bg),
{
    let mut out = String::from_str("<span ");
    if let Some(b) = bg {
        out.append("background='");
        out.append(b.hex().as_str());
        out.append("'");
    }
    out.append(" ");
    if let Some(f) = fg {
        out.append("foreground='");
        out.append(f.hex().as_str());
        out.append("'");
    }
    out.append(">");
    out.append(text);
    out.append("</span>");
    out
}

/// Checks a series and a highlight before drawing, and gives the range and ratio of the
/// series over `size` levels.
fn check(values: &[Option<i64>], highlight: Option<Highlight>, size: u32) -> (r: Result<
    (i64, i64, Ratio),
    RenderError,
>)
    ensures
        r is Err <==> render_problem(values@, highlight) is Some,
        r is Err ==> render_problem(values@, highlight) == Some(r->Err_0),
        r is Ok ==> {
            &&& series_min(values@) == Some(r->Ok_0.0)
            &&& series_max(values@) == Some(r->Ok_0.1)
            &&& r->Ok_0.2 == ratio_for(r->Ok_0.0, r->Ok_0.1, size)
            &&& ratio_ok(r->Ok_0.2)
        },
{
    if values.len() == 0 {
        return Err(RenderError::EmptySeries);
    }
    let range = calculate_min_max_and_ratio(values, size);
    match range {
        None => Err(RenderError::NoData),
        Some((min, max, ratio)) => {
            if let Some(h) = highlight {
                if let Some(p) = h.position {
                    if p >= values.len() {
                        return Err(RenderError::HighlightOutOfRange);
                    }
                }
            }
            Ok((min, max, ratio))
        },
    }
}

/// Draws `values` as a line of bar glyphs, one per position: the least sample gets the
/// lowest bar, the greatest the highest, a constant series the lowest throughout, and a
/// gap a blank. The highlighted position, if any, is coloured with terminal escapes.
pub fn render_sparkline(values: &[Option<i64>], highlight: Option<Highlight>) -> (r: Result<
    String,
    RenderError,
>)
    ensures
        rendered(r) == sparkline_text(values@, highlight),
{
    let (min, max, ratio) = match check(values, highlight, SPARK_LEVELS) {
        Ok(range) => range,
        Err(e) => return Err(e),
    };
    let ghost cells = with_highlight(spark_cells(values@), highlight, |t, f, b| ansi_painted(t, f, b));
    proof {
        reveal_strlit("▁▂▃▄▅▆▇█");
        lemma_series_bounds(values@);
    }
    let mut out = String::new();
    let mut i: usize = 0;
    while i < values.len()
        invariant
            i <= values@.len(),
            render_problem(values@, highlight) is None,
            series_min(values@) == Some(min),
            series_max(values@) == Some(max),
            ratio == ratio_for(min, max, SPARK_LEVELS),
            ratio_ok(ratio),
            bar_glyphs().len() == 8,
            cells == with_highlight(spark_cells(values@), highlight, |t, f, b| ansi_painted(t, f, b)),
            cells.len() == values@.len(),
            forall|k: int|
                0 <= k < values@.len() && (#[trigger] values@[k]) is Some ==> min <= values@[k].unwrap()
                    <= max,
            out@ == joined(cells.take(i as int)),
        decreases values@.len() - i,
    {
        let cell: &str = match values[i] {
            Some(x) => {
                let k = bucket(x, min, ratio);
                proof {
                    lemma_level_in_range(x, min, max, SPARK_LEVELS);
                }
                "▁▂▃▄▅▆▇█".substring_char(k as usize, k as usize + 1)
            },
            None => " ",
        };
        let styled: String = match highlight {
            Some(h) => match h.position {
                Some(p) => if p == i {
                    paint(cell, h.fg, h.bg)
                } else {
                    String::from_str(cell)
                },
                None => String::from_str(cell),
            },
            None => String::from_str(cell),
        };
        assert(styled@ == cells[i as int]);
        proof {
            lemma_joined_push(cells, i as int);
        }
        out.append(styled.as_str());
        i = i + 1;
    }
    assert(cells.take(values@.len() as int) =~= cells);
    Ok(out)
}

/// Draws `values` as text for a graph font: the level of each position's sample over
/// `font.size()` levels, a gap counting as the value zero, joined by commas inside braces,
/// all in a markup span that selects the font. The highlighted position, if any, is
/// wrapped in a span with its colours.
pub fn render_font_graph(values: &[Option<i64>], font: Font, highlight: Option<Highlight>) -> (r:
    Result<String, RenderError>)
    ensures
        rendered(r) == font_graph_text(values@, font, highlight),
{
    let size = font.size();
    let (min, _max, ratio) = match check(values, highlight, size) {
        Ok(range) => range,
        Err(e) => return Err(e),
    };
    let ghost cells = with_highlight(font_cells(values@, size), highlight, |t, f, b| span_text(t, f, b));
    let n = values.len();
    let mut out = String::from_str("<span font_desc='");
    out.append(font.to_string().as_str());
    out.append("'>");
    let ghost head = out@;
    let mut i: usize = 0;
    while i < n
        invariant
            n == values@.len(),
            i <= n,
            render_problem(values@, highlight) is None,
            series_min(values@) == Some(min),
            ratio == ratio_for(min, series_max(values@).unwrap(), size),
            ratio_ok(ratio),
            cells == with_highlight(font_cells(values@, size), highlight, |t, f, b| span_text(t, f, b)),
            cells.len() == n,
            out@ == head + joined(cells.take(i as int)),
        decreases n - i,
    {
        let x: i64 = match values[i] {
            Some(x) => x,
            None => 0,
        };
        let mut cell = String::new();
        if i == 0 {
            cell.append("{");
        }
        push_integer(&mut cell, bucket(x, min, ratio));
        if i == n - 1 {
            cell.append("}");
        } else {
            cell.append(",");
        }
        assert(cell@ =~= font_cell(i as int, n as int, values@[i as int], min, ratio));
        let styled: String = match highlight {
            Some(h) => match h.position {
                Some(p) => if p == i {
                    span(cell.as_str(), h.fg, h.bg)
                } else {
                    cell
                },
                None => cell,
            },
            None => cell,
        };
        assert(styled@ == cells[i as int]);
        proof {
            lemma_joined_push(cells, i as int);
        }
        out.append(styled.as_str());
        i = i + 1;
    }
    assert(cells.take(n as int) =~= cells);
    out.append("</span>");
    Ok(out)
}

/// The highlight to draw with: `h`, taking `fallback` as its position when it names none.
pub open spec fn resolved_highlight(fallback: Option<usize>, h: Highlight) -> Highlight {
    if h.position is Some {
        h
    } else {
        Highlight { position: fallback, ..h }
    }
}

/// A series to draw, with the font and the highlight to draw it with.
#[derive(Debug)]
pub struct Graph {
    pub values: Vec<Option<i64>>,
    pub font: Font,
    pub highlight: Option<Highlight>,
}

/// What a graph holds: its samples in order, its font and its highlight.
pub struct GraphView {
    pub values: Seq<Option<i64>>,
    pub font: Font,
    pub highlight: Option<Highlight>,
}

impl View for Graph {
    type V = GraphView;

    open spec fn view(&self) -> GraphView {
        GraphView { values: self.values@, font: self.font, highlight: self.highlight }
    }
}

impl Graph {
    /// An empty graph with the default font and no highlight.
    pub fn new() -> (r: Graph)
        ensures
            r@.values == Seq::<Option<i64>>::empty(),
            r@.font == (Font { style: Style::Bar, weight: Weight::Medium }),
            r@.highlight is None,
    {
        Graph { values: Vec::new(), font: Font::default(), highlight: None }
    }

    /// Sets the series to draw.
    pub fn values(&mut self, v: &[Option<i64>])
        ensures
            final(self)@.values == v@,
            final(self)@.font == old(self)@.font,
            final(self)@.highlight == old(self)@.highlight,
    {
        let mut copy: Vec<Option<i64>> = Vec::new();
        let mut i: usize = 0;
        while i < v.len()
            invariant
                i <= v@.len(),
                copy@ == v@.take(i as int),
            decreases v@.len() - i,
        {
            copy.push(v[i]);
            i = i + 1;
            assert(copy@ =~= v@.take(i as int));
        }
        assert(v@.take(v@.len() as int) =~= v@);
        self.values = copy;
    }

    /// Sets the highlight, with `position` standing in when `highlight` names no position.
    pub fn highlight(&mut self, position: &Option<usize>, highlight: &Highlight)
        ensures
            final(self)@.highlight == Some(resolved_highlight(*position, *highlight)),
            final(self)@.values == old(self)@.values,
            final(self)@.font == old(self)@.font,
    {
        self.highlight = Some(
            if highlight.position.is_none() {
                Highlight { position: *position, ..*highlight }
            } else {
                *highlight
            },
        );
    }

    /// Sets the font.
    pub fn font(&mut self, font: &Font)
        ensures
            final(self)@.font == *font,
            final(self)@.values == old(self)@.values,
            final(self)@.highlight == old(self)@.highlight,
    {
        self.font = *font;
    }

    /// Sets the style of the font.
    pub fn font_style(&mut self, font_style: &Style)
        ensures
            final(self)@.font == (Font { style: *font_style, ..old(self)@.font }),
            final(self)@.values == old(self)@.values,
            final(self)@.highlight == old(self)@.highlight,
    {
        self.font.style = *font_style;
    }

    /// Sets the weight of the font.
    pub fn font_weight(&mut self, font_weight: &Weight)
        ensures
            final(self)@.font == (Font { weight: *font_weight, ..old(self)@.font }),
            final(self)@.values == old(self)@.values,
            final(self)@.highlight == old(self)@.highlight,
    {
        self.font.weight = *font_weight;
    }

    /// The series as a line of bar glyphs; see `render_sparkline`.
    pub fn sparkline(&self) -> (r: Result<String, RenderError>)
        ensures
            rendered(r) == sparkline_text(self@.values, self@.highlight),
    {
        render_sparkline(self.values.as_slice(), self.highlight)
    }

    /// The series as text for its graph font; see `render_font_graph`.
    pub fn sparkfont(&self) -> (r: Result<String, RenderError>)
        ensures
            rendered(r) == font_graph_text(self@.values, self@.font, self@.highlight),
    {
        render_font_graph(self.values.as_slice(), self.font, self.highlight)
    }
}

impl Default for Graph {
    fn default() -> (r: Graph)
        ensures
            r@.values == Seq::<Option<i64>>::empty(),
            r@.font == (Font { style: Style::Bar, weight: Weight::Medium }),
            r@.highlight is None,
    {
        Graph::new()
    }
}

proof fn lemma_joined_unit_cells(cells: Seq<Seq<char>>)
    requires
        forall|i: int| 0 <= i < cells.len() ==> (#[trigger] cells[i]).len() == 1,
    ensures
        joined(cells).len() == cells.len(),
    decreases cells.len(),
{
    if cells.len() > 0 {
        let rest = cells.drop_last();
        assert forall|i: int| 0 <= i < rest.len() implies (#[trigger] rest[i]).len() == 1 by {
            assert(rest[i] == cells[i]);
        }
        lemma_joined_unit_cells(rest);
        assert(cells.last() == cells[cells.len() - 1]);
    }
}

/// A bar line without a coloured highlight has exactly one glyph for each position of the
/// series, gaps included.
pub proof fn lemma_sparkline_length(values: Seq<Option<i64>>, h: Option<Highlight>)
    requires
        sparkline_text(values, h) is Ok,
        !(highlight_position(h) is Some && (h.unwrap().fg is Some || h.unwrap().bg is Some)),
    ensures
        sparkline_text(values, h)->Ok_0.len() == values.len(),
{
    reveal_strlit("▁▂▃▄▅▆▇█");
    reveal_strlit(" ");
    lemma_series_bounds(values);
    let min = series_min(values).unwrap();
    let max = series_max(values).unwrap();
    let plain = spark_cells(values);
    let cells = with_highlight(plain, h, |t, f, b| ansi_painted(t, f, b));
    assert forall|i: int| 0 <= i < plain.len() implies (#[trigger] plain[i]).len() == 1 by {
        if values[i] is Some {
            lemma_level_in_range(values[i].unwrap(), min, max, SPARK_LEVELS);
        }
    }
    assert forall|i: int| 0 <= i < cells.len() implies (#[trigger] cells[i]).len() == 1 by {
        assert(plain[i].len() == 1);
    }
    lemma_joined_unit_cells(cells);
}

/// At a gap, a bar line shows a blank while font graph text shows the level of the value
/// zero, so the two renderings differ there.
pub proof fn lemma_gap_cells(values: Seq<Option<i64>>, i: int, size: u32)
    requires
        0 <= i < values.len(),
        values[i] is None,
        present(values),
    ensures
        spark_cells(values)[i] == " "@,
        font_cells(values, size)[i] == font_cell(
            i,
            values.len() as int,
            Some(0i64),
            series_min(values).unwrap(),
            ratio_for(series_min(values).unwrap(), series_max(values).unwrap(), size),
        ),
        spark_cells(values)[i] != font_cells(values, size)[i],
{
    reveal_strlit(" ");
    reveal_strlit("}");
    reveal_strlit(",");
    reveal_strlit("-");
    let c = font_cells(values, size)[i];
    let x = level(
        0,
        series_min(values).unwrap() as int,
        ratio_for(series_min(values).unwrap(), series_max(values).unwrap(), size),
    );
    assert(int_text(x).len() >= 1);
    assert(c.len() >= 2);
}

/// Whether a terminal shows `c` when it reads it inside (`escaping`) or outside an escape
/// sequence.
pub open spec fn shown(c: char, escaping: bool) -> bool {
    !escaping && c != '\x1B'
}

/// Whether the terminal is inside an escape sequence after reading `c`: one starts at ESC
/// and runs up to and including the next `m`.
pub open spec fn escaping_after(c: char, escaping: bool) -> bool {
    if escaping {
        c != 'm'
    } else {
        c == '\x1B'
    }
}

/// The characters of `s` that a terminal shows, escape sequences left out, when it starts
/// reading inside (`escaping`) or outside one.
pub open spec fn visible(s: Seq<char>, escaping: bool) -> Seq<char>
    decreases s.len(),
{
    if s.len() == 0 {
        Seq::empty()
    } else {
        (if shown(s[0], escaping) {
            seq![s[0]]
        } else {
            Seq::empty()
        }) + visible(s.drop_first(), escaping_after(s[0], escaping))
    }
}

/// Whether a terminal is inside an escape sequence after reading `s`.
pub open spec fn ends_escaping(s: Seq<char>, escaping: bool) -> bool
    decreases s.len(),
{
    if s.len() == 0 {
        escaping
    } else {
        ends_escaping(s.drop_first(), escaping_after(s[0], escaping))
    }
}

proof fn lemma_visible_concat(a: Seq<char>, b: Seq<char>, e: bool)
    ensures
        visible(a + b, e) == visible(a, e) + visible(b, ends_escaping(a, e)),
        ends_escaping(a + b, e) == ends_escaping(b, ends_escaping(a, e)),
    decreases a.len(),
{
    if a.len() == 0 {
        assert(a + b =~= b);
        assert(visible(a, e) =~= Seq::<char>::empty());
        assert(visible(a + b, e) =~= visible(a, e) + visible(b, ends_escaping(a, e)));
    } else {
        assert((a + b)[0] == a[0]);
        assert((a + b).drop_first() =~= a.drop_first() + b);
        lemma_visible_concat(a.drop_first(), b, escaping_after(a[0], e));
        let head: Seq<char> = if shown(a[0], e) {
            seq![a[0]]
        } else {
            Seq::empty()
        };
        assert(visible(a + b, e) =~= head + (visible(a.drop_first(), escaping_after(a[0], e))
            + visible(b, ends_escaping(a, e))));
        assert(visible(a + b, e) =~= visible(a, e) + visible(b, ends_escaping(a, e)));
    }
}

/// `s` holds no `m`, the end of an escape sequence.
pub open spec fn no_escape_end(s: Seq<char>) -> bool {
    forall|i: int| 0 <= i < s.len() ==> #[trigger] s[i] != 'm'
}

proof fn lemma_inside_escape(s: Seq<char>)
    requires
        no_escape_end(s),
    ensures
        visible(s, true) == Seq::<char>::empty(),
        ends_escaping(s, true),
    decreases s.len(),
{
    if s.len() > 0 {
        assert(s[0] != 'm');
        assert(no_escape_end(s.drop_first())) by {
            assert forall|i: int| 0 <= i < s.drop_first().len() implies #[trigger] s.drop_first()[i]
                != 'm' by {
                assert(s.drop_first()[i] == s[i + 1]);
            }
        }
        lemma_inside_escape(s.drop_first());
        assert(visible(s, true) =~= Seq::<char>::empty());
    }
}

proof fn lemma_no_escape_end_concat(a: Seq<char>, b: Seq<char>)
    requires
        no_escape_end(a),
        no_escape_end(b),
    ensures
        no_escape_end(a + b),
{
    assert forall|i: int| 0 <= i < (a + b).len() implies #[trigger] (a + b)[i] != 'm' by {
        if i >= a.len() {
            assert((a + b)[i] == b[i - a.len()]);
        }
    }
}

proof fn lemma_dec_text_no_escape_end(n: nat)
    ensures
        no_escape_end(dec_text(n)),
    decreases n,
{
    crate::text::lemma_hex_digits_reveal();
    if n >= 10 {
        lemma_dec_text_no_escape_end(n / 10);
        lemma_no_escape_end_concat(dec_text(n / 10), seq![crate::text::dec_digits()[(n % 10) as int]]);
    }
}

proof fn lemma_rgb_code_no_escape_end(c: Color)
    ensures
        no_escape_end(rgb_code(c)),
{
    reveal_strlit(";");
    lemma_dec_text_no_escape_end(c.red as nat);
    lemma_dec_text_no_escape_end(c.green as nat);
    lemma_dec_text_no_escape_end(c.blue as nat);
    let semi = ";"@;
    lemma_no_escape_end_concat(dec_text(c.red as nat), semi);
    lemma_no_escape_end_concat(dec_text(c.red as nat) + semi, dec_text(c.green as nat));
    lemma_no_escape_end_concat(dec_text(c.red as nat) + semi + dec_text(c.green as nat), semi);
    lemma_no_escape_end_concat(
        dec_text(c.red as nat) + semi + dec_text(c.green as nat) + semi,
        dec_text(c.blue as nat),
    );
}

proof fn lemma_visible_char(c: char, e: bool)
    ensures
        visible(seq![c], e) == (if shown(c, e) {
            seq![c]
        } else {
            Seq::<char>::empty()
        }),
        ends_escaping(seq![c], e) == escaping_after(c, e),
{
    assert(seq![c].drop_first() =~= Seq::<char>::empty());
    assert(visible(Seq::<char>::empty(), escaping_after(c, e)) =~= Seq::<char>::empty());
    assert(ends_escaping(Seq::<char>::empty(), escaping_after(c, e)) == escaping_after(c, e));
    assert(seq![c][0] == c);
    assert(visible(seq![c], e) =~= (if shown(c, e) {
        seq![c]
    } else {
        Seq::<char>::empty()
    }));
}

proof fn lemma_one_shown_char(c: char)
    requires
        c != '\x1B',
    ensures
        visible(seq![c], false) == seq![c],
        !ends_escaping(seq![c], false),
{
    lemma_visible_char(c, false);
}

/// A single glyph painted with any colours shows as that glyph alone, and the terminal is
/// outside every escape sequence after it.
proof fn lemma_painted_visible(text: Seq<char>, fg: Option<Color>, bg: Option<Color>)
    requires
        text.len() == 1,
        text[0] != '\x1B',
    ensures
        visible(ansi_painted(text, fg, bg), false) == text,
        !ends_escaping(ansi_painted(text, fg, bg), false),
{
    assert(text =~= seq![text[0]]);
    lemma_one_shown_char(text[0]);
    if fg is Some || bg is Some {
        reveal_strlit("\x1B[");
        reveal_strlit("m");
        reveal_strlit("\x1B[0m");
        reveal_strlit(";");
        reveal_strlit("48;2;");
        reveal_strlit("38;2;");
        let codes = match (bg, fg) {
            (Some(b), Some(f)) => "48;2;"@ + rgb_code(b) + ";"@ + "38;2;"@ + rgb_code(f),
            (Some(b), None) => "48;2;"@ + rgb_code(b),
            (None, Some(f)) => "38;2;"@ + rgb_code(f),
            (None, None) => Seq::empty(),
        };
        assert(no_escape_end(codes)) by {
            assert(no_escape_end("48;2;"@));
            assert(no_escape_end("38;2;"@));
            assert(no_escape_end(";"@));
            match (bg, fg) {
                (Some(b), Some(f)) => {
                    lemma_rgb_code_no_escape_end(b);
                    lemma_rgb_code_no_escape_end(f);
                    lemma_no_escape_end_concat("48;2;"@, rgb_code(b));
                    lemma_no_escape_end_concat("48;2;"@ + rgb_code(b), ";"@);
                    lemma_no_escape_end_concat("48;2;"@ + rgb_code(b) + ";"@, "38;2;"@);
                    lemma_no_escape_end_concat("48;2;"@ + rgb_code(b) + ";"@ + "38;2;"@, rgb_code(f));
                },
                (Some(b), None) => {
                    lemma_rgb_code_no_escape_end(b);
                    lemma_no_escape_end_concat("48;2;"@, rgb_code(b));
                },
                (None, Some(f)) => {
                    lemma_rgb_code_no_escape_end(f);
                    lemma_no_escape_end_concat("38;2;"@, rgb_code(f));
                },
                (None, None) => {},
            }
        }
        let open = "\x1B["@;
        let close = "\x1B[0m"@;
        assert(open == seq!['\x1B', '[']);
        assert(close == seq!['\x1B', '[', '0', 'm']);
        assert("m"@ == seq!['m']);
        // Opening: ESC starts a sequence that `[` and the codes keep open.
        lemma_visible_char('\x1B', false);
        lemma_visible_char('[', true);
        lemma_visible_char('0', true);
        lemma_visible_char('m', true);
        assert(open =~= seq!['\x1B'] + seq!['[']);
        lemma_visible_concat(seq!['\x1B'], seq!['['], false);
        assert(visible(open, false) =~= Seq::<char>::empty());
        assert(ends_escaping(open, false));
        lemma_inside_escape(codes);
        lemma_visible_concat(open, codes, false);
        // `m` ends it.
        lemma_visible_concat(open + codes, "m"@, false);
        lemma_visible_concat(open + codes + "m"@, text, false);
        // The reset is a whole sequence of its own.
        assert(close =~= seq!['\x1B', '['] + seq!['0'] + seq!['m']);
        lemma_visible_concat(seq!['\x1B', '['], seq!['0'], false);
        lemma_visible_concat(seq!['\x1B', '['] + seq!['0'], seq!['m'], false);
        assert(visible(close, false) =~= Seq::<char>::empty());
        assert(!ends_escaping(close, false));
        lemma_visible_concat(open + codes + "m"@ + text, close, false);
        assert(visible(ansi_painted(text, fg, bg), false) =~= text);
    }
}

proof fn lemma_visible_joined(cells: Seq<Seq<char>>, plain: Seq<Seq<char>>)
    requires
        cells.len() == plain.len(),
        forall|i: int|
            0 <= i < cells.len() ==> visible(#[trigger] cells[i], false) == plain[i]
                && !ends_escaping(cells[i], false),
    ensures
        visible(joined(cells), false) == joined(plain),
        !ends_escaping(joined(cells), false),
    decreases cells.len(),
{
    if cells.len() > 0 {
        let n = cells.len() - 1;
        assert forall|i: int| 0 <= i < n implies visible(#[trigger] cells.drop_last()[i], false)
            == plain.drop_last()[i] && !ends_escaping(cells.drop_last()[i], false) by {
            assert(cells.drop_last()[i] == cells[i]);
        }
        lemma_visible_joined(cells.drop_last(), plain.drop_last());
        assert(cells.last() == cells[n]);
        lemma_visible_concat(joined(cells.drop_last()), cells.last(), false);
    } else {
        assert(visible(Seq::<char>::empty(), false) =~= Seq::<char>::empty());
    }
}

/// Whatever the highlight, a bar line shows exactly its unstyled glyphs once the terminal
/// escape sequences are left out: one glyph for each position of the series.
pub proof fn lemma_sparkline_visible_length(values: Seq<Option<i64>>, h: Option<Highlight>)
    requires
        sparkline_text(values, h) is Ok,
    ensures
        visible(sparkline_text(values, h)->Ok_0, false) == joined(spark_cells(values)),
        visible(sparkline_text(values, h)->Ok_0, false).len() == values.len(),
{
    reveal_strlit("▁▂▃▄▅▆▇█");
    reveal_strlit(" ");
    lemma_series_bounds(values);
    let min = series_min(values).unwrap();
    let max = series_max(values).unwrap();
    let plain = spark_cells(values);
    let cells = with_highlight(plain, h, |t, f, b| ansi_painted(t, f, b));
    assert forall|i: int| 0 <= i < plain.len() implies (#[trigger] plain[i]).len() == 1
        && plain[i][0] != '\x1B' by {
        if values[i] is Some {
            lemma_level_in_range(values[i].unwrap(), min, max, SPARK_LEVELS);
        }
    }
    assert forall|i: int| 0 <= i < cells.len() implies visible(#[trigger] cells[i], false)
        == plain[i] && !ends_escaping(cells[i], false) by {
        assert(plain[i] =~= seq![plain[i][0]]);
        lemma_one_shown_char(plain[i][0]);
        match h {
            Some(hl) => match hl.position {
                Some(p) => if i == p {
                    lemma_painted_visible(plain[i], hl.fg, hl.bg);
                },
                None => {},
            },
            None => {},
        }
    }
    lemma_visible_joined(cells, plain);
    lemma_joined_unit_cells(plain);
}

} // verus!
