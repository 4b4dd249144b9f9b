use weather::color::Color;
use weather::graph::{
    calculate_min_max_and_ratio, render_font_graph, render_sparkline, Font, Graph, Highlight,
    Ratio, RenderError, Style, Weight, SAMPLE_SCALE,
};

fn series(v: &[Option<f64>]) -> Vec<Option<i64>> {
    v.iter()
        .map(|x| x.map(|f| (f * SAMPLE_SCALE as f64).round() as i64))
        .collect()
}

#[test]
fn constant_series_has_unit_ratio_and_lowest_level() {
    let v = series(&[Some(2.0), Some(2.0), Some(2.0)]);
    let (min, max, ratio) = calculate_min_max_and_ratio(&v, 100).unwrap();
    assert_eq!((min, max), (2000, 2000));
    assert_eq!(ratio.num * SAMPLE_SCALE as i128, ratio.den);
    assert_eq!(render_sparkline(&v, None).unwrap(), "▁▁▁");
    let font = render_font_graph(&v, Font::default(), None).unwrap();
    assert_eq!(font, "<span font_desc='Sparks BarMedium'>{0,0,0}</span>");
}

#[test]
fn range_ignores_gaps() {
    let v = series(&[None, Some(-1.5), None, Some(4.0)]);
    let (min, max, ratio) = calculate_min_max_and_ratio(&v, 7).unwrap();
    assert_eq!((min, max), (-1500, 4000));
    assert_eq!(ratio, Ratio { num: 7, den: 5500 });
    assert_eq!(calculate_min_max_and_ratio(&series(&[None, None]), 7), None);
}

#[test]
fn sparkline_spans_all_bars() {
    let v = series(&[Some(1.0), Some(2.0), Some(3.0), Some(4.0), Some(5.0), Some(6.0), Some(7.0), Some(8.0)]);
    assert_eq!(render_sparkline(&v, None).unwrap(), "▁▂▃▄▅▆▇█");
}

#[test]
fn sparkline_has_one_glyph_per_position() {
    let v = series(&[Some(1013.2), None, Some(1009.7), Some(1020.0), None]);
    let line = render_sparkline(&v, None).unwrap();
    assert_eq!(line.chars().count(), v.len());
    assert_eq!(line, "▃ ▁█ ");
}

#[test]
fn gaps_are_blank_bars_but_zero_in_font_text() {
    let v = series(&[Some(1.0), Some(2.0), Some(3.0), None, Some(8.0)]);
    assert_eq!(render_sparkline(&v, None).unwrap(), "▁▂▃ █");
    assert_eq!(
        render_font_graph(&v, Font::default(), None).unwrap(),
        "<span font_desc='Sparks BarMedium'>{0,14,28,-15,100}</span>"
    );
}

#[test]
fn gap_in_constant_series_is_one_level_per_unit() {
    let v = series(&[Some(2.5), None]);
    assert_eq!(
        render_font_graph(&v, Font::default(), None).unwrap(),
        "<span font_desc='Sparks BarMedium'>{0,-3}</span>"
    );
}

#[test]
fn single_value_gets_both_braces() {
    let v = series(&[Some(5.0)]);
    assert_eq!(
        render_font_graph(&v, Font::default(), None).unwrap(),
        "<span font_desc='Sparks BarMedium'>{0}</span>"
    );
}

#[test]
fn dot_line_font_has_nine_levels() {
    let v = series(&[Some(0.0), Some(0.5), Some(1.0)]);
    let font = Font::new(Style::DotLine, Weight::Small);
    assert_eq!(
        render_font_graph(&v, font, None).unwrap(),
        "<span font_desc='Sparks Dot-lineThin'>{0,4,9}</span>"
    );
}

#[test]
fn render_errors() {
    assert_eq!(render_sparkline(&[], None), Err(RenderError::EmptySeries));
    assert_eq!(
        render_font_graph(&[], Font::default(), None),
        Err(RenderError::EmptySeries)
    );
    assert_eq!(render_sparkline(&[None, None], None), Err(RenderError::NoData));
    assert_eq!(
        render_font_graph(&[None], Font::default(), None),
        Err(RenderError::NoData)
    );
    let h = Highlight { position: Some(3), fg: None, bg: None };
    assert_eq!(
        render_sparkline(&[Some(1), Some(2), Some(3)], Some(h)),
        Err(RenderError::HighlightOutOfRange)
    );
    assert_eq!(
        render_font_graph(&[Some(1), Some(2), Some(3)], Font::default(), Some(h)),
        Err(RenderError::HighlightOutOfRange)
    );
}

#[test]
fn sparkline_highlight_uses_terminal_colours() {
    let v = series(&[Some(1.0), Some(8.0)]);
    let h = Highlight {
        position: Some(0),
        fg: Some(Color { red: 1, green: 2, blue: 3, alpha: 4 }),
        bg: Some(Color { red: 40, green: 50, blue: 255, alpha: 0 }),
    };
    assert_eq!(
        render_sparkline(&v, Some(h)).unwrap(),
        "\u{1b}[48;2;40;50;255;38;2;1;2;3m▁\u{1b}[0m█"
    );
    let fg_only = Highlight { bg: None, ..h };
    assert_eq!(
        render_sparkline(&v, Some(Highlight { position: Some(1), ..fg_only })).unwrap(),
        "▁\u{1b}[38;2;1;2;3m█\u{1b}[0m"
    );
    let plain = Highlight { position: Some(1), fg: None, bg: None };
    assert_eq!(render_sparkline(&v, Some(plain)).unwrap(), "▁█");
}

#[test]
fn font_highlight_wraps_one_position_in_a_span() {
    let v = series(&[Some(1.0), Some(2.0), Some(8.0)]);
    let h = Highlight {
        position: Some(1),
        fg: Some(Color { red: 1, green: 2, blue: 3, alpha: 4 }),
        bg: None,
    };
    assert_eq!(
        render_font_graph(&v, Font::default(), Some(h)).unwrap(),
        "<span font_desc='Sparks BarMedium'>{0,<span  foreground='#01020304'>14,</span>100}</span>"
    );
    let both = Highlight { position: Some(2), bg: Some(Color { red: 255, green: 0, blue: 16, alpha: 255 }), ..h };
    assert_eq!(
        render_font_graph(&v, Font::default(), Some(both)).unwrap(),
        "<span font_desc='Sparks BarMedium'>{0,14,<span background='#ff0010ff' foreground='#01020304'>100}</span></span>"
    );
}

#[test]
fn highlight_position_overrides_fallback() {
    let mut g = Graph::new();
    let h = Highlight { position: Some(2), fg: None, bg: None };
    g.highlight(&Some(0), &h);
    assert_eq!(g.highlight.unwrap().position, Some(2));

    let mut g = Graph::new();
    let h = Highlight { position: None, fg: Some(Color::from(0x55aaff00)), bg: None };
    g.highlight(&Some(0), &h);
    assert_eq!(g.highlight, Some(Highlight { position: Some(0), ..h }));
    g.highlight(&None, &Highlight { position: None, fg: None, bg: None });
    assert_eq!(g.highlight.unwrap().position, None);
}

#[test]
fn graph_draws_with_its_settings() {
    let mut g = Graph::new();
    g.values(&series(&[Some(1.0), None, Some(3.0)]));
    assert_eq!(g.sparkline().unwrap(), "▁ █");
    g.font_style(&Style::Dot);
    g.font_weight(&Weight::Large);
    assert_eq!(
        g.sparkfont().unwrap(),
        "<span font_desc='Sparks DotLarge'>{0,-50,100}</span>"
    );
    g.font(&Font::new(Style::DotLine, Weight::Medium));
    assert_eq!(
        g.sparkfont().unwrap(),
        "<span font_desc='Sparks Dot-lineMedium'>{0,-5,9}</span>"
    );
    assert_eq!(Graph::default().sparkline(), Err(RenderError::EmptySeries));
}

fn without_escapes(s: &str) -> String {
    let mut out = String::new();
    let mut escaping = false;
    for c in s.chars() {
        if escaping {
            escaping = c != 'm';
        } else if c == '\u{1b}' {
            escaping = true;
        } else {
            out.push(c);
        }
    }
    out
}

#[test]
fn highlighted_sparkline_shows_one_glyph_per_position() {
    let v = series(&[Some(3.0), None, Some(1.0), Some(9.5)]);
    let h = Highlight {
        position: Some(2),
        fg: Some(Color { red: 200, green: 10, blue: 0, alpha: 255 }),
        bg: Some(Color { red: 0, green: 0, blue: 99, alpha: 0 }),
    };
    let line = render_sparkline(&v, Some(h)).unwrap();
    assert_ne!(line.chars().count(), v.len());
    let shown = without_escapes(&line);
    assert_eq!(shown.chars().count(), v.len());
    assert_eq!(shown, render_sparkline(&v, None).unwrap());
}
