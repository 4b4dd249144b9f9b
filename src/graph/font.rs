//! The bitmap fonts that draw numeric graph text, by style and weight.
use vstd::prelude::*;
use vstd::string::*;

verus! {

/// How wide or heavy the glyphs of a font are.
#[derive(Eq, PartialEq, Structural, Copy, Clone, Debug)]
pub enum Weight {
    ExtraSmall,
    Small,
    Medium,
    Large,
    ExtraLarge,
}

impl Default for Weight {
    fn default() -> (r: Weight)
        ensures
            r == Weight::Medium,
    {
        Weight::Medium
    }
}

/// The shape a font draws each value with.
#[derive(Eq, PartialEq, Structural, Copy, Clone, Debug)]
pub enum Style {
    Bar,
    Dot,
    DotLine,
}

impl Default for Style {
    fn default() -> (r: Style)
        ensures
            r == Style::Bar,
    {
        Style::Bar
    }
}

/// A graph font: a style and a weight.
#[derive(Eq, PartialEq, Structural, Copy, Clone, Debug)]
pub struct Font {
    pub style: Style,
    pub weight: Weight,
}

/// The family part of a font's display name.
pub open spec fn style_name(s: Style) -> Seq<char> {
    match s {
        Style::Bar => "Bar"@,
        Style::Dot => "Dot"@,
        Style::DotLine => "Dot-line"@,
    }
}

/// The weight part of a font's display name; each style names its weights in its own way.
pub open spec fn weight_name(s: Style, w: Weight) -> Seq<char> {
    match s {
        Style::Bar => match w {
            Weight::ExtraSmall => "Extra-narrow"@,
            Weight::Small => "Narrow"@,
            Weight::Medium => "Medium"@,
            Weight::Large => "Wide"@,
            Weight::ExtraLarge => "Extra-wide"@,
        },
        Style::Dot => match w {
            Weight::ExtraSmall => "Extra-small"@,
            Weight::Small => "Small"@,
            Weight::Medium => "Medium"@,
            Weight::Large => "Large"@,
            Weight::ExtraLarge => "Extra-large"@,
        },
        Style::DotLine => match w {
            Weight::ExtraSmall => "Extra-thin"@,
            Weight::Small => "Thin"@,
            Weight::Medium => "Medium"@,
            Weight::Large => "Thick"@,
            Weight::ExtraLarge => "Extra-thick"@,
        },
    }
}

/// The name a font is installed under, such as `Sparks BarMedium`.
pub open spec fn font_name(f: Font) -> Seq<char> {
    "Sparks "@ + style_name(f.style) + weight_name(f.style, f.weight)
}

/// How many levels a font draws: nine for dot-line fonts, a hundred for the others.
pub open spec fn font_size(f: Font) -> u32 {
    match f.style {
        Style::DotLine => 9,
        _ => 100,
    }
}

impl Default for Font {
    fn default() -> (r: Font)
        ensures
            r == (Font { style: Style::Bar, weight: Weight::Medium }),
    {
        Font { style: Style::default(), weight: Weight::default() }
    }
}

impl Font {
    pub fn new(style: Style, weight: Weight) -> (r: Font)
        ensures
            r == (Font { style, weight }),
    {
        Font { style, weight }
    }

    /// The name the font is installed under.
    pub fn to_string(&self) -> (r: String)
        ensures
            r@ == font_name(*self),
    {
        let mut out = String::from_str("Sparks ");
        let style: &str = match self.style {
            Style::Bar => "Bar",
            Style::Dot => "Dot",
            Style::DotLine => "Dot-line",
        };
        let weight: &str = match self.style {
            Style::Bar => match self.weight {
                Weight::ExtraSmall => "Extra-narrow",
                Weight::Small => "Narrow",
                Weight::Medium => "Medium",
                Weight::Large => "Wide",
                Weight::ExtraLarge => "Extra-wide",
            },
            Style::Dot => match self.weight {
                Weight::ExtraSmall => "Extra-small",
                Weight::Small => "Small",
                Weight::Medium => "Medium",
                Weight::Large => "Large",
                Weight::ExtraLarge => "Extra-large",
            },
            Style::DotLine => match self.weight {
                Weight::ExtraSmall => "Extra-thin",
                Weight::Small => "Thin",
                Weight::Medium => "Medium",
                Weight::Large => "Thick",
                Weight::ExtraLarge => "Extra-thick",
            },
        };
        out.append(style);
        out.append(weight);
        out
    }

    /// How many levels the font draws.
    pub fn size(&self) -> (r: u32)
        ensures
            r == font_size(*self),
    {
        match self.style {
            Style::DotLine => 9,
            _ => 100,
        }
    }
}

} // verus!
