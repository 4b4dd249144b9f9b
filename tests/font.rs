use weather::graph::{Font, Style, Weight};

#[test]
fn check_font_display_string_bar() {
    assert_eq!(
        "Sparks BarExtra-narrow",
        Font::new(Style::Bar, Weight::ExtraSmall).to_string()
    );
    assert_eq!(
        "Sparks BarNarrow",
        Font::new(Style::Bar, Weight::Small).to_string()
    );
    assert_eq!(
        "Sparks BarMedium",
        Font::new(Style::Bar, Weight::Medium).to_string()
    );
    assert_eq!(
        "Sparks BarWide",
        Font::new(Style::Bar, Weight::Large).to_string()
    );
    assert_eq!(
        "Sparks BarExtra-wide",
        Font::new(Style::Bar, Weight::ExtraLarge).to_string()
    );
}

#[test]
fn check_font_display_string_dot() {
    assert_eq!(
        "Sparks DotExtra-small",
        Font::new(Style::Dot, Weight::ExtraSmall).to_string()
    );
    assert_eq!(
        "Sparks DotSmall",
        Font::new(Style::Dot, Weight::Small).to_string()
    );
    assert_eq!(
        "Sparks DotMedium",
        Font::new(Style::Dot, Weight::Medium).to_string()
    );
    assert_eq!(
        "Sparks DotLarge",
        Font::new(Style::Dot, Weight::Large).to_string()
    );
    assert_eq!(
        "Sparks DotExtra-large",
        Font::new(Style::Dot, Weight::ExtraLarge).to_string()
    );
}

#[test]
fn check_font_display_string_bar_dotline() {
    assert_eq!(
        "Sparks Dot-lineExtra-thin",
        Font::new(Style::DotLine, Weight::ExtraSmall).to_string()
    );
    assert_eq!(
        "Sparks Dot-lineThin",
        Font::new(Style::DotLine, Weight::Small).to_string()
    );
    assert_eq!(
        "Sparks Dot-lineMedium",
        Font::new(Style::DotLine, Weight::Medium).to_string()
    );
    assert_eq!(
        "Sparks Dot-lineThick",
        Font::new(Style::DotLine, Weight::Large).to_string()
    );
    assert_eq!(
        "Sparks Dot-lineExtra-thick",
        Font::new(Style::DotLine, Weight::ExtraLarge).to_string()
    );
}

#[test]
fn font_sizes_and_default() {
    assert_eq!(Font::new(Style::DotLine, Weight::Large).size(), 9);
    assert_eq!(Font::new(Style::Bar, Weight::Large).size(), 100);
    assert_eq!(Font::new(Style::Dot, Weight::Small).size(), 100);
    assert_eq!(Font::default(), Font::new(Style::Bar, Weight::Medium));
}
