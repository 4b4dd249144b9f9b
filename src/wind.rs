//! Wind direction as one of eight arrows.
use vstd::prelude::*;

verus! {

/// Number of compass arrows.
pub const ARROW_COUNT: usize = 8;

/// Which arrow a direction of `degrees` in `[0, 360)` gets: north-east first, clockwise,
/// north last. Each arrow covers 45 degrees around its direction.
pub open spec fn arrow_index(degrees: int) -> int {
    if 23 <= degrees <= 67 {
        0
    } else if 68 <= degrees <= 112 {
        1
    } else if 113 <= degrees <= 157 {
        2
    } else if 158 <= degrees <= 202 {
        3
    } else if 203 <= degrees <= 247 {
        4
    } else if 248 <= degrees <= 292 {
        5
    } else if 293 <= degrees <= 337 {
        6
    } else {
        7
    }
}

/// The arrow glyph of each index of `arrow_index`.
pub open spec fn arrow_text(i: int) -> Seq<char> {
    if i == 0 {
        "\u{2197}"@
    } else if i == 1 {
        "\u{2192}"@
    } else if i == 2 {
        "\u{2198}"@
    } else if i == 3 {
        "\u{2193}"@
    } else if i == 4 {
        "\u{2199}"@
    } else if i == 5 {
        "\u{2190}"@
    } else if i == 6 {
        "\u{2196}"@
    } else {
        "\u{2191}"@
    }
}

/// Direction the wind blows towards, given the bearing it comes from.
pub open spec fn downwind(bearing: int) -> int {
    (bearing + 180) % 360
}

fn arrow(i: usize) -> (r: &'static str)
    requires
        i < ARROW_COUNT,
    ensures
        r@ == arrow_text(i as int),
{
    match i {
        0 => "\u{2197}",
        1 => "\u{2192}",
        2 => "\u{2198}",
        3 => "\u{2193}",
        4 => "\u{2199}",
        5 => "\u{2190}",
        6 => "\u{2196}",
        _ => "\u{2191}",
    }
}

/// The arrow pointing where a wind from `bearing` degrees blows to.
///
/// Arrow `i` starts above `(360 * i + 180) / 8` degrees, so the arrows are tried from the
/// last down; a direction under every start, 22 degrees or less, is north.
pub fn get_wind_bearing_icon(bearing: u32) -> (r: &'static str)
    ensures
        r@ == arrow_text(arrow_index(downwind(bearing as int))),
{
    let flipped: usize = ((bearing % 360 + 180) % 360) as usize;
    assert(flipped == downwind(bearing as int));
    let mut i: usize = ARROW_COUNT;
    while i > 0
        invariant
            i <= ARROW_COUNT,
            flipped < 360,
            flipped == downwind(bearing as int),
            i < ARROW_COUNT ==> flipped <= (360 * i + 180) / 8,
        decreases i,
    {
        let j = i - 1;
        if flipped > (360 * j + 180) / ARROW_COUNT {
            assert(arrow_index(flipped as int) == j as int);
            return arrow(j);
        }
        i = j;
    }
    arrow(ARROW_COUNT - 1)
}

} // verus!
