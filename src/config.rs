//! Display settings that the library's callers read from their configuration.
use vstd::prelude::*;

verus! {

/// Which icon font draws the weather condition.
#[derive(Eq, PartialEq, Structural, Copy, Clone, Debug)]
pub enum IconStyle {
    WeatherIcons,
    Dripicons,
}

impl Default for IconStyle {
    fn default() -> (r: IconStyle)
        ensures
            r == IconStyle::WeatherIcons,
    {
        IconStyle::WeatherIcons
    }
}

} // verus!
