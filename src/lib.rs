//! Compact renderings of a weather forecast: series drawn as bar glyphs or as text for a
//! graph font with one position in colour, the position of the current hour in a series,
//! wind directions as arrows, and the icon for the current weather.
pub mod color;
pub mod condition;
pub mod config;
pub mod graph;
pub mod text;
pub mod time;
pub mod wind;

pub use crate::condition::get_current_condition_icon;
pub use crate::config::IconStyle;
pub use crate::time::find_closest_time_position;
pub use crate::wind::get_wind_bearing_icon;
