//! Choosing the icon for the current weather from the forecast's icon and the time of day.
use vstd::prelude::*;

verus! {

/// The summary icons a forecast names.
#[derive(Eq, PartialEq, Structural, Copy, Clone, Debug)]
pub enum ForecastIcon {
    ClearDay,
    ClearNight,
    Cloudy,
    Fog,
    Hail,
    PartlyCloudyDay,
    PartlyCloudyNight,
    Rain,
    Sleet,
    Snow,
    Thunderstorm,
    Tornado,
    Wind,
}

/// Weather conditions that have an icon for the day and one for the night.
#[derive(Eq, PartialEq, Structural, Copy, Clone, Debug)]
pub enum Condition {
    Fair,
    Cloudy,
    Fog,
    Hail,
    PartlyCloudy,
    Rain,
    Sleet,
    Snow,
    Thunderstorm,
}

/// Whether the sun is up.
#[derive(Eq, PartialEq, Structural, Copy, Clone, Debug)]
pub enum TimeOfDay {
    Day,
    Night,
}

/// The icon to show: one with no day or night form, or a condition in a time of day.
#[derive(Eq, PartialEq, Structural, Copy, Clone, Debug)]
pub enum ConditionIcon {
    Tornado,
    Windy,
    Condition(Condition, TimeOfDay),
}

/// Day from sunrise to sunset, both included, night otherwise; instants in Unix seconds.
pub open spec fn time_of_day(now: i64, sunrise: i64, sunset: i64) -> TimeOfDay {
    if sunrise <= now && now <= sunset {
        TimeOfDay::Day
    } else {
        TimeOfDay::Night
    }
}

/// The condition a forecast icon stands for; tornado and wind have none.
pub open spec fn condition_of(icon: ForecastIcon) -> Option<Condition> {
    match icon {
        ForecastIcon::ClearDay | ForecastIcon::ClearNight => Some(Condition::Fair),
        ForecastIcon::Cloudy => Some(Condition::Cloudy),
        ForecastIcon::Fog => Some(Condition::Fog),
        ForecastIcon::Hail => Some(Condition::Hail),
        ForecastIcon::PartlyCloudyDay | ForecastIcon::PartlyCloudyNight => Some(
            Condition::PartlyCloudy,
        ),
        ForecastIcon::Rain => Some(Condition::Rain),
        ForecastIcon::Sleet => Some(Condition::Sleet),
        ForecastIcon::Snow => Some(Condition::Snow),
        ForecastIcon::Thunderstorm => Some(Condition::Thunderstorm),
        ForecastIcon::Tornado | ForecastIcon::Wind => None,
    }
}

/// The icon for the current weather.
pub open spec fn condition_icon(icon: ForecastIcon, now: i64, sunrise: i64, sunset: i64) -> ConditionIcon {
    match icon {
        ForecastIcon::Tornado => ConditionIcon::Tornado,
        ForecastIcon::Wind => ConditionIcon::Windy,
        _ => ConditionIcon::Condition(condition_of(icon).unwrap(), time_of_day(now, sunrise, sunset)),
    }
}

/// The icon for the current weather: the forecast's condition in the day form between
/// sunrise and sunset and in the night form otherwise, whatever time of day the forecast's
/// own icon names. Instants are in Unix seconds.
pub fn get_current_condition_icon(icon: ForecastIcon, now: i64, sunrise: i64, sunset: i64) -> (r:
    ConditionIcon)
    ensures
        r == condition_icon(icon, now, sunrise, sunset),
{
    let time = if now >= sunrise && now <= sunset {
        TimeOfDay::Day
    } else {
        TimeOfDay::Night
    };
    let condition = match icon {
        ForecastIcon::Tornado => return ConditionIcon::Tornado,
        ForecastIcon::Wind => return ConditionIcon::Windy,
        ForecastIcon::ClearDay | ForecastIcon::ClearNight => Condition::Fair,
        ForecastIcon::Cloudy => Condition::Cloudy,
        ForecastIcon::Fog => Condition::Fog,
        ForecastIcon::Hail => Condition::Hail,
        ForecastIcon::PartlyCloudyDay | ForecastIcon::PartlyCloudyNight => Condition::PartlyCloudy,
        ForecastIcon::Rain => Condition::Rain,
        ForecastIcon::Sleet => Condition::Sleet,
        ForecastIcon::Snow => Condition::Snow,
        ForecastIcon::Thunderstorm => Condition::Thunderstorm,
    };
    ConditionIcon::Condition(condition, time)
}

} // verus!
