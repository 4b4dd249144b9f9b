use weather::condition::{Condition, ConditionIcon, ForecastIcon, TimeOfDay};
use weather::get_current_condition_icon;

const SUNRISE: i64 = 1_552_540_000;
const SUNSET: i64 = 1_552_583_000;

#[test]
fn condition_follows_the_sun_not_the_icon() {
    assert_eq!(
        get_current_condition_icon(ForecastIcon::ClearNight, SUNRISE + 60, SUNRISE, SUNSET),
        ConditionIcon::Condition(Condition::Fair, TimeOfDay::Day)
    );
    assert_eq!(
        get_current_condition_icon(ForecastIcon::PartlyCloudyDay, SUNSET + 1, SUNRISE, SUNSET),
        ConditionIcon::Condition(Condition::PartlyCloudy, TimeOfDay::Night)
    );
}

#[test]
fn condition_day_includes_sunrise_and_sunset() {
    for now in [SUNRISE, SUNSET] {
        assert_eq!(
            get_current_condition_icon(ForecastIcon::Rain, now, SUNRISE, SUNSET),
            ConditionIcon::Condition(Condition::Rain, TimeOfDay::Day)
        );
    }
    assert_eq!(
        get_current_condition_icon(ForecastIcon::Snow, SUNRISE - 1, SUNRISE, SUNSET),
        ConditionIcon::Condition(Condition::Snow, TimeOfDay::Night)
    );
}

#[test]
fn tornado_and_wind_have_no_time_of_day() {
    assert_eq!(
        get_current_condition_icon(ForecastIcon::Tornado, SUNRISE, SUNRISE, SUNSET),
        ConditionIcon::Tornado
    );
    assert_eq!(
        get_current_condition_icon(ForecastIcon::Wind, 0, SUNRISE, SUNSET),
        ConditionIcon::Windy
    );
}
