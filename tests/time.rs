use weather::find_closest_time_position;
use weather::time::LocalTime;

fn at(hour: u32, minute: u32) -> LocalTime {
    LocalTime::new(2019, 3, 14, hour, minute, 0)
}

#[test]
fn closest_position_matches_the_hour() {
    let times = [at(0, 0), at(1, 0), at(2, 0)];
    assert_eq!(find_closest_time_position(&at(1, 59), &times), Some(1));
    assert_eq!(find_closest_time_position(&at(3, 30), &times), None);
}

#[test]
fn closest_position_takes_the_first_match() {
    let times = [at(5, 0), at(5, 10), at(5, 20)];
    assert_eq!(find_closest_time_position(&at(5, 30), &times), Some(0));
}

#[test]
fn closest_position_needs_the_same_date() {
    let times = [LocalTime::new(2019, 3, 13, 1, 0, 0), LocalTime::new(2019, 3, 14, 1, 0, 0)];
    assert_eq!(find_closest_time_position(&at(1, 5), &times), Some(1));
    assert_eq!(find_closest_time_position(&at(1, 5), &[]), None);
}
