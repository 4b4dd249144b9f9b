//! Local wall-clock times and finding the one that shares an hour with a reference.
use vstd::prelude::*;

verus! {

/// A local calendar date and time of day, as read off a clock.
#[derive(Eq, PartialEq, Structural, Copy, Clone, Debug)]
pub struct LocalTime {
    pub year: i32,
    pub month: u32,
    pub day: u32,
    pub hour: u32,
    pub minute: u32,
    pub second: u32,
}

/// The two times fall on the same calendar date and in the same hour of the day.
pub open spec fn same_date_and_hour(a: LocalTime, b: LocalTime) -> bool {
    a.year == b.year && a.month == b.month && a.day == b.day && a.hour == b.hour
}

impl LocalTime {
    pub fn new(year: i32, month: u32, day: u32, hour: u32, minute: u32, second: u32) -> (r: LocalTime)
        ensures
            r == (LocalTime { year, month, day, hour, minute, second }),
    {
        LocalTime { year, month, day, hour, minute, second }
    }

    /// Whether `other` falls on this date and in this hour.
    pub fn same_date_and_hour(&self, other: &LocalTime) -> (r: bool)
        ensures
            r == same_date_and_hour(*self, *other),
    {
        self.year == other.year && self.month == other.month && self.day == other.day
            && self.hour == other.hour
    }
}

/// The first position of `times` on the date and in the hour of `time`, if any.
pub fn find_closest_time_position(time: &LocalTime, times: &[LocalTime]) -> (r: Option<usize>)
    ensures
        r is None <==> forall|i: int| 0 <= i < times@.len() ==> !same_date_and_hour(*time, #[trigger] times@[i]),
        r is Some ==> {
            &&& r.unwrap() < times@.len()
            &&& same_date_and_hour(*time, times@[r.unwrap() as int])
            &&& forall|i: int| 0 <= i < r.unwrap() ==> !same_date_and_hour(*time, #[trigger] times@[i])
        },
{
    let mut i: usize = 0;
    while i < times.len()
        invariant
            i <= times@.len(),
            forall|k: int| 0 <= k < i ==> !same_date_and_hour(*time, #[trigger] times@[k]),
        decreases times@.len() - i,
    {
        if time.same_date_and_hour(&times[i]) {
            return Some(i);
        }
        i = i + 1;
    }
    None
}

} // verus!
