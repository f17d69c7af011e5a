//! The plan of the scatter chart: what is drawn against what, and how far
//! the axes reach. Rendering is the caller's business.

use crate::record::LogData;
use vstd::prelude::*;

verus! {

/// Width of the rendered image in pixels.
pub const IMAGE_WIDTH: u32 = 1024;

/// Height of the rendered image in pixels.
pub const IMAGE_HEIGHT: u32 = 768;

/// Lower end of the angle axis, in degrees.
pub const ANGLE_MIN: i32 = -180;

/// Upper end of the angle axis, in degrees.
pub const ANGLE_MAX: i32 = 180;

/// An axis of rotation, and with it one series of the chart.
#[derive(Clone, Copy, Debug, PartialEq, Eq, Structural)]
pub enum Axis {
    Roll,
    Pitch,
    Yaw,
}

/// One point of a series: a time in milliseconds and the bit pattern of
/// the single-precision value drawn at it.
#[derive(Clone, Copy, Debug, PartialEq, Eq, Structural)]
pub struct Point {
    pub time: u32,
    pub value: u32,
}

/// The value of `record` that the series of `axis` draws: its P term.
pub open spec fn plotted_value(record: LogData, axis: Axis) -> u32 {
    match axis {
        Axis::Roll => record.p_roll,
        Axis::Pitch => record.p_pitch,
        Axis::Yaw => record.p_yaw,
    }
}

/// The point that the series of `axis` draws for `record`.
pub open spec fn point_of(record: LogData, axis: Axis) -> Point {
    Point { time: record.time, value: plotted_value(record, axis) }
}

/// Where the time axis ends: at the time of the last record, but never
/// below 1, and at 1 when there is no record at all.
pub open spec fn time_axis_end_of(data: Seq<LogData>) -> u32 {
    if data.len() == 0 || data.last().time < 1 {
        1
    } else {
        data.last().time
    }
}

/// The end of the time axis for `data`. An empty log gets the shortest
/// axis there is rather than no chart.
pub fn time_axis_end(data: &[LogData]) -> (end: u32)
    ensures
        end == time_axis_end_of(data@),
        end >= 1,
{
    let n: usize = data.len();
    if n == 0 {
        1
    } else {
        let last: u32 = data[n - 1].time;
        if last < 1 {
            1
        } else {
            last
        }
    }
}

/// The label of the series of `axis`.
pub fn series_label(axis: Axis) -> (label: &'static str)
    ensures
        label@ == match axis {
            Axis::Roll => "Roll"@,
            Axis::Pitch => "Pitch"@,
            Axis::Yaw => "Yaw"@,
        },
{
    match axis {
        Axis::Roll => "Roll",
        Axis::Pitch => "Pitch",
        Axis::Yaw => "Yaw",
    }
}

/// The series of `axis`: one point for every record, in log order.
pub fn series(data: &[LogData], axis: Axis) -> (points: Vec<Point>)
    ensures
        points@.len() == data@.len(),
        forall|i: int| 0 <= i < data@.len() ==> points@[i] == point_of(data@[i], axis),
{
    let mut points: Vec<Point> = Vec::new();
    let mut i: usize = 0;
    while i < data.len()
        invariant
            i <= data@.len(),
            points@.len() == i,
            forall|j: int| 0 <= j < i ==> points@[j] == point_of(data@[j], axis),
        decreases data@.len() - i,
    {
        let record: LogData = data[i];
        let value: u32 = match axis {
            Axis::Roll => record.p_roll,
            Axis::Pitch => record.p_pitch,
            Axis::Yaw => record.p_yaw,
        };
        points.push(Point { time: record.time, value });
        i = i + 1;
    }
    points
}

/// The name of the image rendered for the input whose base name is `stem`.
pub fn graphics_file_name(stem: &str) -> (name: String)
    ensures
        name@ == stem@ + ".png"@,
{
    let mut name = String::from_str(stem);
    name.append(".png");
    name
}

} // verus!
