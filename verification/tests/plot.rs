use blackbox_analyzer::plot::{
    graphics_file_name, series, series_label, time_axis_end, Axis, Point, ANGLE_MAX, ANGLE_MIN,
    IMAGE_HEIGHT, IMAGE_WIDTH,
};
use blackbox_analyzer::record::LogData;

fn at(time: u32, p_roll: f32, p_pitch: f32, p_yaw: f32) -> LogData {
    LogData {
        loop_iteration: 0,
        time,
        p_roll: p_roll.to_bits(),
        i_roll: 1,
        d_roll: 2,
        ff_roll: 3,
        p_pitch: p_pitch.to_bits(),
        i_pitch: 4,
        d_pitch: 5,
        ff_pitch: 6,
        p_yaw: p_yaw.to_bits(),
        i_yaw: 7,
        d_yaw: 8,
        ff_yaw: 9,
    }
}

#[test]
fn chart_frame() {
    assert_eq!((IMAGE_WIDTH, IMAGE_HEIGHT), (1024, 768));
    assert_eq!((ANGLE_MIN, ANGLE_MAX), (-180, 180));
}

#[test]
fn time_axis_of_an_empty_log_ends_at_one() {
    assert_eq!(time_axis_end(&[]), 1);
}

#[test]
fn time_axis_never_ends_below_one() {
    assert_eq!(time_axis_end(&[at(0, 0.0, 0.0, 0.0)]), 1);
    assert_eq!(time_axis_end(&[at(500, 0.0, 0.0, 0.0), at(0, 0.0, 0.0, 0.0)]), 1);
    assert_eq!(time_axis_end(&[at(1, 0.0, 0.0, 0.0)]), 1);
}

#[test]
fn time_axis_ends_at_the_last_record() {
    assert_eq!(time_axis_end(&[at(0, 0.0, 0.0, 0.0), at(2500, 0.0, 0.0, 0.0)]), 2500);
    assert_eq!(time_axis_end(&[at(900, 0.0, 0.0, 0.0), at(5, 0.0, 0.0, 0.0)]), 5);
    assert_eq!(time_axis_end(&[at(u32::MAX, 0.0, 0.0, 0.0)]), u32::MAX);
}

#[test]
fn series_pairs_time_with_the_p_term_of_its_axis() {
    let data = [at(0, 1.0, 2.0, 3.0), at(10, -4.0, 5.5, -179.0), at(20, 0.0, 0.0, 0.0)];
    let roll = series(&data, Axis::Roll);
    let pitch = series(&data, Axis::Pitch);
    let yaw = series(&data, Axis::Yaw);
    assert_eq!(
        roll,
        vec![
            Point { time: 0, value: 1.0f32.to_bits() },
            Point { time: 10, value: (-4.0f32).to_bits() },
            Point { time: 20, value: 0 },
        ]
    );
    assert_eq!(pitch[1], Point { time: 10, value: 5.5f32.to_bits() });
    assert_eq!(f32::from_bits(yaw[1].value), -179.0);
    assert_eq!(pitch.len(), 3);
    assert_eq!(yaw.len(), 3);
}

#[test]
fn series_of_an_empty_log_is_empty() {
    assert!(series(&[], Axis::Roll).is_empty());
    assert!(series(&[], Axis::Pitch).is_empty());
    assert!(series(&[], Axis::Yaw).is_empty());
}

#[test]
fn series_labels() {
    assert_eq!(series_label(Axis::Roll), "Roll");
    assert_eq!(series_label(Axis::Pitch), "Pitch");
    assert_eq!(series_label(Axis::Yaw), "Yaw");
}

#[test]
fn graphics_file_name_adds_the_extension() {
    assert_eq!(graphics_file_name("flight_07"), "flight_07.png");
    assert_eq!(graphics_file_name(""), ".png");
}
