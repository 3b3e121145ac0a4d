use pico_canvas::color::{Rgb565, BLACK};
use pico_canvas::command::DrawCommand;
use pico_canvas::label::Label;
use pico_canvas::report::{frames_per_second, show_fps};

fn report(rate: u64) -> Option<DrawCommand> {
    Some(DrawCommand::Text {
        x: 10,
        y: 20,
        label: Label::Number(rate),
        color: Rgb565::from_raw(BLACK),
    })
}

#[test]
fn no_report_for_a_pass_that_took_no_time() {
    assert_eq!(show_fps(0), None);
    assert_eq!(frames_per_second(0), None);
}

#[test]
fn one_second_is_one_frame_per_second() {
    assert_eq!(frames_per_second(1_000_000), Some(1));
    assert_eq!(show_fps(1_000_000), report(1));
}

#[test]
fn half_a_second_is_two_frames_per_second() {
    assert_eq!(frames_per_second(500_000), Some(2));
    assert_eq!(show_fps(500_000), report(2));
}

#[test]
fn rate_is_cut_to_a_whole_number() {
    assert_eq!(frames_per_second(3), Some(333_333));
    assert_eq!(frames_per_second(1), Some(1_000_000));
    assert_eq!(frames_per_second(999_999), Some(1));
    assert_eq!(frames_per_second(1_000_001), Some(0));
    assert_eq!(frames_per_second(u64::MAX), Some(0));
    assert_eq!(show_fps(16_667), report(59));
    assert_eq!(show_fps(2_000_000), report(0));
}

#[test]
fn report_is_drawn_as_digits() {
    match show_fps(16_667) {
        Some(DrawCommand::Text { label, .. }) => assert_eq!(label.text(), b"59".to_vec()),
        other => panic!("{:?}", other),
    }
    match show_fps(5_000_000) {
        Some(DrawCommand::Text { label, .. }) => assert_eq!(label.text(), b"0".to_vec()),
        other => panic!("{:?}", other),
    }
}
