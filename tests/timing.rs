use rustzx_frame::frame_length;
use rustzx_frame::scheduler::sleep_time;
use rustzx_frame::title::debug_title;

#[test]
fn frame_length_is_floor_of_thousand_over_fps() {
    assert_eq!(frame_length(50), 20);
    assert_eq!(frame_length(60), 16);
    assert_eq!(frame_length(1), 1000);
    assert_eq!(frame_length(3), 333);
    assert_eq!(frame_length(1000), 1);
    assert_eq!(frame_length(2000), 0);
}

#[test]
fn sleep_without_sound_fills_the_frame() {
    assert_eq!(sleep_time(5, 20, false), 15);
}

#[test]
fn sleep_with_sound_is_nine_tenths_rounded_down() {
    assert_eq!(sleep_time(5, 20, true), 13);
    assert_eq!(sleep_time(5_000_000, 20_000_000, true), 13_500_000);
}

#[test]
fn no_sleep_once_target_is_reached() {
    assert_eq!(sleep_time(20, 20, false), 0);
    assert_eq!(sleep_time(35, 20, true), 0);
}

#[test]
fn sleep_does_not_overflow_on_large_values() {
    assert_eq!(sleep_time(0, u64::MAX, false), u64::MAX);
    assert_eq!(sleep_time(0, u64::MAX, true), 16602069666338596453);
}

#[test]
fn debug_title_has_three_decimals_in_width_seven() {
    assert_eq!(debug_title(5_000_000, 20_000_000), "CPU:   5.000ms; FRAME: 20.000ms");
    assert_eq!(debug_title(0, 7_000), "CPU:   0.000ms; FRAME:  0.007ms");
    assert_eq!(
        debug_title(1_234_567_000, 99_999_999_000),
        "CPU: 1234.567ms; FRAME:99999.999ms"
    );
}

#[test]
fn debug_title_rounds_to_the_nearest_microsecond() {
    assert_eq!(debug_title(5_000_499, 19_999_500), "CPU:   5.000ms; FRAME: 20.000ms");
    assert_eq!(debug_title(5_000_500, 999), "CPU:   5.001ms; FRAME:  0.001ms");
    assert_eq!(debug_title(u64::MAX, 0), "CPU: 18446744073709.552ms; FRAME:  0.000ms");
}
