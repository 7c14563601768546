//! Tests of the orchestrator computations.

use szmelc_player::pipeline::{choose_compiler, sleep_interval_micros};

#[test]
fn thirty_frames_per_second() {
    assert_eq!(sleep_interval_micros(30, 1), 33333);
}

#[test]
fn other_frame_rates() {
    assert_eq!(sleep_interval_micros(1, 1), 1_000_000);
    assert_eq!(sleep_interval_micros(25, 1), 40_000);
    assert_eq!(sleep_interval_micros(30000, 1001), 33_366);
    assert_eq!(sleep_interval_micros(60, 1), 16_666);
}

#[test]
fn override_variable_wins() {
    assert_eq!(
        choose_compiler(Some("clang".to_owned()), Some("gcc".to_owned())),
        "clang"
    );
}

#[test]
fn generic_variable_is_second() {
    assert_eq!(choose_compiler(None, Some("gcc".to_owned())), "gcc");
}

#[test]
fn default_compiler_name() {
    assert_eq!(choose_compiler(None, None), "cc");
}
