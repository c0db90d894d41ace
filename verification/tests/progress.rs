use core::time::Duration;

use cargo_policy::progress::{
    clock, clock_of, completion_line, failed, finished, started, TerminalState,
};

#[test]
fn clock_displays_minutes_seconds_and_tenths() {
    assert_eq!(clock(Duration::ZERO), "00:00.0");
    assert_eq!(clock(Duration::from_millis(62_349)), "01:02.3");
    assert_eq!(clock(Duration::from_secs(3_661)), "61:01.0");
}

#[test]
fn clock_pads_only_to_two_digits() {
    assert_eq!(clock_of(6_000, 999), "100:00.9");
    assert_eq!(clock_of(59, 0), "00:59.0");
}

#[test]
fn plain_progress_lines_name_the_phase() {
    assert_eq!(started("policies"), "axiom: checking policies...\n");
    assert_eq!(finished("clippy", "87ms"), "axiom: finished clippy in 87ms\n");
    assert_eq!(failed("rustdoc"), "axiom: rustdoc failed\n");
}

#[test]
fn completion_lines_align_the_elapsed_time() {
    assert_eq!(completion_line(true, "1.2s", "clippy", false), "  ✓     1.2s  Finished clippy\n");
    assert_eq!(
        completion_line(false, "87ms", "semantic", true),
        "  \u{1b}[31m✗\u{1b}[0m     87ms  Failed semantic\n"
    );
}

#[test]
fn terminal_status_line_lists_running_phases() {
    let mut state = TerminalState::new();
    let (first, spawn) = state.start("policies".to_owned(), 0, false, "00:00.0");
    assert!(spawn);
    assert_eq!(first, "  ⠙  00:00.0  Checking policies");
    let (second, spawn) = state.start("clippy".to_owned(), 5, false, "00:00.1");
    assert!(!spawn);
    assert_eq!(second, "\r\u{1b}[2K  ⠙  00:00.1  Checking policies + clippy");
    assert_eq!(state.remove_phase("policies", 25), Some(25));
    assert_eq!(state.remove_phase("policies", 30), None);
    let ticked = state.tick("00:00.2").expect("a phase runs");
    assert_eq!(ticked, "\r\u{1b}[2K  ⠹  00:00.2  Checking clippy");
    assert_eq!(state.remove_phase("clippy", 40), Some(35));
    assert!(state.tick("00:00.3").is_none());
}

#[test]
fn suspended_display_draws_nothing_until_resumed() {
    let mut state = TerminalState::new();
    let _ = state.start("semantic".to_owned(), 0, false, "00:00.0");
    assert_eq!(state.suspend(), "\r\u{1b}[2K");
    assert_eq!(state.draw("00:01.0"), "");
    assert_eq!(state.resume("00:01.0"), "  ⠙  00:01.0  Checking semantic");
}
