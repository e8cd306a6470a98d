use codewalker_cli::protocol::{
    classify, LineKind, CACHE_INITIALIZED_MSG, COMMAND_COMPLETE_MSG, OUTPUT_END_MSG,
    OUTPUT_START_MSG, PROCESSING_COMMAND_MSG,
};

#[test]
fn markers_have_their_texts() {
    assert_eq!(CACHE_INITIALIZED_MSG, "[INFO] Cache initialized");
    assert_eq!(PROCESSING_COMMAND_MSG, "[CMD]");
    assert_eq!(COMMAND_COMPLETE_MSG, "[CMD] Command completed");
    assert_eq!(OUTPUT_START_MSG, "[OUTPUT_START]");
    assert_eq!(OUTPUT_END_MSG, "[OUTPUT_END]");
}

#[test]
fn start_marker_is_found_anywhere_in_the_line() {
    assert_eq!(classify("[OUTPUT_START]", true), LineKind::OutputStart);
    assert_eq!(classify("  12:00 [OUTPUT_START] begin\n", false), LineKind::OutputStart);
}

#[test]
fn end_marker_is_found_anywhere_in_the_line() {
    assert_eq!(classify("[OUTPUT_END]", true), LineKind::OutputEnd);
    assert_eq!(classify("xx[OUTPUT_END]yy", false), LineKind::OutputEnd);
}

#[test]
fn start_marker_wins_over_every_other_marker() {
    let line = "[OUTPUT_END] [CMD] Command completed [INFO] Cache initialized [OUTPUT_START]";
    assert_eq!(classify(line, false), LineKind::OutputStart);
    assert_eq!(classify(line, true), LineKind::OutputStart);
}

#[test]
fn end_marker_wins_over_completion() {
    let line = "[CMD] Command completed [OUTPUT_END]";
    assert_eq!(classify(line, true), LineKind::OutputEnd);
}

#[test]
fn completion_wins_over_processing_though_it_contains_it() {
    assert_eq!(classify("[CMD] Command completed", true), LineKind::CommandComplete);
    assert_eq!(classify("[CMD] Command completed in 3 ms", false), LineKind::CommandComplete);
}

#[test]
fn completion_wins_over_readiness() {
    let line = "[INFO] Cache initialized [CMD] Command completed";
    assert_eq!(classify(line, false), LineKind::CommandComplete);
}

#[test]
fn readiness_is_read_only_by_a_session_that_is_not_ready() {
    assert_eq!(classify("[INFO] Cache initialized", false), LineKind::Ready);
    assert_eq!(classify("[INFO] Cache initialized", true), LineKind::Plain);
}

#[test]
fn readiness_wins_over_processing_until_ready() {
    let line = "[CMD] [INFO] Cache initialized";
    assert_eq!(classify(line, false), LineKind::Ready);
    assert_eq!(classify(line, true), LineKind::Processing);
}

#[test]
fn processing_marker_marks_a_command_line() {
    assert_eq!(classify("[CMD] exportxml foo", true), LineKind::Processing);
    assert_eq!(classify("[CMD]", false), LineKind::Processing);
}

#[test]
fn other_lines_are_plain() {
    assert_eq!(classify("", true), LineKind::Plain);
    assert_eq!(classify("hello world", false), LineKind::Plain);
    assert_eq!(classify("[INFO] Loading cache", false), LineKind::Plain);
}

#[test]
fn a_marker_cut_short_is_no_marker() {
    assert_eq!(classify("[OUTPUT_START", true), LineKind::Plain);
    assert_eq!(classify("OUTPUT_END]", true), LineKind::Plain);
    assert_eq!(classify("[CMD", true), LineKind::Plain);
    assert_eq!(classify("[INFO] Cache initialize", false), LineKind::Plain);
}

#[test]
fn markers_are_matched_by_case() {
    assert_eq!(classify("[output_start]", true), LineKind::Plain);
    assert_eq!(classify("[cmd] command completed", true), LineKind::Plain);
}
