use courtyard_core::exit::{
    classify_exit, synth_failure_message, tail_lines, Classification, STDERR_TAIL_MAX,
    STOP_EXIT_CODE,
};

#[test]
fn zero_is_success() {
    assert_eq!(classify_exit(Some(0)), Classification::Success);
}

#[test]
fn stop_sentinel_is_cancelled() {
    assert_eq!(STOP_EXIT_CODE, 143);
    assert_eq!(classify_exit(Some(143)), Classification::Cancelled);
}

#[test]
fn signal_termination_without_code_is_cancelled() {
    assert_eq!(classify_exit(None), Classification::Cancelled);
}

#[test]
fn other_codes_are_failures() {
    assert_eq!(classify_exit(Some(7)), Classification::Failed);
    assert_eq!(classify_exit(Some(1)), Classification::Failed);
    assert_eq!(classify_exit(Some(-9)), Classification::Failed);
}

#[test]
fn tail_keeps_last_lines_only() {
    let lines: Vec<String> = (0..12).map(|i| format!("line{}", i)).collect();
    let tail = tail_lines(&lines, STDERR_TAIL_MAX);
    assert_eq!(tail.len(), 8);
    assert_eq!(tail[0].as_str(), "line4");
    assert_eq!(tail[7].as_str(), "line11");
}

#[test]
fn tail_of_short_buffer_is_everything() {
    let lines = vec![String::from("a"), String::from("b")];
    let tail = tail_lines(&lines, STDERR_TAIL_MAX);
    assert_eq!(tail.len(), 2);
    assert_eq!(tail[0].as_str(), "a");
    assert_eq!(tail[1].as_str(), "b");
}

#[test]
fn empty_stderr_yields_generic_message_with_code() {
    let msg = synth_failure_message(Some(7), &Vec::new());
    assert_eq!(msg.as_str(), "worker exited with code 7");
}

#[test]
fn missing_code_renders_as_minus_one() {
    let msg = synth_failure_message(None, &Vec::new());
    assert_eq!(msg.as_str(), "worker exited with code -1");
}

#[test]
fn negative_code_renders_with_sign() {
    let msg = synth_failure_message(Some(-9), &Vec::new());
    assert_eq!(msg.as_str(), "worker exited with code -9");
}

#[test]
fn stderr_tail_becomes_the_message() {
    let lines: Vec<String> = (0..10).map(|i| format!("e{}", i)).collect();
    let msg = synth_failure_message(Some(1), &lines);
    assert_eq!(msg.as_str(), "e2\ne3\ne4\ne5\ne6\ne7\ne8\ne9");
}

#[test]
fn single_stderr_line_is_the_message() {
    let lines = vec![String::from("oom-killed")];
    let msg = synth_failure_message(Some(137), &lines);
    assert_eq!(msg.as_str(), "oom-killed");
}
