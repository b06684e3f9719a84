use husako::progress::{ProgressReporter, SilentProgress, TaskHandle};

#[test]
fn silent_progress_no_ops() {
    let progress = SilentProgress;
    let task = progress.start_task("test");
    task.set_message("updated");
    task.finish_ok("done");
}

#[test]
fn silent_progress_err() {
    let progress = SilentProgress;
    let task = progress.start_task("test");
    task.finish_err("failed");
}

use husako::progress::{progress_message, progress_suffix};

fn build_suffix(bytes: u64, total_bytes: Option<u64>, pct: Option<u8>) -> String {
    progress_suffix(bytes, total_bytes, pct)
}

#[test]
fn http_with_total() {
    let suffix = build_suffix(5_243_000, Some(10_000_000), None);
    // 5_243_000 / 10_000_000 = 52%
    // 5_243_000 / 1_048_576 ≈ 5.0 MB, 10_000_000 / 1_048_576 ≈ 9.5 MB
    assert!(suffix.contains("52%"), "expected 52% in {suffix}");
    assert!(
        suffix.contains("5.0 MB / 9.5 MB"),
        "expected byte ratio in {suffix}"
    );
}

#[test]
fn http_no_total() {
    let suffix = build_suffix(5_243_000, None, None);
    assert_eq!(suffix, "(5.0 MB Received)");
}

#[test]
fn git_pct_and_bytes() {
    let suffix = build_suffix(5_243_000, None, Some(45));
    assert_eq!(suffix, "(45% \u{00B7} 5.0 MB Received)");
}

#[test]
fn pct_only_no_bytes() {
    let suffix = build_suffix(0, None, Some(30));
    assert_eq!(suffix, "(30%)");
}

#[test]
fn zero_bytes_no_total() {
    let suffix = build_suffix(0, None, None);
    assert_eq!(suffix, "");
}

/// What `{:.1}` formatting of the same quotient writes, for comparison.
fn float_mib(bytes: u64) -> String {
    format!("{:.1}", bytes as f64 / 1_048_576.0)
}

#[test]
fn mebibytes_match_float_formatting() {
    let samples: [u64; 12] = [
        1,
        52_428,
        52_429,
        104_857,
        157_286,
        262_144,
        786_432,
        1_048_576,
        5_243_000,
        10_000_000,
        (1u64 << 53) + 1,
        u64::MAX,
    ];
    for b in samples {
        assert_eq!(
            build_suffix(b, None, None),
            format!("({} MB Received)", float_mib(b)),
            "bytes {b}"
        );
    }
}

#[test]
fn share_is_capped_at_hundred() {
    assert_eq!(build_suffix(30, Some(10), None), "(100% \u{00B7} 0.0 MB / 0.0 MB)");
    assert_eq!(build_suffix(5, Some(0), None), "(0.0 MB / 0.0 MB)");
}

#[test]
fn message_with_suffix() {
    assert_eq!(progress_message("Fetching", &"(30%)".to_string()), "Fetching (30%)");
    assert_eq!(progress_message("Fetching", &String::new()), "Fetching");
}
