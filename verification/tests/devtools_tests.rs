//! Diagnostics: check results, health reports, error log entries and summaries.
use cardmaker::devtools::{
    check_for_name, check_result_from_output, check_result_from_spawn_error, clip, error_summary_of,
    errors_from_report, failed_entries, health_report, unknown_check, CheckKind, CheckResult, ErrorEntry,
    HealthReport,
};

#[test]
fn test_check_result_creation() {
    let cr = CheckResult {
        name: "test check".into(),
        passed: true,
        duration_ms: 1500,
        stdout: "all good".into(),
        stderr: "".into(),
        exit_code: Some(0),
    };
    assert!(cr.passed);
    assert_eq!(cr.name, "test check");
    assert_eq!(cr.duration_ms, 1500);
    assert_eq!(cr.exit_code, Some(0));
}

#[test]
fn test_health_report_all_passed() {
    let checks = vec![
        CheckResult { name: "cargo check".into(), passed: true, duration_ms: 100, stdout: "".into(), stderr: "".into(), exit_code: Some(0) },
        CheckResult { name: "tsc --noEmit".into(), passed: true, duration_ms: 50, stdout: "".into(), stderr: "".into(), exit_code: Some(0) },
    ];
    let report = HealthReport {
        total: 2,
        passed: 2,
        failed: 0,
        checks: checks.clone(),
        summary: "ALL CHECKS PASSED".into(),
    };
    assert_eq!(report.total, 2);
    assert_eq!(report.passed, 2);
    assert_eq!(report.failed, 0);
}

#[test]
fn test_health_report_partial_failure() {
    let checks = vec![
        CheckResult { name: "check 1".into(), passed: true, duration_ms: 100, stdout: "".into(), stderr: "".into(), exit_code: Some(0) },
        CheckResult { name: "check 2".into(), passed: false, duration_ms: 200, stdout: "".into(), stderr: "error!".into(), exit_code: Some(1) },
        CheckResult { name: "check 3".into(), passed: false, duration_ms: 50, stdout: "".into(), stderr: "fail".into(), exit_code: Some(2) },
    ];
    let report = HealthReport {
        total: 3,
        passed: 1,
        failed: 2,
        checks: checks.clone(),
        summary: "2/3 FAILED".into(),
    };
    assert_eq!(report.passed, 1);
    assert_eq!(report.failed, 2);
    assert!(report.summary.contains("FAILED"));
}

#[test]
fn test_check_result_failed_with_stderr() {
    let cr = CheckResult {
        name: "failed check".into(),
        passed: false,
        duration_ms: 300,
        stdout: "".into(),
        stderr: "compilation error at line 42".into(),
        exit_code: Some(1),
    };
    assert!(!cr.passed);
    assert!(cr.stderr.contains("compilation error"));
    assert_eq!(cr.exit_code, Some(1));
}

#[test]
fn test_check_result_failed_spawn_error() {
    let cr = CheckResult {
        name: "missing tool".into(),
        passed: false,
        duration_ms: 0,
        stdout: "".into(),
        stderr: "failed: program not found".into(),
        exit_code: None,
    };
    assert!(!cr.passed);
    assert!(cr.stderr.contains("failed:"));
    assert_eq!(cr.exit_code, None);
}

#[test]
fn test_check_result_zero_duration() {
    let cr = CheckResult {
        name: "instant".into(),
        passed: true,
        duration_ms: 0,
        stdout: "".into(),
        stderr: "".into(),
        exit_code: Some(0),
    };
    assert_eq!(cr.duration_ms, 0);
}

#[test]
fn test_health_report_all_failed() {
    let checks: Vec<CheckResult> = (0..8).map(|i| CheckResult {
        name: format!("check_{}", i),
        passed: false,
        duration_ms: 10,
        stdout: "".into(),
        stderr: "all broken".into(),
        exit_code: Some(1),
    }).collect();
    let report = HealthReport {
        total: 8,
        passed: 0,
        failed: 8,
        checks,
        summary: "8/8 FAILED".into(),
    };
    assert_eq!(report.passed, 0);
    assert_eq!(report.failed, 8);
}

fn check(name: &str, passed: bool, stderr: &str, code: Option<i32>) -> CheckResult {
    CheckResult {
        name: name.into(),
        passed,
        duration_ms: 1,
        stdout: "".into(),
        stderr: stderr.into(),
        exit_code: code,
    }
}

fn entry(name: &str, secs: u64) -> ErrorEntry {
    ErrorEntry { check: name.into(), unix_secs: secs, stderr_snippet: "x".into(), exit_code: Some(1) }
}

#[test]
fn test_health_report_counts_and_summary() {
    let report = health_report(vec![
        check("a", true, "", Some(0)),
        check("b", false, "boom", Some(1)),
        check("c", false, "bad", Some(2)),
    ]);
    assert_eq!(report.total, 3);
    assert_eq!(report.passed, 1);
    assert_eq!(report.failed, 2);
    assert_eq!(report.summary, "2/3 FAILED");
    assert_eq!(report.checks.len(), 3);
}

#[test]
fn test_health_report_built_all_passed() {
    let report = health_report(vec![check("a", true, "", Some(0)), check("b", true, "", Some(0))]);
    assert_eq!(report.failed, 0);
    assert_eq!(report.summary, "ALL CHECKS PASSED");
}

#[test]
fn test_health_report_empty() {
    let report = health_report(vec![]);
    assert_eq!(report.total, 0);
    assert_eq!(report.summary, "ALL CHECKS PASSED");
}

#[test]
fn test_clip_short_text_unchanged() {
    assert_eq!(clip("hello", 10), "hello");
    assert_eq!(clip("hello", 5), "hello");
}

#[test]
fn test_clip_long_text() {
    assert_eq!(clip("abcdefgh", 3), "abc...\n[truncated 5 chars]");
}

#[test]
fn test_clip_counts_bytes() {
    // three chars of three bytes each: cut after the first two
    assert_eq!(clip("错误码", 6), "错误...\n[truncated 3 chars]");
}

#[test]
fn test_check_result_from_output_clips() {
    let long = "x".repeat(4005);
    let r = check_result_from_output("cargo check", 12, false, "ok", &long, Some(1));
    assert_eq!(r.name, "cargo check");
    assert!(!r.passed);
    assert_eq!(r.duration_ms, 12);
    assert_eq!(r.stdout, "ok");
    assert!(r.stderr.starts_with(&"x".repeat(4000)));
    assert!(r.stderr.ends_with("...\n[truncated 5 chars]"));
    assert_eq!(r.exit_code, Some(1));
}

#[test]
fn test_check_result_from_spawn_error_message() {
    let r = check_result_from_spawn_error("pnpm build", 3, "program not found");
    assert!(!r.passed);
    assert_eq!(r.stderr, "failed: program not found");
    assert_eq!(r.stdout, "");
    assert_eq!(r.exit_code, None);
}

#[test]
fn test_failed_entries_from_report() {
    let report = health_report(vec![
        check("pass", true, "", Some(0)),
        check("fail1", false, "bad thing", Some(1)),
        check("fail2", false, "other bad", Some(2)),
    ]);
    let entries = failed_entries(&report, 1234);
    assert_eq!(entries.len(), 2);
    assert_eq!(entries[0].check, "fail1");
    assert_eq!(entries[0].unix_secs, 1234);
    assert_eq!(entries[0].stderr_snippet, "bad thing");
    assert_eq!(entries[0].exit_code, Some(1));
    assert_eq!(entries[1].check, "fail2");
}

#[test]
fn test_failed_entries_snippet_limit() {
    let long = "错".repeat(600);
    let report = health_report(vec![check("big", false, &long, Some(1))]);
    let entries = failed_entries(&report, 0);
    assert_eq!(entries[0].stderr_snippet.chars().count(), 500);
}

#[test]
fn test_errors_from_report_names() {
    let report = health_report(vec![check("ok", true, "", Some(0)), check("bad", false, "e", Some(3))]);
    let entries = errors_from_report(&report);
    assert_eq!(entries.len(), 1);
    assert_eq!(entries[0].check, "bad");
}

#[test]
fn test_error_summary_of_grouped() {
    let mut log = vec![];
    for _ in 0..2 {
        log.push(entry("cargo test -p duel", 2000));
    }
    for _ in 0..3 {
        log.push(entry("cargo clippy", 1000));
    }
    let summary = error_summary_of(&log);
    assert_eq!(summary.len(), 2);
    assert_eq!(summary[0], ("cargo clippy".to_string(), 3));
    assert_eq!(summary[1], ("cargo test -p duel".to_string(), 2));
}

#[test]
fn test_error_summary_of_empty() {
    assert!(error_summary_of(&vec![]).is_empty());
}

#[test]
fn test_error_summary_of_ties_keep_first_appearance() {
    let log = vec![entry("b", 1), entry("a", 2), entry("b", 3), entry("a", 4)];
    let summary = error_summary_of(&log);
    assert_eq!(summary, vec![("b".to_string(), 2), ("a".to_string(), 2)]);
}

#[test]
fn test_check_for_name() {
    assert!(matches!(check_for_name("clippy"), CheckKind::Clippy));
    match check_for_name("test:duel") {
        CheckKind::TestCrate(c) => assert_eq!(c, "duel"),
        other => panic!("{:?}", other),
    }
    assert!(matches!(check_for_name("lint"), CheckKind::Unknown));
    let r = unknown_check("lint");
    assert_eq!(r.name, "unknown check: lint");
    assert!(!r.passed);
    assert_eq!(r.stderr, "unknown check name");
}
