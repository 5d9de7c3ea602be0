//! Aggregation arithmetic and report rendering.

use x_engine::outcome::{TestOutcome, TestResult};
use x_engine::reporter::{
    compare_reports, parse_summary_json, summary_json, ComplianceReport, ComplianceSummary,
    DetailedTestResult, TestResultSummary,
};

fn result_with(outcome: TestOutcome, id: &str) -> TestResult {
    TestResult::new(id, "set", "qt3", Some("desc".to_string()), outcome, 7)
}

fn ten_results() -> Vec<TestResult> {
    let mut rs = Vec::new();
    for i in 0..6 {
        rs.push(result_with(TestOutcome::Pass, &format!("p{}", i)));
    }
    rs.push(result_with(TestOutcome::Fail("f1".to_string()), "f1"));
    rs.push(result_with(TestOutcome::Fail("f2".to_string()), "f2"));
    rs.push(result_with(TestOutcome::NotApplicable, "na"));
    rs.push(result_with(TestOutcome::Skipped, "sk"));
    rs
}

#[test]
fn pass_rate_arithmetic() {
    // total=10, notApplicable=1, skipped=1, passed=6, failed=2, errors=0
    // => applicable=8, passRate=75.0
    let s = ComplianceSummary::from_results(&ten_results());
    assert_eq!(s.total, 10);
    assert_eq!(s.passed, 6);
    assert_eq!(s.failed, 2);
    assert_eq!(s.errors, 0);
    assert_eq!(s.not_applicable, 1);
    assert_eq!(s.skipped, 1);
    assert_eq!(s.total - s.not_applicable - s.skipped, 8);
    assert_eq!(s.pass_rate_centi, 7500);
}

#[test]
fn empty_run_has_zero_rate() {
    let s = ComplianceSummary::from_results(&Vec::new());
    assert_eq!(s.total, 0);
    assert_eq!(s.pass_rate_centi, 0);
}

#[test]
fn summary_json_round_trip() {
    let s = ComplianceSummary::from_results(&ten_results());
    let text = summary_json(&s);
    let parsed = parse_summary_json(&text).unwrap();
    assert_eq!(parsed, (10, 6, 2, 0, 1, 1));
}

#[test]
fn report_json_reparses_with_the_same_counts() {
    let report = ComplianceReport::new("xee", "qt3", ten_results());
    let text = report.to_json();
    let v: serde_json::Value = serde_json::from_str(&text).unwrap();
    assert_eq!(v["engine"].as_str(), Some("xee"));
    assert_eq!(v["suite"].as_str(), Some("qt3"));
    assert_eq!(v["summary"]["total"].as_u64(), Some(10));
    assert_eq!(v["summary"]["passed"].as_u64(), Some(6));
    assert_eq!(v["summary"]["failed"].as_u64(), Some(2));
    assert_eq!(v["summary"]["errors"].as_u64(), Some(0));
    assert_eq!(v["summary"]["not_applicable"].as_u64(), Some(1));
    assert_eq!(v["summary"]["skipped"].as_u64(), Some(1));
    assert_eq!(v["summary"]["pass_rate"].as_f64(), Some(75.0));
    assert_eq!(v["results"].as_array().map(|a| a.len()), Some(10));
    assert_eq!(v["results"][6]["outcome"].as_str(), Some("fail"));
    assert_eq!(v["results"][6]["message"].as_str(), Some("f1"));
}

#[test]
fn json_escapes_quotes_and_newlines() {
    let rs = vec![result_with(
        TestOutcome::Fail("say \"no\"\nplease".to_string()),
        "q\\1",
    )];
    let report = ComplianceReport::new("x", "s", rs);
    let text = report.to_json();
    let v: serde_json::Value = serde_json::from_str(&text).unwrap();
    assert_eq!(v["results"][0]["message"].as_str(), Some("say \"no\"\nplease"));
    assert_eq!(v["results"][0]["test_id"].as_str(), Some("q\\1"));
}

#[test]
fn csv_quotes_descriptions_and_messages() {
    let rs = vec![result_with(
        TestOutcome::Fail("a \"quoted\" reason".to_string()),
        "id1",
    )];
    let report = ComplianceReport::new("x", "s", rs);
    let csv = report.to_csv();
    let mut lines = csv.lines();
    assert_eq!(
        lines.next(),
        Some("test_suite,test_set,test_id,description,outcome,message,duration_ms")
    );
    assert_eq!(
        lines.next(),
        Some("qt3,set,id1,\"desc\",fail,\"a \"\"quoted\"\" reason\",7")
    );
}

#[test]
fn markdown_summarizes_and_lists_failures() {
    let report = ComplianceReport::new("xrust", "qt3", ten_results());
    let md = report.to_markdown();
    assert!(md.starts_with("# xrust Compliance Report\n"));
    assert!(md.contains("| Total | 10 |"));
    assert!(md.contains("| Passed | 6 |"));
    assert!(md.contains("| **Pass Rate** | **75.00%** |"));
    assert!(md.contains("## Failed Tests"));
    assert!(md.contains("| set | f1 | fail | f1 |"));
}

#[test]
fn markdown_without_rows_skips_the_failed_section() {
    let report = ComplianceReport::new("xee", "qt3", Vec::new());
    let md = report.to_markdown();
    assert!(!md.contains("## Failed Tests"));
    let clean = ComplianceReport::new("xee", "qt3", vec![result_with(TestOutcome::Pass, "p")]);
    assert!(clean.to_markdown().contains("No failed tests!"));
}

#[test]
fn markdown_caps_failures_at_one_hundred_rows() {
    let mut rs = Vec::new();
    for i in 0..105 {
        rs.push(result_with(TestOutcome::Fail(format!("r{}", i)), &format!("t{}", i)));
    }
    let report = ComplianceReport::new("xee", "qt3", rs);
    let md = report.to_markdown();
    assert!(md.contains("| set | t99 | fail | r99 |"));
    assert!(!md.contains("| set | t100 | fail |"));
    assert!(md.contains("... and 5 more failed tests"));
}

#[test]
fn detailed_and_summary_rows_render_outcomes() {
    let r = result_with(TestOutcome::NotApplicable, "id");
    let d = DetailedTestResult::from_result(&r);
    assert_eq!(d.outcome, "n/a");
    let s = TestResultSummary::from_result(&r);
    assert_eq!(s.outcome, "not_applicable");
    let r2 = result_with(TestOutcome::Error("boom".to_string()), "id2");
    let d2 = DetailedTestResult::from_result(&r2);
    assert_eq!(d2.outcome, "error");
    assert_eq!(d2.message.as_deref(), Some("boom"));
}

#[test]
fn comparison_keeps_engine_lines() {
    let a = ComplianceReport::new("xee", "qt3", ten_results());
    let b = ComplianceReport::new("xrust", "qt3", Vec::new());
    let cmp = compare_reports(&vec![a, b]);
    assert_eq!(cmp.suite, "qt3");
    assert_eq!(cmp.engines.len(), 2);
    assert_eq!(cmp.engines[0].name, "xee");
    assert_eq!(cmp.engines[0].passed, 6);
    assert_eq!(cmp.engines[0].total, 10);
    assert_eq!(cmp.engines[0].pass_rate_centi, 7500);
    assert_eq!(cmp.engines[1].name, "xrust");
}

#[test]
fn with_values_sets_the_recorded_fields() {
    let r = result_with(TestOutcome::Pass, "id").with_values(
        Some("3".to_string()),
        Some("3".to_string()),
    );
    assert_eq!(r.expected.as_deref(), Some("3"));
    assert_eq!(r.actual.as_deref(), Some("3"));
    assert_eq!(r.duration_ms, 7);
}
