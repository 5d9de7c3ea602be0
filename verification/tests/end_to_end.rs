//! A whole run over a small catalog: parse, plan, judge, aggregate.

use x_engine::assertion::evaluate;
use x_engine::engine::{capabilities_for, Backend};
use x_engine::environment::{Environment, NameMap};
use x_engine::error::Error;
use x_engine::items::{ResultItem, ResultSequence};
use x_engine::outcome::{TestOutcome, TestResult};
use x_engine::qt3::{load_catalog, load_test_set, plan_test_case, TestPlan};
use x_engine::reporter::ComplianceSummary;

fn three_item_sequence() -> ResultSequence {
    ResultSequence {
        items: vec![
            ResultItem::Integer(1),
            ResultItem::Integer(2),
            ResultItem::Integer(3),
        ],
        text: "1 2 3".to_string(),
    }
}

fn set_text(set: &str) -> String {
    format!(
        "<test-set name=\"{}\">\
          <test-case name=\"counts\"><test>(1,2,3)</test>\
            <result><assert-count>3</assert-count></result></test-case>\
          <test-case name=\"empties\"><test>(1,2,3)</test>\
            <result><assert-empty/></result></test-case>\
        </test-set>",
        set
    )
}

#[test]
fn two_test_sets_yield_two_passes_and_two_failures() {
    let catalog_text = "<catalog>\
        <test-set name=\"s1\" file=\"s1.xml\"/>\
        <test-set name=\"s2\" file=\"s2.xml\"/>\
    </catalog>";
    let catalog = load_catalog(catalog_text, ".").unwrap();
    assert_eq!(catalog.test_sets.len(), 2);

    let caps = capabilities_for(Backend::Xee);
    let global: NameMap<Environment> = NameMap::new();
    let mut results: Vec<TestResult> = Vec::new();

    for set_ref in &catalog.test_sets {
        let ts = load_test_set(&set_text(&set_ref.name), ".").unwrap();
        assert_eq!(ts.name, set_ref.name);
        for tc in &ts.test_cases {
            let plan = plan_test_case(tc, &ts.environments, &global, &caps);
            let outcome = match plan {
                TestPlan::NotApplicable { detail } => {
                    let r = TestResult::new(&tc.name, &ts.name, "qt3", None,
                        TestOutcome::NotApplicable, 0)
                        .with_values(None, Some(detail));
                    results.push(r);
                    continue;
                },
                TestPlan::EnvironmentError { message } => TestOutcome::Error(message),
                TestPlan::Execute { context_file } => {
                    assert!(context_file.is_none());
                    // The engine's place: every case gets a three-item sequence.
                    let exec: Result<ResultSequence, Error> = Ok(three_item_sequence());
                    evaluate(&tc.result, &exec)
                },
            };
            results.push(TestResult::new(&tc.name, &ts.name, "qt3", None, outcome, 1));
        }
    }

    assert_eq!(results.len(), 4);
    let summary = ComplianceSummary::from_results(&results);
    assert_eq!(summary.total, 4);
    assert_eq!(summary.passed, 2);
    assert_eq!(summary.failed, 2);
    assert_eq!(summary.errors, 0);
    assert_eq!(summary.not_applicable, 0);
    assert!(results[0].outcome.is_pass());
    assert!(results[1].outcome.is_fail());
    assert_eq!(
        results[1].outcome.message(),
        Some("Expected empty, got 3 items")
    );
}

#[test]
fn environment_errors_surface_in_the_report() {
    let ts = load_test_set(
        "<test-set name=\"s\">\
          <test-case name=\"needs-env\">\
            <environment ref=\"ghost\"/>\
            <test>1</test><result><assert-true/></result>\
          </test-case>\
        </test-set>",
        ".",
    )
    .unwrap();
    let caps = capabilities_for(Backend::Xee);
    let global: NameMap<Environment> = NameMap::new();
    let tc = &ts.test_cases[0];
    match plan_test_case(tc, &ts.environments, &global, &caps) {
        TestPlan::EnvironmentError { message } => {
            assert!(message.contains("environment"));
            assert!(message.contains("ghost"));
        },
        _ => panic!("the unresolved environment must be an error"),
    }
}
