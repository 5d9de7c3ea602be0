//! Dependency checking and the per-test-case run plans.

use x_engine::engine::{capabilities_for, Backend, EngineCapabilities};
use x_engine::environment::{Environment, EnvironmentRef, NameMap, Source};
use x_engine::engine::Error as IfaceError;
use x_engine::error::Error;
use x_engine::outcome::TestOutcome;
use x_engine::qt3::{check_dependency, plan_test_case, Dependency, TestCase, TestPlan};
use x_engine::xsd::{judge_instance_test, judge_schema_test, Validity};
use x_engine::xslt30;

fn dep(dep_type: &str, value: &str, satisfied: bool) -> Dependency {
    Dependency {
        dep_type: dep_type.to_string(),
        value: value.to_string(),
        satisfied,
    }
}

fn caps_with_spec(token: &str) -> EngineCapabilities {
    EngineCapabilities {
        backend: Backend::Xrust,
        spec_tokens: vec![token.to_string()],
        unsupported_features: Vec::new(),
    }
}

fn case(name: &str, deps: Vec<Dependency>, env: Option<EnvironmentRef>) -> TestCase {
    TestCase {
        name: name.to_string(),
        description: String::new(),
        environment: env,
        dependencies: deps,
        test: "1 + 1".to_string(),
        result: x_engine::assertion::Assertion::AllOf(Vec::new()),
    }
}

#[test]
fn spec_dependency_fails_on_unsupported_version() {
    // An engine declaring only XP20 does not satisfy a dependency on XP31.
    let caps = caps_with_spec("XP20");
    let d = dep("spec", "XP31", true);
    assert!(!check_dependency(&d, &caps));
    let d2 = dep("spec", "XP20 XP31", true);
    assert!(check_dependency(&d2, &caps));
    let d3 = dep("spec", "XP31+ XQ30", true);
    assert!(!check_dependency(&d3, &caps));
}

#[test]
fn unsatisfied_dependency_skips_the_engine() {
    let caps = caps_with_spec("XP20");
    let tc = case("t", vec![dep("spec", "XP31", true)], None);
    let local: NameMap<Environment> = NameMap::new();
    let global: NameMap<Environment> = NameMap::new();
    match plan_test_case(&tc, &local, &global, &caps) {
        TestPlan::NotApplicable { detail } => {
            assert_eq!(detail, "Dependency not satisfied: spec = XP31");
        },
        _ => panic!("the plan must not touch the engine"),
    }
}

#[test]
fn feature_dependency_uses_the_unsupported_list() {
    let caps = capabilities_for(Backend::Xee);
    assert!(!check_dependency(&dep("feature", "serialization", true), &caps));
    assert!(check_dependency(&dep("feature", "commonplace", true), &caps));
}

#[test]
fn unknown_dependency_type_falls_back_to_the_flag() {
    let caps = capabilities_for(Backend::Xust);
    assert!(check_dependency(&dep("calendar", "CB", true), &caps));
    assert!(!check_dependency(&dep("calendar", "CB", false), &caps));
}

#[test]
fn backend_capabilities_match_their_engines() {
    let xee = capabilities_for(Backend::Xee);
    assert!(check_dependency(&dep("spec", "XP31", true), &xee));
    let xrust = capabilities_for(Backend::Xrust);
    assert!(!check_dependency(&dep("spec", "XP31", true), &xrust));
    assert!(check_dependency(&dep("spec", "XP10", true), &xrust));
    let xust = capabilities_for(Backend::Xust);
    assert!(check_dependency(&dep("spec", "XQ31", true), &xust));
}

#[test]
fn missing_named_environment_yields_an_error_naming_it() {
    let caps = capabilities_for(Backend::Xee);
    let tc = case(
        "t",
        Vec::new(),
        Some(EnvironmentRef::Named("does-not-exist".to_string())),
    );
    let local: NameMap<Environment> = NameMap::new();
    let global: NameMap<Environment> = NameMap::new();
    match plan_test_case(&tc, &local, &global, &caps) {
        TestPlan::EnvironmentError { message } => {
            assert!(message.contains("environment"));
            assert!(message.contains("does-not-exist"));
            assert_eq!(message, "environment not found: does-not-exist");
        },
        _ => panic!("an absent environment must be an error"),
    }
}

#[test]
fn local_environment_shadows_global() {
    let caps = capabilities_for(Backend::Xee);
    let mut local: NameMap<Environment> = NameMap::new();
    let mut global: NameMap<Environment> = NameMap::new();
    let mut genv = Environment::empty();
    genv.sources.push(Source {
        role: ".".to_string(),
        file: "global.xml".to_string(),
        uri: None,
        validation: None,
    });
    global.insert("e".to_string(), genv);
    let mut lenv = Environment::empty();
    lenv.sources.push(Source {
        role: ".".to_string(),
        file: "local.xml".to_string(),
        uri: None,
        validation: None,
    });
    local.insert("e".to_string(), lenv);
    let tc = case("t", Vec::new(), Some(EnvironmentRef::Named("e".to_string())));
    match plan_test_case(&tc, &local, &global, &caps) {
        TestPlan::Execute { context_file } => {
            assert_eq!(context_file.as_deref(), Some("local.xml"));
        },
        _ => panic!("a bound environment must execute"),
    }
}

#[test]
fn environment_without_context_source_executes_without_a_file() {
    let caps = capabilities_for(Backend::Xee);
    let mut env = Environment::empty();
    env.sources.push(Source {
        role: "$var".to_string(),
        file: "var.xml".to_string(),
        uri: None,
        validation: None,
    });
    let tc = case("t", Vec::new(), Some(EnvironmentRef::Inline(env)));
    let local: NameMap<Environment> = NameMap::new();
    let global: NameMap<Environment> = NameMap::new();
    match plan_test_case(&tc, &local, &global, &caps) {
        TestPlan::Execute { context_file } => assert!(context_file.is_none()),
        _ => panic!("an inline environment must execute"),
    }
}

#[test]
fn schema_test_judgment_compares_validities() {
    let ok: Result<bool, Error> = Ok(true);
    assert!(judge_schema_test(Validity::Valid, &ok).is_pass());
    let out = judge_schema_test(Validity::Invalid, &ok);
    assert_eq!(out.message(), Some("Expected Invalid, got Valid"));
    let err: Result<bool, Error> = Err(Error::XsdError("broken".to_string()));
    assert!(judge_schema_test(Validity::Invalid, &err).is_pass());
    let out2 = judge_schema_test(Validity::Valid, &err);
    assert_eq!(
        out2.message(),
        Some("Schema validation error: XSD validation error: broken")
    );
}

#[test]
fn instance_test_without_schema_is_not_applicable() {
    let out = judge_instance_test(Validity::Valid, &None);
    assert_eq!(out.as_str(), "n/a");
    let out2 = judge_instance_test(Validity::Invalid, &Some(Ok(false)));
    assert!(out2.is_pass());
    let out3 = judge_instance_test(Validity::Valid, &Some(Err(Error::Unsupported)));
    assert_eq!(
        out3.message(),
        Some("Validation error: Operation not supported by this engine")
    );
}

#[test]
fn xslt_plan_requires_a_stylesheet_and_a_bound_environment() {
    let envs: NameMap<xslt30::Environment> = NameMap::new();
    let no_sheet = xslt30::TestCase {
        name: "t".to_string(),
        description: String::new(),
        environment: None,
        stylesheet: None,
        initial_mode: None,
        initial_template: None,
        dependencies: Vec::new(),
        result: xslt30::ExpectedResult::AssertResult(String::new()),
    };
    match xslt30::plan_test_case(&no_sheet, &envs) {
        xslt30::XsltPlan::NotApplicable { detail } => {
            assert_eq!(detail, "No stylesheet specified in test case");
        },
        _ => panic!("no stylesheet means not applicable"),
    }
    let missing_env = xslt30::TestCase {
        environment: Some("ghost".to_string()),
        stylesheet: Some("t.xsl".to_string()),
        ..no_sheet
    };
    match xslt30::plan_test_case(&missing_env, &envs) {
        xslt30::XsltPlan::EnvironmentError { message } => {
            assert_eq!(message, "Environment not found: ghost");
        },
        _ => panic!("an absent environment must be an error"),
    }
}

#[test]
fn xslt_transform_judgment() {
    let expected = xslt30::ExpectedResult::AssertResult(String::new());
    let ok: Result<String, Error> = Ok("<out/>".to_string());
    assert!(xslt30::judge_transform(&expected, &ok).is_pass());
    let err: Result<String, Error> = Err(Error::XsltError("no template".to_string()));
    let out = xslt30::judge_transform(&expected, &err);
    assert_eq!(
        out.message(),
        Some("Transform failed: XSLT transformation error: no template")
    );
    let expects_error = xslt30::ExpectedResult::Error("XTSE0010".to_string());
    assert!(xslt30::judge_transform(&expects_error, &err).is_pass());
}

#[test]
fn outcome_accessors_expose_tag_and_message() {
    assert_eq!(TestOutcome::Pass.as_str(), "pass");
    assert_eq!(TestOutcome::Skipped.as_str(), "skipped");
    let f = TestOutcome::Fail("why".to_string());
    assert!(f.is_fail());
    assert!(!f.is_pass());
    assert!(!f.is_error());
    assert_eq!(f.message(), Some("why"));
    assert_eq!(TestOutcome::NotApplicable.message(), None);
}

#[test]
fn engine_interface_errors_carry_their_messages() {
    assert!(matches!(IfaceError::xpath_compile("p"), IfaceError::XPathCompile(m) if m == "p"));
    assert!(matches!(IfaceError::xpath_eval("q"), IfaceError::XPathEval(m) if m == "q"));
    assert!(matches!(IfaceError::xslt_compile("r"), IfaceError::XsltCompile(m) if m == "r"));
    assert!(matches!(IfaceError::xslt_transform("s"), IfaceError::XsltTransform(m) if m == "s"));
    assert!(matches!(IfaceError::xquery_compile("t"), IfaceError::XQueryCompile(m) if m == "t"));
    assert!(matches!(IfaceError::xquery_eval("u"), IfaceError::XQueryEval(m) if m == "u"));
}

#[test]
fn harness_error_messages_name_each_kind() {
    assert_eq!(
        Error::Unsupported.message(),
        "Operation not supported by this engine"
    );
    assert_eq!(Error::ParseError("a".to_string()).message(), "XML parsing error: a");
    assert_eq!(Error::XPathError("b".to_string()).message(), "XPath evaluation error: b");
    assert_eq!(Error::XQueryError("c".to_string()).message(), "XQuery evaluation error: c");
    assert_eq!(Error::XsltError("d".to_string()).message(), "XSLT transformation error: d");
    assert_eq!(Error::XsdError("e".to_string()).message(), "XSD validation error: e");
    assert_eq!(Error::IoError("f".to_string()).message(), "IO error: f");
    assert_eq!(Error::EngineError("g".to_string()).message(), "Engine error: g");
}
