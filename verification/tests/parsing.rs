//! Catalog and test-set parsing on real XML text, and the string utilities.

use x_engine::assertion::Assertion;
use x_engine::environment::EnvironmentRef;
use x_engine::qt3;
use x_engine::strutil;
use x_engine::xml::{attr_of, element_text, parse_xml_text};
use x_engine::xsd;
use x_engine::xsd::Validity;
use x_engine::xslt30;

#[test]
fn xml_parse_builds_the_tree() {
    let doc = parse_xml_text("<root a=\"1\"><item>te</item><item>st</item></root>").unwrap();
    assert_eq!(doc.name, "root");
    assert_eq!(attr_of(&doc, "a").map(|s| s.as_str()), Some("1"));
    assert_eq!(doc.children.len(), 2);
    assert_eq!(element_text(&doc), "test");
}

#[test]
fn xml_parse_matches_by_local_name() {
    let doc = parse_xml_text(
        "<c:catalog xmlns:c=\"urn:x\"><c:test-set name=\"s\" file=\"f.xml\"/></c:catalog>",
    )
    .unwrap();
    assert_eq!(doc.name, "catalog");
    let cat = qt3::parse_catalog(&doc, ".");
    assert_eq!(cat.test_sets.len(), 1);
    assert_eq!(cat.test_sets[0].name, "s");
    assert_eq!(cat.test_sets[0].file, "f.xml");
}

#[test]
fn xml_parse_refuses_malformed_text() {
    assert!(parse_xml_text("<root><unclosed>").is_none());
    assert!(qt3::load_catalog("<root><unclosed>", ".").is_none());
}

#[test]
fn catalog_skips_incomplete_test_set_refs() {
    let text = "<catalog>\
        <test-set name=\"ok\" file=\"a.xml\"/>\
        <test-set name=\"no-file\"/>\
        <test-set file=\"b.xml\"/>\
        <environment name=\"e1\"><source role=\".\" file=\"d.xml\"/></environment>\
    </catalog>";
    let cat = qt3::load_catalog(text, "/base").unwrap();
    assert_eq!(cat.test_sets.len(), 1);
    assert_eq!(cat.test_sets[0].name, "ok");
    let env = cat.environments.get("e1").unwrap();
    assert_eq!(env.sources.len(), 1);
    assert_eq!(env.sources[0].role, ".");
    assert_eq!(env.sources[0].file, "/base/d.xml");
    assert!(cat.environments.get("missing").is_none());
}

#[test]
fn test_set_parses_cases_and_assertions() {
    let text = "<test-set name=\"fn-abs\">\
        <environment name=\"local\">\
          <source role=\".\" file=\"doc.xml\" uri=\"urn:doc\"/>\
          <namespace prefix=\"p\" uri=\"urn:p\"/>\
        </environment>\
        <test-case name=\"abs-1\">\
          <description>absolute value</description>\
          <environment ref=\"local\"/>\
          <test>abs(-1)</test>\
          <result><assert-eq>1</assert-eq></result>\
        </test-case>\
        <test-case name=\"abs-2\">\
          <test>abs(-2)</test>\
          <result><all-of><assert-count>1</assert-count><not><assert-empty/></not></all-of></result>\
        </test-case>\
    </test-set>";
    let ts = qt3::load_test_set(text, "/sets").unwrap();
    assert_eq!(ts.name, "fn-abs");
    assert_eq!(ts.test_cases.len(), 2);
    let tc1 = &ts.test_cases[0];
    assert_eq!(tc1.name, "abs-1");
    assert_eq!(tc1.description, "absolute value");
    assert_eq!(tc1.test, "abs(-1)");
    match &tc1.environment {
        Some(EnvironmentRef::Named(n)) => assert_eq!(n, "local"),
        _ => panic!("expected a named environment"),
    }
    match &tc1.result {
        Assertion::AssertEq(v) => assert_eq!(v, "1"),
        _ => panic!("expected assert-eq"),
    }
    let tc2 = &ts.test_cases[1];
    match &tc2.result {
        Assertion::AllOf(list) => {
            assert_eq!(list.len(), 2);
            assert!(matches!(list[0], Assertion::AssertCount(1)));
            match &list[1] {
                Assertion::Not(inner) => assert!(matches!(**inner, Assertion::AssertEmpty)),
                _ => panic!("expected a negation"),
            }
        },
        _ => panic!("expected all-of"),
    }
    let env = ts.environments.get("local").unwrap();
    assert_eq!(env.namespaces.get("p").map(|s| s.as_str()), Some("urn:p"));
    assert_eq!(env.sources[0].uri.as_deref(), Some("urn:doc"));
}

#[test]
fn missing_result_element_reads_as_empty_all_of() {
    let text = "<test-set name=\"s\"><test-case name=\"c\"><test>1</test></test-case></test-set>";
    let ts = qt3::load_test_set(text, ".").unwrap();
    match &ts.test_cases[0].result {
        Assertion::AllOf(list) => assert!(list.is_empty()),
        _ => panic!("expected the empty conjunction"),
    }
}

#[test]
fn dependencies_parse_with_satisfied_flag() {
    let text = "<test-set name=\"s\"><test-case name=\"c\">\
        <dependency type=\"spec\" value=\"XP31+\"/>\
        <dependency type=\"feature\" value=\"higherOrderFunctions\" satisfied=\"false\"/>\
        <dependency value=\"ignored\"/>\
        <test>1</test><result><assert-true/></result>\
    </test-case></test-set>";
    let ts = qt3::load_test_set(text, ".").unwrap();
    let deps = &ts.test_cases[0].dependencies;
    assert_eq!(deps.len(), 2);
    assert_eq!(deps[0].dep_type, "spec");
    assert_eq!(deps[0].value, "XP31+");
    assert!(deps[0].satisfied);
    assert!(!deps[1].satisfied);
}

#[test]
fn xsd_suite_and_test_set_parse() {
    let suite = xsd::load_suite(
        "<testSuite name=\"xsts\"><testSetRef href=\"s1/set.xml\"/><testSetRef/></testSuite>",
    )
    .unwrap();
    assert_eq!(suite.name, "xsts");
    assert_eq!(suite.test_set_refs.len(), 1);
    assert_eq!(suite.test_set_refs[0].href, "s1/set.xml");

    let ts = xsd::load_test_set(
        "<testSet name=\"boeing\" contributor=\"b\">\
          <testGroup name=\"g1\">\
            <annotation><documentation><Title>T</Title><Description>D</Description></documentation></annotation>\
            <schemaTest name=\"st\"><schemaDocument href=\"a.xsd\"/><expected validity=\"valid\"/></schemaTest>\
            <instanceTest name=\"it\"><instanceDocument href=\"a.xml\"/><expected validity=\"INVALID\"/></instanceTest>\
          </testGroup>\
        </testSet>",
        "/xsts",
    )
    .unwrap();
    assert_eq!(ts.name, "boeing");
    assert_eq!(ts.contributor, "b");
    assert_eq!(ts.test_groups.len(), 1);
    let g = &ts.test_groups[0];
    assert_eq!(g.title, "T");
    assert_eq!(g.description, "D");
    let st = g.schema_test.as_ref().unwrap();
    assert_eq!(st.schema_document, "/xsts/a.xsd");
    assert!(matches!(st.expected_validity, Validity::Valid));
    assert_eq!(g.instance_tests.len(), 1);
    assert_eq!(g.instance_tests[0].instance_document, "/xsts/a.xml");
    assert!(matches!(g.instance_tests[0].expected_validity, Validity::Invalid));
}

#[test]
fn validity_reads_case_insensitively() {
    assert!(matches!(Validity::from_str("Valid"), Validity::Valid));
    assert!(matches!(Validity::from_str("invalid"), Validity::Invalid));
    assert!(matches!(Validity::from_str("maybe"), Validity::Indeterminate));
}

#[test]
fn xslt_catalog_and_test_set_parse() {
    let cat = xslt30::load_catalog(
        "<catalog><test-set name=\"s\" file=\"s/cat.xml\"/></catalog>",
    )
    .unwrap();
    assert_eq!(cat.test_sets.len(), 1);
    let ts = xslt30::load_test_set(
        "<test-set name=\"s\">\
          <description>d</description>\
          <environment name=\"e\"><source role=\".\"><content>inline text</content></source></environment>\
          <test-case name=\"t1\">\
            <environment ref=\"e\"/>\
            <test><stylesheet file=\"t1.xsl\"/><initial-template name=\"main\"/></test>\
          </test-case>\
          <test-case name=\"\"><test/></test-case>\
        </test-set>",
        "/x30",
    )
    .unwrap();
    assert_eq!(ts.name, "s");
    assert_eq!(ts.description, "d");
    assert_eq!(ts.test_cases.len(), 1);
    let tc = &ts.test_cases[0];
    assert_eq!(tc.stylesheet.as_deref(), Some("/x30/t1.xsl"));
    assert_eq!(tc.initial_template.as_deref(), Some("main"));
    assert_eq!(tc.environment.as_deref(), Some("e"));
    let env = ts.environments.get("e").unwrap();
    assert_eq!(env.sources.len(), 1);
    assert_eq!(env.sources[0].content.as_deref(), Some("inline text"));
}

#[test]
fn string_utilities_behave() {
    assert_eq!(strutil::trim("  a b  "), "a b");
    assert_eq!(strutil::normalize_whitespace("  a \t b\n c "), "a b c");
    assert_eq!(strutil::normalize_whitespace("   "), "");
    assert_eq!(strutil::ascii_lower("TrUe"), "true");
    assert!(strutil::str_contains("hello world", "lo wo"));
    assert!(!strutil::str_contains("hello", "world"));
    assert!(strutil::str_eq("abc", "abc"));
    assert!(!strutil::str_eq("abc", "abd"));
    assert_eq!(strutil::parse_u64("00123"), Some(123));
    assert_eq!(strutil::parse_u64(""), None);
    assert_eq!(strutil::parse_u64("12a"), None);
    assert_eq!(strutil::parse_u64("99999999999999999999999"), None);
    assert_eq!(strutil::u64_to_dec(0), "0");
    assert_eq!(strutil::u64_to_dec(90710), "90710");
    assert_eq!(strutil::join_path("/a/b", "c.xml"), "/a/b/c.xml");
    assert_eq!(strutil::join_path("/a", "/abs.xml"), "/abs.xml");
    assert_eq!(strutil::join_path("", "rel.xml"), "rel.xml");
}
