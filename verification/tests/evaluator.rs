//! The assertion evaluator on concrete outcomes.

use x_engine::assertion::{evaluate, Assertion};
use x_engine::error::Error;
use x_engine::items::{ResultItem, ResultSequence};

fn seq_of(items: Vec<ResultItem>, text: &str) -> ResultSequence {
    ResultSequence { items, text: text.to_string() }
}

fn three_items() -> ResultSequence {
    seq_of(
        vec![
            ResultItem::Integer(1),
            ResultItem::Integer(2),
            ResultItem::Integer(3),
        ],
        "1 2 3",
    )
}

#[test]
fn empty_all_of_passes_on_anything() {
    let a = Assertion::AllOf(Vec::new());
    let ok: Result<ResultSequence, Error> = Ok(three_items());
    assert!(evaluate(&a, &ok).is_pass());
    let err: Result<ResultSequence, Error> = Err(Error::XPathError("boom".to_string()));
    assert!(evaluate(&a, &err).is_pass());
}

#[test]
fn not_inverts_pass_and_fail() {
    let ok: Result<ResultSequence, Error> = Ok(three_items());
    let passing = Assertion::Not(Box::new(Assertion::AssertCount(3)));
    let out = evaluate(&passing, &ok);
    assert!(out.is_fail());
    assert_eq!(out.message(), Some("Expected NOT to pass"));
    let failing = Assertion::Not(Box::new(Assertion::AssertCount(2)));
    assert!(evaluate(&failing, &ok).is_pass());
}

#[test]
fn not_passes_other_outcomes_through() {
    let ok: Result<ResultSequence, Error> = Ok(three_items());
    let inner = Assertion::SerializationMatches { regex: None, file: None, flags: None };
    let not = Assertion::Not(Box::new(inner));
    let out = evaluate(&not, &ok);
    assert_eq!(out.as_str(), "n/a");
}

#[test]
fn any_of_short_circuits_at_first_pass() {
    let ok: Result<ResultSequence, Error> = Ok(three_items());
    let a = Assertion::AnyOf(vec![
        Assertion::AssertCount(1),
        Assertion::AssertCount(3),
        Assertion::AssertCount(7),
    ]);
    assert!(evaluate(&a, &ok).is_pass());
}

#[test]
fn any_of_reports_last_outcome_when_none_passes() {
    let ok: Result<ResultSequence, Error> = Ok(three_items());
    let a = Assertion::AnyOf(vec![Assertion::AssertCount(1), Assertion::AssertCount(7)]);
    let out = evaluate(&a, &ok);
    assert!(out.is_fail());
    assert_eq!(out.message(), Some("Expected count 7, got 3"));
}

#[test]
fn count_mismatch_names_both_counts() {
    let two = seq_of(vec![ResultItem::Integer(1), ResultItem::Integer(2)], "1 2");
    let ok: Result<ResultSequence, Error> = Ok(two);
    let out = evaluate(&Assertion::AssertCount(3), &ok);
    assert!(out.is_fail());
    assert_eq!(out.message(), Some("Expected count 3, got 2"));
    let three: Result<ResultSequence, Error> = Ok(three_items());
    assert!(evaluate(&Assertion::AssertCount(3), &three).is_pass());
}

#[test]
fn assert_eq_compares_trimmed_strings() {
    let ok: Result<ResultSequence, Error> = Ok(seq_of(vec![ResultItem::Integer(5)], "  5 "));
    assert!(evaluate(&Assertion::AssertEq("5".to_string()), &ok).is_pass());
    let out = evaluate(&Assertion::AssertEq("6".to_string()), &ok);
    assert_eq!(out.message(), Some("Expected '6', got '5'"));
}

#[test]
fn assert_true_lowers_and_trims() {
    let ok: Result<ResultSequence, Error> = Ok(seq_of(
        vec![ResultItem::Boolean(true)],
        " TRUE ",
    ));
    assert!(evaluate(&Assertion::AssertTrue, &ok).is_pass());
    assert!(evaluate(&Assertion::AssertFalse, &ok).is_fail());
}

#[test]
fn assert_empty_judges_item_count() {
    let empty: Result<ResultSequence, Error> = Ok(seq_of(Vec::new(), ""));
    assert!(evaluate(&Assertion::AssertEmpty, &empty).is_pass());
    let full: Result<ResultSequence, Error> = Ok(three_items());
    let out = evaluate(&Assertion::AssertEmpty, &full);
    assert_eq!(out.message(), Some("Expected empty, got 3 items"));
}

#[test]
fn expected_error_accepts_any_engine_error() {
    let err: Result<ResultSequence, Error> = Err(Error::XQueryError("XPST0003".to_string()));
    assert!(evaluate(&Assertion::Error("XPST0003".to_string()), &err).is_pass());
    assert!(evaluate(&Assertion::Error("*".to_string()), &err).is_pass());
    let ok: Result<ResultSequence, Error> = Ok(three_items());
    let out = evaluate(&Assertion::Error("XPST0003".to_string()), &ok);
    assert_eq!(out.message(), Some("Expected error XPST0003, got result: 1 2 3"));
}

#[test]
fn string_value_normalizes_space_on_both_sides() {
    let ok: Result<ResultSequence, Error> = Ok(seq_of(
        vec![ResultItem::Str("a  b".to_string())],
        "a \t b",
    ));
    let norm = Assertion::AssertStringValue { value: " a b ".to_string(), normalize_space: true };
    assert!(evaluate(&norm, &ok).is_pass());
    let strict = Assertion::AssertStringValue {
        value: " a b ".to_string(),
        normalize_space: false,
    };
    assert!(evaluate(&strict, &ok).is_fail());
}

#[test]
fn xml_assertion_accepts_containment() {
    let ok: Result<ResultSequence, Error> = Ok(seq_of(Vec::new(), "<r><a/></r>"));
    let hit = Assertion::AssertXml {
        xml: Some("<a/>".to_string()),
        file: None,
        ignore_prefixes: false,
    };
    assert!(evaluate(&hit, &ok).is_pass());
    let miss = Assertion::AssertXml {
        xml: Some("<b/>".to_string()),
        file: None,
        ignore_prefixes: false,
    };
    assert!(evaluate(&miss, &ok).is_fail());
}

#[test]
fn custom_assertion_requires_nonempty_result() {
    let empty: Result<ResultSequence, Error> = Ok(seq_of(Vec::new(), ""));
    let a = Assertion::Assert("$result gt 0".to_string());
    let out = evaluate(&a, &empty);
    assert_eq!(
        out.message(),
        Some("Custom assertion '$result gt 0' with empty result")
    );
    let full: Result<ResultSequence, Error> = Ok(three_items());
    assert!(evaluate(&a, &full).is_pass());
}

#[test]
fn engine_error_messages_carry_the_variant() {
    let err: Result<ResultSequence, Error> = Err(Error::ParseError("bad".to_string()));
    let out = evaluate(&Assertion::AssertCount(1), &err);
    assert_eq!(
        out.message(),
        Some("Expected count, got error: XML parsing error: bad")
    );
    let err2: Result<ResultSequence, Error> = Err(Error::Unsupported);
    let out2 = evaluate(&Assertion::AssertEq("x".to_string()), &err2);
    assert_eq!(
        out2.message(),
        Some("Expected value, got error: Operation not supported by this engine")
    );
}

#[test]
fn serialization_matches_is_not_applicable() {
    let ok: Result<ResultSequence, Error> = Ok(three_items());
    let a = Assertion::SerializationMatches { regex: Some(".*".to_string()), file: None, flags: None };
    let out = evaluate(&a, &ok);
    assert_eq!(out.as_str(), "n/a");
}
