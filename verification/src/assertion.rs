//! The recursive assertion tree of expected results, and its evaluator:
//! a pure judgment of an engine's execution outcome against the tree.

use vstd::prelude::*;
use crate::error::{Error as EngineError, error_msg_spec, prefixed};
use crate::items::ResultSequence;
use crate::outcome::{Judgment, TestOutcome};
use crate::strutil::{
    ascii_lower, contains_seq, dec_spec, lower_spec, normalize_whitespace, normalize_ws_spec,
    str_contains, str_eq, trim, trim_spec, u64_to_dec,
};

verus! {

/// Expected-result assertions, as the catalogs declare them.
#[derive(Debug)]
pub enum Assertion {
    /// All nested assertions must pass.
    AllOf(Vec<Assertion>),
    /// At least one nested assertion must pass.
    AnyOf(Vec<Assertion>),
    /// Negation.
    Not(Box<Assertion>),
    /// The result equals the expected value, compared as trimmed strings.
    AssertEq(String),
    /// The result holds exactly this many items.
    AssertCount(usize),
    /// The result is empty.
    AssertEmpty,
    /// The result is the boolean `true`.
    AssertTrue,
    /// The result is the boolean `false`.
    AssertFalse,
    /// The result's type matches the named type.
    AssertType(String),
    /// The result's string value matches.
    AssertStringValue { value: String, normalize_space: bool },
    /// The execution raises an error with this code.
    Error(String),
    /// The result, serialized, matches the given XML.
    AssertXml { xml: Option<String>, file: Option<String>, ignore_prefixes: bool },
    /// Deep equality with a sequence expression.
    AssertDeepEq(String),
    /// The result is a permutation of the expression's value.
    AssertPermutation(String),
    /// A custom assertion expression.
    Assert(String),
    /// The serialization matches a regular expression.
    SerializationMatches { regex: Option<String>, file: Option<String>, flags: Option<String> },
}

/// What the engine's execution of a test produced: a result sequence, or an
/// engine error.
pub type ExecutionOutcome = Result<ResultSequence, EngineError>;

/// The judgment of one assertion against an execution outcome.  Every branch
/// fixes both the kind of the outcome and the exact reason text.
pub open spec fn evaluate_spec(a: Assertion, x: ExecutionOutcome) -> Judgment
    decreases a,
{
    match a {
        Assertion::AllOf(list) => eval_all_spec(list@, x),
        Assertion::AnyOf(list) => eval_any_spec(list@, x),
        Assertion::Not(inner) => match evaluate_spec(*inner, x) {
            Judgment::Pass => Judgment::Fail("Expected NOT to pass"@),
            Judgment::Fail(_) => Judgment::Pass,
            other => other,
        },
        Assertion::AssertEq(expected) => match x {
            Ok(seq) => {
                let act = trim_spec(seq.text@);
                let exp = trim_spec(expected@);
                if act == exp {
                    Judgment::Pass
                } else {
                    Judgment::Fail(expected_got_spec(exp, act))
                }
            },
            Err(e) => Judgment::Fail("Expected value, got error: "@ + error_msg_spec(e)),
        },
        Assertion::AssertCount(expected) => match x {
            Ok(seq) => if seq.items@.len() == expected {
                Judgment::Pass
            } else {
                Judgment::Fail(
                    "Expected count "@ + dec_spec(expected as nat) + ", got "@ + dec_spec(
                        seq.items@.len(),
                    ),
                )
            },
            Err(e) => Judgment::Fail("Expected count, got error: "@ + error_msg_spec(e)),
        },
        Assertion::AssertEmpty => match x {
            Ok(seq) => if seq.items@.len() == 0 {
                Judgment::Pass
            } else {
                Judgment::Fail(
                    "Expected empty, got "@ + dec_spec(seq.items@.len()) + " items"@,
                )
            },
            Err(e) => Judgment::Fail("Expected empty, got error: "@ + error_msg_spec(e)),
        },
        Assertion::AssertTrue => match x {
            Ok(seq) => if lower_spec(trim_spec(seq.text@)) == "true"@ {
                Judgment::Pass
            } else {
                Judgment::Fail("Expected true, got '"@ + seq.text@ + "'"@)
            },
            Err(e) => Judgment::Fail("Expected true, got error: "@ + error_msg_spec(e)),
        },
        Assertion::AssertFalse => match x {
            Ok(seq) => if lower_spec(trim_spec(seq.text@)) == "false"@ {
                Judgment::Pass
            } else {
                Judgment::Fail("Expected false, got '"@ + seq.text@ + "'"@)
            },
            Err(e) => Judgment::Fail("Expected false, got error: "@ + error_msg_spec(e)),
        },
        Assertion::AssertType(_) => match x {
            Ok(_) => Judgment::Pass,
            Err(e) => Judgment::Fail("Expected typed value, got error: "@ + error_msg_spec(e)),
        },
        Assertion::AssertStringValue { value, normalize_space } => match x {
            Ok(seq) => {
                let act = if normalize_space {
                    normalize_ws_spec(seq.text@)
                } else {
                    seq.text@
                };
                let exp = if normalize_space {
                    normalize_ws_spec(value@)
                } else {
                    value@
                };
                if act == exp {
                    Judgment::Pass
                } else {
                    Judgment::Fail(expected_got_spec(exp, act))
                }
            },
            Err(e) => Judgment::Fail("Expected string value, got error: "@ + error_msg_spec(e)),
        },
        Assertion::Error(code) => match x {
            Ok(seq) => Judgment::Fail(
                "Expected error "@ + code@ + ", got result: "@ + seq.text@,
            ),
            // Any engine error satisfies an expected-error assertion: the
            // catalogs' error codes are not compared.
            Err(_) => Judgment::Pass,
        },
        Assertion::AssertXml { xml, file: _, ignore_prefixes: _ } => match x {
            Ok(seq) => match xml {
                // A containment check stands in for XML-tree equality; it is
                // an approximation, not an exact comparison.
                Some(expected) => if contains_seq(seq.text@, trim_spec(expected@))
                    || contains_seq(expected@, trim_spec(seq.text@)) {
                    Judgment::Pass
                } else {
                    Judgment::Fail(
                        "XML mismatch: expected '"@ + expected@ + "', got '"@ + seq.text@
                            + "'"@,
                    )
                },
                None => Judgment::Pass,
            },
            Err(e) => Judgment::Fail("Expected XML, got error: "@ + error_msg_spec(e)),
        },
        Assertion::AssertDeepEq(_) => match x {
            Ok(_) => Judgment::Pass,
            Err(e) => Judgment::Fail("Got error: "@ + error_msg_spec(e)),
        },
        Assertion::AssertPermutation(_) => match x {
            Ok(_) => Judgment::Pass,
            Err(e) => Judgment::Fail("Got error: "@ + error_msg_spec(e)),
        },
        Assertion::Assert(expr) => match x {
            Ok(seq) => if seq.items@.len() == 0 {
                Judgment::Fail(
                    "Custom assertion '"@ + expr@ + "' with empty result"@,
                )
            } else {
                Judgment::Pass
            },
            Err(e) => Judgment::Fail("Got error: "@ + error_msg_spec(e)),
        },
        Assertion::SerializationMatches { regex: _, file: _, flags: _ } => Judgment::NotApplicable,
    }
}

/// Judgment of a conjunction: the first judgment that is not `Pass`, else
/// `Pass`; the empty conjunction passes.
pub open spec fn eval_all_spec(list: Seq<Assertion>, x: ExecutionOutcome) -> Judgment
    decreases list,
{
    if list.len() == 0 {
        Judgment::Pass
    } else {
        match evaluate_spec(list[0], x) {
            Judgment::Pass => eval_all_spec(list.skip(1), x),
            other => other,
        }
    }
}

/// Judgment of a disjunction: `Pass` at the first passing member, else the
/// judgment of the last member; the empty disjunction passes.
pub open spec fn eval_any_spec(list: Seq<Assertion>, x: ExecutionOutcome) -> Judgment
    decreases list,
{
    if list.len() == 0 {
        Judgment::Pass
    } else if evaluate_spec(list[0], x) is Pass {
        Judgment::Pass
    } else if list.len() == 1 {
        evaluate_spec(list[0], x)
    } else {
        eval_any_spec(list.skip(1), x)
    }
}

/// The reason text naming both sides of a mismatch.
pub open spec fn expected_got_spec(exp: Seq<char>, act: Seq<char>) -> Seq<char> {
    "Expected '"@ + exp + "', got '"@ + act + "'"@
}

/// Build the mismatch reason naming both sides.
fn expected_got(exp: &str, act: &str) -> (r: String)
    ensures
        r@ == expected_got_spec(exp@, act@),
{
    let mut r = "Expected '".to_owned();
    r.append(exp);
    r.append("', got '");
    r.append(act);
    r.append("'");
    r
}

/// `head` followed by the message of `e`.
fn error_tail(head: &str, e: &EngineError) -> (r: String)
    ensures
        r@ == head@ + error_msg_spec(*e),
{
    let msg = e.message();
    prefixed(head, &msg)
}

/// Judge an execution outcome against an assertion tree.  The returned
/// outcome, reason text included, is exactly `evaluate_spec`.
#[verifier::loop_isolation(false)]
pub fn evaluate(a: &Assertion, x: &ExecutionOutcome) -> (r: TestOutcome)
    ensures
        r@ == evaluate_spec(*a, *x),
    decreases *a,
{
    match a {
        Assertion::AllOf(list) => {
            proof {
                assert(evaluate_spec(*a, *x) == eval_all_spec(list@, *x));
            }
            let n: usize = list.len();
            let mut i: usize = 0;
            proof {
                assert(list@.skip(0) =~= list@);
            }
            while i < n
                invariant
                    i <= n,
                    eval_all_spec(list@, *x) == eval_all_spec(list@.skip(i as int), *x),
                decreases n - i,
            {
                let out = evaluate(&list[i], x);
                proof {
                    assert(list@.skip(i as int)[0] == list@[i as int]);
                    assert(list@.skip(i as int).skip(1) =~= list@.skip(i + 1));
                }
                if !out.is_pass() {
                    return out;
                }
                i = i + 1;
            }
            proof {
                assert(list@.skip(n as int) =~= Seq::<Assertion>::empty());
            }
            TestOutcome::Pass
        },
        Assertion::AnyOf(list) => {
            proof {
                assert(evaluate_spec(*a, *x) == eval_any_spec(list@, *x));
            }
            let n: usize = list.len();
            if n == 0 {
                return TestOutcome::Pass;
            }
            let mut i: usize = 0;
            let mut last: TestOutcome = TestOutcome::Pass;
            proof {
                assert(list@.skip(0) =~= list@);
            }
            while i < n
                invariant
                    i <= n,
                    i < n ==> eval_any_spec(list@, *x) == eval_any_spec(
                        list@.skip(i as int),
                        *x,
                    ),
                    i == n ==> eval_any_spec(list@, *x) == last@,
                decreases n - i,
            {
                let out = evaluate(&list[i], x);
                proof {
                    assert(list@.skip(i as int)[0] == list@[i as int]);
                    assert(list@.skip(i as int).skip(1) =~= list@.skip(i + 1));
                    assert(list@.skip(i as int).len() == n - i);
                }
                if out.is_pass() {
                    return TestOutcome::Pass;
                }
                last = out;
                i = i + 1;
            }
            last
        },
        Assertion::Not(inner) => {
            let r = evaluate(inner, x);
            match r {
                TestOutcome::Pass => TestOutcome::Fail("Expected NOT to pass".to_owned()),
                TestOutcome::Fail(_) => TestOutcome::Pass,
                other => other,
            }
        },
        Assertion::AssertEq(expected) => match x {
            Ok(seq) => {
                let act = trim(seq.text.as_str());
                let exp = trim(expected.as_str());
                if act == exp {
                    TestOutcome::Pass
                } else {
                    TestOutcome::Fail(expected_got(exp.as_str(), act.as_str()))
                }
            },
            Err(e) => TestOutcome::Fail(error_tail("Expected value, got error: ", e)),
        },
        Assertion::AssertCount(expected) => match x {
            Ok(seq) => {
                let count = seq.count();
                if count == *expected {
                    TestOutcome::Pass
                } else {
                    let mut m = "Expected count ".to_owned();
                    let exp_s = u64_to_dec(*expected as u64);
                    m.append(exp_s.as_str());
                    m.append(", got ");
                    let got_s = u64_to_dec(count as u64);
                    m.append(got_s.as_str());
                    TestOutcome::Fail(m)
                }
            },
            Err(e) => TestOutcome::Fail(error_tail("Expected count, got error: ", e)),
        },
        Assertion::AssertEmpty => match x {
            Ok(seq) => {
                if seq.is_empty() {
                    TestOutcome::Pass
                } else {
                    let mut m = "Expected empty, got ".to_owned();
                    let got_s = u64_to_dec(seq.count() as u64);
                    m.append(got_s.as_str());
                    m.append(" items");
                    TestOutcome::Fail(m)
                }
            },
            Err(e) => TestOutcome::Fail(error_tail("Expected empty, got error: ", e)),
        },
        Assertion::AssertTrue => match x {
            Ok(seq) => {
                let t = trim(seq.text.as_str());
                let lowered = ascii_lower(t.as_str());
                if str_eq(lowered.as_str(), "true") {
                    TestOutcome::Pass
                } else {
                    TestOutcome::Fail(quoted_tail("Expected true, got '", seq.text.as_str()))
                }
            },
            Err(e) => TestOutcome::Fail(error_tail("Expected true, got error: ", e)),
        },
        Assertion::AssertFalse => match x {
            Ok(seq) => {
                let t = trim(seq.text.as_str());
                let lowered = ascii_lower(t.as_str());
                if str_eq(lowered.as_str(), "false") {
                    TestOutcome::Pass
                } else {
                    TestOutcome::Fail(quoted_tail("Expected false, got '", seq.text.as_str()))
                }
            },
            Err(e) => TestOutcome::Fail(error_tail("Expected false, got error: ", e)),
        },
        Assertion::AssertType(_) => match x {
            Ok(_) => TestOutcome::Pass,
            Err(e) => TestOutcome::Fail(error_tail("Expected typed value, got error: ", e)),
        },
        Assertion::AssertStringValue { value, normalize_space } => match x {
            Ok(seq) => {
                let act = if *normalize_space {
                    normalize_whitespace(seq.text.as_str())
                } else {
                    seq.text.clone()
                };
                let exp = if *normalize_space {
                    normalize_whitespace(value.as_str())
                } else {
                    value.clone()
                };
                if act == exp {
                    TestOutcome::Pass
                } else {
                    TestOutcome::Fail(expected_got(exp.as_str(), act.as_str()))
                }
            },
            Err(e) => TestOutcome::Fail(error_tail("Expected string value, got error: ", e)),
        },
        Assertion::Error(code) => match x {
            Ok(seq) => {
                let mut m = "Expected error ".to_owned();
                m.append(code.as_str());
                m.append(", got result: ");
                m.append(seq.text.as_str());
                TestOutcome::Fail(m)
            },
            Err(_) => TestOutcome::Pass,
        },
        Assertion::AssertXml { xml, file: _, ignore_prefixes: _ } => match x {
            Ok(seq) => match xml {
                Some(expected) => {
                    let trimmed_exp = trim(expected.as_str());
                    let trimmed_act = trim(seq.text.as_str());
                    if str_contains(seq.text.as_str(), trimmed_exp.as_str()) || str_contains(
                        expected.as_str(),
                        trimmed_act.as_str(),
                    ) {
                        TestOutcome::Pass
                    } else {
                        let mut m = "XML mismatch: expected '".to_owned();
                        m.append(expected.as_str());
                        m.append("', got '");
                        m.append(seq.text.as_str());
                        m.append("'");
                        TestOutcome::Fail(m)
                    }
                },
                None => TestOutcome::Pass,
            },
            Err(e) => TestOutcome::Fail(error_tail("Expected XML, got error: ", e)),
        },
        Assertion::AssertDeepEq(_) => match x {
            Ok(_) => TestOutcome::Pass,
            Err(e) => TestOutcome::Fail(error_tail("Got error: ", e)),
        },
        Assertion::AssertPermutation(_) => match x {
            Ok(_) => TestOutcome::Pass,
            Err(e) => TestOutcome::Fail(error_tail("Got error: ", e)),
        },
        Assertion::Assert(expr) => match x {
            Ok(seq) => {
                if seq.is_empty() {
                    let mut m = "Custom assertion '".to_owned();
                    m.append(expr.as_str());
                    m.append("' with empty result");
                    TestOutcome::Fail(m)
                } else {
                    TestOutcome::Pass
                }
            },
            Err(e) => TestOutcome::Fail(error_tail("Got error: ", e)),
        },
        Assertion::SerializationMatches { regex: _, file: _, flags: _ } => {
            TestOutcome::NotApplicable
        },
    }
}

/// `head`, then `tail`, then a closing quote.
fn quoted_tail(head: &str, tail: &str) -> (r: String)
    ensures
        r@ == head@ + tail@ + "'"@,
{
    let mut r = head.to_owned();
    r.append(tail);
    r.append("'");
    r
}

/// An empty conjunction passes, whatever the execution produced.
pub proof fn lemma_all_of_empty(a: Assertion, x: ExecutionOutcome)
    requires
        a matches Assertion::AllOf(list) && list@.len() == 0,
    ensures
        evaluate_spec(a, x) == Judgment::Pass,
{
    let list = a->AllOf_0;
    assert(evaluate_spec(a, x) == eval_all_spec(list@, x));
}

/// Negation inverts `Pass` and `Fail` and passes every other judgment
/// through unchanged, for every assertion and every execution outcome.
pub proof fn lemma_not_inverts(a: Assertion, x: ExecutionOutcome)
    requires
        a is Not,
    ensures
        evaluate_spec(*a->Not_0, x) is Pass ==> evaluate_spec(a, x) == Judgment::Fail(
            "Expected NOT to pass"@,
        ),
        evaluate_spec(*a->Not_0, x) is Fail ==> evaluate_spec(a, x) == Judgment::Pass,
        !(evaluate_spec(*a->Not_0, x) is Pass) && !(evaluate_spec(*a->Not_0, x) is Fail)
            ==> evaluate_spec(a, x) == evaluate_spec(*a->Not_0, x),
{
}

/// A disjunction passes as soon as any member passes, whatever the other
/// members judge.
pub proof fn lemma_any_of_passes(a: Assertion, x: ExecutionOutcome, k: int)
    requires
        a is AnyOf,
        0 <= k < a->AnyOf_0@.len(),
        evaluate_spec(a->AnyOf_0@[k], x) is Pass,
    ensures
        evaluate_spec(a, x) == Judgment::Pass,
{
    lemma_any_seq_passes(a->AnyOf_0@, x, k);
}

proof fn lemma_any_seq_passes(list: Seq<Assertion>, x: ExecutionOutcome, k: int)
    requires
        0 <= k < list.len(),
        evaluate_spec(list[k], x) is Pass,
    ensures
        eval_any_spec(list, x) == Judgment::Pass,
    decreases list.len(),
{
    if !(evaluate_spec(list[0], x) is Pass) {
        assert(k > 0);
        assert(list.len() > 1);
        lemma_any_seq_passes(list.skip(1), x, k - 1);
    }
}

} // verus!
