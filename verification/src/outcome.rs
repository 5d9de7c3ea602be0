//! Outcomes of single test cases and the record kept for each run.

use vstd::prelude::*;

verus! {

/// Outcome of a test.
#[derive(Debug, Clone)]
pub enum TestOutcome {
    /// Test passed.
    Pass,
    /// Test failed, with the reason.
    Fail(String),
    /// Test errored, with the reason.
    Error(String),
    /// Test not applicable: the engine does not support a required capability.
    NotApplicable,
    /// Test was skipped.
    Skipped,
}

/// The mathematical image of a [`TestOutcome`]: the same five cases, with
/// reasons as character sequences.
pub enum Judgment {
    Pass,
    Fail(Seq<char>),
    Error(Seq<char>),
    NotApplicable,
    Skipped,
}

impl View for TestOutcome {
    type V = Judgment;

    open spec fn view(&self) -> Judgment {
        match self {
            TestOutcome::Pass => Judgment::Pass,
            TestOutcome::Fail(m) => Judgment::Fail(m@),
            TestOutcome::Error(m) => Judgment::Error(m@),
            TestOutcome::NotApplicable => Judgment::NotApplicable,
            TestOutcome::Skipped => Judgment::Skipped,
        }
    }
}

impl Judgment {
    /// The short tag of each case, as the reports print it.
    pub open spec fn tag(self) -> Seq<char> {
        match self {
            Judgment::Pass => "pass"@,
            Judgment::Fail(_) => "fail"@,
            Judgment::Error(_) => "error"@,
            Judgment::NotApplicable => "n/a"@,
            Judgment::Skipped => "skipped"@,
        }
    }

    /// The reason attached to a failure or an error, if any.
    pub open spec fn message(self) -> Option<Seq<char>> {
        match self {
            Judgment::Fail(m) => Some(m),
            Judgment::Error(m) => Some(m),
            _ => None,
        }
    }
}

impl TestOutcome {
    /// Whether this outcome is `Pass`.
    pub fn is_pass(&self) -> (r: bool)
        ensures
            r == (self@ is Pass),
    {
        matches!(self, TestOutcome::Pass)
    }

    /// Whether this outcome is `Fail`.
    pub fn is_fail(&self) -> (r: bool)
        ensures
            r == (self@ is Fail),
    {
        matches!(self, TestOutcome::Fail(_))
    }

    /// Whether this outcome is `Error`.
    pub fn is_error(&self) -> (r: bool)
        ensures
            r == (self@ is Error),
    {
        matches!(self, TestOutcome::Error(_))
    }

    /// The short tag used in CSV and table output.
    pub fn as_str(&self) -> (r: &str)
        ensures
            r@ == self@.tag(),
    {
        match self {
            TestOutcome::Pass => "pass",
            TestOutcome::Fail(_) => "fail",
            TestOutcome::Error(_) => "error",
            TestOutcome::NotApplicable => "n/a",
            TestOutcome::Skipped => "skipped",
        }
    }

    /// The reason carried by a failing or erroring outcome.
    pub fn message(&self) -> (r: Option<&str>)
        ensures
            match r {
                Some(m) => self@.message() == Some(m@),
                None => self@.message() is None,
            },
    {
        match self {
            TestOutcome::Fail(msg) => Some(msg.as_str()),
            TestOutcome::Error(msg) => Some(msg.as_str()),
            _ => None,
        }
    }
}

/// Result of running a single test.
#[derive(Debug, Clone)]
pub struct TestResult {
    /// Test identifier, unique within its test set.
    pub test_id: String,
    /// Name of the owning test set.
    pub test_set: String,
    /// Name of the suite the test set belongs to.
    pub test_suite: String,
    /// Human-readable description of the test.
    pub description: Option<String>,
    /// Outcome of the test.
    pub outcome: TestOutcome,
    /// Expected result, where one was recorded.
    pub expected: Option<String>,
    /// Actual result, where one was recorded.
    pub actual: Option<String>,
    /// Wall-clock duration of the execution, in milliseconds.
    pub duration_ms: u64,
}

impl TestResult {
    /// Create a new test result with all metadata; the expected and actual
    /// values start out absent.
    pub fn new(
        test_id: &str,
        test_set: &str,
        test_suite: &str,
        description: Option<String>,
        outcome: TestOutcome,
        duration_ms: u64,
    ) -> (r: TestResult)
        ensures
            r.test_id@ == test_id@,
            r.test_set@ == test_set@,
            r.test_suite@ == test_suite@,
            r.description == description,
            r.outcome == outcome,
            r.expected is None,
            r.actual is None,
            r.duration_ms == duration_ms,
    {
        TestResult {
            test_id: test_id.to_owned(),
            test_set: test_set.to_owned(),
            test_suite: test_suite.to_owned(),
            description,
            outcome,
            expected: None,
            actual: None,
            duration_ms,
        }
    }

    /// The same result with the expected and actual values set.
    pub fn with_values(self, expected: Option<String>, actual: Option<String>) -> (r: TestResult)
        ensures
            r == (TestResult { expected, actual, ..self }),
    {
        TestResult { expected, actual, ..self }
    }
}

} // verus!

verus! {

use crate::error::{error_msg_spec, prefixed, Error};

/// An error outcome whose reason is `prefix` followed by the engine error's
/// message.
pub fn error_outcome(prefix: &str, e: &Error) -> (r: TestOutcome)
    ensures
        r@ == Judgment::Error(prefix@ + error_msg_spec(*e)),
{
    let msg = e.message();
    TestOutcome::Error(prefixed(prefix, &msg))
}

/// The outcome recorded when an engine crashes rather than returning: an
/// error naming the fault, so one pathological test cannot abort the batch.
pub fn fault_outcome(detail: &str) -> (r: TestOutcome)
    ensures
        r@ == Judgment::Error("engine fault: "@ + detail@),
{
    let owned = detail.to_owned();
    TestOutcome::Error(prefixed("engine fault: ", &owned))
}

} // verus!
