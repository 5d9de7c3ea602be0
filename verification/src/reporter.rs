//! Compliance reports: aggregation of test results into counts, and their
//! rendering as plain text tables, CSV, JSON and Markdown.

use vstd::prelude::*;
use crate::outcome::{Judgment, TestOutcome, TestResult};
use crate::strutil::{all_digits, chars_to_string, dec_spec, digits_value, str_chars, u64_to_dec};

verus! {

/// The five outcome kinds, without their reasons.
#[derive(Debug, Clone, Copy, PartialEq, Eq, Structural)]
pub enum OutcomeKind {
    Pass,
    Fail,
    Error,
    NotApplicable,
    Skipped,
}

/// The kind of a judgment.
pub open spec fn kind_of(j: Judgment) -> OutcomeKind {
    match j {
        Judgment::Pass => OutcomeKind::Pass,
        Judgment::Fail(_) => OutcomeKind::Fail,
        Judgment::Error(_) => OutcomeKind::Error,
        Judgment::NotApplicable => OutcomeKind::NotApplicable,
        Judgment::Skipped => OutcomeKind::Skipped,
    }
}

/// How many of the first `i` results have this outcome kind.
pub open spec fn count_upto(rs: Seq<TestResult>, i: int, k: OutcomeKind) -> nat
    decreases i,
{
    if i <= 0 {
        0
    } else {
        count_upto(rs, i - 1, k) + (if kind_of(rs[i - 1].outcome@) == k {
            1nat
        } else {
            0nat
        })
    }
}

/// How many results have this outcome kind.
pub open spec fn count_kind(rs: Seq<TestResult>, k: OutcomeKind) -> nat {
    count_upto(rs, rs.len() as int, k)
}

/// Summary of a run: the outcome counts and the pass rate over the
/// applicable tests, in hundredths of a percent.
#[derive(Debug, Clone)]
pub struct ComplianceSummary {
    pub total: usize,
    pub passed: usize,
    pub failed: usize,
    pub errors: usize,
    pub not_applicable: usize,
    pub skipped: usize,
    /// `passed / (total - not_applicable - skipped)`, in hundredths of a
    /// percent; zero where no test was applicable.
    pub pass_rate_centi: u64,
}

/// The pass rate in hundredths of a percent: passed over applicable, or zero
/// where nothing was applicable.
pub open spec fn pass_rate_centi_spec(passed: nat, applicable: nat) -> nat {
    if applicable > 0 {
        passed * 10000 / applicable
    } else {
        0
    }
}

impl ComplianceSummary {
    /// Aggregate a list of results: every result is counted under exactly
    /// one kind, the applicable count leaves out the not-applicable and
    /// skipped tests, and the pass rate is passed over applicable.
    pub fn from_results(results: &Vec<TestResult>) -> (r: ComplianceSummary)
        ensures
            r.total == results@.len(),
            r.passed == count_kind(results@, OutcomeKind::Pass),
            r.failed == count_kind(results@, OutcomeKind::Fail),
            r.errors == count_kind(results@, OutcomeKind::Error),
            r.not_applicable == count_kind(results@, OutcomeKind::NotApplicable),
            r.skipped == count_kind(results@, OutcomeKind::Skipped),
            r.passed + r.failed + r.errors + r.not_applicable + r.skipped == r.total,
            r.pass_rate_centi == pass_rate_centi_spec(
                r.passed as nat,
                (r.total - r.not_applicable - r.skipped) as nat,
            ),
    {
        let n: usize = results.len();
        let mut passed: usize = 0;
        let mut failed: usize = 0;
        let mut errors: usize = 0;
        let mut not_applicable: usize = 0;
        let mut skipped: usize = 0;
        let mut i: usize = 0;
        while i < n
            invariant
                i <= n,
                n == results@.len(),
                passed == count_upto(results@, i as int, OutcomeKind::Pass),
                failed == count_upto(results@, i as int, OutcomeKind::Fail),
                errors == count_upto(results@, i as int, OutcomeKind::Error),
                not_applicable == count_upto(results@, i as int, OutcomeKind::NotApplicable),
                skipped == count_upto(results@, i as int, OutcomeKind::Skipped),
                passed + failed + errors + not_applicable + skipped == i,
            decreases n - i,
        {
            match &results[i].outcome {
                TestOutcome::Pass => {
                    passed = passed + 1;
                },
                TestOutcome::Fail(_) => {
                    failed = failed + 1;
                },
                TestOutcome::Error(_) => {
                    errors = errors + 1;
                },
                TestOutcome::NotApplicable => {
                    not_applicable = not_applicable + 1;
                },
                TestOutcome::Skipped => {
                    skipped = skipped + 1;
                },
            }
            i = i + 1;
        }
        let applicable: usize = n - not_applicable - skipped;
        let pass_rate_centi: u64 = if applicable > 0 {
            let wide: u128 = (passed as u128) * 10000 / (applicable as u128);
            proof {
                assert(passed <= applicable);
                crate::reporter::lemma_rate_bounded(passed as nat, applicable as nat);
            }
            wide as u64
        } else {
            0
        };
        ComplianceSummary {
            total: n,
            passed,
            failed,
            errors,
            not_applicable,
            skipped,
            pass_rate_centi,
        }
    }
}

/// A ratio of at most one is at most ten thousand in hundredths of a percent.
pub proof fn lemma_rate_bounded(passed: nat, applicable: nat)
    requires
        0 < applicable,
        passed <= applicable,
    ensures
        passed * 10000 / applicable <= 10000,
{
    assert(passed * 10000 <= applicable * 10000) by (nonlinear_arith)
        requires
            passed <= applicable,
    ;
    assert(applicable * 10000 / applicable == 10000) by (nonlinear_arith)
        requires
            0 < applicable,
    ;
    assert(passed * 10000 / applicable <= applicable * 10000 / applicable) by (nonlinear_arith)
        requires
            0 < applicable,
            passed * 10000 <= applicable * 10000,
    ;
}

/// One test result as a report row, with all metadata rendered to text.
#[derive(Debug, Clone)]
pub struct DetailedTestResult {
    pub test_id: String,
    pub test_set: String,
    pub test_suite: String,
    pub description: Option<String>,
    pub outcome: String,
    pub message: Option<String>,
    pub expected: Option<String>,
    pub actual: Option<String>,
    pub duration_ms: u64,
}

/// How one result renders as a report row: every field carried over, the
/// outcome as its short tag, and the reason, where there is one, as the
/// message.
pub open spec fn row_renders(d: DetailedTestResult, r: TestResult) -> bool {
    &&& d.test_id@ == r.test_id@
    &&& d.test_set@ == r.test_set@
    &&& d.test_suite@ == r.test_suite@
    &&& d.description == r.description
    &&& d.outcome@ == r.outcome@.tag()
    &&& (match d.message {
        Some(m) => r.outcome@.message() == Some(m@),
        None => r.outcome@.message() is None,
    })
    &&& d.expected == r.expected
    &&& d.actual == r.actual
    &&& d.duration_ms == r.duration_ms
}

impl DetailedTestResult {
    /// Render one result as a report row: the outcome becomes its short tag
    /// and the reason, where there is one, becomes the message.
    pub fn from_result(r: &TestResult) -> (d: DetailedTestResult)
        ensures
            row_renders(d, *r),
    {
        let message: Option<String> = match &r.outcome {
            TestOutcome::Fail(m) => Some(m.clone()),
            TestOutcome::Error(m) => Some(m.clone()),
            _ => None,
        };
        DetailedTestResult {
            test_id: r.test_id.clone(),
            test_set: r.test_set.clone(),
            test_suite: r.test_suite.clone(),
            description: r.description.clone(),
            outcome: r.outcome.as_str().to_owned(),
            message,
            expected: r.expected.clone(),
            actual: r.actual.clone(),
            duration_ms: r.duration_ms,
        }
    }
}

/// The longer tag the summary rows use for a not-applicable outcome.
pub open spec fn summary_tag(j: Judgment) -> Seq<char> {
    match j {
        Judgment::Pass => "pass"@,
        Judgment::Fail(_) => "fail"@,
        Judgment::Error(_) => "error"@,
        Judgment::NotApplicable => "not_applicable"@,
        Judgment::Skipped => "skipped"@,
    }
}

/// A compact per-test row, for callers that keep no metadata.
#[derive(Debug, Clone)]
pub struct TestResultSummary {
    pub test_id: String,
    pub outcome: String,
    pub message: Option<String>,
    pub duration_ms: u64,
}

impl TestResultSummary {
    /// Render one result as a compact row.
    pub fn from_result(r: &TestResult) -> (d: TestResultSummary)
        ensures
            d.test_id@ == r.test_id@,
            d.outcome@ == summary_tag(r.outcome@),
            (match d.message {
                Some(m) => r.outcome@.message() == Some(m@),
                None => r.outcome@.message() is None,
            }),
            d.duration_ms == r.duration_ms,
    {
        let (outcome, message): (String, Option<String>) = match &r.outcome {
            TestOutcome::Pass => ("pass".to_owned(), None),
            TestOutcome::Fail(m) => ("fail".to_owned(), Some(m.clone())),
            TestOutcome::Error(m) => ("error".to_owned(), Some(m.clone())),
            TestOutcome::NotApplicable => ("not_applicable".to_owned(), None),
            TestOutcome::Skipped => ("skipped".to_owned(), None),
        };
        TestResultSummary { test_id: r.test_id.clone(), outcome, message, duration_ms: r.duration_ms }
    }
}

/// Relies on `chrono::Utc::now`: the current time, formatted as
/// `YYYY-MM-DD HH:MM:SS UTC`.  Nothing is assumed of the value: it depends on
/// the clock.
#[verifier::external_body]
pub(crate) fn now_utc_string() -> (r: String) {
    chrono::Utc::now().format("%Y-%m-%d %H:%M:%S UTC").to_string()
}

/// A compliance report for one engine over one suite.
#[derive(Debug, Clone)]
pub struct ComplianceReport {
    pub engine: String,
    /// The wall-clock time the report was created, as text.
    pub timestamp: String,
    pub suite: String,
    pub summary: ComplianceSummary,
    pub results: Vec<DetailedTestResult>,
}

impl ComplianceReport {
    /// Build a report: aggregate the results and keep one rendered row per
    /// result, in order.  The timestamp is read from the clock.
    pub fn new(engine: &str, suite: &str, results: Vec<TestResult>) -> (r: ComplianceReport)
        ensures
            r.engine@ == engine@,
            r.suite@ == suite@,
            r.summary.total == results@.len(),
            r.summary.passed == count_kind(results@, OutcomeKind::Pass),
            r.summary.failed == count_kind(results@, OutcomeKind::Fail),
            r.summary.errors == count_kind(results@, OutcomeKind::Error),
            r.summary.not_applicable == count_kind(results@, OutcomeKind::NotApplicable),
            r.summary.skipped == count_kind(results@, OutcomeKind::Skipped),
            r.summary.pass_rate_centi == pass_rate_centi_spec(
                r.summary.passed as nat,
                (r.summary.total - r.summary.not_applicable - r.summary.skipped) as nat,
            ),
            r.results@.len() == results@.len(),
            forall|k: int|
                0 <= k < results@.len() ==> row_renders(#[trigger] r.results@[k], results@[k]),
    {
        let summary = ComplianceSummary::from_results(&results);
        let n: usize = results.len();
        let mut detailed: Vec<DetailedTestResult> = Vec::new();
        let mut i: usize = 0;
        while i < n
            invariant
                i <= n,
                n == results@.len(),
                detailed@.len() == i,
                forall|k: int| 0 <= k < i ==> row_renders(#[trigger] detailed@[k], results@[k]),
            decreases n - i,
        {
            let d = DetailedTestResult::from_result(&results[i]);
            detailed.push(d);
            i = i + 1;
        }
        ComplianceReport {
            engine: engine.to_owned(),
            timestamp: now_utc_string(),
            suite: suite.to_owned(),
            summary,
            results: detailed,
        }
    }
}

/// The pass rate as `NN.NN`: the whole percent, a point, and two digits.
pub open spec fn rate_text_spec(centi: nat) -> Seq<char> {
    dec_spec(centi / 100) + seq!['.'] + seq![
        crate::strutil::digit_char((centi % 100) / 10),
        crate::strutil::digit_char(centi % 10),
    ]
}

/// Render a pass rate in hundredths of a percent as `NN.NN`.
pub fn rate_text(centi: u64) -> (r: String)
    ensures
        r@ == rate_text_spec(centi as nat),
{
    let mut out = u64_to_dec(centi / 100);
    let mut tail: Vec<char> = Vec::new();
    tail.push('.');
    tail.push((((centi % 100) / 10 + 48) as u8) as char);
    tail.push(((centi % 10 + 48) as u8) as char);
    let tail_s = chars_to_string(&tail);
    out.append(tail_s.as_str());
    proof {
        assert(out@ =~= rate_text_spec(centi as nat));
    }
    out
}

} // verus!

verus! {

/// CSV escaping: each double quote is doubled.
pub open spec fn csv_esc_spec(s: Seq<char>) -> Seq<char>
    decreases s.len(),
{
    if s.len() == 0 {
        Seq::empty()
    } else {
        (if s[0] == '"' {
            seq!['"', '"']
        } else {
            seq![s[0]]
        }) + csv_esc_spec(s.skip(1))
    }
}

/// Escape a CSV field.
pub fn csv_esc(s: &str) -> (r: String)
    ensures
        r@ == csv_esc_spec(s@),
{
    let chars = str_chars(s);
    let n: usize = chars.len();
    let mut out: Vec<char> = Vec::new();
    let mut i: usize = 0;
    proof {
        assert(s@.skip(0) =~= s@);
    }
    while i < n
        invariant
            i <= n,
            n == s@.len(),
            chars@ == s@,
            csv_esc_spec(s@) == out@ + csv_esc_spec(s@.skip(i as int)),
        decreases n - i,
    {
        proof {
            assert(s@.skip(i as int)[0] == s@[i as int]);
            assert(s@.skip(i as int).skip(1) =~= s@.skip(i + 1));
        }
        let c = chars[i];
        if c == '"' {
            out.push('"');
            out.push('"');
        } else {
            out.push(c);
        }
        i = i + 1;
    }
    proof {
        assert(s@.skip(n as int) =~= Seq::<char>::empty());
        assert(out@ =~= csv_esc_spec(s@));
    }
    chars_to_string(&out)
}

/// JSON string escaping: backslash and quote are escaped, and newline, tab
/// and carriage return become their two-character escapes.
pub open spec fn json_esc_spec(s: Seq<char>) -> Seq<char>
    decreases s.len(),
{
    if s.len() == 0 {
        Seq::empty()
    } else {
        (if s[0] == '\\' {
            seq!['\\', '\\']
        } else if s[0] == '"' {
            seq!['\\', '"']
        } else if s[0] == '\n' {
            seq!['\\', 'n']
        } else if s[0] == '\t' {
            seq!['\\', 't']
        } else if s[0] == '\r' {
            seq!['\\', 'r']
        } else {
            seq![s[0]]
        }) + json_esc_spec(s.skip(1))
    }
}

/// Escape a JSON string body.
pub fn json_esc(s: &str) -> (r: String)
    ensures
        r@ == json_esc_spec(s@),
{
    let chars = str_chars(s);
    let n: usize = chars.len();
    let mut out: Vec<char> = Vec::new();
    let mut i: usize = 0;
    proof {
        assert(s@.skip(0) =~= s@);
    }
    while i < n
        invariant
            i <= n,
            n == s@.len(),
            chars@ == s@,
            json_esc_spec(s@) == out@ + json_esc_spec(s@.skip(i as int)),
        decreases n - i,
    {
        proof {
            assert(s@.skip(i as int)[0] == s@[i as int]);
            assert(s@.skip(i as int).skip(1) =~= s@.skip(i + 1));
        }
        let c = chars[i];
        if c == '\\' {
            out.push('\\');
            out.push('\\');
        } else if c == '"' {
            out.push('\\');
            out.push('"');
        } else if c == '\n' {
            out.push('\\');
            out.push('n');
        } else if c == '\t' {
            out.push('\\');
            out.push('t');
        } else if c == '\r' {
            out.push('\\');
            out.push('r');
        } else {
            out.push(c);
        }
        i = i + 1;
    }
    proof {
        assert(s@.skip(n as int) =~= Seq::<char>::empty());
        assert(out@ =~= json_esc_spec(s@));
    }
    chars_to_string(&out)
}

/// The JSON rendering of a summary: one object with the six counts and the
/// pass rate.
pub open spec fn summary_json_spec(s: ComplianceSummary) -> Seq<char> {
    "{\"total\": "@ + dec_spec(s.total as nat) + ", \"passed\": "@ + dec_spec(s.passed as nat)
        + ", \"failed\": "@ + dec_spec(s.failed as nat) + ", \"errors\": "@ + dec_spec(
        s.errors as nat,
    ) + ", \"not_applicable\": "@ + dec_spec(s.not_applicable as nat) + ", \"skipped\": "@
        + dec_spec(s.skipped as nat) + ", \"pass_rate\": "@ + rate_text_spec(
        s.pass_rate_centi as nat,
    ) + "}"@
}

/// Render a summary as JSON.
pub fn summary_json(s: &ComplianceSummary) -> (r: String)
    ensures
        r@ == summary_json_spec(*s),
{
    let mut out = "{\"total\": ".to_owned();
    let d1 = u64_to_dec(s.total as u64);
    out.append(d1.as_str());
    out.append(", \"passed\": ");
    let d2 = u64_to_dec(s.passed as u64);
    out.append(d2.as_str());
    out.append(", \"failed\": ");
    let d3 = u64_to_dec(s.failed as u64);
    out.append(d3.as_str());
    out.append(", \"errors\": ");
    let d4 = u64_to_dec(s.errors as u64);
    out.append(d4.as_str());
    out.append(", \"not_applicable\": ");
    let d5 = u64_to_dec(s.not_applicable as u64);
    out.append(d5.as_str());
    out.append(", \"skipped\": ");
    let d6 = u64_to_dec(s.skipped as u64);
    out.append(d6.as_str());
    out.append(", \"pass_rate\": ");
    let d7 = rate_text(s.pass_rate_centi);
    out.append(d7.as_str());
    out.append("}");
    proof {
        assert(out@ =~= summary_json_spec(*s));
    }
    out
}

/// The remainder of `s` after the literal `lit`, where `s` starts with it.
pub open spec fn after_lit(s: Seq<char>, lit: Seq<char>) -> Option<Seq<char>> {
    if lit.len() <= s.len() && s.take(lit.len() as int) == lit {
        Some(s.skip(lit.len() as int))
    } else {
        None
    }
}

/// The length of the longest digit prefix of `s`.
pub open spec fn digit_prefix_len(s: Seq<char>) -> int
    decreases s.len(),
{
    if s.len() > 0 && '0' <= s[0] <= '9' {
        1 + digit_prefix_len(s.skip(1))
    } else {
        0
    }
}

/// The leading number of `s` and what follows it, where `s` starts with a
/// digit.
pub open spec fn read_number(s: Seq<char>) -> Option<(nat, Seq<char>)> {
    let d = digit_prefix_len(s);
    if d > 0 {
        Some((digits_value(s.take(d)), s.skip(d)))
    } else {
        None
    }
}

/// What re-parsing a summary object gives: the six counts, where the text
/// has exactly the rendered shape.
pub open spec fn parse_summary_spec(s: Seq<char>) -> Option<(nat, nat, nat, nat, nat, nat)> {
    match after_lit(s, "{\"total\": "@) {
        None => None,
        Some(s1) => match read_number(s1) {
            None => None,
            Some((total, s2)) => match after_lit(s2, ", \"passed\": "@) {
                None => None,
                Some(s3) => match read_number(s3) {
                    None => None,
                    Some((passed, s4)) => match after_lit(s4, ", \"failed\": "@) {
                        None => None,
                        Some(s5) => match read_number(s5) {
                            None => None,
                            Some((failed, s6)) => match after_lit(s6, ", \"errors\": "@) {
                                None => None,
                                Some(s7) => match read_number(s7) {
                                    None => None,
                                    Some((errors, s8)) => match after_lit(
                                        s8,
                                        ", \"not_applicable\": "@,
                                    ) {
                                        None => None,
                                        Some(s9) => match read_number(s9) {
                                            None => None,
                                            Some((na, s10)) => match after_lit(
                                                s10,
                                                ", \"skipped\": "@,
                                            ) {
                                                None => None,
                                                Some(s11) => match read_number(s11) {
                                                    None => None,
                                                    Some((skipped, s12)) => match after_lit(
                                                        s12,
                                                        ", \"pass_rate\": "@,
                                                    ) {
                                                        None => None,
                                                        Some(_) => Some(
                                                            (total, passed, failed, errors, na, skipped),
                                                        ),
                                                    },
                                                },
                                            },
                                        },
                                    },
                                },
                            },
                        },
                    },
                },
            },
        },
    }
}

/// Splitting a concatenation at the left part gives the right part.
proof fn lemma_after_lit_concat(lit: Seq<char>, rest: Seq<char>)
    ensures
        after_lit(lit + rest, lit) == Some(rest),
{
    assert((lit + rest).take(lit.len() as int) =~= lit);
    assert((lit + rest).skip(lit.len() as int) =~= rest);
}

/// The digit prefix of digits followed by a non-digit is exactly the digits.
proof fn lemma_digit_prefix_concat(d: Seq<char>, rest: Seq<char>)
    requires
        all_digits(d),
        rest.len() > 0,
        !('0' <= rest[0] <= '9'),
    ensures
        digit_prefix_len(d + rest) == d.len(),
    decreases d.len(),
{
    if d.len() == 0 {
        assert(d + rest =~= rest);
    } else {
        lemma_digit_prefix_concat(d.skip(1), rest);
        assert((d + rest).skip(1) =~= d.skip(1) + rest);
        assert((d + rest)[0] == d[0]);
    }
}

/// Reading a rendered number followed by a non-digit gives the number back.
proof fn lemma_read_number_of_dec(n: nat, rest: Seq<char>)
    requires
        rest.len() > 0,
        !('0' <= rest[0] <= '9'),
    ensures
        read_number(dec_spec(n) + rest) == Some((n, rest)),
{
    crate::strutil::lemma_dec_digits(n);
    lemma_digit_prefix_concat(dec_spec(n), rest);
    assert((dec_spec(n) + rest).take(dec_spec(n).len() as int) =~= dec_spec(n));
    assert((dec_spec(n) + rest).skip(dec_spec(n).len() as int) =~= rest);
    crate::strutil::lemma_dec_roundtrip(n);
}

/// Re-parsing a rendered summary reproduces its six counts exactly, for
/// every summary.
pub proof fn lemma_summary_json_roundtrip(s: ComplianceSummary)
    ensures
        parse_summary_spec(summary_json_spec(s)) == Some(
            (
                s.total as nat,
                s.passed as nat,
                s.failed as nat,
                s.errors as nat,
                s.not_applicable as nat,
                s.skipped as nat,
            ),
        ),
{
    reveal_strlit(", \"passed\": ");
    reveal_strlit(", \"failed\": ");
    reveal_strlit(", \"errors\": ");
    reveal_strlit(", \"not_applicable\": ");
    reveal_strlit(", \"skipped\": ");
    reveal_strlit(", \"pass_rate\": ");
    let l1 = "{\"total\": "@;
    let l2 = ", \"passed\": "@;
    let l3 = ", \"failed\": "@;
    let l4 = ", \"errors\": "@;
    let l5 = ", \"not_applicable\": "@;
    let l6 = ", \"skipped\": "@;
    let l7 = ", \"pass_rate\": "@;
    let tail = rate_text_spec(s.pass_rate_centi as nat) + "}"@;
    let r6 = l7 + tail;
    let r5 = dec_spec(s.skipped as nat) + r6;
    let r4 = l6 + r5;
    let r3 = dec_spec(s.not_applicable as nat) + r4;
    let r2 = l5 + r3;
    let r1 = dec_spec(s.errors as nat) + r2;
    let q3 = l4 + r1;
    let q2 = dec_spec(s.failed as nat) + q3;
    let q1 = l3 + q2;
    let p2 = dec_spec(s.passed as nat) + q1;
    let p1 = l2 + p2;
    let p0 = dec_spec(s.total as nat) + p1;
    let whole = l1 + p0;
    assert(summary_json_spec(s) =~= whole);
    lemma_after_lit_concat(l1, p0);
    assert(l2[0] == ',');
    lemma_read_number_of_dec(s.total as nat, p1);
    lemma_after_lit_concat(l2, p2);
    assert(l3[0] == ',');
    lemma_read_number_of_dec(s.passed as nat, q1);
    lemma_after_lit_concat(l3, q2);
    assert(l4[0] == ',');
    lemma_read_number_of_dec(s.failed as nat, q3);
    lemma_after_lit_concat(l4, r1);
    assert(l5[0] == ',');
    lemma_read_number_of_dec(s.errors as nat, r2);
    lemma_after_lit_concat(l5, r3);
    assert(l6[0] == ',');
    lemma_read_number_of_dec(s.not_applicable as nat, r4);
    lemma_after_lit_concat(l6, r5);
    assert(l7[0] == ',');
    lemma_read_number_of_dec(s.skipped as nat, r6);
    lemma_after_lit_concat(l7, tail);
}

} // verus!

verus! {

/// Whether `c` is a decimal digit.
fn is_digit_char(c: char) -> (r: bool)
    ensures
        r == ('0' <= c <= '9'),
{
    '0' <= c && c <= '9'
}

/// Step past `lit` in `chars` at position `at`.
fn expect_lit(chars: &Vec<char>, at: usize, lit: &str) -> (r: Option<usize>)
    requires
        at <= chars@.len(),
    ensures
        match r {
            Some(j) => at <= j <= chars@.len() && after_lit(chars@.skip(at as int), lit@) == Some(
                chars@.skip(j as int),
            ),
            None => after_lit(chars@.skip(at as int), lit@) is None,
        },
{
    let n: usize = chars.len();
    let m: usize = lit.unicode_len();
    if m > n - at {
        proof {
            assert(chars@.skip(at as int).len() == n - at);
        }
        return None;
    }
    let mut k: usize = 0;
    while k < m
        invariant
            k <= m,
            at + m <= n,
            n == chars@.len(),
            m == lit@.len(),
            forall|j: int| 0 <= j < k ==> chars@[at + j] == lit@[j],
        decreases m - k,
    {
        if chars[at + k] != lit.get_char(k) {
            proof {
                assert(chars@.skip(at as int).take(m as int)[k as int] != lit@[k as int]);
            }
            return None;
        }
        k = k + 1;
    }
    proof {
        assert(chars@.skip(at as int).take(m as int) =~= lit@);
        assert(chars@.skip(at as int).skip(m as int) =~= chars@.skip(at + m));
    }
    Some(at + m)
}

/// The digit prefix starting at `i` runs to exactly `j`.
proof fn lemma_digit_prefix_at(s: Seq<char>, j: int)
    requires
        0 <= j <= s.len(),
        forall|k: int| 0 <= k < j ==> '0' <= #[trigger] s[k] <= '9',
        j < s.len() ==> !('0' <= s[j] <= '9'),
    ensures
        digit_prefix_len(s) == j,
    decreases j,
{
    if j == 0 {
    } else {
        lemma_digit_prefix_at(s.skip(1), j - 1);
    }
}

/// Read the number starting at `at` in `chars`.
fn read_num(chars: &Vec<char>, at: usize) -> (r: Option<(u64, usize)>)
    requires
        at <= chars@.len(),
    ensures
        match r {
            Some(p) => read_number(chars@.skip(at as int)) matches Some(q) && q.0 == p.0 as nat
                && at <= p.1 <= chars@.len() && q.1 == chars@.skip(p.1 as int),
            None => read_number(chars@.skip(at as int)) is None || (read_number(
                chars@.skip(at as int),
            ) matches Some(q) && q.0 > u64::MAX),
        },
{
    let ghost s = chars@.skip(at as int);
    let n: usize = chars.len();
    let mut j: usize = at;
    let mut acc: u64 = 0;
    let mut overflow: bool = false;
    while j < n && is_digit_char(chars[j])
        invariant
            at <= j <= n,
            n == chars@.len(),
            s == chars@.skip(at as int),
            forall|k: int| 0 <= k < j - at ==> '0' <= #[trigger] s[k] <= '9',
            !overflow ==> acc as nat == digits_value(s.take(j - at)),
            overflow ==> digits_value(s.take(j - at)) > u64::MAX,
        decreases n - j,
    {
        let c = chars[j];
        let d: u64 = (c as u64) - 48;
        proof {
            assert(s[j - at] == chars@[j as int]);
            lemma_digits_extend(s, j - at);
        }
        if overflow || acc > (u64::MAX - d) / 10 {
            proof {
                if !overflow {
                    assert(digits_value(s.take(j - at + 1)) > u64::MAX);
                }
                lemma_digits_grow(s, j - at + 1);
            }
            overflow = true;
            acc = 0;
        } else {
            acc = acc * 10 + d;
        }
        j = j + 1;
    }
    proof {
        assert(s.len() == n - at);
        lemma_digit_prefix_at(s, j - at);
    }
    if j == at {
        return None;
    }
    if overflow {
        return None;
    }
    proof {
        assert(chars@.skip(at as int).skip(j - at) =~= chars@.skip(j as int));
    }
    Some((acc, j))
}

/// Extending a digit prefix multiplies its value by ten and adds the digit.
proof fn lemma_digits_extend(s: Seq<char>, i: int)
    requires
        0 <= i < s.len(),
        '0' <= s[i] <= '9',
    ensures
        digits_value(s.take(i + 1)) == digits_value(s.take(i)) * 10 + ((s[i] as int) - 48),
{
    assert(s.take(i + 1).take(i) =~= s.take(i));
    assert(s.take(i + 1)[i] == s[i]);
}

/// A digit prefix's value never shrinks as it grows.
proof fn lemma_digits_grow(s: Seq<char>, i: int)
    requires
        0 <= i <= s.len(),
        forall|k: int| 0 <= k < i ==> '0' <= #[trigger] s[k] <= '9',
    ensures
        forall|j: int|
            i <= j <= s.len() && (forall|k: int| 0 <= k < j ==> '0' <= #[trigger] s[k] <= '9')
                ==> digits_value(s.take(i)) <= digits_value(#[trigger] s.take(j)),
{
    assert forall|j: int|
        i <= j <= s.len() && (forall|k: int|
            0 <= k < j ==> '0' <= #[trigger] s[k] <= '9') implies digits_value(s.take(i))
        <= digits_value(#[trigger] s.take(j)) by {
        lemma_digits_monotone(s, i, j);
    }
}

proof fn lemma_digits_monotone(s: Seq<char>, i: int, j: int)
    requires
        0 <= i <= j <= s.len(),
        forall|k: int| 0 <= k < j ==> '0' <= #[trigger] s[k] <= '9',
    ensures
        digits_value(s.take(i)) <= digits_value(s.take(j)),
    decreases j - i,
{
    if i < j {
        lemma_digits_extend(s, i);
        lemma_digits_monotone(s, i + 1, j);
    }
}

/// Re-parse the six counts out of a rendered summary object.
pub fn parse_summary_json(s: &str) -> (r: Option<(u64, u64, u64, u64, u64, u64)>)
    ensures
        match r {
            Some(t) => parse_summary_spec(s@) == Some(
                (
                    t.0 as nat,
                    t.1 as nat,
                    t.2 as nat,
                    t.3 as nat,
                    t.4 as nat,
                    t.5 as nat,
                ),
            ),
            None => parse_summary_spec(s@) is None || (parse_summary_spec(s@) matches Some(t)
                && (t.0 > u64::MAX || t.1 > u64::MAX || t.2 > u64::MAX || t.3 > u64::MAX || t.4
                > u64::MAX || t.5 > u64::MAX)),
        },
{
    let chars = str_chars(s);
    proof {
        assert(chars@.skip(0) =~= s@);
    }
    let j0 = match expect_lit(&chars, 0, "{\"total\": ") {
        Some(j) => j,
        None => {
            return None;
        },
    };
    let (total, j1) = match read_num(&chars, j0) {
        Some(p) => p,
        None => {
            return None;
        },
    };
    let j2 = match expect_lit(&chars, j1, ", \"passed\": ") {
        Some(j) => j,
        None => {
            return None;
        },
    };
    let (passed, j3) = match read_num(&chars, j2) {
        Some(p) => p,
        None => {
            return None;
        },
    };
    let j4 = match expect_lit(&chars, j3, ", \"failed\": ") {
        Some(j) => j,
        None => {
            return None;
        },
    };
    let (failed, j5) = match read_num(&chars, j4) {
        Some(p) => p,
        None => {
            return None;
        },
    };
    let j6 = match expect_lit(&chars, j5, ", \"errors\": ") {
        Some(j) => j,
        None => {
            return None;
        },
    };
    let (errors, j7) = match read_num(&chars, j6) {
        Some(p) => p,
        None => {
            return None;
        },
    };
    let j8 = match expect_lit(&chars, j7, ", \"not_applicable\": ") {
        Some(j) => j,
        None => {
            return None;
        },
    };
    let (na, j9) = match read_num(&chars, j8) {
        Some(p) => p,
        None => {
            return None;
        },
    };
    let j10 = match expect_lit(&chars, j9, ", \"skipped\": ") {
        Some(j) => j,
        None => {
            return None;
        },
    };
    let (skipped, j11) = match read_num(&chars, j10) {
        Some(p) => p,
        None => {
            return None;
        },
    };
    match expect_lit(&chars, j11, ", \"pass_rate\": ") {
        Some(_) => Some((total, passed, failed, errors, na, skipped)),
        None => None,
    }
}

} // verus!

verus! {

/// A JSON string value, or `null`.
pub open spec fn json_opt_spec(v: Option<String>) -> Seq<char> {
    match v {
        Some(s) => seq!['"'] + json_esc_spec(s@) + seq!['"'],
        None => "null"@,
    }
}

/// Render an optional string as a JSON value.
fn json_opt(v: &Option<String>) -> (r: String)
    ensures
        r@ == json_opt_spec(*v),
{
    match v {
        Some(s) => {
            let mut out = "\"".to_owned();
            let body = json_esc(s.as_str());
            out.append(body.as_str());
            out.append("\"");
            proof {
                reveal_strlit("\"");
                assert(out@ =~= json_opt_spec(*v));
            }
            out
        },
        None => "null".to_owned(),
    }
}

/// The JSON rendering of one result row.
pub open spec fn row_json_spec(d: DetailedTestResult) -> Seq<char> {
    "{\"test_id\": \""@ + json_esc_spec(d.test_id@) + "\", \"test_set\": \""@ + json_esc_spec(
        d.test_set@,
    ) + "\", \"test_suite\": \""@ + json_esc_spec(d.test_suite@) + "\", \"description\": "@
        + json_opt_spec(d.description) + ", \"outcome\": \""@ + json_esc_spec(d.outcome@)
        + "\", \"message\": "@ + json_opt_spec(d.message) + ", \"expected\": "@ + json_opt_spec(
        d.expected,
    ) + ", \"actual\": "@ + json_opt_spec(d.actual) + ", \"duration_ms\": "@ + dec_spec(
        d.duration_ms as nat,
    ) + "}"@
}

/// Render one result row as JSON.
fn row_json(d: &DetailedTestResult) -> (r: String)
    ensures
        r@ == row_json_spec(*d),
{
    let mut out = "{\"test_id\": \"".to_owned();
    let p1 = json_esc(d.test_id.as_str());
    out.append(p1.as_str());
    out.append("\", \"test_set\": \"");
    let p2 = json_esc(d.test_set.as_str());
    out.append(p2.as_str());
    out.append("\", \"test_suite\": \"");
    let p3 = json_esc(d.test_suite.as_str());
    out.append(p3.as_str());
    out.append("\", \"description\": ");
    let p4 = json_opt(&d.description);
    out.append(p4.as_str());
    out.append(", \"outcome\": \"");
    let p5 = json_esc(d.outcome.as_str());
    out.append(p5.as_str());
    out.append("\", \"message\": ");
    let p6 = json_opt(&d.message);
    out.append(p6.as_str());
    out.append(", \"expected\": ");
    let p7 = json_opt(&d.expected);
    out.append(p7.as_str());
    out.append(", \"actual\": ");
    let p8 = json_opt(&d.actual);
    out.append(p8.as_str());
    out.append(", \"duration_ms\": ");
    let p9 = u64_to_dec(d.duration_ms);
    out.append(p9.as_str());
    out.append("}");
    proof {
        assert(out@ =~= row_json_spec(*d));
    }
    out
}

/// The JSON rendering of the result rows, comma separated, up to row `i`.
pub open spec fn rows_json_upto(rs: Seq<DetailedTestResult>, i: int) -> Seq<char>
    decreases i,
{
    if i <= 0 {
        Seq::empty()
    } else if i == 1 {
        row_json_spec(rs[0])
    } else {
        rows_json_upto(rs, i - 1) + ", "@ + row_json_spec(rs[i - 1])
    }
}

/// The JSON rendering of a whole report.
pub open spec fn report_json_spec(r: ComplianceReport) -> Seq<char> {
    "{\"engine\": \""@ + json_esc_spec(r.engine@) + "\", \"timestamp\": \""@ + json_esc_spec(
        r.timestamp@,
    ) + "\", \"suite\": \""@ + json_esc_spec(r.suite@) + "\", \"summary\": "@ + summary_json_spec(
        r.summary,
    ) + ", \"results\": ["@ + rows_json_upto(r.results@, r.results@.len() as int) + "]}"@
}

/// The CSV rendering of one result row.
pub open spec fn row_csv_spec(d: DetailedTestResult) -> Seq<char> {
    d.test_suite@ + seq![','] + d.test_set@ + seq![','] + d.test_id@ + ",\""@ + csv_esc_spec(
        match d.description {
            Some(x) => x@,
            None => Seq::empty(),
        },
    ) + "\","@ + d.outcome@ + ",\""@ + csv_esc_spec(
        match d.message {
            Some(x) => x@,
            None => Seq::empty(),
        },
    ) + "\","@ + dec_spec(d.duration_ms as nat) + seq!['\n']
}

/// The CSV rows up to row `i`.
pub open spec fn rows_csv_upto(rs: Seq<DetailedTestResult>, i: int) -> Seq<char>
    decreases i,
{
    if i <= 0 {
        Seq::empty()
    } else {
        rows_csv_upto(rs, i - 1) + row_csv_spec(rs[i - 1])
    }
}

/// The CSV rendering of a whole report: a header line and one row per test.
pub open spec fn report_csv_spec(r: ComplianceReport) -> Seq<char> {
    "test_suite,test_set,test_id,description,outcome,message,duration_ms\n"@ + rows_csv_upto(
        r.results@,
        r.results@.len() as int,
    )
}

impl ComplianceReport {
    /// Render the report as JSON: engine, timestamp, suite, the summary
    /// object and one object per result, in order.
    pub fn to_json(&self) -> (r: String)
        ensures
            r@ == report_json_spec(*self),
    {
        let mut out = "{\"engine\": \"".to_owned();
        let p1 = json_esc(self.engine.as_str());
        out.append(p1.as_str());
        out.append("\", \"timestamp\": \"");
        let p2 = json_esc(self.timestamp.as_str());
        out.append(p2.as_str());
        out.append("\", \"suite\": \"");
        let p3 = json_esc(self.suite.as_str());
        out.append(p3.as_str());
        out.append("\", \"summary\": ");
        let p4 = summary_json(&self.summary);
        out.append(p4.as_str());
        out.append(", \"results\": [");
        let n: usize = self.results.len();
        let mut i: usize = 0;
        let mut rows = String::new();
        while i < n
            invariant
                i <= n,
                n == self.results@.len(),
                rows@ == rows_json_upto(self.results@, i as int),
            decreases n - i,
        {
            if i > 0 {
                rows.append(", ");
            }
            let row = row_json(&self.results[i]);
            rows.append(row.as_str());
            i = i + 1;
        }
        out.append(rows.as_str());
        out.append("]}");
        proof {
            assert(out@ =~= report_json_spec(*self));
        }
        out
    }

    /// Render the report as CSV: a header and one quoted row per test.
    pub fn to_csv(&self) -> (r: String)
        ensures
            r@ == report_csv_spec(*self),
    {
        let mut out = "test_suite,test_set,test_id,description,outcome,message,duration_ms\n"
            .to_owned();
        let n: usize = self.results.len();
        let mut i: usize = 0;
        while i < n
            invariant
                i <= n,
                n == self.results@.len(),
                out@ == "test_suite,test_set,test_id,description,outcome,message,duration_ms\n"@
                    + rows_csv_upto(self.results@, i as int),
            decreases n - i,
        {
            let row = row_csv(&self.results[i]);
            out.append(row.as_str());
            i = i + 1;
        }
        out
    }
}

/// Render one result row as CSV.
fn row_csv(d: &DetailedTestResult) -> (r: String)
    ensures
        r@ == row_csv_spec(*d),
{
    let mut out = String::new();
    out.append(d.test_suite.as_str());
    out.append(",");
    out.append(d.test_set.as_str());
    out.append(",");
    out.append(d.test_id.as_str());
    out.append(",\"");
    let desc = match &d.description {
        Some(x) => csv_esc(x.as_str()),
        None => String::new(),
    };
    out.append(desc.as_str());
    out.append("\",");
    out.append(d.outcome.as_str());
    out.append(",\"");
    let msg = match &d.message {
        Some(x) => csv_esc(x.as_str()),
        None => String::new(),
    };
    out.append(msg.as_str());
    out.append("\",");
    let dur = u64_to_dec(d.duration_ms);
    out.append(dur.as_str());
    out.append("\n");
    proof {
        reveal_strlit(",");
        reveal_strlit("\n");
        assert(csv_esc_spec(Seq::<char>::empty()) == Seq::<char>::empty());
        assert(","@ =~= seq![',']);
        assert("\n"@ =~= seq!['\n']);
        assert(out@ =~= row_csv_spec(*d));
    }
    out
}

} // verus!

verus! {

/// The message cell of a failed-tests row: the reason, capped at fifty
/// characters, or a dash.
pub open spec fn msg_cell_spec(d: DetailedTestResult) -> Seq<char> {
    let m = match d.message {
        Some(x) => x@,
        None => "-"@,
    };
    if m.len() > 50 {
        m.take(50)
    } else {
        m
    }
}

/// One row of the failed-tests table.
pub open spec fn md_row_spec(d: DetailedTestResult) -> Seq<char> {
    "| "@ + d.test_set@ + " | "@ + d.test_id@ + " | "@ + d.outcome@ + " | "@ + msg_cell_spec(d)
        + " |\n"@
}

/// The failed-tests rows, up to row `i`.
pub open spec fn md_rows_upto(fs: Seq<DetailedTestResult>, i: int) -> Seq<char>
    decreases i,
{
    if i <= 0 {
        Seq::empty()
    } else {
        md_rows_upto(fs, i - 1) + md_row_spec(fs[i - 1])
    }
}

/// Whether a row counts as failed in the report: a failure or an error.
pub open spec fn is_failed_row(d: DetailedTestResult) -> bool {
    d.outcome@ == "fail"@ || d.outcome@ == "error"@
}

/// The failed rows among the first `i` rows.
pub open spec fn failed_upto(rs: Seq<DetailedTestResult>, i: int) -> Seq<DetailedTestResult>
    decreases i,
{
    if i <= 0 {
        Seq::empty()
    } else {
        failed_upto(rs, i - 1) + (if is_failed_row(rs[i - 1]) {
            seq![rs[i - 1]]
        } else {
            Seq::empty()
        })
    }
}

/// The summary table of a report.
pub open spec fn md_summary_spec(r: ComplianceReport) -> Seq<char> {
    "# "@ + r.engine@ + " Compliance Report\n\n**Suite:** "@ + r.suite@ + "\n**Date:** "@
        + r.timestamp@ + "\n\n## Summary\n\n| Metric | Count |\n|--------|-------|\n| Total | "@
        + dec_spec(r.summary.total as nat) + " |\n| Passed | "@ + dec_spec(r.summary.passed as nat)
        + " |\n| Failed | "@ + dec_spec(r.summary.failed as nat) + " |\n| Errors | "@ + dec_spec(
        r.summary.errors as nat,
    ) + " |\n| Not Applicable | "@ + dec_spec(r.summary.not_applicable as nat)
        + " |\n| Skipped | "@ + dec_spec(r.summary.skipped as nat) + " |\n| **Pass Rate** | **"@
        + rate_text_spec(r.summary.pass_rate_centi as nat) + "%** |\n\n"@
}

/// The failed-tests section of a report: at most one hundred rows, with a
/// truncation note where more failed.
pub open spec fn md_failed_section_spec(r: ComplianceReport) -> Seq<char> {
    let failed = failed_upto(r.results@, r.results@.len() as int);
    if r.results@.len() == 0 {
        Seq::empty()
    } else if failed.len() == 0 {
        "## Failed Tests\n\nNo failed tests!\n\n"@
    } else {
        "## Failed Tests\n\n| Test Set | Test ID | Outcome | Message |\n|----------|---------|---------|--------|\n"@
            + md_rows_upto(
            failed,
            if failed.len() > 100 {
                100int
            } else {
                failed.len() as int
            },
        ) + (if failed.len() > 100 {
            "\n... and "@ + dec_spec((failed.len() - 100) as nat) + " more failed tests\n"@
        } else {
            Seq::empty()
        })
    }
}

/// The Markdown rendering of a whole report.
pub open spec fn report_md_spec(r: ComplianceReport) -> Seq<char> {
    md_summary_spec(r) + md_failed_section_spec(r)
}

/// Render one failed-tests row.
fn md_row(d: &DetailedTestResult) -> (r: String)
    ensures
        r@ == md_row_spec(*d),
{
    let mut out = "| ".to_owned();
    out.append(d.test_set.as_str());
    out.append(" | ");
    out.append(d.test_id.as_str());
    out.append(" | ");
    out.append(d.outcome.as_str());
    out.append(" | ");
    let cell: String = match &d.message {
        Some(m) => {
            if m.unicode_len() > 50 {
                let cut = m.as_str().substring_char(0, 50);
                proof {
                    assert(m@.subrange(0, 50) =~= m@.take(50));
                }
                cut.to_owned()
            } else {
                m.clone()
            }
        },
        None => "-".to_owned(),
    };
    out.append(cell.as_str());
    out.append(" |\n");
    proof {
        reveal_strlit("-");
        assert(out@ =~= md_row_spec(*d));
    }
    out
}

impl ComplianceReport {
    /// Render the report as Markdown: the summary table, and, where there
    /// are any rows at all, the failed tests, capped at one hundred rows.
    pub fn to_markdown(&self) -> (r: String)
        ensures
            r@ == report_md_spec(*self),
    {
        let mut out = "# ".to_owned();
        out.append(self.engine.as_str());
        out.append(" Compliance Report\n\n**Suite:** ");
        out.append(self.suite.as_str());
        out.append("\n**Date:** ");
        out.append(self.timestamp.as_str());
        out.append("\n\n## Summary\n\n| Metric | Count |\n|--------|-------|\n| Total | ");
        let d1 = u64_to_dec(self.summary.total as u64);
        out.append(d1.as_str());
        out.append(" |\n| Passed | ");
        let d2 = u64_to_dec(self.summary.passed as u64);
        out.append(d2.as_str());
        out.append(" |\n| Failed | ");
        let d3 = u64_to_dec(self.summary.failed as u64);
        out.append(d3.as_str());
        out.append(" |\n| Errors | ");
        let d4 = u64_to_dec(self.summary.errors as u64);
        out.append(d4.as_str());
        out.append(" |\n| Not Applicable | ");
        let d5 = u64_to_dec(self.summary.not_applicable as u64);
        out.append(d5.as_str());
        out.append(" |\n| Skipped | ");
        let d6 = u64_to_dec(self.summary.skipped as u64);
        out.append(d6.as_str());
        out.append(" |\n| **Pass Rate** | **");
        let d7 = rate_text(self.summary.pass_rate_centi);
        out.append(d7.as_str());
        out.append("%** |\n\n");
        proof {
            assert(out@ =~= md_summary_spec(*self));
        }
        let n: usize = self.results.len();
        if n == 0 {
            proof {
                assert(out@ =~= report_md_spec(*self));
            }
            return out;
        }
        let mut failed: Vec<&DetailedTestResult> = Vec::new();
        let mut i: usize = 0;
        while i < n
            invariant
                i <= n,
                n == self.results@.len(),
                failed@.len() == failed_upto(self.results@, i as int).len(),
                forall|k: int|
                    0 <= k < failed@.len() ==> *(#[trigger] failed@[k]) == failed_upto(
                        self.results@,
                        i as int,
                    )[k],
            decreases n - i,
        {
            let ghost before = failed_upto(self.results@, i as int);
            let d = &self.results[i];
            let is_f = crate::strutil::str_eq(d.outcome.as_str(), "fail") || crate::strutil::str_eq(
                d.outcome.as_str(),
                "error",
            );
            if is_f {
                proof {
                    assert(failed_upto(self.results@, i + 1) =~= before.push(
                        self.results@[i as int],
                    ));
                }
                failed.push(d);
            } else {
                proof {
                    assert(failed_upto(self.results@, i + 1) =~= before);
                }
            }
            i = i + 1;
        }
        let ghost failed_spec = failed_upto(self.results@, n as int);
        let fn_len: usize = failed.len();
        if fn_len == 0 {
            out.append("## Failed Tests\n\nNo failed tests!\n\n");
            proof {
                assert(out@ =~= report_md_spec(*self));
            }
            return out;
        }
        out.append(
            "## Failed Tests\n\n| Test Set | Test ID | Outcome | Message |\n|----------|---------|---------|--------|\n",
        );
        let cap: usize = if fn_len > 100 {
            100
        } else {
            fn_len
        };
        let mut j: usize = 0;
        let ghost md_base = out@;
        while j < cap
            invariant
                j <= cap,
                cap <= fn_len,
                fn_len == failed@.len(),
                fn_len == failed_spec.len(),
                forall|k: int|
                    0 <= k < failed@.len() ==> *(#[trigger] failed@[k]) == failed_spec[k],
                out@ == md_base + md_rows_upto(failed_spec, j as int),
            decreases cap - j,
        {
            let row = md_row(failed[j]);
            out.append(row.as_str());
            j = j + 1;
        }
        if fn_len > 100 {
            out.append("\n... and ");
            let more = u64_to_dec((fn_len - 100) as u64);
            out.append(more.as_str());
            out.append(" more failed tests\n");
        }
        proof {
            assert(out@ =~= report_md_spec(*self));
        }
        out
    }
}

/// A comparison of several engines' results over one suite.
#[derive(Debug, Clone)]
pub struct ComparisonReport {
    pub timestamp: String,
    pub suite: String,
    pub engines: Vec<EngineSummary>,
}

/// One engine's line in a comparison.
#[derive(Debug, Clone)]
pub struct EngineSummary {
    pub name: String,
    pub passed: usize,
    pub total: usize,
    pub pass_rate_centi: u64,
}

/// Compare reports from several engines: the suite is the first report's,
/// and each engine keeps its name, pass count, total and pass rate.
pub fn compare_reports(reports: &Vec<ComplianceReport>) -> (r: ComparisonReport)
    ensures
        r.suite@ == (if reports@.len() > 0 {
            reports@[0].suite@
        } else {
            Seq::<char>::empty()
        }),
        r.engines@.len() == reports@.len(),
        forall|k: int|
            0 <= k < reports@.len() ==> (#[trigger] r.engines@[k]).name@ == reports@[k].engine@
                && r.engines@[k].passed == reports@[k].summary.passed && r.engines@[k].total
                == reports@[k].summary.total && r.engines@[k].pass_rate_centi
                == reports@[k].summary.pass_rate_centi,
{
    let suite: String = if reports.len() > 0 {
        reports[0].suite.clone()
    } else {
        String::new()
    };
    let n: usize = reports.len();
    let mut engines: Vec<EngineSummary> = Vec::new();
    let mut i: usize = 0;
    while i < n
        invariant
            i <= n,
            n == reports@.len(),
            engines@.len() == i,
            forall|k: int|
                0 <= k < i ==> (#[trigger] engines@[k]).name@ == reports@[k].engine@
                    && engines@[k].passed == reports@[k].summary.passed && engines@[k].total
                    == reports@[k].summary.total && engines@[k].pass_rate_centi
                    == reports@[k].summary.pass_rate_centi,
        decreases n - i,
    {
        let e = EngineSummary {
            name: reports[i].engine.clone(),
            passed: reports[i].summary.passed,
            total: reports[i].summary.total,
            pass_rate_centi: reports[i].summary.pass_rate_centi,
        };
        engines.push(e);
        i = i + 1;
    }
    ComparisonReport { timestamp: now_utc_string(), suite, engines }
}

} // verus!
