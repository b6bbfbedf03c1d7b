//! Response validation engine.
//!
//! A validator runs a list of assertions against one response and folds
//! the outcomes into a report.  Disabled assertions are skipped and not
//! counted.  The validator never fails: every outcome, including a body
//! that does not parse as JSON, is captured as an `AssertionResult`.

use crate::assertion::{
    Assertion, AssertionResult, AssertionResultView, AssertionTypeView, AssertionView,
    spec_result_summary,
};
use crate::http::{spec_header_lookup, HttpResponse, HttpResponseView};
use crate::json::{json_parse, spec_extract};
use crate::matcher::{spec_description, spec_matches};
use crate::numbers::spec_u64_str;
use vstd::prelude::*;

verus! {

/// Number of passing results in a list.
pub open spec fn count_passed(rs: Seq<AssertionResultView>) -> int
    decreases rs.len(),
{
    if rs.len() == 0 {
        0
    } else {
        count_passed(rs.drop_last()) + if rs.last().passed {
            1int
        } else {
            0int
        }
    }
}

/// The pass count never exceeds the number of results, and equals it
/// exactly when every result passed.
pub proof fn lemma_count_passed_all(rs: Seq<AssertionResultView>)
    ensures
        0 <= count_passed(rs) <= rs.len(),
        (count_passed(rs) == rs.len()) == (forall|i: int|
            0 <= i < rs.len() ==> (#[trigger] rs[i]).passed),
    decreases rs.len(),
{
    if rs.len() > 0 {
        let dl = rs.drop_last();
        lemma_count_passed_all(dl);
        assert(forall|i: int| 0 <= i < rs.len() - 1 ==> #[trigger] dl[i] == rs[i]);
        if count_passed(rs) == rs.len() {
            assert(count_passed(dl) == dl.len());
            assert(rs.last().passed);
            assert(forall|i: int| 0 <= i < rs.len() ==> (#[trigger] rs[i]).passed) by {
                assert(forall|i: int|
                    0 <= i < rs.len() - 1 ==> (#[trigger] rs[i]).passed == dl[i].passed);
            }
        }
        if forall|i: int| 0 <= i < rs.len() ==> (#[trigger] rs[i]).passed {
            assert(forall|i: int| 0 <= i < dl.len() ==> (#[trigger] dl[i]).passed);
            assert(count_passed(dl) == dl.len());
            assert(rs.last().passed);
            assert(count_passed(rs) == rs.len());
        }
    }
}

/// Aggregate outcome of validating one response.
#[derive(Debug, Clone)]
pub struct ValidationReport {
    /// All assertion results
    pub results: Vec<AssertionResult>,
    /// Total assertions run
    pub total: usize,
    /// Number passed
    pub passed: usize,
    /// Number failed
    pub failed: usize,
    /// Overall success
    pub success: bool,
}

/// What `ValidationReport::summary` renders.
pub open spec fn spec_report_summary(total: int, failed: int, success: bool) -> Seq<char> {
    if success {
        "\u{2713} All "@ + spec_u64_str(total) + " assertions passed"@
    } else {
        "\u{2717} "@ + spec_u64_str(failed) + " of "@ + spec_u64_str(total)
            + " assertions failed"@
    }
}

/// One line per result, each ended by a line break.
pub open spec fn spec_result_lines(rs: Seq<AssertionResultView>) -> Seq<char>
    decreases rs.len(),
{
    if rs.len() == 0 {
        Seq::empty()
    } else {
        spec_result_lines(rs.drop_last()) + spec_result_summary(rs.last()) + "\n"@
    }
}

impl ValidationReport {
    /// The counts agree with the stored results, and success means that
    /// nothing failed.
    pub open spec fn wf(&self) -> bool {
        &&& self.total == self.results@.len()
        &&& self.passed == count_passed(self.results.deep_view())
        &&& self.passed + self.failed == self.total
        &&& self.success == (self.failed == 0)
    }

    /// Create an empty report, which counts as successful.
    pub fn new() -> (r: Self)
        ensures
            r.wf(),
            r.results@.len() == 0,
            r.total == 0,
            r.passed == 0,
            r.failed == 0,
            r.success,
    {
        let r = ValidationReport {
            results: Vec::new(),
            total: 0,
            passed: 0,
            failed: 0,
            success: true,
        };
        r
    }

    /// Fold one result into the counts.  Success survives exactly when
    /// it held before and the new result passed.
    pub fn add_result(&mut self, result: AssertionResult)
        requires
            old(self).wf(),
            old(self).total < usize::MAX,
        ensures
            final(self).wf(),
            final(self).results.deep_view() == old(self).results.deep_view().push(result@),
            final(self).total == old(self).total + 1,
            final(self).passed == old(self).passed + (if result@.passed {
                1int
            } else {
                0int
            }),
            final(self).failed == old(self).failed + (if result@.passed {
                0int
            } else {
                1int
            }),
            final(self).success == (old(self).success && result@.passed),
    {
        proof {
            lemma_count_passed_all(self.results.deep_view());
        }
        if result.passed {
            self.passed += 1;
        } else {
            self.failed += 1;
            self.success = false;
        }
        self.total += 1;
        let ghost r_view = result@;
        self.results.push(result);
        proof {
            assert(self.results.deep_view() =~= old(self).results.deep_view().push(r_view));
            assert(self.results.deep_view().drop_last() =~= old(self).results.deep_view());
        }
    }

    /// Render a one-line summary of the report.
    pub fn summary(&self) -> (r: String)
        ensures
            r@ == spec_report_summary(self.total as int, self.failed as int, self.success),
    {
        let mut out = String::new();
        if self.success {
            out.append("\u{2713} All ");
            let t = crate::numbers::usize_to_string(self.total);
            out.append(t.as_str());
            out.append(" assertions passed");
        } else {
            out.append("\u{2717} ");
            let f = crate::numbers::usize_to_string(self.failed);
            out.append(f.as_str());
            out.append(" of ");
            let t = crate::numbers::usize_to_string(self.total);
            out.append(t.as_str());
            out.append(" assertions failed");
        }
        out
    }

    /// Render the summary followed by one line per result.
    pub fn detailed_report(&self) -> (r: String)
        ensures
            r@ == spec_report_summary(self.total as int, self.failed as int, self.success)
                + "\n\n"@ + spec_result_lines(self.results.deep_view()),
    {
        let mut out = self.summary();
        out.append("\n\n");
        let n = self.results.len();
        let mut i: usize = 0;
        proof {
            assert(self.results.deep_view().take(0) =~= Seq::<AssertionResultView>::empty());
        }
        while i < n
            invariant
                n == self.results@.len(),
                0 <= i <= n,
                out@ == spec_report_summary(self.total as int, self.failed as int, self.success)
                    + "\n\n"@ + spec_result_lines(self.results.deep_view().take(i as int)),
            decreases n - i,
        {
            let line = self.results[i].summary();
            out.append(line.as_str());
            out.append("\n");
            proof {
                let pre = self.results.deep_view().take(i as int);
                let now = self.results.deep_view().take(i + 1);
                assert(now.drop_last() =~= pre);
                assert(now.last() == self.results.deep_view()[i as int]);
                assert(out@ =~= spec_report_summary(
                    self.total as int,
                    self.failed as int,
                    self.success,
                ) + "\n\n"@ + spec_result_lines(now));
            }
            i += 1;
        }
        proof {
            assert(self.results.deep_view().take(n as int) =~= self.results.deep_view());
        }
        out
    }
}

impl Default for ValidationReport {
    fn default() -> Self {
        ValidationReport::new()
    }
}

/// The enabled assertions, in declared order.
pub open spec fn spec_enabled(assertions: Seq<AssertionView>) -> Seq<AssertionView> {
    assertions.filter(|a: AssertionView| a.enabled)
}

/// What validating one assertion against one response produces.  The
/// message of a JSON parse failure is the parser's own and is not pinned
/// beyond its fixed opening.
pub open spec fn spec_outcome_ok(
    resp: HttpResponseView,
    a: AssertionView,
    r: AssertionResultView,
) -> bool {
    let desc = spec_description(a.matcher.kind, a.matcher.expected);
    match a.assertion_type {
        AssertionTypeView::StatusCode => {
            let actual = spec_u64_str(resp.status as int);
            let ok = spec_matches(a.matcher.kind, a.matcher.expected, actual);
            r == (AssertionResultView {
                assertion: a,
                passed: ok,
                actual_value: actual,
                expected_value: desc,
                error_message: if ok {
                    None
                } else {
                    Some("Status code does not match"@)
                },
            })
        },
        AssertionTypeView::Header(name) => {
            let actual = spec_header_lookup(resp.headers, name);
            let ok = spec_matches(a.matcher.kind, a.matcher.expected, actual);
            r == (AssertionResultView {
                assertion: a,
                passed: ok,
                actual_value: actual,
                expected_value: desc,
                error_message: if ok {
                    None
                } else {
                    Some("Header '"@ + name + "' does not match"@)
                },
            })
        },
        AssertionTypeView::Body => {
            let ok = spec_matches(a.matcher.kind, a.matcher.expected, resp.body);
            r == (AssertionResultView {
                assertion: a,
                passed: ok,
                actual_value: resp.body,
                expected_value: desc,
                error_message: if ok {
                    None
                } else {
                    Some("Body does not match"@)
                },
            })
        },
        AssertionTypeView::ResponseTime => {
            let actual = spec_u64_str(resp.duration_ms as int);
            let ok = spec_matches(a.matcher.kind, a.matcher.expected, actual);
            r == (AssertionResultView {
                assertion: a,
                passed: ok,
                actual_value: actual + "ms"@,
                expected_value: desc,
                error_message: if ok {
                    None
                } else {
                    Some("Response time does not match"@)
                },
            })
        },
        AssertionTypeView::JsonPath(path) => match json_parse(resp.body) {
            Some(doc) => {
                let actual = spec_extract(doc, path);
                let ok = spec_matches(a.matcher.kind, a.matcher.expected, actual);
                r == (AssertionResultView {
                    assertion: a,
                    passed: ok,
                    actual_value: actual,
                    expected_value: desc,
                    error_message: if ok {
                        None
                    } else {
                        Some("JSON path '"@ + path + "' does not match"@)
                    },
                })
            },
            None => {
                &&& r.assertion == a
                &&& !r.passed
                &&& r.actual_value == resp.body
                &&& r.expected_value == desc
                &&& exists|e: Seq<char>|
                    r.error_message == Some("Failed to parse response as JSON: "@ + e)
            },
        },
        AssertionTypeView::Custom(what) => r == (AssertionResultView {
            assertion: a,
            passed: true,
            actual_value: "custom"@,
            expected_value: what,
            error_message: None,
        }),
    }
}

/// Response validator.
pub struct ResponseValidator {}

impl ResponseValidator {
    /// Create a new validator.
    pub fn new() -> (r: Self) {
        ResponseValidator {  }
    }

    fn validate_status_code(&self, response: &HttpResponse, assertion: &Assertion) -> (r:
        AssertionResult)
        requires
            assertion@.assertion_type is StatusCode,
        ensures
            spec_outcome_ok(response@, assertion@, r@),
    {
        let actual = crate::numbers::u64_to_string(response.status as u64);
        let expected = assertion.matcher.description();
        if assertion.matcher.matches(actual.as_str()) {
            AssertionResult::pass(assertion.duplicate(), actual, expected)
        } else {
            let mut err = String::new();
            err.append("Status code does not match");
            AssertionResult::fail(assertion.duplicate(), actual, expected, err)
        }
    }

    fn validate_header(
        &self,
        response: &HttpResponse,
        header_name: &str,
        assertion: &Assertion,
    ) -> (r: AssertionResult)
        requires
            assertion@.assertion_type == AssertionTypeView::Header(header_name@),
        ensures
            spec_outcome_ok(response@, assertion@, r@),
    {
        let expected = assertion.matcher.description();
        let actual = response.header_value(header_name);
        if assertion.matcher.matches(actual.as_str()) {
            AssertionResult::pass(assertion.duplicate(), actual, expected)
        } else {
            let mut err = String::new();
            err.append("Header '");
            err.append(header_name);
            err.append("' does not match");
            AssertionResult::fail(assertion.duplicate(), actual, expected, err)
        }
    }

    fn validate_body(&self, response: &HttpResponse, assertion: &Assertion) -> (r: AssertionResult)
        requires
            assertion@.assertion_type is Body,
        ensures
            spec_outcome_ok(response@, assertion@, r@),
    {
        let actual = response.body.clone();
        let expected = assertion.matcher.description();
        if assertion.matcher.matches(actual.as_str()) {
            AssertionResult::pass(assertion.duplicate(), actual, expected)
        } else {
            let mut err = String::new();
            err.append("Body does not match");
            AssertionResult::fail(assertion.duplicate(), actual, expected, err)
        }
    }

    fn validate_response_time(&self, response: &HttpResponse, assertion: &Assertion) -> (r:
        AssertionResult)
        requires
            assertion@.assertion_type is ResponseTime,
        ensures
            spec_outcome_ok(response@, assertion@, r@),
    {
        let actual = crate::numbers::u64_to_string(response.duration_ms);
        let expected = assertion.matcher.description();
        let mut shown = actual.clone();
        shown.append("ms");
        if assertion.matcher.matches(actual.as_str()) {
            AssertionResult::pass(assertion.duplicate(), shown, expected)
        } else {
            let mut err = String::new();
            err.append("Response time does not match");
            AssertionResult::fail(assertion.duplicate(), shown, expected, err)
        }
    }

    fn validate_json_path(&self, response: &HttpResponse, path: &str, assertion: &Assertion) -> (r:
        AssertionResult)
        requires
            assertion@.assertion_type == AssertionTypeView::JsonPath(path@),
        ensures
            spec_outcome_ok(response@, assertion@, r@),
    {
        let expected = assertion.matcher.description();
        match crate::json::parse_json(response.body.as_str()) {
            Ok(doc) => {
                let actual = crate::json::extract_json_path(&doc, path);
                if assertion.matcher.matches(actual.as_str()) {
                    AssertionResult::pass(assertion.duplicate(), actual, expected)
                } else {
                    let mut err = String::new();
                    err.append("JSON path '");
                    err.append(path);
                    err.append("' does not match");
                    AssertionResult::fail(assertion.duplicate(), actual, expected, err)
                }
            },
            Err(parse_err) => {
                let mut err = String::new();
                err.append("Failed to parse response as JSON: ");
                err.append(parse_err.as_str());
                let r = AssertionResult::fail(
                    assertion.duplicate(),
                    response.body.clone(),
                    expected,
                    err,
                );
                proof {
                    assert(r@.error_message == Some(
                        "Failed to parse response as JSON: "@ + parse_err@,
                    ));
                }
                r
            },
        }
    }

    fn validate_custom(&self, description: &str, assertion: &Assertion) -> (r: AssertionResult)
        requires
            assertion@.assertion_type == AssertionTypeView::Custom(description@),
        ensures
            forall|resp: HttpResponseView| spec_outcome_ok(resp, assertion@, r@),
    {
        let mut actual = String::new();
        actual.append("custom");
        AssertionResult::pass(assertion.duplicate(), actual, description.to_owned())
    }

    fn validate_assertion(&self, response: &HttpResponse, assertion: &Assertion) -> (r:
        AssertionResult)
        ensures
            spec_outcome_ok(response@, assertion@, r@),
    {
        match &assertion.assertion_type {
            crate::assertion::AssertionType::StatusCode => self.validate_status_code(
                response,
                assertion,
            ),
            crate::assertion::AssertionType::Header(name) => self.validate_header(
                response,
                name.as_str(),
                assertion,
            ),
            crate::assertion::AssertionType::Body => self.validate_body(response, assertion),
            crate::assertion::AssertionType::ResponseTime => self.validate_response_time(
                response,
                assertion,
            ),
            crate::assertion::AssertionType::JsonPath(path) => self.validate_json_path(
                response,
                path.as_str(),
                assertion,
            ),
            crate::assertion::AssertionType::Custom(what) => self.validate_custom(
                what.as_str(),
                assertion,
            ),
        }
    }

    /// Validate a response against a list of assertions.  Disabled
    /// assertions are skipped; each enabled one contributes exactly one
    /// result, in declared order.
    pub fn validate(&self, response: &HttpResponse, assertions: &Vec<Assertion>) -> (r:
        ValidationReport)
        ensures
            r.wf(),
            r.results.deep_view().len() == spec_enabled(assertions.deep_view()).len(),
            forall|i: int|
                0 <= i < r.results.deep_view().len() ==> spec_outcome_ok(
                    response@,
                    spec_enabled(assertions.deep_view())[i],
                    #[trigger] r.results.deep_view()[i],
                ),
    {
        let mut report = ValidationReport::new();
        let n = assertions.len();
        let mut i: usize = 0;
        proof {
            assert(assertions.deep_view().take(0) =~= Seq::<AssertionView>::empty());
            assert(Seq::<AssertionView>::empty().filter(|a: AssertionView| a.enabled)
                =~= Seq::<AssertionView>::empty());
            assert(report.results.deep_view() =~= Seq::<AssertionResultView>::empty());
        }
        while i < n
            invariant
                n == assertions@.len(),
                0 <= i <= n,
                report.wf(),
                report.results.deep_view().len() == spec_enabled(
                    assertions.deep_view().take(i as int),
                ).len(),
                report.results.deep_view().len() <= i,
                forall|j: int|
                    0 <= j < report.results.deep_view().len() ==> spec_outcome_ok(
                        response@,
                        spec_enabled(assertions.deep_view().take(i as int))[j],
                        #[trigger] report.results.deep_view()[j],
                    ),
            decreases n - i,
        {
            let ghost pre = assertions.deep_view().take(i as int);
            proof {
                assert(assertions.deep_view().take(i + 1).drop_last() =~= pre);
                assert(assertions.deep_view().take(i + 1).last() == assertions.deep_view()[
                    i as int]);
                reveal_with_fuel(Seq::filter, 2);
            }
            let assertion = &assertions[i];
            if assertion.enabled {
                let result = self.validate_assertion(response, assertion);
                report.add_result(result);
                proof {
                    assert(spec_enabled(assertions.deep_view().take(i + 1)) =~= spec_enabled(pre)
                        + seq![assertions.deep_view()[i as int]]);
                }
            } else {
                proof {
                    assert(spec_enabled(assertions.deep_view().take(i + 1)) =~= spec_enabled(pre));
                }
            }
            i += 1;
        }
        proof {
            assert(assertions.deep_view().take(n as int) =~= assertions.deep_view());
        }
        report
    }
}

/// The report invariants: the counts add up, and success holds exactly
/// when nothing failed.
pub proof fn lemma_report_invariants(r: &ValidationReport)
    requires
        r.wf(),
    ensures
        r.success == (r.failed == 0),
        r.total == r.passed + r.failed,
        r.total == r.results@.len(),
{
}

impl Default for ResponseValidator {
    fn default() -> Self {
        ResponseValidator::new()
    }
}

} // verus!
