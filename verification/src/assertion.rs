//! Assertion definitions and results.

use crate::matcher::{Matcher, MatcherView};
use vstd::prelude::*;

verus! {

/// What an assertion examines on a response.
#[derive(Debug, Clone, PartialEq)]
pub enum AssertionType {
    /// Assert on response status code
    StatusCode,
    /// Assert on response header
    Header(String),
    /// Assert on response body
    Body,
    /// Assert on response time
    ResponseTime,
    /// Assert on JSON path value
    JsonPath(String),
    /// Custom assertion with description
    Custom(String),
}

pub ghost enum AssertionTypeView {
    StatusCode,
    Header(Seq<char>),
    Body,
    ResponseTime,
    JsonPath(Seq<char>),
    Custom(Seq<char>),
}

impl View for AssertionType {
    type V = AssertionTypeView;

    open spec fn view(&self) -> AssertionTypeView {
        match self {
            AssertionType::StatusCode => AssertionTypeView::StatusCode,
            AssertionType::Header(name) => AssertionTypeView::Header(name@),
            AssertionType::Body => AssertionTypeView::Body,
            AssertionType::ResponseTime => AssertionTypeView::ResponseTime,
            AssertionType::JsonPath(path) => AssertionTypeView::JsonPath(path@),
            AssertionType::Custom(desc) => AssertionTypeView::Custom(desc@),
        }
    }
}

impl AssertionType {
    /// An identical copy.
    pub fn duplicate(&self) -> (r: Self)
        ensures
            r@ == self@,
    {
        match self {
            AssertionType::StatusCode => AssertionType::StatusCode,
            AssertionType::Header(name) => AssertionType::Header(name.clone()),
            AssertionType::Body => AssertionType::Body,
            AssertionType::ResponseTime => AssertionType::ResponseTime,
            AssertionType::JsonPath(path) => AssertionType::JsonPath(path.clone()),
            AssertionType::Custom(desc) => AssertionType::Custom(desc.clone()),
        }
    }
}

/// An assertion to validate.
#[derive(Debug, Clone)]
pub struct Assertion {
    /// Type of assertion
    pub assertion_type: AssertionType,
    /// Matcher to use
    pub matcher: Matcher,
    /// Description (optional)
    pub description: Option<String>,
    /// Whether assertion is enabled
    pub enabled: bool,
}

pub ghost struct AssertionView {
    pub assertion_type: AssertionTypeView,
    pub matcher: MatcherView,
    pub description: Option<Seq<char>>,
    pub enabled: bool,
}

impl View for Assertion {
    type V = AssertionView;

    open spec fn view(&self) -> AssertionView {
        AssertionView {
            assertion_type: self.assertion_type@,
            matcher: self.matcher@,
            description: match self.description {
                Some(ref d) => Some(d@),
                None => None,
            },
            enabled: self.enabled,
        }
    }
}

impl DeepView for Assertion {
    type V = AssertionView;

    open spec fn deep_view(&self) -> AssertionView {
        self.view()
    }
}

impl Assertion {
    /// Create a new assertion, enabled and without a description.
    pub fn new(assertion_type: AssertionType, matcher: Matcher) -> (r: Self)
        ensures
            r@.assertion_type == assertion_type@,
            r@.matcher == matcher@,
            r@.description is None,
            r@.enabled,
    {
        Assertion { assertion_type, matcher, description: None, enabled: true }
    }

    /// Assert on the status code.
    pub fn status_code(matcher: Matcher) -> (r: Self)
        ensures
            r@.assertion_type == AssertionTypeView::StatusCode,
            r@.matcher == matcher@,
            r@.description is None,
            r@.enabled,
    {
        Self::new(AssertionType::StatusCode, matcher)
    }

    /// Assert on a header value.
    pub fn header(header_name: String, matcher: Matcher) -> (r: Self)
        ensures
            r@.assertion_type == AssertionTypeView::Header(header_name@),
            r@.matcher == matcher@,
            r@.description is None,
            r@.enabled,
    {
        Self::new(AssertionType::Header(header_name), matcher)
    }

    /// Assert on the body.
    pub fn body(matcher: Matcher) -> (r: Self)
        ensures
            r@.assertion_type == AssertionTypeView::Body,
            r@.matcher == matcher@,
            r@.description is None,
            r@.enabled,
    {
        Self::new(AssertionType::Body, matcher)
    }

    /// Assert on the response time.
    pub fn response_time(matcher: Matcher) -> (r: Self)
        ensures
            r@.assertion_type == AssertionTypeView::ResponseTime,
            r@.matcher == matcher@,
            r@.description is None,
            r@.enabled,
    {
        Self::new(AssertionType::ResponseTime, matcher)
    }

    /// Assert on a JSON path.
    pub fn json_path(path: String, matcher: Matcher) -> (r: Self)
        ensures
            r@.assertion_type == AssertionTypeView::JsonPath(path@),
            r@.matcher == matcher@,
            r@.description is None,
            r@.enabled,
    {
        Self::new(AssertionType::JsonPath(path), matcher)
    }

    /// Set the description.
    pub fn with_description(self, description: String) -> (r: Self)
        ensures
            r@ == (AssertionView { description: Some(description@), ..self@ }),
    {
        Assertion {
            assertion_type: self.assertion_type,
            matcher: self.matcher,
            description: Some(description),
            enabled: self.enabled,
        }
    }

    /// Enable or disable the assertion.
    pub fn with_enabled(self, enabled: bool) -> (r: Self)
        ensures
            r@ == (AssertionView { enabled, ..self@ }),
    {
        Assertion {
            assertion_type: self.assertion_type,
            matcher: self.matcher,
            description: self.description,
            enabled,
        }
    }

    /// An identical copy.
    pub fn duplicate(&self) -> (r: Self)
        ensures
            r@ == self@,
    {
        Assertion {
            assertion_type: self.assertion_type.duplicate(),
            matcher: Matcher::new(self.matcher.matcher_type, self.matcher.expected.clone()),
            description: match self.description {
                Some(ref d) => Some(d.clone()),
                None => None,
            },
            enabled: self.enabled,
        }
    }
}

/// Result of running one assertion.
#[derive(Debug, Clone)]
pub struct AssertionResult {
    /// The assertion that was run
    pub assertion: Assertion,
    /// Whether assertion passed
    pub passed: bool,
    /// Actual value that was tested
    pub actual_value: String,
    /// Expected value
    pub expected_value: String,
    /// Error message (if failed)
    pub error_message: Option<String>,
}

pub ghost struct AssertionResultView {
    pub assertion: AssertionView,
    pub passed: bool,
    pub actual_value: Seq<char>,
    pub expected_value: Seq<char>,
    pub error_message: Option<Seq<char>>,
}

impl View for AssertionResult {
    type V = AssertionResultView;

    open spec fn view(&self) -> AssertionResultView {
        AssertionResultView {
            assertion: self.assertion@,
            passed: self.passed,
            actual_value: self.actual_value@,
            expected_value: self.expected_value@,
            error_message: match self.error_message {
                Some(ref e) => Some(e@),
                None => None,
            },
        }
    }
}

impl DeepView for AssertionResult {
    type V = AssertionResultView;

    open spec fn deep_view(&self) -> AssertionResultView {
        self.view()
    }
}

/// What `AssertionResult::summary` renders.
pub open spec fn spec_result_summary(r: AssertionResultView) -> Seq<char> {
    let desc = match r.assertion.description {
        Some(d) => d,
        None => "Assertion"@,
    };
    if r.passed {
        "\u{2713} "@ + desc + ": PASS"@
    } else {
        "\u{2717} "@ + desc + ": FAIL - Expected "@ + r.expected_value + ", got "@ + r.actual_value
    }
}

impl AssertionResult {
    /// Create a passing result.
    pub fn pass(assertion: Assertion, actual: String, expected: String) -> (r: Self)
        ensures
            r@ == (AssertionResultView {
                assertion: assertion@,
                passed: true,
                actual_value: actual@,
                expected_value: expected@,
                error_message: None,
            }),
    {
        AssertionResult {
            assertion,
            passed: true,
            actual_value: actual,
            expected_value: expected,
            error_message: None,
        }
    }

    /// Create a failing result.
    pub fn fail(assertion: Assertion, actual: String, expected: String, error: String) -> (r: Self)
        ensures
            r@ == (AssertionResultView {
                assertion: assertion@,
                passed: false,
                actual_value: actual@,
                expected_value: expected@,
                error_message: Some(error@),
            }),
    {
        AssertionResult {
            assertion,
            passed: false,
            actual_value: actual,
            expected_value: expected,
            error_message: Some(error),
        }
    }

    /// Render a one-line summary of the result.
    pub fn summary(&self) -> (r: String)
        ensures
            r@ == spec_result_summary(self@),
    {
        let mut out = String::new();
        if self.passed {
            out.append("\u{2713} ");
            match self.assertion.description {
                Some(ref d) => out.append(d.as_str()),
                None => out.append("Assertion"),
            }
            out.append(": PASS");
        } else {
            out.append("\u{2717} ");
            match self.assertion.description {
                Some(ref d) => out.append(d.as_str()),
                None => out.append("Assertion"),
            }
            out.append(": FAIL - Expected ");
            out.append(self.expected_value.as_str());
            out.append(", got ");
            out.append(self.actual_value.as_str());
        }
        out
    }
}

} // verus!
