//! Matchers for assertion validation.
//!
//! A matcher pairs a comparison kind with a string-encoded expected
//! value and is evaluated against a string-encoded actual value.
//! Numeric kinds parse both sides as 64-bit signed integers and never
//! match when either side fails to parse.

use crate::numbers::{spec_i64_str, spec_parse_i64, spec_parse_usize, spec_u64_str};
use crate::text::{seq_contains_sub, seq_ends_with, seq_starts_with};
use vstd::prelude::*;

verus! {

/// Type of matcher.
#[derive(Debug, Clone, Copy, PartialEq, Eq, Structural)]
pub enum MatcherType {
    /// Equals (exact match)
    Equals,
    /// Not equals
    NotEquals,
    /// Contains substring
    Contains,
    /// Does not contain substring
    NotContains,
    /// Starts with
    StartsWith,
    /// Ends with
    EndsWith,
    /// Matches regex
    Regex,
    /// Less than (numeric)
    LessThan,
    /// Less than or equal
    LessThanOrEqual,
    /// Greater than (numeric)
    GreaterThan,
    /// Greater than or equal
    GreaterThanOrEqual,
    /// Is empty
    IsEmpty,
    /// Is not empty
    IsNotEmpty,
    /// Has length
    HasLength,
    /// Is null/None
    IsNull,
    /// Is not null
    IsNotNull,
}

/// A matcher for validating values.
#[derive(Debug, Clone)]
pub struct Matcher {
    /// Type of matcher
    pub matcher_type: MatcherType,
    /// Expected value (stringified)
    pub expected: String,
}

pub ghost struct MatcherView {
    pub kind: MatcherType,
    pub expected: Seq<char>,
}

impl View for Matcher {
    type V = MatcherView;

    open spec fn view(&self) -> MatcherView {
        MatcherView { kind: self.matcher_type, expected: self.expected@ }
    }
}

impl DeepView for Matcher {
    type V = MatcherView;

    open spec fn deep_view(&self) -> MatcherView {
        self.view()
    }
}

/// Whether a pattern is accepted by the regex engine.  Relied upon from
/// `regex::Regex::new`; compilation depends on the pattern text alone.
pub uninterp spec fn regex_is_valid(pattern: Seq<char>) -> bool;

/// Whether a compiled pattern matches somewhere in a text.  Relied upon
/// from `regex::Regex::is_match`; the outcome depends on the pattern and
/// the text alone.
pub uninterp spec fn regex_matches(pattern: Seq<char>, text: Seq<char>) -> bool;

/// Relies on `regex::Regex::new` and `regex::Regex::is_match`: an
/// invalid pattern matches nothing, a valid one matches exactly when the
/// engine finds the pattern in the text.  Both are pure functions of the
/// pattern and text, named `regex_is_valid` and `regex_matches` here.
#[verifier::external_body]
fn regex_is_match(pattern: &str, actual: &str) -> (r: bool)
    ensures
        r == (regex_is_valid(pattern@) && regex_matches(pattern@, actual@)),
{
    match regex::Regex::new(pattern) {
        Ok(re) => re.is_match(actual),
        Err(_) => false,
    }
}

/// What `Matcher::matches` returns for each kind of matcher.
pub open spec fn spec_matches(kind: MatcherType, expected: Seq<char>, actual: Seq<char>) -> bool {
    match kind {
        MatcherType::Equals => actual == expected,
        MatcherType::NotEquals => actual != expected,
        MatcherType::Contains => seq_contains_sub(actual, expected),
        MatcherType::NotContains => !seq_contains_sub(actual, expected),
        MatcherType::StartsWith => seq_starts_with(actual, expected),
        MatcherType::EndsWith => seq_ends_with(actual, expected),
        MatcherType::Regex => regex_is_valid(expected) && regex_matches(expected, actual),
        MatcherType::LessThan => match (spec_parse_i64(actual), spec_parse_i64(expected)) {
            (Some(a), Some(e)) => a < e,
            _ => false,
        },
        MatcherType::LessThanOrEqual => match (spec_parse_i64(actual), spec_parse_i64(expected)) {
            (Some(a), Some(e)) => a <= e,
            _ => false,
        },
        MatcherType::GreaterThan => match (spec_parse_i64(actual), spec_parse_i64(expected)) {
            (Some(a), Some(e)) => a > e,
            _ => false,
        },
        MatcherType::GreaterThanOrEqual => match (
            spec_parse_i64(actual),
            spec_parse_i64(expected),
        ) {
            (Some(a), Some(e)) => a >= e,
            _ => false,
        },
        MatcherType::IsEmpty => actual.len() == 0,
        MatcherType::IsNotEmpty => actual.len() > 0,
        MatcherType::HasLength => match spec_parse_usize(expected) {
            Some(l) => actual.len() == l,
            None => false,
        },
        MatcherType::IsNull => actual.len() == 0 || actual == "null"@,
        MatcherType::IsNotNull => actual.len() > 0 && actual != "null"@,
    }
}

/// The human-readable expectation text of each kind of matcher.
pub open spec fn spec_description(kind: MatcherType, expected: Seq<char>) -> Seq<char> {
    match kind {
        MatcherType::Equals => "equals '"@ + expected + "'"@,
        MatcherType::NotEquals => "not equals '"@ + expected + "'"@,
        MatcherType::Contains => "contains '"@ + expected + "'"@,
        MatcherType::NotContains => "does not contain '"@ + expected + "'"@,
        MatcherType::StartsWith => "starts with '"@ + expected + "'"@,
        MatcherType::EndsWith => "ends with '"@ + expected + "'"@,
        MatcherType::Regex => "matches regex '"@ + expected + "'"@,
        MatcherType::LessThan => "< "@ + expected,
        MatcherType::LessThanOrEqual => "<= "@ + expected,
        MatcherType::GreaterThan => "> "@ + expected,
        MatcherType::GreaterThanOrEqual => ">= "@ + expected,
        MatcherType::IsEmpty => "is empty"@,
        MatcherType::IsNotEmpty => "is not empty"@,
        MatcherType::HasLength => "has length "@ + expected,
        MatcherType::IsNull => "is null"@,
        MatcherType::IsNotNull => "is not null"@,
    }
}

impl Matcher {
    /// Create a new matcher.
    pub fn new(matcher_type: MatcherType, expected: String) -> (r: Self)
        ensures
            r@.kind == matcher_type,
            r@.expected == expected@,
    {
        Matcher { matcher_type, expected }
    }

    /// Equals matcher (numeric).
    pub fn equals(value: i64) -> (r: Self)
        ensures
            r@.kind == MatcherType::Equals,
            r@.expected == spec_i64_str(value as int),
    {
        Self::new(MatcherType::Equals, crate::numbers::i64_to_string(value))
    }

    /// Equals matcher (string).
    pub fn equals_str(value: &str) -> (r: Self)
        ensures
            r@.kind == MatcherType::Equals,
            r@.expected == value@,
    {
        Self::new(MatcherType::Equals, value.to_owned())
    }

    /// Not equals matcher.
    pub fn not_equals(value: i64) -> (r: Self)
        ensures
            r@.kind == MatcherType::NotEquals,
            r@.expected == spec_i64_str(value as int),
    {
        Self::new(MatcherType::NotEquals, crate::numbers::i64_to_string(value))
    }

    /// Not equals matcher (string).
    pub fn not_equals_str(value: &str) -> (r: Self)
        ensures
            r@.kind == MatcherType::NotEquals,
            r@.expected == value@,
    {
        Self::new(MatcherType::NotEquals, value.to_owned())
    }

    /// Contains matcher.
    pub fn contains(substring: String) -> (r: Self)
        ensures
            r@.kind == MatcherType::Contains,
            r@.expected == substring@,
    {
        Self::new(MatcherType::Contains, substring)
    }

    /// Not contains matcher.
    pub fn not_contains(substring: String) -> (r: Self)
        ensures
            r@.kind == MatcherType::NotContains,
            r@.expected == substring@,
    {
        Self::new(MatcherType::NotContains, substring)
    }

    /// Starts with matcher.
    pub fn starts_with(prefix: String) -> (r: Self)
        ensures
            r@.kind == MatcherType::StartsWith,
            r@.expected == prefix@,
    {
        Self::new(MatcherType::StartsWith, prefix)
    }

    /// Ends with matcher.
    pub fn ends_with(suffix: String) -> (r: Self)
        ensures
            r@.kind == MatcherType::EndsWith,
            r@.expected == suffix@,
    {
        Self::new(MatcherType::EndsWith, suffix)
    }

    /// Regex matcher.
    pub fn regex(pattern: String) -> (r: Self)
        ensures
            r@.kind == MatcherType::Regex,
            r@.expected == pattern@,
    {
        Self::new(MatcherType::Regex, pattern)
    }

    /// Less than matcher.
    pub fn less_than(value: i64) -> (r: Self)
        ensures
            r@.kind == MatcherType::LessThan,
            r@.expected == spec_i64_str(value as int),
    {
        Self::new(MatcherType::LessThan, crate::numbers::i64_to_string(value))
    }

    /// Less than or equal matcher.
    pub fn less_than_or_equal(value: i64) -> (r: Self)
        ensures
            r@.kind == MatcherType::LessThanOrEqual,
            r@.expected == spec_i64_str(value as int),
    {
        Self::new(MatcherType::LessThanOrEqual, crate::numbers::i64_to_string(value))
    }

    /// Greater than matcher.
    pub fn greater_than(value: i64) -> (r: Self)
        ensures
            r@.kind == MatcherType::GreaterThan,
            r@.expected == spec_i64_str(value as int),
    {
        Self::new(MatcherType::GreaterThan, crate::numbers::i64_to_string(value))
    }

    /// Greater than or equal matcher.
    pub fn greater_than_or_equal(value: i64) -> (r: Self)
        ensures
            r@.kind == MatcherType::GreaterThanOrEqual,
            r@.expected == spec_i64_str(value as int),
    {
        Self::new(MatcherType::GreaterThanOrEqual, crate::numbers::i64_to_string(value))
    }

    /// Is empty matcher.
    pub fn is_empty() -> (r: Self)
        ensures
            r@.kind == MatcherType::IsEmpty,
            r@.expected == Seq::<char>::empty(),
    {
        Self::new(MatcherType::IsEmpty, String::new())
    }

    /// Is not empty matcher.
    pub fn is_not_empty() -> (r: Self)
        ensures
            r@.kind == MatcherType::IsNotEmpty,
            r@.expected == Seq::<char>::empty(),
    {
        Self::new(MatcherType::IsNotEmpty, String::new())
    }

    /// Has length matcher.
    pub fn has_length(length: usize) -> (r: Self)
        ensures
            r@.kind == MatcherType::HasLength,
            r@.expected == spec_u64_str(length as int),
    {
        Self::new(MatcherType::HasLength, crate::numbers::usize_to_string(length))
    }

    /// Is null matcher.
    pub fn is_null() -> (r: Self)
        ensures
            r@.kind == MatcherType::IsNull,
            r@.expected == Seq::<char>::empty(),
    {
        Self::new(MatcherType::IsNull, String::new())
    }

    /// Is not null matcher.
    pub fn is_not_null() -> (r: Self)
        ensures
            r@.kind == MatcherType::IsNotNull,
            r@.expected == Seq::<char>::empty(),
    {
        Self::new(MatcherType::IsNotNull, String::new())
    }

    /// Test if an actual value matches the expectation.
    pub fn matches(&self, actual: &str) -> (r: bool)
        ensures
            r == spec_matches(self@.kind, self@.expected, actual@),
    {
        match self.matcher_type {
            MatcherType::Equals => crate::text::str_eq(actual, self.expected.as_str()),
            MatcherType::NotEquals => !crate::text::str_eq(actual, self.expected.as_str()),
            MatcherType::Contains => crate::text::str_contains(actual, self.expected.as_str()),
            MatcherType::NotContains => !crate::text::str_contains(
                actual,
                self.expected.as_str(),
            ),
            MatcherType::StartsWith => crate::text::str_starts_with(
                actual,
                self.expected.as_str(),
            ),
            MatcherType::EndsWith => crate::text::str_ends_with(actual, self.expected.as_str()),
            MatcherType::Regex => regex_is_match(self.expected.as_str(), actual),
            MatcherType::LessThan => {
                match (
                    crate::numbers::parse_i64(actual),
                    crate::numbers::parse_i64(self.expected.as_str()),
                ) {
                    (Some(a), Some(e)) => a < e,
                    _ => false,
                }
            },
            MatcherType::LessThanOrEqual => {
                match (
                    crate::numbers::parse_i64(actual),
                    crate::numbers::parse_i64(self.expected.as_str()),
                ) {
                    (Some(a), Some(e)) => a <= e,
                    _ => false,
                }
            },
            MatcherType::GreaterThan => {
                match (
                    crate::numbers::parse_i64(actual),
                    crate::numbers::parse_i64(self.expected.as_str()),
                ) {
                    (Some(a), Some(e)) => a > e,
                    _ => false,
                }
            },
            MatcherType::GreaterThanOrEqual => {
                match (
                    crate::numbers::parse_i64(actual),
                    crate::numbers::parse_i64(self.expected.as_str()),
                ) {
                    (Some(a), Some(e)) => a >= e,
                    _ => false,
                }
            },
            MatcherType::IsEmpty => actual.unicode_len() == 0,
            MatcherType::IsNotEmpty => actual.unicode_len() > 0,
            MatcherType::HasLength => {
                match crate::numbers::parse_usize(self.expected.as_str()) {
                    Some(l) => actual.unicode_len() == l,
                    None => false,
                }
            },
            MatcherType::IsNull => actual.unicode_len() == 0 || crate::text::str_eq(
                actual,
                "null",
            ),
            MatcherType::IsNotNull => actual.unicode_len() > 0 && !crate::text::str_eq(
                actual,
                "null",
            ),
        }
    }

    /// Render the human-readable expectation text.
    pub fn description(&self) -> (r: String)
        ensures
            r@ == spec_description(self@.kind, self@.expected),
    {
        let mut out = String::new();
        match self.matcher_type {
            MatcherType::Equals => {
                out.append("equals '");
                out.append(self.expected.as_str());
                out.append("'");
            },
            MatcherType::NotEquals => {
                out.append("not equals '");
                out.append(self.expected.as_str());
                out.append("'");
            },
            MatcherType::Contains => {
                out.append("contains '");
                out.append(self.expected.as_str());
                out.append("'");
            },
            MatcherType::NotContains => {
                out.append("does not contain '");
                out.append(self.expected.as_str());
                out.append("'");
            },
            MatcherType::StartsWith => {
                out.append("starts with '");
                out.append(self.expected.as_str());
                out.append("'");
            },
            MatcherType::EndsWith => {
                out.append("ends with '");
                out.append(self.expected.as_str());
                out.append("'");
            },
            MatcherType::Regex => {
                out.append("matches regex '");
                out.append(self.expected.as_str());
                out.append("'");
            },
            MatcherType::LessThan => {
                out.append("< ");
                out.append(self.expected.as_str());
            },
            MatcherType::LessThanOrEqual => {
                out.append("<= ");
                out.append(self.expected.as_str());
            },
            MatcherType::GreaterThan => {
                out.append("> ");
                out.append(self.expected.as_str());
            },
            MatcherType::GreaterThanOrEqual => {
                out.append(">= ");
                out.append(self.expected.as_str());
            },
            MatcherType::IsEmpty => {
                out.append("is empty");
            },
            MatcherType::IsNotEmpty => {
                out.append("is not empty");
            },
            MatcherType::HasLength => {
                out.append("has length ");
                out.append(self.expected.as_str());
            },
            MatcherType::IsNull => {
                out.append("is null");
            },
            MatcherType::IsNotNull => {
                out.append("is not null");
            },
        }
        out
    }
}

} // verus!
