//! HTTP request and response model.
//!
//! The engine never talks to the network itself; a caller issues the
//! resolved requests and hands responses back as plain values.  The
//! response type here carries exactly what validation needs: the status
//! code, the headers in order, the body text, and the elapsed time in
//! milliseconds.

use crate::error::Error;
use crate::text::{seq_eq_ignore_ascii_case, str_eq_ignore_ascii_case};
use vstd::prelude::*;

verus! {

/// HTTP methods supported by the engine.
#[derive(Debug, Clone, Copy, PartialEq, Eq, Structural)]
pub enum HttpMethod {
    Get,
    Post,
    Put,
    Delete,
    Patch,
    Head,
    Options,
}

/// The upper-case name of each method.
pub open spec fn spec_method_str(m: HttpMethod) -> Seq<char> {
    match m {
        HttpMethod::Get => "GET"@,
        HttpMethod::Post => "POST"@,
        HttpMethod::Put => "PUT"@,
        HttpMethod::Delete => "DELETE"@,
        HttpMethod::Patch => "PATCH"@,
        HttpMethod::Head => "HEAD"@,
        HttpMethod::Options => "OPTIONS"@,
    }
}

/// Which method a name denotes, letter case ignored.
pub open spec fn spec_method_of(s: Seq<char>) -> Option<HttpMethod> {
    if seq_eq_ignore_ascii_case(s, "GET"@) {
        Some(HttpMethod::Get)
    } else if seq_eq_ignore_ascii_case(s, "POST"@) {
        Some(HttpMethod::Post)
    } else if seq_eq_ignore_ascii_case(s, "PUT"@) {
        Some(HttpMethod::Put)
    } else if seq_eq_ignore_ascii_case(s, "DELETE"@) {
        Some(HttpMethod::Delete)
    } else if seq_eq_ignore_ascii_case(s, "PATCH"@) {
        Some(HttpMethod::Patch)
    } else if seq_eq_ignore_ascii_case(s, "HEAD"@) {
        Some(HttpMethod::Head)
    } else if seq_eq_ignore_ascii_case(s, "OPTIONS"@) {
        Some(HttpMethod::Options)
    } else {
        None
    }
}

impl HttpMethod {
    /// Convert method to its upper-case name.
    pub fn as_str(&self) -> (r: &'static str)
        ensures
            r@ == spec_method_str(*self),
    {
        match self {
            HttpMethod::Get => "GET",
            HttpMethod::Post => "POST",
            HttpMethod::Put => "PUT",
            HttpMethod::Delete => "DELETE",
            HttpMethod::Patch => "PATCH",
            HttpMethod::Head => "HEAD",
            HttpMethod::Options => "OPTIONS",
        }
    }

    /// Parse a method name, letter case ignored.
    pub fn from_str(s: &str) -> (r: Result<Self, Error>)
        ensures
            match r {
                Ok(m) => spec_method_of(s@) == Some(m),
                Err(e) => spec_method_of(s@) is None && e@ == crate::error::ErrorView::UnsupportedMethod(
                    s@,
                ),
            },
    {
        if str_eq_ignore_ascii_case(s, "GET") {
            Ok(HttpMethod::Get)
        } else if str_eq_ignore_ascii_case(s, "POST") {
            Ok(HttpMethod::Post)
        } else if str_eq_ignore_ascii_case(s, "PUT") {
            Ok(HttpMethod::Put)
        } else if str_eq_ignore_ascii_case(s, "DELETE") {
            Ok(HttpMethod::Delete)
        } else if str_eq_ignore_ascii_case(s, "PATCH") {
            Ok(HttpMethod::Patch)
        } else if str_eq_ignore_ascii_case(s, "HEAD") {
            Ok(HttpMethod::Head)
        } else if str_eq_ignore_ascii_case(s, "OPTIONS") {
            Ok(HttpMethod::Options)
        } else {
            Err(Error::UnsupportedMethod(s.to_owned()))
        }
    }
}

/// A received HTTP response, as plain values.
#[derive(Debug, Clone)]
pub struct HttpResponse {
    /// Status code
    pub status: u16,
    /// Response headers, in arrival order
    pub headers: Vec<(String, String)>,
    /// Body text
    pub body: String,
    /// Elapsed time in milliseconds
    pub duration_ms: u64,
}

pub ghost struct HttpResponseView {
    pub status: u16,
    pub headers: Seq<(Seq<char>, Seq<char>)>,
    pub body: Seq<char>,
    pub duration_ms: u64,
}

impl View for HttpResponse {
    type V = HttpResponseView;

    open spec fn view(&self) -> HttpResponseView {
        HttpResponseView {
            status: self.status,
            headers: Seq::new(self.headers@.len(), |i: int| (self.headers@[i].0@, self.headers@[i].1@)),
            body: self.body@,
            duration_ms: self.duration_ms,
        }
    }
}

/// The value of the first header whose name matches, letter case
/// ignored; the empty string when none does.
pub open spec fn spec_header_lookup(
    headers: Seq<(Seq<char>, Seq<char>)>,
    name: Seq<char>,
) -> Seq<char>
    decreases headers.len(),
{
    if headers.len() == 0 {
        Seq::empty()
    } else if seq_eq_ignore_ascii_case(headers.first().0, name) {
        headers.first().1
    } else {
        spec_header_lookup(headers.drop_first(), name)
    }
}

impl HttpResponse {
    pub fn new(status: u16, headers: Vec<(String, String)>, body: String, duration_ms: u64) -> (r:
        Self)
        ensures
            r.status == status,
            r@.headers == Seq::new(headers@.len(), |i: int| (headers@[i].0@, headers@[i].1@)),
            r@.body == body@,
            r.duration_ms == duration_ms,
    {
        HttpResponse { status, headers, body, duration_ms }
    }

    /// Look a header up by name, letter case ignored; a missing header
    /// reads as the empty string.
    pub fn header_value(&self, name: &str) -> (r: String)
        ensures
            r@ == spec_header_lookup(self@.headers, name@),
    {
        let n = self.headers.len();
        let mut i: usize = 0;
        assert(self@.headers.skip(0) =~= self@.headers);
        while i < n
            invariant
                n == self.headers@.len(),
                0 <= i <= n,
                spec_header_lookup(self@.headers, name@) == spec_header_lookup(
                    self@.headers.skip(i as int),
                    name@,
                ),
            decreases n - i,
        {
            let ghost rest = self@.headers.skip(i as int);
            assert(rest.first() == (self.headers@[i as int].0@, self.headers@[i as int].1@));
            if str_eq_ignore_ascii_case(self.headers[i].0.as_str(), name) {
                return self.headers[i].1.clone();
            }
            proof {
                assert(rest.drop_first() =~= self@.headers.skip(i + 1));
            }
            i += 1;
        }
        proof {
            assert(self@.headers.skip(n as int) =~= Seq::<(Seq<char>, Seq<char>)>::empty());
        }
        String::new()
    }
}

} // verus!
