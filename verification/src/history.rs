//! Request and response log records, as plain values.

use crate::strmap::AssocMap;
use vstd::prelude::*;

verus! {

/// Request log information.
#[derive(Debug, Clone)]
pub struct RequestLog {
    /// HTTP method
    pub method: String,
    /// Request URL (after variable substitution)
    pub url: String,
    /// Original URL (before substitution)
    pub original_url: Option<String>,
    /// Request headers
    pub headers: AssocMap<String>,
    /// Query parameters
    pub query_params: AssocMap<String>,
    /// Request body
    pub body: Option<String>,
    /// Request body size in bytes
    pub body_size: Option<usize>,
}

impl RequestLog {
    /// Create a new request log.
    pub fn new(method: String, url: String) -> (r: Self)
        ensures
            r.method@ == method@,
            r.url@ == url@,
            r.original_url is None,
            r.headers@ =~= Map::<Seq<char>, Seq<char>>::empty(),
            r.query_params@ =~= Map::<Seq<char>, Seq<char>>::empty(),
            r.body is None,
            r.body_size is None,
            r.headers.wf(),
            r.query_params.wf(),
    {
        RequestLog {
            method,
            url,
            original_url: None,
            headers: AssocMap::new(),
            query_params: AssocMap::new(),
            body: None,
            body_size: None,
        }
    }

    /// Record the body's size in bytes; a log without a body keeps no
    /// size.
    pub fn calculate_body_size(&mut self)
        ensures
            final(self).body == old(self).body,
            final(self).method == old(self).method,
            final(self).url == old(self).url,
            match old(self).body {
                Some(b) => final(self).body_size == Some(spec_byte_len(b@) as usize),
                None => final(self).body_size == old(self).body_size,
            },
    {
        if let Some(body) = &self.body {
            let n = body.as_str().len();
            self.body_size = Some(n);
        }
    }
}

/// The byte length of a text's UTF-8 encoding.
pub open spec fn spec_byte_len(s: Seq<char>) -> nat {
    vstd::utf8::encode_utf8(s).len()
}

/// Response log information.
#[derive(Debug, Clone)]
pub struct ResponseLog {
    /// Status code
    pub status_code: u16,
    /// Status text
    pub status_text: String,
    /// Response headers
    pub headers: AssocMap<String>,
    /// Response body
    pub body: Option<String>,
    /// Response body size in bytes
    pub body_size: usize,
    /// Content type
    pub content_type: Option<String>,
    /// Was the response successful (2xx)?
    pub is_success: bool,
    /// Was there an error?
    pub is_error: bool,
    /// Error message (if any)
    pub error_message: Option<String>,
}

impl ResponseLog {
    /// Create a new response log; 2xx codes count as success, 4xx and
    /// up as errors.
    pub fn new(status_code: u16, status_text: String) -> (r: Self)
        ensures
            r.status_code == status_code,
            r.status_text@ == status_text@,
            r.is_success == (200 <= status_code < 300),
            r.is_error == (status_code >= 400),
            r.body is None,
            r.body_size == 0,
            r.content_type is None,
            r.error_message is None,
            r.headers.wf(),
    {
        let is_success = 200 <= status_code && status_code < 300;
        let is_error = status_code >= 400;
        ResponseLog {
            status_code,
            status_text,
            headers: AssocMap::new(),
            body: None,
            body_size: 0,
            content_type: None,
            is_success,
            is_error,
            error_message: None,
        }
    }

    /// Store the body and its size in bytes.
    pub fn set_body(&mut self, body: String)
        ensures
            final(self).body == Some(body),
            final(self).body_size == spec_byte_len(body@) as usize,
            final(self).status_code == old(self).status_code,
            final(self).is_success == old(self).is_success,
            final(self).is_error == old(self).is_error,
            final(self).error_message == old(self).error_message,
    {
        let n = body.as_str().len();
        self.body_size = n;
        self.body = Some(body);
    }

    /// Mark the response as failed with a message.
    pub fn set_error(&mut self, error: String)
        ensures
            final(self).is_error,
            final(self).error_message == Some(error),
            final(self).body == old(self).body,
            final(self).body_size == old(self).body_size,
            final(self).status_code == old(self).status_code,
            final(self).is_success == old(self).is_success,
    {
        self.is_error = true;
        self.error_message = Some(error);
    }
}

} // verus!
