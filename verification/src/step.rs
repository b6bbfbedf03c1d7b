//! Workflow step definition and per-step results.

use crate::assertion::{Assertion, AssertionView};
use crate::http::{HttpMethod, HttpResponse, HttpResponseView};
use crate::numbers::spec_u64_str;
use crate::script::{Script, ScriptView};
use crate::strmap::AssocMap;
use vstd::prelude::*;

verus! {

/// A single step in a workflow.
#[derive(Debug)]
pub struct WorkflowStep {
    /// Step name
    pub name: String,
    /// HTTP method
    pub method: HttpMethod,
    /// URL (can contain variables)
    pub url: String,
    /// Headers
    pub headers: Vec<String>,
    /// Query parameters
    pub query_params: Vec<String>,
    /// Request body
    pub body: Option<String>,
    /// Pre-request script
    pub pre_request_script: Option<Script>,
    /// Post-response script
    pub post_response_script: Option<Script>,
    /// Assertions to validate
    pub assertions: Vec<Assertion>,
    /// Whether to continue on failure
    pub continue_on_error: bool,
    /// Timeout for this step, in milliseconds
    pub timeout_ms: Option<u64>,
    /// Variables to extract from the response, as name to JSON path
    pub extract_variables: AssocMap<String>,
}

pub ghost struct WorkflowStepView {
    pub name: Seq<char>,
    pub method: HttpMethod,
    pub url: Seq<char>,
    pub headers: Seq<Seq<char>>,
    pub query_params: Seq<Seq<char>>,
    pub body: Option<Seq<char>>,
    pub pre_request_script: Option<ScriptView>,
    pub post_response_script: Option<ScriptView>,
    pub assertions: Seq<AssertionView>,
    pub continue_on_error: bool,
    pub timeout_ms: Option<u64>,
    pub extract_variables: Map<Seq<char>, Seq<char>>,
}

impl View for WorkflowStep {
    type V = WorkflowStepView;

    open spec fn view(&self) -> WorkflowStepView {
        WorkflowStepView {
            name: self.name@,
            method: self.method,
            url: self.url@,
            headers: self.headers.deep_view(),
            query_params: self.query_params.deep_view(),
            body: match self.body {
                Some(ref b) => Some(b@),
                None => None,
            },
            pre_request_script: match self.pre_request_script {
                Some(ref s) => Some(s@),
                None => None,
            },
            post_response_script: match self.post_response_script {
                Some(ref s) => Some(s@),
                None => None,
            },
            assertions: self.assertions.deep_view(),
            continue_on_error: self.continue_on_error,
            timeout_ms: self.timeout_ms,
            extract_variables: self.extract_variables@,
        }
    }
}

impl DeepView for WorkflowStep {
    type V = WorkflowStepView;

    open spec fn deep_view(&self) -> WorkflowStepView {
        self.view()
    }
}

impl WorkflowStep {
    /// The extraction table has well-formed keys.
    pub open spec fn wf(&self) -> bool {
        self.extract_variables.wf()
    }

    /// Create a bare step: no headers, no body, no scripts, no
    /// assertions, no extraction, stopping on failure.
    pub fn new(name: String, method: HttpMethod, url: String) -> (r: Self)
        ensures
            r.wf(),
            r@ == (WorkflowStepView {
                name: name@,
                method,
                url: url@,
                headers: Seq::empty(),
                query_params: Seq::empty(),
                body: None,
                pre_request_script: None,
                post_response_script: None,
                assertions: Seq::empty(),
                continue_on_error: false,
                timeout_ms: None,
                extract_variables: Map::empty(),
            }),
    {
        let r = WorkflowStep {
            name,
            method,
            url,
            headers: Vec::new(),
            query_params: Vec::new(),
            body: None,
            pre_request_script: None,
            post_response_script: None,
            assertions: Vec::new(),
            continue_on_error: false,
            timeout_ms: None,
            extract_variables: AssocMap::new(),
        };
        proof {
            assert(r.headers.deep_view() =~= Seq::<Seq<char>>::empty());
            assert(r.query_params.deep_view() =~= Seq::<Seq<char>>::empty());
            assert(r.assertions.deep_view() =~= Seq::<AssertionView>::empty());
        }
        r
    }

    /// Add a header template.
    pub fn with_header(self, header: String) -> (r: Self)
        requires
            self.wf(),
        ensures
            r.wf(),
            r@ == (WorkflowStepView { headers: self@.headers.push(header@), ..self@ }),
    {
        let mut s = self;
        let ghost pre = s@.headers;
        s.headers.push(header);
        proof {
            assert(s.headers.deep_view() =~= pre.push(s.headers@.last()@));
        }
        s
    }

    /// Add a query parameter template.
    pub fn with_query(self, param: String) -> (r: Self)
        requires
            self.wf(),
        ensures
            r.wf(),
            r@ == (WorkflowStepView { query_params: self@.query_params.push(param@), ..self@ }),
    {
        let mut s = self;
        let ghost pre = s@.query_params;
        s.query_params.push(param);
        proof {
            assert(s.query_params.deep_view() =~= pre.push(s.query_params@.last()@));
        }
        s
    }

    /// Set the body template.
    pub fn with_body(self, body: String) -> (r: Self)
        requires
            self.wf(),
        ensures
            r.wf(),
            r@ == (WorkflowStepView { body: Some(body@), ..self@ }),
    {
        let mut s = self;
        s.body = Some(body);
        s
    }

    /// Set the pre-request script.
    pub fn with_pre_request_script(self, script: Script) -> (r: Self)
        requires
            self.wf(),
        ensures
            r.wf(),
            r@ == (WorkflowStepView { pre_request_script: Some(script@), ..self@ }),
    {
        let mut s = self;
        s.pre_request_script = Some(script);
        s
    }

    /// Set the post-response script.
    pub fn with_post_response_script(self, script: Script) -> (r: Self)
        requires
            self.wf(),
        ensures
            r.wf(),
            r@ == (WorkflowStepView { post_response_script: Some(script@), ..self@ }),
    {
        let mut s = self;
        s.post_response_script = Some(script);
        s
    }

    /// Add an assertion.
    pub fn with_assertion(self, assertion: Assertion) -> (r: Self)
        requires
            self.wf(),
        ensures
            r.wf(),
            r@ == (WorkflowStepView { assertions: self@.assertions.push(assertion@), ..self@ }),
    {
        let mut s = self;
        let ghost pre = s@.assertions;
        let ghost av = assertion@;
        s.assertions.push(assertion);
        proof {
            assert(s.assertions.deep_view() =~= pre.push(av));
        }
        s
    }

    /// Set whether a failure of this step lets the chain continue.
    pub fn with_continue_on_error(self, continue_on_error: bool) -> (r: Self)
        requires
            self.wf(),
        ensures
            r.wf(),
            r@ == (WorkflowStepView { continue_on_error, ..self@ }),
    {
        let mut s = self;
        s.continue_on_error = continue_on_error;
        s
    }

    /// Set the timeout, in milliseconds.
    pub fn with_timeout(self, timeout_ms: u64) -> (r: Self)
        requires
            self.wf(),
        ensures
            r.wf(),
            r@ == (WorkflowStepView { timeout_ms: Some(timeout_ms), ..self@ }),
    {
        let mut s = self;
        s.timeout_ms = Some(timeout_ms);
        s
    }

    /// Declare a variable to extract from the response body.
    pub fn extract_variable(self, var_name: String, json_path: String) -> (r: Self)
        requires
            self.wf(),
        ensures
            r.wf(),
            r@ == (WorkflowStepView {
                extract_variables: self@.extract_variables.insert(var_name@, json_path@),
                ..self@
            }),
    {
        let mut s = self;
        s.extract_variables.insert(var_name, json_path);
        s
    }
}

/// Result of executing a workflow step.
#[derive(Debug)]
pub struct StepResult {
    /// Step name
    pub step_name: String,
    /// Whether step succeeded
    pub success: bool,
    /// HTTP response (if request was made)
    pub response: Option<HttpResponse>,
    /// Error message (if failed)
    pub error: Option<String>,
    /// Extracted variables
    pub extracted_variables: AssocMap<String>,
    /// Execution duration, in milliseconds
    pub duration_ms: u64,
}

pub ghost struct StepResultView {
    pub step_name: Seq<char>,
    pub success: bool,
    pub response: Option<HttpResponseView>,
    pub error: Option<Seq<char>>,
    pub extracted_variables: Map<Seq<char>, Seq<char>>,
    pub duration_ms: u64,
}

impl View for StepResult {
    type V = StepResultView;

    open spec fn view(&self) -> StepResultView {
        StepResultView {
            step_name: self.step_name@,
            success: self.success,
            response: match self.response {
                Some(ref r) => Some(r@),
                None => None,
            },
            error: match self.error {
                Some(ref e) => Some(e@),
                None => None,
            },
            extracted_variables: self.extracted_variables@,
            duration_ms: self.duration_ms,
        }
    }
}

impl DeepView for StepResult {
    type V = StepResultView;

    open spec fn deep_view(&self) -> StepResultView {
        self.view()
    }
}

/// What `StepResult::summary` renders.
pub open spec fn spec_step_summary(r: StepResultView) -> Seq<char> {
    if r.success {
        "\u{2713} "@ + r.step_name + " - "@ + spec_u64_str(r.duration_ms as int) + "ms"@
    } else {
        let why = match r.error {
            Some(e) => e,
            None => "Unknown error"@,
        };
        "\u{2717} "@ + r.step_name + " - "@ + why + " ("@ + spec_u64_str(r.duration_ms as int)
            + "ms)"@
    }
}

impl StepResult {
    /// Create a success result.  A successful step always carries its
    /// response.
    pub fn success(
        step_name: String,
        response: HttpResponse,
        extracted_variables: AssocMap<String>,
        duration_ms: u64,
    ) -> (r: Self)
        requires
            extracted_variables.wf(),
        ensures
            r.wf(),
            r@ == (StepResultView {
                step_name: step_name@,
                success: true,
                response: Some(response@),
                error: None,
                extracted_variables: extracted_variables@,
                duration_ms,
            }),
    {
        StepResult {
            step_name,
            success: true,
            response: Some(response),
            error: None,
            extracted_variables,
            duration_ms,
        }
    }

    /// Create a failure result.  A failed step carries no response and
    /// no extracted variables.
    pub fn failure(step_name: String, error: String, duration_ms: u64) -> (r: Self)
        ensures
            r.wf(),
            r@ == (StepResultView {
                step_name: step_name@,
                success: false,
                response: None,
                error: Some(error@),
                extracted_variables: Map::empty(),
                duration_ms,
            }),
    {
        let r = StepResult {
            step_name,
            success: false,
            response: None,
            error: Some(error),
            extracted_variables: AssocMap::new(),
            duration_ms,
        };
        proof {
            assert(r@.extracted_variables =~= Map::<Seq<char>, Seq<char>>::empty());
        }
        r
    }

    pub open spec fn wf(&self) -> bool {
        self.extracted_variables.wf()
    }

    /// Render a one-line summary of the result.
    pub fn summary(&self) -> (r: String)
        ensures
            r@ == spec_step_summary(self@),
    {
        let mut out = String::new();
        if self.success {
            out.append("\u{2713} ");
            out.append(self.step_name.as_str());
            out.append(" - ");
            let d = crate::numbers::u64_to_string(self.duration_ms);
            out.append(d.as_str());
            out.append("ms");
        } else {
            out.append("\u{2717} ");
            out.append(self.step_name.as_str());
            out.append(" - ");
            match self.error {
                Some(ref e) => out.append(e.as_str()),
                None => out.append("Unknown error"),
            }
            out.append(" (");
            let d = crate::numbers::u64_to_string(self.duration_ms);
            out.append(d.as_str());
            out.append("ms)");
        }
        out
    }
}

} // verus!
