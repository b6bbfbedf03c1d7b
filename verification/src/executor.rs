//! Workflow execution engine.
//!
//! A chain run is a state machine: the engine resolves each step's
//! templates against the live variable pool and decides what has to
//! happen next, while the caller performs the outside work (sleeping,
//! running a script, sending the request) and hands the outcome back.
//! Each handed-back outcome moves the run forward; when it is finished,
//! the accumulated execution result can be taken.

use crate::chain::{ChainConfig, RequestChain, RequestChainView};
use crate::context::{pairs_map, ScriptContext, ScriptVariableView};
use crate::http::{HttpMethod, HttpResponse, HttpResponseView};
use crate::json::{json_parse, spec_extract, spec_extract_from_body};
use crate::numbers::spec_u64_str;
use crate::step::{spec_step_summary, StepResult, StepResultView, WorkflowStep, WorkflowStepView};
use crate::strmap::AssocMap;
use crate::substitution::{spec_substitute, VariableSubstitutor};
use crate::validator::{count_passed, lemma_count_passed_all, ResponseValidator};
use vstd::prelude::*;

verus! {

/// Sum of the step durations, in milliseconds.
pub open spec fn sum_durations(rs: Seq<StepResultView>) -> int
    decreases rs.len(),
{
    if rs.len() == 0 {
        0
    } else {
        sum_durations(rs.drop_last()) + rs.last().duration_ms
    }
}

/// Every step succeeded.
pub open spec fn all_succeeded(rs: Seq<StepResultView>) -> bool {
    forall|i: int| 0 <= i < rs.len() ==> (#[trigger] rs[i]).success
}

/// Number of successful steps.
pub open spec fn count_succeeded(rs: Seq<StepResultView>) -> int
    decreases rs.len(),
{
    if rs.len() == 0 {
        0
    } else {
        count_succeeded(rs.drop_last()) + if rs.last().success {
            1int
        } else {
            0int
        }
    }
}

proof fn lemma_count_succeeded_bounds(rs: Seq<StepResultView>)
    ensures
        0 <= count_succeeded(rs) <= rs.len(),
    decreases rs.len(),
{
    if rs.len() > 0 {
        lemma_count_succeeded_bounds(rs.drop_last());
    }
}

/// Result of executing a workflow.
#[derive(Debug)]
pub struct ExecutionResult {
    /// Chain name
    pub chain_name: String,
    /// Step results
    pub step_results: Vec<StepResult>,
    /// Overall success
    pub success: bool,
    /// Total duration, in milliseconds
    pub total_duration_ms: u64,
    /// Variables at end of execution
    pub final_variables: AssocMap<String>,
}

pub ghost struct ExecutionResultView {
    pub chain_name: Seq<char>,
    pub step_results: Seq<StepResultView>,
    pub success: bool,
    pub total_duration_ms: u64,
    pub final_variables: Map<Seq<char>, Seq<char>>,
}

impl View for ExecutionResult {
    type V = ExecutionResultView;

    open spec fn view(&self) -> ExecutionResultView {
        ExecutionResultView {
            chain_name: self.chain_name@,
            step_results: self.step_results.deep_view(),
            success: self.success,
            total_duration_ms: self.total_duration_ms,
            final_variables: self.final_variables@,
        }
    }
}

impl ExecutionResult {
    /// Success is the conjunction over the recorded steps, and the total
    /// duration is their sum.
    pub open spec fn wf(&self) -> bool {
        &&& self.success == all_succeeded(self@.step_results)
        &&& self.total_duration_ms == sum_durations(self@.step_results)
        &&& self.final_variables.wf()
    }

    /// Create an empty result, which counts as successful.
    pub fn new(chain_name: String) -> (r: Self)
        ensures
            r.wf(),
            r@.chain_name == chain_name@,
            r@.step_results == Seq::<StepResultView>::empty(),
            r@.success,
            r@.total_duration_ms == 0,
            r@.final_variables =~= Map::<Seq<char>, Seq<char>>::empty(),
    {
        let r = ExecutionResult {
            chain_name,
            step_results: Vec::new(),
            success: true,
            total_duration_ms: 0,
            final_variables: AssocMap::new(),
        };
        proof {
            assert(r.step_results.deep_view() =~= Seq::<StepResultView>::empty());
        }
        r
    }

    /// Fold one step result in: success is and-reduced and the duration
    /// accumulates.
    pub fn add_step_result(&mut self, result: StepResult)
        requires
            old(self).wf(),
            old(self).total_duration_ms + result.duration_ms <= u64::MAX,
        ensures
            final(self).wf(),
            final(self)@.step_results == old(self)@.step_results.push(result@),
            final(self)@.success == (old(self)@.success && result@.success),
            final(self)@.total_duration_ms == old(self)@.total_duration_ms + result@.duration_ms,
            final(self)@.chain_name == old(self)@.chain_name,
            final(self)@.final_variables == old(self)@.final_variables,
    {
        if !result.success {
            self.success = false;
        }
        self.total_duration_ms = self.total_duration_ms + result.duration_ms;
        let ghost rv = result@;
        self.step_results.push(result);
        proof {
            assert(self.step_results.deep_view() =~= old(self).step_results.deep_view().push(rv));
            assert(self.step_results.deep_view().drop_last() =~= old(self).step_results.deep_view());
            if old(self)@.success && rv.success {
                assert(all_succeeded(self@.step_results)) by {
                    assert(forall|i: int|
                        0 <= i < self@.step_results.len() - 1 ==> (#[trigger] self@.step_results[i])
                            == old(self)@.step_results[i]);
                }
            } else {
                if !rv.success {
                    assert(!self@.step_results.last().success);
                } else {
                    let j = choose|j: int|
                        0 <= j < old(self)@.step_results.len() && !(#[trigger] old(self)@.step_results[j]).success;
                    assert(!self@.step_results[j].success);
                }
            }
        }
    }

    /// Render a one-line summary of the run.
    pub fn summary(&self) -> (r: String)
        requires
            self.wf(),
        ensures
            r@ == spec_execution_summary(self@),
    {
        proof {
            lemma_count_succeeded_bounds(self@.step_results);
        }
        let mut out = String::new();
        if self.success {
            out.append("\u{2713} Chain '");
            out.append(self.chain_name.as_str());
            out.append("' completed successfully: ");
            let n = crate::numbers::usize_to_string(self.step_results.len());
            out.append(n.as_str());
            out.append(" steps, ");
            let t = crate::numbers::u64_to_string(self.total_duration_ms);
            out.append(t.as_str());
            out.append("ms");
            proof {
                assert(self.step_results.deep_view().len() == self.step_results@.len());
            }
        } else {
            let total = self.step_results.len();
            let passed = self.count_passed_steps();
            out.append("\u{2717} Chain '");
            out.append(self.chain_name.as_str());
            out.append("' failed: ");
            let p = crate::numbers::usize_to_string(passed);
            out.append(p.as_str());
            out.append(" passed, ");
            let f = crate::numbers::usize_to_string(total - passed);
            out.append(f.as_str());
            out.append(" failed, ");
            let t = crate::numbers::u64_to_string(self.total_duration_ms);
            out.append(t.as_str());
            out.append("ms");
            proof {
                assert(self.step_results.deep_view().len() == self.step_results@.len());
            }
        }
        out
    }

    fn count_passed_steps(&self) -> (r: usize)
        ensures
            r == count_succeeded(self@.step_results),
            r <= self@.step_results.len(),
    {
        proof {
            lemma_count_succeeded_bounds(self@.step_results);
            assert(self.step_results.deep_view().take(0) =~= Seq::<StepResultView>::empty());
        }
        let n = self.step_results.len();
        let mut count: usize = 0;
        let mut i: usize = 0;
        while i < n
            invariant
                n == self.step_results@.len(),
                0 <= i <= n,
                count == count_succeeded(self@.step_results.take(i as int)),
                count <= i,
            decreases n - i,
        {
            proof {
                assert(self@.step_results.take(i + 1).drop_last() =~= self@.step_results.take(
                    i as int,
                ));
                assert(self@.step_results.take(i + 1).last() == self@.step_results[i as int]);
            }
            if self.step_results[i].success {
                count += 1;
            }
            i += 1;
        }
        proof {
            assert(self@.step_results.take(n as int) =~= self@.step_results);
        }
        count
    }

    /// Render the summary followed by one numbered line per step.
    pub fn detailed_report(&self) -> (r: String)
        requires
            self.wf(),
        ensures
            r@ == spec_execution_summary(self@) + "\n\n"@ + spec_numbered_lines(
                self@.step_results,
                1,
            ),
    {
        let mut out = self.summary();
        out.append("\n\n");
        let n = self.step_results.len();
        let mut i: usize = 0;
        proof {
            assert(self@.step_results.take(0) =~= Seq::<StepResultView>::empty());
        }
        while i < n
            invariant
                self.wf(),
                n == self.step_results@.len(),
                0 <= i <= n,
                out@ == spec_execution_summary(self@) + "\n\n"@ + spec_numbered_lines(
                    self@.step_results.take(i as int),
                    1,
                ),
            decreases n - i,
        {
            let num = crate::numbers::usize_to_string(i + 1);
            out.append(num.as_str());
            out.append(". ");
            let line = self.step_results[i].summary();
            out.append(line.as_str());
            out.append("\n");
            proof {
                lemma_numbered_lines_push(
                    self@.step_results.take(i as int),
                    self@.step_results[i as int],
                    1,
                );
                assert(self@.step_results.take(i + 1) =~= self@.step_results.take(i as int).push(
                    self@.step_results[i as int],
                ));
                assert(out@ =~= spec_execution_summary(self@) + "\n\n"@ + spec_numbered_lines(
                    self@.step_results.take(i + 1),
                    1,
                ));
            }
            i += 1;
        }
        proof {
            assert(self@.step_results.take(n as int) =~= self@.step_results);
        }
        out
    }
}

/// What `ExecutionResult::summary` renders.
pub open spec fn spec_execution_summary(r: ExecutionResultView) -> Seq<char> {
    if r.success {
        "\u{2713} Chain '"@ + r.chain_name + "' completed successfully: "@ + spec_u64_str(
            r.step_results.len() as int,
        ) + " steps, "@ + spec_u64_str(r.total_duration_ms as int) + "ms"@
    } else {
        "\u{2717} Chain '"@ + r.chain_name + "' failed: "@ + spec_u64_str(
            count_succeeded(r.step_results),
        ) + " passed, "@ + spec_u64_str(r.step_results.len() - count_succeeded(r.step_results))
            + " failed, "@ + spec_u64_str(r.total_duration_ms as int) + "ms"@
    }
}

/// The numbered per-step lines of a detailed report, starting at `idx`.
pub open spec fn spec_numbered_lines(rs: Seq<StepResultView>, idx: int) -> Seq<char>
    decreases rs.len(),
{
    if rs.len() == 0 {
        Seq::empty()
    } else {
        spec_numbered_lines(rs.drop_last(), idx) + spec_u64_str(idx + rs.len() - 1) + ". "@
            + spec_step_summary(rs.last()) + "\n"@
    }
}

proof fn lemma_numbered_lines_push(rs: Seq<StepResultView>, x: StepResultView, idx: int)
    ensures
        spec_numbered_lines(rs.push(x), idx) == spec_numbered_lines(rs, idx) + spec_u64_str(
            idx + rs.len(),
        ) + ". "@ + spec_step_summary(x) + "\n"@,
{
    assert(rs.push(x).drop_last() =~= rs);
    assert(rs.push(x).last() == x);
}

/// A step's templates resolved against the variable pool: what the
/// caller must send.
#[derive(Debug)]
pub struct ResolvedRequest {
    pub method: HttpMethod,
    pub url: String,
    pub headers: Vec<String>,
    pub query_params: Vec<String>,
    pub body: Option<String>,
    pub timeout_ms: Option<u64>,
}

pub ghost struct ResolvedRequestView {
    pub method: HttpMethod,
    pub url: Seq<char>,
    pub headers: Seq<Seq<char>>,
    pub query_params: Seq<Seq<char>>,
    pub body: Option<Seq<char>>,
    pub timeout_ms: Option<u64>,
}

impl View for ResolvedRequest {
    type V = ResolvedRequestView;

    open spec fn view(&self) -> ResolvedRequestView {
        ResolvedRequestView {
            method: self.method,
            url: self.url@,
            headers: self.headers.deep_view(),
            query_params: self.query_params.deep_view(),
            body: match self.body {
                Some(ref b) => Some(b@),
                None => None,
            },
            timeout_ms: self.timeout_ms,
        }
    }
}

/// Every template of the step substituted against the pool.
pub open spec fn spec_resolve(
    step: WorkflowStepView,
    vars: Map<Seq<char>, Seq<char>>,
) -> ResolvedRequestView {
    ResolvedRequestView {
        method: step.method,
        url: spec_substitute(step.url, vars),
        headers: step.headers.map_values(|h: Seq<char>| spec_substitute(h, vars)),
        query_params: step.query_params.map_values(|q: Seq<char>| spec_substitute(q, vars)),
        body: match step.body {
            Some(b) => Some(spec_substitute(b, vars)),
            None => None,
        },
        timeout_ms: step.timeout_ms,
    }
}

/// What the caller reports back about a script it was asked to run.
#[derive(Debug)]
pub enum ScriptOutcome {
    /// No script was declared, or it was disabled.
    NotRun,
    /// The script ran; these are the final scope variables and the
    /// console lines it produced.
    Completed(Vec<(String, String)>, Vec<String>),
    /// The script failed with this message.
    Failed(String),
}

pub ghost enum ScriptOutcomeView {
    NotRun,
    Completed(Seq<(Seq<char>, Seq<char>)>, Seq<Seq<char>>),
    Failed(Seq<char>),
}

impl View for ScriptOutcome {
    type V = ScriptOutcomeView;

    open spec fn view(&self) -> ScriptOutcomeView {
        match self {
            ScriptOutcome::NotRun => ScriptOutcomeView::NotRun,
            ScriptOutcome::Completed(vars, console) => ScriptOutcomeView::Completed(
                vars.deep_view(),
                console.deep_view(),
            ),
            ScriptOutcome::Failed(msg) => ScriptOutcomeView::Failed(msg@),
        }
    }
}

/// Where a run stands.
#[derive(Debug, Clone, Copy, PartialEq, Eq, Structural)]
pub enum RunPhase {
    /// The caller must sleep for the configured delay.
    AwaitDelay,
    /// The caller must run the step's pre-request script, if any.
    AwaitPre,
    /// The caller must send the resolved request.
    AwaitSend,
    /// The caller must run the step's post-response script, if any.
    AwaitPost,
    /// The run is over.
    Done,
}

/// A failed step stops the iteration unless the chain tolerates
/// failures or the step continues on error.
pub open spec fn step_stops(config: ChainConfig, step: WorkflowStepView, success: bool) -> bool {
    !success && config.stop_on_failure && !step.continue_on_error
}

/// One chain execution in progress.
pub struct ChainRun {
    chain: RequestChain,
    context: ScriptContext,
    result: ExecutionResult,
    iteration: usize,
    step_index: usize,
    phase: RunPhase,
    pending_request: Option<ResolvedRequest>,
    pending_response: Option<HttpResponse>,
}

impl ChainRun {
    pub closed spec fn chain_view(&self) -> RequestChainView {
        self.chain@
    }

    pub closed spec fn res(&self) -> ExecutionResultView {
        self.result@
    }

    pub closed spec fn vars(&self) -> Map<Seq<char>, ScriptVariableView> {
        self.context.vars()
    }

    pub closed spec fn value_map(&self) -> Map<Seq<char>, Seq<char>> {
        self.context.value_map()
    }

    pub closed spec fn resp_data(&self) -> Map<Seq<char>, Seq<char>> {
        self.context.resp_data()
    }

    pub closed spec fn console(&self) -> Seq<Seq<char>> {
        self.context.console()
    }

    pub closed spec fn phase_v(&self) -> RunPhase {
        self.phase
    }

    pub closed spec fn iteration_v(&self) -> int {
        self.iteration as int
    }

    pub closed spec fn step_index_v(&self) -> int {
        self.step_index as int
    }

    /// The step the run currently stands on.
    pub open spec fn cur_step(&self) -> WorkflowStepView {
        self.chain_view().steps[self.step_index_v()]
    }

    /// The pending response while a post-response script is awaited.
    pub closed spec fn pending_response_v(&self) -> HttpResponseView {
        self.pending_response->0@
    }

    pub closed spec fn wf(&self) -> bool {
        &&& self.chain.wf()
        &&& self.context.wf()
        &&& self.result.wf()
        &&& self.result@.chain_name == self.chain@.name
        &&& self.iteration <= self.chain.config.iterations
        &&& (self.phase == RunPhase::AwaitPre || self.phase == RunPhase::AwaitSend || self.phase
            == RunPhase::AwaitPost) ==> (self.iteration < self.chain.config.iterations
            && self.step_index < self.chain@.steps.len())
        &&& self.phase == RunPhase::AwaitDelay ==> (0 < self.iteration
            < self.chain.config.iterations && self.step_index == 0
            && self.chain.config.delay_between_requests is Some)
        &&& self.phase == RunPhase::AwaitSend ==> (self.pending_request is Some
            && self.pending_request->0@ == spec_resolve(self.cur_step(), self.value_map()))
        &&& self.phase == RunPhase::AwaitPost ==> self.pending_response is Some
    }

    /// Start a run: no steps have executed, the pool is empty.
    pub fn new(chain: RequestChain) -> (r: Self)
        requires
            chain.wf(),
        ensures
            r.wf(),
            r.chain_view() == chain@,
            r.res().chain_name == chain@.name,
            r.res().step_results == Seq::<StepResultView>::empty(),
            r.res().success,
            r.res().total_duration_ms == 0,
            r.vars() =~= Map::<Seq<char>, ScriptVariableView>::empty(),
            chain@.config.iterations > 0 && chain@.steps.len() > 0 ==> r.phase_v()
                == RunPhase::AwaitPre && r.iteration_v() == 0 && r.step_index_v() == 0,
            chain@.config.iterations == 0 ==> r.phase_v() == RunPhase::Done,
            chain@.steps.len() == 0 && (chain@.config.iterations <= 1
                || chain@.config.delay_between_requests is None || chain@.config.max_duration
                == Some(0u64)) ==> r.phase_v() == RunPhase::Done,
            chain@.steps.len() == 0 && chain@.config.iterations > 1
                && chain@.config.delay_between_requests is Some && chain@.config.max_duration
                != Some(0u64) ==> (r.phase_v() == RunPhase::AwaitDelay && r.iteration_v() == 1
                && r.step_index_v() == 0),
    {
        let name = chain.name.clone();
        let iterations = chain.config.iterations;
        let has_delay = chain.config.delay_between_requests.is_some();
        // a zero time budget is already exhausted once the first (empty)
        // iteration has run, before any delay
        let zero_budget = match chain.config.max_duration {
            Some(max) => max == 0,
            None => false,
        };
        let steps_len = chain.steps.len();
        let mut r = ChainRun {
            chain,
            context: ScriptContext::new(),
            result: ExecutionResult::new(name),
            iteration: 0,
            step_index: 0,
            phase: RunPhase::Done,
            pending_request: None,
            pending_response: None,
        };
        if iterations == 0 {
            r.phase = RunPhase::Done;
        } else if steps_len > 0 {
            r.phase = RunPhase::AwaitPre;
        } else if iterations > 1 && has_delay && !zero_budget {
            r.iteration = 1;
            r.phase = RunPhase::AwaitDelay;
        } else {
            r.phase = RunPhase::Done;
        }
        proof {
            assert(r.chain@.steps.len() == steps_len);
        }
        r
    }

    /// Whether the run is over.
    pub fn is_finished(&self) -> (r: bool)
        ensures
            r == (self.phase_v() == RunPhase::Done),
    {
        self.phase == RunPhase::Done
    }

    /// The phase the run stands in.
    pub fn phase(&self) -> (r: RunPhase)
        ensures
            r == self.phase_v(),
    {
        self.phase
    }

    /// The delay the caller must perform, while one is awaited.
    pub fn pending_delay_ms(&self) -> (r: Option<u64>)
        requires
            self.wf(),
        ensures
            r is Some <==> self.phase_v() == RunPhase::AwaitDelay,
            r is Some ==> Some(r->0) == self.chain_view().config.delay_between_requests,
    {
        if self.phase == RunPhase::AwaitDelay {
            match self.chain.config.delay_between_requests {
                Some(d) => Some(d),
                None => None,
            }
        } else {
            None
        }
    }

    /// The step the run stands on.
    pub fn current_step(&self) -> (r: &WorkflowStep)
        requires
            self.wf(),
            self.phase_v() == RunPhase::AwaitPre || self.phase_v() == RunPhase::AwaitSend
                || self.phase_v() == RunPhase::AwaitPost,
        ensures
            r@ == self.cur_step(),
    {
        proof {
            assert(self.chain.steps.deep_view().len() == self.chain.steps@.len());
            assert(self.chain.steps.deep_view()[self.step_index as int] == self.chain.steps@[self.step_index as int]@);
        }
        &self.chain.steps[self.step_index]
    }

    /// The resolved request the caller must send, while one is awaited.
    pub fn pending_request(&self) -> (r: &ResolvedRequest)
        requires
            self.wf(),
            self.phase_v() == RunPhase::AwaitSend,
        ensures
            r@ == spec_resolve(self.cur_step(), self.value_map()),
    {
        match &self.pending_request {
            Some(req) => req,
            None => unreached(),
        }
    }

    /// Resolve the current step's templates and await the send.
    fn resolve_current(&mut self)
        requires
            old(self).wf(),
            old(self).phase_v() == RunPhase::AwaitPre,
        ensures
            final(self).wf(),
            final(self).phase_v() == RunPhase::AwaitSend,
            final(self).chain_view() == old(self).chain_view(),
            final(self).res() == old(self).res(),
            final(self).vars() == old(self).vars(),
            final(self).resp_data() == old(self).resp_data(),
            final(self).console() == old(self).console(),
            final(self).iteration_v() == old(self).iteration_v(),
            final(self).step_index_v() == old(self).step_index_v(),
    {
        let values = self.context.variable_values();
        let sub = VariableSubstitutor::new();
        proof {
            assert(self.chain.steps.deep_view().len() == self.chain.steps@.len());
            assert(self.chain.steps.deep_view()[self.step_index as int] == self.chain.steps@[self.step_index as int]@);
        }
        let step = &self.chain.steps[self.step_index];
        let ghost sv = step@;
        let url = sub.substitute(step.url.as_str(), &values);
        let mut headers: Vec<String> = Vec::new();
        let hn = step.headers.len();
        let mut i: usize = 0;
        proof {
            assert(sv.headers.len() == step.headers@.len());
        }
        while i < hn
            invariant
                values.wf(),
                hn == step.headers@.len(),
                sv == step@,
                sv.headers.len() == hn,
                0 <= i <= hn,
                headers.deep_view().len() == i,
                forall|k: int|
                    0 <= k < i ==> #[trigger] headers.deep_view()[k] == spec_substitute(
                        sv.headers[k],
                        values@,
                    ),
            decreases hn - i,
        {
            proof {
                assert(sv.headers[i as int] == step.headers@[i as int]@);
            }
            let ghost pre_dv = headers.deep_view();
            let piece = sub.substitute(step.headers[i].as_str(), &values);
            let ghost piece_v = piece@;
            headers.push(piece);
            proof {
                assert(headers.deep_view() =~= pre_dv.push(piece_v));
            }
            i += 1;
        }
        let mut query_params: Vec<String> = Vec::new();
        let qn = step.query_params.len();
        let mut j: usize = 0;
        proof {
            assert(sv.query_params.len() == step.query_params@.len());
        }
        while j < qn
            invariant
                values.wf(),
                qn == step.query_params@.len(),
                sv == step@,
                sv.query_params.len() == qn,
                0 <= j <= qn,
                query_params.deep_view().len() == j,
                forall|k: int|
                    0 <= k < j ==> #[trigger] query_params.deep_view()[k] == spec_substitute(
                        sv.query_params[k],
                        values@,
                    ),
            decreases qn - j,
        {
            proof {
                assert(sv.query_params[j as int] == step.query_params@[j as int]@);
            }
            let ghost pre_dv = query_params.deep_view();
            let piece = sub.substitute(step.query_params[j].as_str(), &values);
            let ghost piece_v = piece@;
            query_params.push(piece);
            proof {
                assert(query_params.deep_view() =~= pre_dv.push(piece_v));
            }
            j += 1;
        }
        let body: Option<String> = match &step.body {
            Some(b) => Some(sub.substitute(b.as_str(), &values)),
            None => None,
        };
        let req = ResolvedRequest {
            method: step.method,
            url,
            headers,
            query_params,
            body,
            timeout_ms: step.timeout_ms,
        };
        proof {
            assert(req@.headers =~= sv.headers.map_values(
                |h: Seq<char>| spec_substitute(h, values@),
            ));
            assert(req@.query_params =~= sv.query_params.map_values(
                |q: Seq<char>| spec_substitute(q, values@),
            ));
            assert(req@ == spec_resolve(sv, self.value_map()));
        }
        self.pending_request = Some(req);
        self.phase = RunPhase::AwaitSend;
    }

    /// Fold a finished step in and decide where the run goes next.
    fn record_and_advance(&mut self, step_result: StepResult)
        requires
            old(self).wf(),
            old(self).phase_v() == RunPhase::AwaitPre || old(self).phase_v()
                == RunPhase::AwaitSend || old(self).phase_v() == RunPhase::AwaitPost,
            step_result.wf(),
            old(self).res().total_duration_ms + step_result.duration_ms <= u64::MAX,
        ensures
            final(self).wf(),
            final(self).chain_view() == old(self).chain_view(),
            final(self).res().step_results == old(self).res().step_results.push(step_result@),
            final(self).res().success == (old(self).res().success && step_result@.success),
            final(self).res().total_duration_ms == old(self).res().total_duration_ms
                + step_result@.duration_ms,
            final(self).res().chain_name == old(self).res().chain_name,
            final(self).vars() == old(self).vars(),
            final(self).resp_data() == old(self).resp_data(),
            final(self).console() == old(self).console(),
            spec_advance_ok(
                old(self).chain_view(),
                old(self).iteration_v(),
                old(self).step_index_v(),
                old(self).res().total_duration_ms as int,
                step_result@,
                final(self).phase_v(),
                final(self).iteration_v(),
                final(self).step_index_v(),
            ),
    {
        proof {
            assert(self.chain.steps.deep_view().len() == self.chain.steps@.len());
            assert(self.chain.steps.deep_view()[self.step_index as int] == self.chain.steps@[self.step_index as int]@);
        }
        assert(self.step_index < self.chain.steps@.len());
        let stops = !step_result.success && self.chain.config.stop_on_failure
            && !self.chain.steps[self.step_index].continue_on_error;
        let len = self.chain.steps.len();
        let ends = stops || self.step_index == len - 1;
        self.result.add_step_result(step_result);
        self.pending_request = None;
        self.pending_response = None;
        if !ends {
            self.step_index += 1;
            self.phase = RunPhase::AwaitPre;
            return ;
        }
        match self.chain.config.max_duration {
            Some(max) => {
                if self.result.total_duration_ms >= max {
                    self.phase = RunPhase::Done;
                    return ;
                }
            },
            None => {},
        }
        if self.iteration + 1 >= self.chain.config.iterations {
            self.phase = RunPhase::Done;
            return ;
        }
        self.iteration += 1;
        self.step_index = 0;
        if self.chain.config.delay_between_requests.is_some() {
            self.phase = RunPhase::AwaitDelay;
        } else {
            self.phase = RunPhase::AwaitPre;
        }
    }

    /// The caller ran (or skipped) the pre-request script and reports
    /// how it went.  A failure ends the step; otherwise the script's
    /// final scope replaces the pool and the resolved request is built.
    pub fn on_pre_script(&mut self, outcome: ScriptOutcome, elapsed_ms: u64)
        requires
            old(self).wf(),
            old(self).phase_v() == RunPhase::AwaitPre,
            old(self).res().total_duration_ms + elapsed_ms <= u64::MAX,
        ensures
            final(self).wf(),
            final(self).chain_view() == old(self).chain_view(),
            outcome@ is NotRun ==> (final(self).phase_v() == RunPhase::AwaitSend && final(self).res() == old(self).res() && final(self).vars() == old(self).vars() && final(self).console() == old(self).console() && final(self).step_index_v() == old(self).step_index_v() && final(self).iteration_v() == old(self).iteration_v()),
            outcome@ matches ScriptOutcomeView::Completed(vars, console) ==> (final(self).phase_v()
                == RunPhase::AwaitSend && final(self).res() == old(self).res() && final(self).vars() =~= pairs_map(vars) && final(self).console() == old(self).console() + console
                && final(self).step_index_v() == old(self).step_index_v() && final(self).iteration_v() == old(self).iteration_v()),
            outcome@ matches ScriptOutcomeView::Failed(msg) ==> (final(self).vars() == old(self).vars() && final(self).res().step_results == old(self).res().step_results.push(
                script_failure_result(old(self).cur_step().name, msg, elapsed_ms),
            ) && final(self).res().success == false && spec_advance_ok(
                old(self).chain_view(),
                old(self).iteration_v(),
                old(self).step_index_v(),
                old(self).res().total_duration_ms as int,
                script_failure_result(old(self).cur_step().name, msg, elapsed_ms),
                final(self).phase_v(),
                final(self).iteration_v(),
                final(self).step_index_v(),
            )),
    {
        proof {
            assert(self.chain.steps.deep_view().len() == self.chain.steps@.len());
            assert(self.chain.steps.deep_view()[self.step_index as int] == self.chain.steps@[self.step_index as int]@);
        }
        match outcome {
            ScriptOutcome::NotRun => {
                self.resolve_current();
            },
            ScriptOutcome::Completed(vars, console) => {
                self.context.replace_variables(vars);
                self.append_console(console);
                self.resolve_current();
            },
            ScriptOutcome::Failed(msg) => {
                let ghost msg_v = msg@;
                let mut detail = String::new();
                detail.append("Script execution error: ");
                detail.append(msg.as_str());
                let error = crate::error::Error::InvalidCommand(detail);
                let name = self.chain.steps[self.step_index].name.clone();
                let text = error.message();
                proof {
                    reveal_strlit("Invalid command: ");
                    reveal_strlit("Script execution error: ");
                    reveal_strlit("Invalid command: Script execution error: ");
                    assert(text@ =~= "Invalid command: Script execution error: "@ + msg_v);
                }
                let step_result = StepResult::failure(name, text, elapsed_ms);
                proof {
                    assert(step_result@ == script_failure_result(
                        old(self).cur_step().name,
                        msg_v,
                        elapsed_ms,
                    ));
                }
                self.record_and_advance(step_result);
            },
        }
    }

    fn append_console(&mut self, lines: Vec<String>)
        requires
            old(self).wf(),
        ensures
            final(self).wf(),
            final(self).console() =~= old(self).console() + lines.deep_view(),
            final(self).vars() == old(self).vars(),
            final(self).resp_data() == old(self).resp_data(),
            final(self).res() == old(self).res(),
            final(self).chain_view() == old(self).chain_view(),
            final(self).phase_v() == old(self).phase_v(),
            final(self).iteration_v() == old(self).iteration_v(),
            final(self).step_index_v() == old(self).step_index_v(),
            final(self).pending_request_unchanged(old(self)),
    {
        let n = lines.len();
        let ghost lv = lines.deep_view();
        let mut i: usize = 0;
        proof {
            assert(lv.take(0) =~= Seq::<Seq<char>>::empty());
            assert(old(self).console() + lv.take(0) =~= old(self).console());
        }
        while i < n
            invariant
                n == lines@.len(),
                lv == lines.deep_view(),
                lv.len() == n,
                0 <= i <= n,
                self.wf(),
                self.console() =~= old(self).console() + lv.take(i as int),
                self.vars() == old(self).vars(),
                self.resp_data() == old(self).resp_data(),
                self.res() == old(self).res(),
                self.chain_view() == old(self).chain_view(),
                self.phase_v() == old(self).phase_v(),
                self.iteration_v() == old(self).iteration_v(),
                self.step_index_v() == old(self).step_index_v(),
                self.pending_request_unchanged(old(self)),
            decreases n - i,
        {
            let line = lines[i].clone();
            proof {
                assert(lv[i as int] == lines@[i as int]@);
                assert(lv.take(i + 1) =~= lv.take(i as int).push(lv[i as int]));
            }
            self.context.console_log(line);
            i += 1;
        }
        proof {
            assert(lv.take(n as int) =~= lv);
        }
    }

    /// The request and response slots are as they were.
    pub closed spec fn pending_request_unchanged(&self, other: &ChainRun) -> bool {
        self.pending_request == other.pending_request && self.pending_response
            == other.pending_response
    }

    /// The caller performed the inter-iteration delay.
    pub fn on_delay_done(&mut self)
        requires
            old(self).wf(),
            old(self).phase_v() == RunPhase::AwaitDelay,
        ensures
            final(self).wf(),
            final(self).chain_view() == old(self).chain_view(),
            final(self).res() == old(self).res(),
            final(self).vars() == old(self).vars(),
            final(self).console() == old(self).console(),
            old(self).chain_view().steps.len() > 0 ==> (final(self).phase_v()
                == RunPhase::AwaitPre && final(self).iteration_v() == old(self).iteration_v()
                && final(self).step_index_v() == 0),
            (old(self).chain_view().steps.len() == 0 && old(self).iteration_v() + 1 < old(self).chain_view().config.iterations) ==> (final(self).phase_v() == RunPhase::AwaitDelay
                && final(self).iteration_v() == old(self).iteration_v() + 1),
            (old(self).chain_view().steps.len() == 0 && old(self).iteration_v() + 1 >= old(self).chain_view().config.iterations) ==> final(self).phase_v() == RunPhase::Done,
    {
        if self.chain.steps.len() > 0 {
            self.phase = RunPhase::AwaitPre;
            proof {
                assert(self.chain.steps.deep_view().len() == self.chain.steps@.len());
            }
        } else {
            if self.iteration < self.chain.config.iterations - 1 {
                self.iteration += 1;
                self.phase = RunPhase::AwaitDelay;
            } else {
                self.phase = RunPhase::Done;
            }
            proof {
                assert(self.chain.steps.deep_view().len() == self.chain.steps@.len());
            }
        }
    }

    /// The caller sent the request and a response came back.  The
    /// response's status code and body are recorded in the context's
    /// response data, and the post-response script is awaited.
    pub fn on_response(&mut self, response: HttpResponse)
        requires
            old(self).wf(),
            old(self).phase_v() == RunPhase::AwaitSend,
        ensures
            final(self).wf(),
            final(self).chain_view() == old(self).chain_view(),
            final(self).phase_v() == RunPhase::AwaitPost,
            final(self).res() == old(self).res(),
            final(self).vars() == old(self).vars(),
            final(self).console() == old(self).console(),
            final(self).resp_data() =~= old(self).resp_data().insert(
                "status"@,
                spec_u64_str(response@.status as int),
            ).insert("body"@, response@.body),
            final(self).pending_response_v() == response@,
            final(self).iteration_v() == old(self).iteration_v(),
            final(self).step_index_v() == old(self).step_index_v(),
    {
        let mut status_key = String::new();
        status_key.append("status");
        let mut body_key = String::new();
        body_key.append("body");
        self.context.set_response_data(
            status_key,
            crate::numbers::u64_to_string(response.status as u64),
        );
        self.context.set_response_data(body_key, response.body.clone());
        self.pending_response = Some(response);
        self.phase = RunPhase::AwaitPost;
        proof {
            assert(self.chain.steps.deep_view().len() == self.chain.steps@.len());
        }
    }

    /// The caller could not complete the request.  The step fails with
    /// the transport's error text; nothing is extracted.
    pub fn on_transport_error(&mut self, error: String, elapsed_ms: u64)
        requires
            old(self).wf(),
            old(self).phase_v() == RunPhase::AwaitSend,
            old(self).res().total_duration_ms + elapsed_ms <= u64::MAX,
        ensures
            final(self).wf(),
            final(self).chain_view() == old(self).chain_view(),
            final(self).vars() == old(self).vars(),
            final(self).console() == old(self).console(),
            final(self).res().step_results == old(self).res().step_results.push(
                transport_failure_result(old(self).cur_step().name, error@, elapsed_ms),
            ),
            final(self).res().success == false,
            final(self).res().total_duration_ms == old(self).res().total_duration_ms + elapsed_ms,
            spec_advance_ok(
                old(self).chain_view(),
                old(self).iteration_v(),
                old(self).step_index_v(),
                old(self).res().total_duration_ms as int,
                transport_failure_result(old(self).cur_step().name, error@, elapsed_ms),
                final(self).phase_v(),
                final(self).iteration_v(),
                final(self).step_index_v(),
            ),
    {
        proof {
            assert(self.chain.steps.deep_view().len() == self.chain.steps@.len());
            assert(self.chain.steps.deep_view()[self.step_index as int] == self.chain.steps@[self.step_index as int]@);
        }
        let err = crate::error::Error::HttpRequest(error);
        let name = self.chain.steps[self.step_index].name.clone();
        let step_result = StepResult::failure(name, err.message(), elapsed_ms);
        self.record_and_advance(step_result);
    }

    /// The caller ran (or skipped) the post-response script and reports
    /// how it went.  Assertions are then validated and, when the step
    /// succeeded, variables are extracted from the response body into
    /// the pool.
    pub fn on_post_script(&mut self, outcome: ScriptOutcome, elapsed_ms: u64)
        requires
            old(self).wf(),
            old(self).phase_v() == RunPhase::AwaitPost,
            old(self).res().total_duration_ms + elapsed_ms <= u64::MAX,
        ensures
            final(self).wf(),
            final(self).chain_view() == old(self).chain_view(),
            final(self).res().total_duration_ms == old(self).res().total_duration_ms + elapsed_ms,
            final(self).res().step_results.len() == old(self).res().step_results.len() + 1,
            final(self).res().step_results.drop_last() == old(self).res().step_results,
            ({
                let added = final(self).res().step_results.last();
                let resp = old(self).pending_response_v();
                let step = old(self).cur_step();
                let ran_ok = !(outcome@ is Failed);
                let passed = spec_validation_ok(resp, step.assertions);
                &&& added.step_name == step.name
                &&& added.duration_ms == elapsed_ms
                &&& added.success == (ran_ok && passed)
                &&& (ran_ok && passed) ==> added.response == Some(resp)
                &&& (ran_ok && passed) ==> (added.extracted_variables.dom()
                    =~= step.extract_variables.dom() && forall|k: Seq<char>|
                    #[trigger] step.extract_variables.contains_key(k)
                        ==> added.extracted_variables[k] == spec_extract_from_body(
                        resp.body,
                        step.extract_variables[k],
                    ))
                &&& !(ran_ok && passed) ==> added.extracted_variables =~= Map::<
                    Seq<char>,
                    Seq<char>,
                >::empty()
                &&& (ran_ok && !passed) ==> (added.response is None && added.error == Some(
                    "Assertions failed: "@ + crate::validator::spec_report_summary(
                        crate::validator::spec_enabled(step.assertions).len() as int,
                        spec_failed_count(resp, step.assertions),
                        false,
                    ),
                ))
                &&& (outcome@ matches ScriptOutcomeView::Failed(msg) ==> added
                    == script_failure_result(step.name, msg, elapsed_ms))
                &&& spec_advance_ok(
                    old(self).chain_view(),
                    old(self).iteration_v(),
                    old(self).step_index_v(),
                    old(self).res().total_duration_ms as int,
                    added,
                    final(self).phase_v(),
                    final(self).iteration_v(),
                    final(self).step_index_v(),
                )
            }),
            final(self).res().success == (old(self).res().success && final(self).res().step_results.last().success),
            ({
                let resp = old(self).pending_response_v();
                let step = old(self).cur_step();
                (!(outcome@ is Failed) && spec_validation_ok(resp, step.assertions)) ==> forall|
                    k: Seq<char>,
                |
                    #[trigger] step.extract_variables.contains_key(k) ==> final(self).value_map().contains_key(k) && final(self).value_map()[k] == spec_extract_from_body(
                        resp.body,
                        step.extract_variables[k],
                    )
            }),
    {
        proof {
            assert(self.chain.steps.deep_view().len() == self.chain.steps@.len());
            assert(self.chain.steps.deep_view()[self.step_index as int] == self.chain.steps@[self.step_index as int]@);
        }
        // the step is being finished; the response leaves its slot now
        self.phase = RunPhase::AwaitPre;
        assert(self.wf());
        let response = match self.pending_response.take() {
            Some(r) => r,
            None => unreached(),
        };
        assert(self.wf());
        let ghost resp = response@;
        let ghost step_v = old(self).cur_step();
        match outcome {
            ScriptOutcome::Failed(msg) => {
                let ghost msg_v = msg@;
                let mut detail = String::new();
                detail.append("Script execution error: ");
                detail.append(msg.as_str());
                let error = crate::error::Error::InvalidCommand(detail);
                let name = self.chain.steps[self.step_index].name.clone();
                let text = error.message();
                proof {
                    reveal_strlit("Invalid command: ");
                    reveal_strlit("Script execution error: ");
                    reveal_strlit("Invalid command: Script execution error: ");
                    assert(text@ =~= "Invalid command: Script execution error: "@ + msg_v);
                }
                let step_result = StepResult::failure(name, text, elapsed_ms);
                proof {
                    assert(step_result@ == script_failure_result(
                        old(self).cur_step().name,
                        msg_v,
                        elapsed_ms,
                    ));
                }
                self.record_and_advance(step_result);
                return ;
            },
            ScriptOutcome::Completed(vars, console) => {
                self.context.replace_variables(vars);
                self.append_console(console);
            },
            ScriptOutcome::NotRun => {},
        }
        // validate the declared assertions
        if self.chain.steps[self.step_index].assertions.len() > 0 {
            let validator = ResponseValidator::new();
            let report = validator.validate(
                &response,
                &self.chain.steps[self.step_index].assertions,
            );
            proof {
                assert(self.chain.steps@[self.step_index as int].assertions.deep_view()
                    == step_v.assertions);
                lemma_report_matches_spec(resp, step_v.assertions, &report);
            }
            if !report.success {
                proof {
                    let en = crate::validator::spec_enabled(step_v.assertions);
                    let rs = report.results.deep_view();
                    assert forall|i: int| 0 <= i < rs.len() implies (#[trigger] rs[i]).passed
                        == spec_assertion_passes(resp, en[i]) by {
                        assert(crate::validator::spec_outcome_ok(resp, en[i], rs[i]));
                    }
                    lemma_count_passed_filter(resp, en, rs);
                    assert(report.results.deep_view().len() == report.results@.len());
                    assert(report.total == en.len());
                    assert(report.failed == spec_failed_count(resp, step_v.assertions));
                }
                let mut why = String::new();
                why.append("Assertions failed: ");
                let s = report.summary();
                why.append(s.as_str());
                proof {
                    assert(why@ =~= "Assertions failed: "@
                        + crate::validator::spec_report_summary(
                        crate::validator::spec_enabled(step_v.assertions).len() as int,
                        spec_failed_count(resp, step_v.assertions),
                        false,
                    ));
                }
                let name = self.chain.steps[self.step_index].name.clone();
                let step_result = StepResult::failure(name, why, elapsed_ms);
                self.record_and_advance(step_result);
                return ;
            }
        } else {
            proof {
                lemma_validation_vacuous(resp, step_v.assertions);
            }
        }
        // extraction
        let extracted = self.run_extraction(&response);
        let name = self.chain.steps[self.step_index].name.clone();
        let step_result = StepResult::success(name, response, extracted, elapsed_ms);
        self.record_and_advance(step_result);
    }

    /// Extract the declared variables from the response body into the
    /// pool.  A body that is not valid JSON, or a path that misses,
    /// writes the empty string under the declared name.
    fn run_extraction(&mut self, response: &HttpResponse) -> (extracted: AssocMap<String>)
        requires
            old(self).wf(),
            old(self).phase_v() == RunPhase::AwaitPre,
        ensures
            final(self).wf(),
            extracted.wf(),
            final(self).chain_view() == old(self).chain_view(),
            final(self).res() == old(self).res(),
            final(self).resp_data() == old(self).resp_data(),
            final(self).console() == old(self).console(),
            final(self).phase_v() == old(self).phase_v(),
            final(self).iteration_v() == old(self).iteration_v(),
            final(self).step_index_v() == old(self).step_index_v(),
            final(self).pending_request_unchanged(old(self)),
            ({
                let step = old(self).cur_step();
                let body = response@.body;
                &&& extracted@.dom() =~= step.extract_variables.dom()
                &&& forall|k: Seq<char>|
                    #[trigger] step.extract_variables.contains_key(k) ==> extracted@[k]
                        == spec_extract_from_body(body, step.extract_variables[k])
                &&& forall|k: Seq<char>|
                    #[trigger] step.extract_variables.contains_key(k) ==> final(self).vars().contains_key(k) && final(self).vars()[k] == (ScriptVariableView {
                        value: spec_extract_from_body(body, step.extract_variables[k]),
                        is_secret: false,
                    })
                &&& forall|k: Seq<char>|
                    !step.extract_variables.contains_key(k) ==> (#[trigger] final(self).vars().contains_key(k) == old(self).vars().contains_key(k) && (old(self).vars().contains_key(k) ==> final(self).vars()[k] == old(self).vars()[k]))
            }),
    {
        proof {
            assert(self.chain.steps.deep_view().len() == self.chain.steps@.len());
            assert(self.chain.steps.deep_view()[self.step_index as int] == self.chain.steps@[self.step_index as int]@);
        }
        let ghost step_v = old(self).cur_step();
        let ghost body_v = response@.body;
        let mut extracted: AssocMap<String> = AssocMap::new();
        let table = self.chain.steps[self.step_index].extract_variables.entries();
        let n = table.len();
        let ghost tv = table@;
        let ghost vars0 = old(self).vars();
        let mut i: usize = 0;
        proof {
            assert(extracted@ =~= extracted_prefix(body_v, tv, 0));
            assert(self.context.vars() =~= vars_prefix(vars0, body_v, tv, 0));
        }
        while i < n
            invariant
                old(self).wf(),
                self.context.wf(),
                self.chain == old(self).chain,
                self.result == old(self).result,
                self.iteration == old(self).iteration,
                self.step_index == old(self).step_index,
                self.phase == old(self).phase,
                self.pending_request == old(self).pending_request,
                self.pending_response == old(self).pending_response,
                step_v == old(self).cur_step(),
                body_v == response@.body,
                vars0 == old(self).vars(),
                tv == old(self).chain.steps@[old(self).step_index as int].extract_variables.seq(),
                table@ == tv,
                n == tv.len(),
                0 <= i <= n,
                extracted.wf(),
                crate::strmap::unique_keys(tv),
                extracted@ =~= extracted_prefix(body_v, tv, i as int),
                self.context.vars() =~= vars_prefix(vars0, body_v, tv, i as int),
                self.context.resp_data() == old(self).resp_data(),
                self.context.console() == old(self).console(),
            decreases n - i,
        {
            let value = crate::json::extract_from_body(
                response.body.as_str(),
                table[i].1.as_str(),
            );
            let name = table[i].0.clone();
            let name2 = table[i].0.clone();
            let ghost val = value@;
            proof {
                assert(tv[i as int].0@ == table@[i as int].0@);
                assert(val == spec_extract_from_body(body_v, tv[i as int].1@));
            }
            self.context.set_variable(name, value.clone());
            extracted.insert(name2, value);
            proof {
                assert(extracted@ =~= extracted_prefix(body_v, tv, i + 1));
                assert(self.context.vars() =~= vars_prefix(vars0, body_v, tv, i + 1));
            }
            i += 1;
        }
        proof {
            let em = step_v.extract_variables;
            let am = self.chain.steps@[self.step_index as int].extract_variables;
            assert(em == am@);
            assert(am.seq() == tv);
            assert forall|k: Seq<char>| #[trigger] em.contains_key(k) implies
                extracted@.contains_key(k) && extracted@[k] == spec_extract_from_body(
                body_v,
                em[k],
            ) && self.context.vars().contains_key(k) && self.context.vars()[k] == (
            ScriptVariableView {
                value: spec_extract_from_body(body_v, em[k]),
                is_secret: false,
            }) by {
                am.lemma_view_key(k);
                let j = choose|j: int|
                    0 <= j < am.seq().len() && (#[trigger] am.seq()[j]).0@ == k;
                am.lemma_entry_in_view(j);
                assert(tv[j].0@ == k && em[k] == tv[j].1@);
                lemma_extracted_prefix_get(body_v, tv, n as int, j);
                lemma_vars_prefix_get(vars0, body_v, tv, n as int, j);
            }
            assert forall|k: Seq<char>| #[trigger] extracted@.contains_key(k) implies
                em.contains_key(k) by {
                lemma_extracted_prefix_key(body_v, tv, n as int, k);
                let j = choose|j: int| 0 <= j < n && (#[trigger] tv[j]).0@ == k;
                am.lemma_entry_in_view(j);
            }
            assert(extracted@.dom() =~= em.dom());
            assert forall|k: Seq<char>| !em.contains_key(k) implies (#[trigger] self.context.vars().contains_key(
                k,
            ) == vars0.contains_key(k) && (vars0.contains_key(k)
                ==> self.context.vars()[k] == vars0[k])) by {
                am.lemma_view_key(k);
                assert(forall|j: int| 0 <= j < tv.len() ==> (#[trigger] tv[j]).0@ != k);
                lemma_vars_prefix_untouched(vars0, body_v, tv, n as int, k);
            }
        }
        extracted
    }

    /// The duration recorded so far, in milliseconds.
    pub fn total_duration_so_far(&self) -> (r: u64)
        ensures
            r == self.res().total_duration_ms,
    {
        self.result.total_duration_ms
    }

    /// The variable pool as name-value pairs, for handing to a script.
    pub fn variables_snapshot(&self) -> (r: Vec<(String, String)>)
        requires
            self.wf(),
        ensures
            forall|j: int|
                0 <= j < r@.len() ==> self.value_map().contains_key((#[trigger] r@[j]).0@)
                    && self.value_map()[r@[j].0@] == r@[j].1@,
    {
        let values = self.context.variable_values();
        let entries = values.entries();
        let n = entries.len();
        let mut out: Vec<(String, String)> = Vec::new();
        let mut i: usize = 0;
        while i < n
            invariant
                values.wf(),
                values@ == self.value_map(),
                n == entries@.len(),
                entries@ == values.seq(),
                0 <= i <= n,
                forall|j: int|
                    0 <= j < out@.len() ==> self.value_map().contains_key((#[trigger] out@[j]).0@)
                        && self.value_map()[out@[j].0@] == out@[j].1@,
            decreases n - i,
        {
            proof {
                values.lemma_entry_in_view(i as int);
            }
            out.push((entries[i].0.clone(), entries[i].1.clone()));
            i += 1;
        }
        out
    }

    /// The request scratch data as key-value pairs.
    pub fn request_data_snapshot(&self) -> (r: Vec<(String, String)>)
        requires
            self.wf(),
        ensures
            forall|j: int|
                0 <= j < r@.len() ==> self.context_req_data().contains_key(
                    (#[trigger] r@[j]).0@,
                ) && self.context_req_data()[r@[j].0@] == r@[j].1@,
    {
        snapshot_pairs(self.context.request_data())
    }

    /// The response scratch data as key-value pairs.
    pub fn response_data_snapshot(&self) -> (r: Vec<(String, String)>)
        requires
            self.wf(),
        ensures
            forall|j: int|
                0 <= j < r@.len() ==> self.resp_data().contains_key((#[trigger] r@[j]).0@)
                    && self.resp_data()[r@[j].0@] == r@[j].1@,
    {
        snapshot_pairs(self.context.response_data())
    }

    /// The request scratch data, by key.
    pub closed spec fn context_req_data(&self) -> Map<Seq<char>, Seq<char>> {
        self.context.req_data()
    }

    /// Take the finished run's result; the final variable pool is
    /// snapshotted into it.
    pub fn take_result(self) -> (r: ExecutionResult)
        requires
            self.wf(),
            self.phase_v() == RunPhase::Done,
        ensures
            r.wf(),
            r@.chain_name == self.chain_view().name,
            r@.step_results == self.res().step_results,
            r@.success == self.res().success,
            r@.total_duration_ms == self.res().total_duration_ms,
            r@.final_variables =~= self.value_map(),
    {
        let mut result = self.result;
        result.final_variables = self.context.variable_values();
        result
    }
}

/// Copy a string table into name-value pairs.
fn snapshot_pairs(m: &AssocMap<String>) -> (r: Vec<(String, String)>)
    requires
        m.wf(),
    ensures
        forall|j: int|
            0 <= j < r@.len() ==> m@.contains_key((#[trigger] r@[j]).0@) && m@[r@[j].0@]
                == r@[j].1@,
{
    let entries = m.entries();
    let n = entries.len();
    let mut out: Vec<(String, String)> = Vec::new();
    let mut i: usize = 0;
    while i < n
        invariant
            m.wf(),
            n == entries@.len(),
            entries@ == m.seq(),
            0 <= i <= n,
            forall|j: int|
                0 <= j < out@.len() ==> m@.contains_key((#[trigger] out@[j]).0@) && m@[out@[j].0@]
                    == out@[j].1@,
        decreases n - i,
    {
        proof {
            m.lemma_entry_in_view(i as int);
        }
        out.push((entries[i].0.clone(), entries[i].1.clone()));
        i += 1;
    }
    out
}

/// The execution result invariant: the run succeeded exactly when every
/// recorded step did, and the total duration is the sum over the steps.
pub proof fn lemma_execution_invariants(r: &ExecutionResult)
    requires
        r.wf(),
    ensures
        r@.success == all_succeeded(r@.step_results),
        r@.total_duration_ms == sum_durations(r@.step_results),
        r@.success == forall|i: int|
            0 <= i < r@.step_results.len() ==> (#[trigger] r@.step_results[i]).success,
{
}

/// The extraction table folded over its first `i` entries: each name is
/// bound to the path's extraction over the body, the empty string when
/// the body is not valid JSON or the path misses.
pub open spec fn extracted_prefix(
    body: Seq<char>,
    tv: Seq<(String, String)>,
    i: int,
) -> Map<Seq<char>, Seq<char>>
    decreases i,
{
    if i <= 0 {
        Map::empty()
    } else {
        extracted_prefix(body, tv, i - 1).insert(
            tv[i - 1].0@,
            spec_extract_from_body(body, tv[i - 1].1@),
        )
    }
}

/// The variable pool after the first `i` extraction entries are bound.
pub open spec fn vars_prefix(
    vars0: Map<Seq<char>, ScriptVariableView>,
    body: Seq<char>,
    tv: Seq<(String, String)>,
    i: int,
) -> Map<Seq<char>, ScriptVariableView>
    decreases i,
{
    if i <= 0 {
        vars0
    } else {
        vars_prefix(vars0, body, tv, i - 1).insert(
            tv[i - 1].0@,
            ScriptVariableView {
                value: spec_extract_from_body(body, tv[i - 1].1@),
                is_secret: false,
            },
        )
    }
}

proof fn lemma_extracted_prefix_key(
    body: Seq<char>,
    tv: Seq<(String, String)>,
    i: int,
    k: Seq<char>,
)
    requires
        0 <= i <= tv.len(),
    ensures
        extracted_prefix(body, tv, i).contains_key(k) == exists|j: int|
            0 <= j < i && (#[trigger] tv[j]).0@ == k,
    decreases i,
{
    if i > 0 {
        lemma_extracted_prefix_key(body, tv, i - 1, k);
        if extracted_prefix(body, tv, i).contains_key(k) {
            if tv[i - 1].0@ != k {
                let j = choose|j: int| 0 <= j < i - 1 && (#[trigger] tv[j]).0@ == k;
                assert(0 <= j < i && tv[j].0@ == k);
            }
        }
        if exists|j: int| 0 <= j < i && (#[trigger] tv[j]).0@ == k {
            let j = choose|j: int| 0 <= j < i && (#[trigger] tv[j]).0@ == k;
            if j < i - 1 {
                assert(extracted_prefix(body, tv, i - 1).contains_key(k));
            }
        }
    }
}

proof fn lemma_extracted_prefix_get(
    body: Seq<char>,
    tv: Seq<(String, String)>,
    i: int,
    j: int,
)
    requires
        crate::strmap::unique_keys(tv),
        0 <= j < i <= tv.len(),
    ensures
        extracted_prefix(body, tv, i).contains_key(tv[j].0@),
        extracted_prefix(body, tv, i)[tv[j].0@] == spec_extract_from_body(body, tv[j].1@),
    decreases i,
{
    if j == i - 1 {
    } else {
        lemma_extracted_prefix_get(body, tv, i - 1, j);
        assert(tv[j].0@ != tv[i - 1].0@);
    }
}

proof fn lemma_vars_prefix_get(
    vars0: Map<Seq<char>, ScriptVariableView>,
    body: Seq<char>,
    tv: Seq<(String, String)>,
    i: int,
    j: int,
)
    requires
        crate::strmap::unique_keys(tv),
        0 <= j < i <= tv.len(),
    ensures
        vars_prefix(vars0, body, tv, i).contains_key(tv[j].0@),
        vars_prefix(vars0, body, tv, i)[tv[j].0@] == (ScriptVariableView {
            value: spec_extract_from_body(body, tv[j].1@),
            is_secret: false,
        }),
    decreases i,
{
    if j == i - 1 {
    } else {
        lemma_vars_prefix_get(vars0, body, tv, i - 1, j);
        assert(tv[j].0@ != tv[i - 1].0@);
    }
}

proof fn lemma_vars_prefix_untouched(
    vars0: Map<Seq<char>, ScriptVariableView>,
    body: Seq<char>,
    tv: Seq<(String, String)>,
    i: int,
    k: Seq<char>,
)
    requires
        0 <= i <= tv.len(),
        forall|j: int| 0 <= j < tv.len() ==> (#[trigger] tv[j]).0@ != k,
    ensures
        vars_prefix(vars0, body, tv, i).contains_key(k) == vars0.contains_key(k),
        vars0.contains_key(k) ==> vars_prefix(vars0, body, tv, i)[k] == vars0[k],
    decreases i,
{
    if i > 0 {
        lemma_vars_prefix_untouched(vars0, body, tv, i - 1, k);
        assert(tv[i - 1].0@ != k);
    }
}

/// How the run moves on after a step is recorded: the next step of the
/// iteration unless the failure policy or the step count ends the
/// iteration; then the next iteration (after a delay when one is
/// configured) unless the iteration count or the time budget is
/// exhausted.
pub open spec fn spec_advance_ok(
    chain: RequestChainView,
    it: int,
    si: int,
    total_before: int,
    added: StepResultView,
    post_phase: RunPhase,
    post_it: int,
    post_si: int,
) -> bool {
    let cfg = chain.config;
    let stops = step_stops(cfg, chain.steps[si], added.success);
    let ends = stops || si + 1 == chain.steps.len();
    let total = total_before + added.duration_ms;
    if !ends {
        post_phase == RunPhase::AwaitPre && post_si == si + 1 && post_it == it
    } else if cfg.max_duration is Some && total >= cfg.max_duration->0 {
        post_phase == RunPhase::Done
    } else if it + 1 >= cfg.iterations {
        post_phase == RunPhase::Done
    } else if cfg.delay_between_requests is Some {
        post_phase == RunPhase::AwaitDelay && post_it == it + 1 && post_si == 0
    } else {
        post_phase == RunPhase::AwaitPre && post_it == it + 1 && post_si == 0
    }
}

/// The step result recorded when a script fails.
pub open spec fn script_failure_result(
    step_name: Seq<char>,
    msg: Seq<char>,
    elapsed_ms: u64,
) -> StepResultView {
    StepResultView {
        step_name,
        success: false,
        response: None,
        error: Some("Invalid command: Script execution error: "@ + msg),
        extracted_variables: Map::empty(),
        duration_ms: elapsed_ms,
    }
}

/// The step result recorded when the transport fails.
pub open spec fn transport_failure_result(
    step_name: Seq<char>,
    msg: Seq<char>,
    elapsed_ms: u64,
) -> StepResultView {
    StepResultView {
        step_name,
        success: false,
        response: None,
        error: Some("HTTP request failed: "@ + msg),
        extracted_variables: Map::empty(),
        duration_ms: elapsed_ms,
    }
}

/// Whether one assertion holds of a response: the pass bit of the
/// validator's outcome for it.
pub open spec fn spec_assertion_passes(
    resp: HttpResponseView,
    a: crate::assertion::AssertionView,
) -> bool {
    match a.assertion_type {
        crate::assertion::AssertionTypeView::StatusCode => crate::matcher::spec_matches(
            a.matcher.kind,
            a.matcher.expected,
            spec_u64_str(resp.status as int),
        ),
        crate::assertion::AssertionTypeView::Header(name) => crate::matcher::spec_matches(
            a.matcher.kind,
            a.matcher.expected,
            crate::http::spec_header_lookup(resp.headers, name),
        ),
        crate::assertion::AssertionTypeView::Body => crate::matcher::spec_matches(
            a.matcher.kind,
            a.matcher.expected,
            resp.body,
        ),
        crate::assertion::AssertionTypeView::ResponseTime => crate::matcher::spec_matches(
            a.matcher.kind,
            a.matcher.expected,
            spec_u64_str(resp.duration_ms as int),
        ),
        crate::assertion::AssertionTypeView::JsonPath(path) => match json_parse(resp.body) {
            Some(doc) => crate::matcher::spec_matches(
                a.matcher.kind,
                a.matcher.expected,
                spec_extract(doc, path),
            ),
            None => false,
        },
        crate::assertion::AssertionTypeView::Custom(_) => true,
    }
}

/// A step's assertions hold of a response when every enabled one
/// passes.  A step without assertions passes vacuously.
pub open spec fn spec_validation_ok(
    resp: HttpResponseView,
    assertions: Seq<crate::assertion::AssertionView>,
) -> bool {
    forall|i: int|
        0 <= i < crate::validator::spec_enabled(assertions).len() ==> spec_assertion_passes(
            resp,
            #[trigger] crate::validator::spec_enabled(assertions)[i],
        )
}

/// Number of enabled assertions that fail against a response.
pub open spec fn spec_failed_count(
    resp: HttpResponseView,
    assertions: Seq<crate::assertion::AssertionView>,
) -> int {
    crate::validator::spec_enabled(assertions).len() - crate::validator::spec_enabled(
        assertions,
    ).filter(|a: crate::assertion::AssertionView| spec_assertion_passes(resp, a)).len()
}

/// The validator's pass count equals the number of enabled assertions
/// that pass, when each result's pass bit agrees with the spec.
proof fn lemma_count_passed_filter(
    resp: HttpResponseView,
    en: Seq<crate::assertion::AssertionView>,
    rs: Seq<crate::assertion::AssertionResultView>,
)
    requires
        rs.len() == en.len(),
        forall|i: int|
            0 <= i < rs.len() ==> (#[trigger] rs[i]).passed == spec_assertion_passes(resp, en[i]),
    ensures
        count_passed(rs) == en.filter(
            |a: crate::assertion::AssertionView| spec_assertion_passes(resp, a),
        ).len(),
    decreases rs.len(),
{
    reveal_with_fuel(Seq::filter, 2);
    if rs.len() > 0 {
        assert(forall|i: int|
            0 <= i < rs.len() - 1 ==> #[trigger] rs.drop_last()[i] == rs[i]);
        assert(forall|i: int|
            0 <= i < en.len() - 1 ==> #[trigger] en.drop_last()[i] == en[i]);
        lemma_count_passed_filter(resp, en.drop_last(), rs.drop_last());
        assert(rs.last().passed == spec_assertion_passes(resp, en.last()));
    } else {
        assert(en =~= Seq::<crate::assertion::AssertionView>::empty());
    }
}

proof fn lemma_validation_vacuous(resp: HttpResponseView, assertions: Seq<crate::assertion::AssertionView>)
    requires
        assertions.len() == 0,
    ensures
        spec_validation_ok(resp, assertions),
{
    assert(assertions =~= Seq::<crate::assertion::AssertionView>::empty());
    reveal_with_fuel(Seq::filter, 1);
    assert(crate::validator::spec_enabled(assertions).len() == 0);
}

/// The validator's report agrees with `spec_validation_ok`: its success
/// bit holds exactly when every enabled assertion passes.
proof fn lemma_report_matches_spec(
    resp: HttpResponseView,
    assertions: Seq<crate::assertion::AssertionView>,
    report: &crate::validator::ValidationReport,
)
    requires
        report.wf(),
        report.results.deep_view().len() == crate::validator::spec_enabled(assertions).len(),
        forall|i: int|
            0 <= i < report.results.deep_view().len() ==> crate::validator::spec_outcome_ok(
                resp,
                crate::validator::spec_enabled(assertions)[i],
                #[trigger] report.results.deep_view()[i],
            ),
    ensures
        report.success == spec_validation_ok(resp, assertions),
{
    let rs = report.results.deep_view();
    let en = crate::validator::spec_enabled(assertions);
    assert forall|i: int| 0 <= i < rs.len() implies (#[trigger] rs[i]).passed
        == spec_assertion_passes(resp, en[i]) by {
        assert(crate::validator::spec_outcome_ok(resp, en[i], rs[i]));
    }
    lemma_count_passed_all(rs);
    if report.success {
        assert(count_passed(rs) == rs.len());
        assert forall|i: int| 0 <= i < en.len() implies spec_assertion_passes(
            resp,
            #[trigger] en[i],
        ) by {
            assert(rs[i].passed);
        }
    } else {
        assert(count_passed(rs) < rs.len());
        assert(!(forall|i: int| 0 <= i < rs.len() ==> (#[trigger] rs[i]).passed));
        let i = choose|i: int| 0 <= i < rs.len() && !(#[trigger] rs[i]).passed;
        assert(!spec_assertion_passes(resp, en[i]));
    }
}

} // verus!
