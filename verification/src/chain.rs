//! Request chain configuration: an ordered list of steps plus the
//! policy that governs their execution.

use crate::step::{WorkflowStep, WorkflowStepView};
use vstd::prelude::*;

verus! {

/// Configuration for chain execution.
#[derive(Debug, Clone, Copy, PartialEq)]
pub struct ChainConfig {
    /// Stop execution on first failure
    pub stop_on_failure: bool,
    /// Delay between iterations, in milliseconds
    pub delay_between_requests: Option<u64>,
    /// Maximum total duration, in milliseconds
    pub max_duration: Option<u64>,
    /// Number of iterations
    pub iterations: usize,
}

impl ChainConfig {
    /// The default policy: stop on failure, no delay, no time limit,
    /// one iteration.
    pub fn new() -> (r: Self)
        ensures
            r.stop_on_failure,
            r.delay_between_requests is None,
            r.max_duration is None,
            r.iterations == 1,
    {
        ChainConfig {
            stop_on_failure: true,
            delay_between_requests: None,
            max_duration: None,
            iterations: 1,
        }
    }

    /// Set whether a failed step ends the iteration.
    pub fn with_stop_on_failure(self, stop: bool) -> (r: Self)
        ensures
            r == (ChainConfig { stop_on_failure: stop, ..self }),
    {
        ChainConfig { stop_on_failure: stop, ..self }
    }

    /// Set the delay between iterations, in milliseconds.
    pub fn with_delay(self, delay_ms: u64) -> (r: Self)
        ensures
            r == (ChainConfig { delay_between_requests: Some(delay_ms), ..self }),
    {
        ChainConfig { delay_between_requests: Some(delay_ms), ..self }
    }

    /// Set the maximum total duration, in milliseconds.
    pub fn with_max_duration(self, duration_ms: u64) -> (r: Self)
        ensures
            r == (ChainConfig { max_duration: Some(duration_ms), ..self }),
    {
        ChainConfig { max_duration: Some(duration_ms), ..self }
    }

    /// Set the number of iterations.
    pub fn with_iterations(self, iterations: usize) -> (r: Self)
        ensures
            r == (ChainConfig { iterations, ..self }),
    {
        ChainConfig { iterations, ..self }
    }
}

impl Default for ChainConfig {
    fn default() -> Self {
        ChainConfig::new()
    }
}

/// A chain of requests to execute in sequence.
#[derive(Debug)]
pub struct RequestChain {
    /// Chain name
    pub name: String,
    /// Description
    pub description: Option<String>,
    /// Steps in the chain
    pub steps: Vec<WorkflowStep>,
    /// Execution configuration
    pub config: ChainConfig,
}

pub ghost struct RequestChainView {
    pub name: Seq<char>,
    pub description: Option<Seq<char>>,
    pub steps: Seq<WorkflowStepView>,
    pub config: ChainConfig,
}

impl View for RequestChain {
    type V = RequestChainView;

    open spec fn view(&self) -> RequestChainView {
        RequestChainView {
            name: self.name@,
            description: match self.description {
                Some(ref d) => Some(d@),
                None => None,
            },
            steps: self.steps.deep_view(),
            config: self.config,
        }
    }
}

impl RequestChain {
    /// Every step's tables are well-formed.
    pub open spec fn wf(&self) -> bool {
        forall|i: int| 0 <= i < self.steps@.len() ==> (#[trigger] self.steps@[i]).wf()
    }

    /// Create an empty chain under the default policy.
    pub fn new(name: String) -> (r: Self)
        ensures
            r.wf(),
            r@.name == name@,
            r@.description is None,
            r@.steps == Seq::<WorkflowStepView>::empty(),
            r@.config == (ChainConfig {
                stop_on_failure: true,
                delay_between_requests: None,
                max_duration: None,
                iterations: 1,
            }),
    {
        let r = RequestChain {
            name,
            description: None,
            steps: Vec::new(),
            config: ChainConfig::new(),
        };
        proof {
            assert(r.steps.deep_view() =~= Seq::<WorkflowStepView>::empty());
        }
        r
    }

    /// Set the description.
    pub fn with_description(self, description: String) -> (r: Self)
        requires
            self.wf(),
        ensures
            r.wf(),
            r@ == (RequestChainView { description: Some(description@), ..self@ }),
    {
        let mut c = self;
        c.description = Some(description);
        c
    }

    /// Append a step.
    pub fn add_step(self, step: WorkflowStep) -> (r: Self)
        requires
            self.wf(),
            step.wf(),
        ensures
            r.wf(),
            r@ == (RequestChainView { steps: self@.steps.push(step@), ..self@ }),
    {
        let mut c = self;
        let ghost pre = c@.steps;
        let ghost sv = step@;
        c.steps.push(step);
        proof {
            assert(c.steps.deep_view() =~= pre.push(sv));
            assert(forall|i: int|
                0 <= i < c.steps@.len() - 1 ==> #[trigger] c.steps@[i] == self.steps@[i]);
        }
        c
    }

    /// Set the execution configuration.
    pub fn with_config(self, config: ChainConfig) -> (r: Self)
        requires
            self.wf(),
        ensures
            r.wf(),
            r@ == (RequestChainView { config, ..self@ }),
    {
        let mut c = self;
        c.config = config;
        c
    }

    /// Number of steps.
    pub fn step_count(&self) -> (r: usize)
        ensures
            r == self@.steps.len(),
    {
        let r = self.steps.len();
        proof {
            assert(self.steps.deep_view().len() == self.steps@.len());
        }
        r
    }
}

} // verus!
