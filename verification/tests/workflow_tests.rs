//! Tests for chains, steps and the execution state machine.

use bazzounquester::assertion::Assertion;
use bazzounquester::chain::{ChainConfig, RequestChain};
use bazzounquester::executor::{ChainRun, ExecutionResult, RunPhase, ScriptOutcome};
use bazzounquester::http::{HttpMethod, HttpResponse};
use bazzounquester::matcher::Matcher;
use bazzounquester::step::{StepResult, WorkflowStep};
use bazzounquester::strmap::AssocMap;

#[test]
fn test_chain_config_new() {
    let config = ChainConfig::new();
    assert!(config.stop_on_failure);
    assert_eq!(config.iterations, 1);
}

#[test]
fn test_chain_config_with_delay() {
    let config = ChainConfig::new().with_delay(1000);
    assert_eq!(config.delay_between_requests, Some(1000));
}

#[test]
fn test_chain_config_with_iterations() {
    let config = ChainConfig::new().with_iterations(5);
    assert_eq!(config.iterations, 5);
}

#[test]
fn test_request_chain_new() {
    let chain = RequestChain::new("Test Chain".to_string());
    assert_eq!(chain.name, "Test Chain");
    assert_eq!(chain.step_count(), 0);
}

#[test]
fn test_request_chain_with_description() {
    let chain = RequestChain::new("Test".to_string()).with_description("A test chain".to_string());
    assert_eq!(chain.description, Some("A test chain".to_string()));
}

#[test]
fn test_request_chain_add_step() {
    let step = WorkflowStep::new(
        "Step 1".to_string(),
        HttpMethod::Get,
        "https://example.com".to_string(),
    );

    let chain = RequestChain::new("Test".to_string()).add_step(step);
    assert_eq!(chain.step_count(), 1);
}

#[test]
fn test_request_chain_multiple_steps() {
    let step1 = WorkflowStep::new(
        "Login".to_string(),
        HttpMethod::Post,
        "https://api.example.com/login".to_string(),
    );
    let step2 = WorkflowStep::new(
        "Get Data".to_string(),
        HttpMethod::Get,
        "https://api.example.com/data".to_string(),
    );

    let chain = RequestChain::new("API Test".to_string())
        .add_step(step1)
        .add_step(step2);

    assert_eq!(chain.step_count(), 2);
}

#[test]
fn test_request_chain_with_config() {
    let config = ChainConfig::new().with_stop_on_failure(false).with_iterations(3);

    let chain = RequestChain::new("Test".to_string()).with_config(config);

    assert!(!chain.config.stop_on_failure);
    assert_eq!(chain.config.iterations, 3);
}

#[test]
fn test_workflow_module() {
    let chain = RequestChain::new("test".to_string());
    assert_eq!(chain.name, "test");
}

#[test]
fn test_workflow_step_new() {
    let step = WorkflowStep::new(
        "Test Step".to_string(),
        HttpMethod::Get,
        "https://api.example.com".to_string(),
    );

    assert_eq!(step.name, "Test Step");
    assert_eq!(step.method, HttpMethod::Get);
    assert_eq!(step.url, "https://api.example.com");
    assert!(!step.continue_on_error);
}

#[test]
fn test_workflow_step_with_header() {
    let step = WorkflowStep::new(
        "Test".to_string(),
        HttpMethod::Get,
        "https://example.com".to_string(),
    )
    .with_header("Authorization:Bearer token".to_string());

    assert_eq!(step.headers.len(), 1);
}

#[test]
fn test_workflow_step_with_body() {
    let step = WorkflowStep::new(
        "Test".to_string(),
        HttpMethod::Post,
        "https://example.com".to_string(),
    )
    .with_body(r#"{"test":"data"}"#.to_string());

    assert!(step.body.is_some());
    assert_eq!(step.body.unwrap(), r#"{"test":"data"}"#);
}

#[test]
fn test_workflow_step_extract_variable() {
    let step = WorkflowStep::new(
        "Test".to_string(),
        HttpMethod::Get,
        "https://example.com".to_string(),
    )
    .extract_variable("token".to_string(), "$.access_token".to_string());

    assert_eq!(step.extract_variables.len(), 1);
    assert_eq!(
        step.extract_variables.get("token").map(|s| s.as_str()),
        Some("$.access_token")
    );
}

#[test]
fn test_workflow_step_with_continue_on_error() {
    let step = WorkflowStep::new(
        "Test".to_string(),
        HttpMethod::Get,
        "https://example.com".to_string(),
    )
    .with_continue_on_error(true);

    assert!(step.continue_on_error);
}

#[test]
fn test_step_result_success() {
    let response = HttpResponse::new(200, vec![], "success".to_string(), 100);

    let result = StepResult::success("Test".to_string(), response, AssocMap::new(), 150);

    assert!(result.success);
    assert!(result.response.is_some());
    assert!(result.error.is_none());
}

#[test]
fn test_step_result_failure() {
    let result = StepResult::failure("Test".to_string(), "Connection failed".to_string(), 50);

    assert!(!result.success);
    assert!(result.response.is_none());
    assert_eq!(result.error, Some("Connection failed".to_string()));
}

#[test]
fn test_step_result_summary() {
    let result = StepResult::failure("Login".to_string(), "401 Unauthorized".to_string(), 200);

    let summary = result.summary();
    assert!(summary.contains("\u{2717}"));
    assert!(summary.contains("Login"));
    assert!(summary.contains("401"));
}

#[test]
fn test_execution_result_new() {
    let result = ExecutionResult::new("Test Chain".to_string());
    assert_eq!(result.chain_name, "Test Chain");
    assert!(result.success);
    assert_eq!(result.step_results.len(), 0);
}

#[test]
fn test_execution_result_add_success() {
    let mut result = ExecutionResult::new("Test".to_string());

    let response = HttpResponse::new(200, vec![], "ok".to_string(), 100);
    let step_result = StepResult::success("Step1".to_string(), response, AssocMap::new(), 150);

    result.add_step_result(step_result);

    assert!(result.success);
    assert_eq!(result.step_results.len(), 1);
}

#[test]
fn test_execution_result_add_failure() {
    let mut result = ExecutionResult::new("Test".to_string());

    let step_result = StepResult::failure("Step1".to_string(), "Failed".to_string(), 50);

    result.add_step_result(step_result);

    assert!(!result.success);
    assert_eq!(result.step_results.len(), 1);
}

fn ok_response(body: &str) -> HttpResponse {
    HttpResponse::new(200, vec![], body.to_string(), 10)
}

/// Drive one step: no scripts, one canned response.
fn drive_step(run: &mut ChainRun, response: HttpResponse) {
    assert_eq!(run.phase(), RunPhase::AwaitPre);
    run.on_pre_script(ScriptOutcome::NotRun, 0);
    assert_eq!(run.phase(), RunPhase::AwaitSend);
    let elapsed = response.duration_ms;
    run.on_response(response);
    assert_eq!(run.phase(), RunPhase::AwaitPost);
    run.on_post_script(ScriptOutcome::NotRun, elapsed);
}

#[test]
fn test_chain_stops_after_failed_assertion() {
    let step1 = WorkflowStep::new(
        "first".to_string(),
        HttpMethod::Get,
        "https://api.example.com/a".to_string(),
    )
    .with_assertion(Assertion::status_code(Matcher::equals(200)));
    let step2 = WorkflowStep::new(
        "second".to_string(),
        HttpMethod::Get,
        "https://api.example.com/b".to_string(),
    );
    let chain = RequestChain::new("Chain".to_string())
        .add_step(step1)
        .add_step(step2);

    let mut run = ChainRun::new(chain);
    drive_step(&mut run, HttpResponse::new(404, vec![], "missing".to_string(), 10));

    assert!(run.is_finished());
    let result = run.take_result();
    assert_eq!(result.step_results.len(), 1);
    assert!(!result.success);
    assert!(result.step_results[0]
        .error
        .clone()
        .unwrap()
        .starts_with("Assertions failed: "));
}

#[test]
fn test_chain_continues_on_error_when_step_allows_it() {
    let step1 = WorkflowStep::new(
        "first".to_string(),
        HttpMethod::Get,
        "https://api.example.com/a".to_string(),
    )
    .with_assertion(Assertion::status_code(Matcher::equals(200)))
    .with_continue_on_error(true);
    let step2 = WorkflowStep::new(
        "second".to_string(),
        HttpMethod::Get,
        "https://api.example.com/b".to_string(),
    );
    let chain = RequestChain::new("Chain".to_string())
        .add_step(step1)
        .add_step(step2);

    let mut run = ChainRun::new(chain);
    drive_step(&mut run, HttpResponse::new(404, vec![], "missing".to_string(), 10));
    assert!(!run.is_finished());
    drive_step(&mut run, ok_response("ok"));

    assert!(run.is_finished());
    let result = run.take_result();
    assert_eq!(result.step_results.len(), 2);
    assert!(!result.success);
    assert!(!result.step_results[0].success);
    assert!(result.step_results[1].success);
}

#[test]
fn test_chain_runs_all_iterations() {
    let step = WorkflowStep::new(
        "only".to_string(),
        HttpMethod::Get,
        "https://api.example.com".to_string(),
    );
    let chain = RequestChain::new("Chain".to_string())
        .add_step(step)
        .with_config(ChainConfig::new().with_iterations(3));

    let mut run = ChainRun::new(chain);
    for _ in 0..3 {
        drive_step(&mut run, ok_response("ok"));
    }

    assert!(run.is_finished());
    let result = run.take_result();
    assert_eq!(result.step_results.len(), 3);
    assert!(result.success);
    for r in &result.step_results {
        assert!(r.success);
    }
}

#[test]
fn test_extracted_variable_flows_into_next_step() {
    let step1 = WorkflowStep::new(
        "login".to_string(),
        HttpMethod::Post,
        "https://api.example.com/login".to_string(),
    )
    .extract_variable("token".to_string(), "$.access_token".to_string());
    let step2 = WorkflowStep::new(
        "fetch".to_string(),
        HttpMethod::Get,
        "https://api.example.com/data/{{token}}".to_string(),
    )
    .with_header("Authorization:Bearer {{token}}".to_string());
    let chain = RequestChain::new("Chain".to_string())
        .add_step(step1)
        .add_step(step2);

    let mut run = ChainRun::new(chain);
    drive_step(&mut run, ok_response(r#"{"access_token":"abc123"}"#));

    // the next step's request resolves against the extracted value
    run.on_pre_script(ScriptOutcome::NotRun, 0);
    {
        let req = run.pending_request();
        assert_eq!(req.url, "https://api.example.com/data/abc123");
        assert_eq!(req.headers[0], "Authorization:Bearer abc123");
    }
    run.on_response(ok_response("done"));
    run.on_post_script(ScriptOutcome::NotRun, 10);

    assert!(run.is_finished());
    let result = run.take_result();
    assert!(result.success);
    assert_eq!(
        result.step_results[0].extracted_variables.get("token").map(|s| s.as_str()),
        Some("abc123")
    );
    assert_eq!(
        result.final_variables.get("token").map(|s| s.as_str()),
        Some("abc123")
    );
}

#[test]
fn test_empty_chain_succeeds() {
    let chain = RequestChain::new("Empty".to_string())
        .with_config(ChainConfig::new().with_iterations(4));
    let run = ChainRun::new(chain);
    assert!(run.is_finished());
    let result = run.take_result();
    assert_eq!(result.step_results.len(), 0);
    assert!(result.success);
}

#[test]
fn test_zero_iterations_succeed() {
    let step = WorkflowStep::new(
        "step".to_string(),
        HttpMethod::Get,
        "https://example.com".to_string(),
    );
    let chain = RequestChain::new("None".to_string())
        .add_step(step)
        .with_config(ChainConfig::new().with_iterations(0));
    let run = ChainRun::new(chain);
    assert!(run.is_finished());
    let result = run.take_result();
    assert_eq!(result.step_results.len(), 0);
    assert!(result.success);
}

#[test]
fn test_transport_error_fails_step() {
    let step = WorkflowStep::new(
        "step".to_string(),
        HttpMethod::Get,
        "https://example.com".to_string(),
    );
    let chain = RequestChain::new("Chain".to_string()).add_step(step);

    let mut run = ChainRun::new(chain);
    run.on_pre_script(ScriptOutcome::NotRun, 0);
    run.on_transport_error("connection refused".to_string(), 25);

    assert!(run.is_finished());
    let result = run.take_result();
    assert_eq!(result.step_results.len(), 1);
    assert!(!result.success);
    assert_eq!(
        result.step_results[0].error,
        Some("HTTP request failed: connection refused".to_string())
    );
    assert_eq!(result.step_results[0].extracted_variables.len(), 0);
}

#[test]
fn test_script_outcome_updates_pool() {
    let step = WorkflowStep::new(
        "step".to_string(),
        HttpMethod::Get,
        "https://example.com/{{who}}".to_string(),
    );
    let chain = RequestChain::new("Chain".to_string()).add_step(step);

    let mut run = ChainRun::new(chain);
    run.on_pre_script(
        ScriptOutcome::Completed(
            vec![("who".to_string(), "world".to_string())],
            vec!["hello".to_string()],
        ),
        0,
    );
    assert_eq!(run.pending_request().url, "https://example.com/world");
    run.on_response(ok_response("ok"));
    run.on_post_script(ScriptOutcome::NotRun, 5);

    let result = run.take_result();
    assert!(result.success);
    assert_eq!(
        result.final_variables.get("who").map(|s| s.as_str()),
        Some("world")
    );
}

#[test]
fn test_failed_script_fails_step() {
    let step = WorkflowStep::new(
        "step".to_string(),
        HttpMethod::Get,
        "https://example.com".to_string(),
    );
    let chain = RequestChain::new("Chain".to_string()).add_step(step);

    let mut run = ChainRun::new(chain);
    run.on_pre_script(ScriptOutcome::Failed("bad syntax".to_string()), 3);

    assert!(run.is_finished());
    let result = run.take_result();
    assert!(!result.success);
    assert_eq!(
        result.step_results[0].error,
        Some("Invalid command: Script execution error: bad syntax".to_string())
    );
}

#[test]
fn test_max_duration_stops_iterations() {
    let step = WorkflowStep::new(
        "slow".to_string(),
        HttpMethod::Get,
        "https://example.com".to_string(),
    );
    let chain = RequestChain::new("Chain".to_string())
        .add_step(step)
        .with_config(ChainConfig::new().with_iterations(5).with_max_duration(100));

    let mut run = ChainRun::new(chain);
    drive_step(&mut run, HttpResponse::new(200, vec![], "ok".to_string(), 120));

    assert!(run.is_finished());
    let result = run.take_result();
    assert_eq!(result.step_results.len(), 1);
    assert_eq!(result.total_duration_ms, 120);
}

#[test]
fn test_execution_summary_wording() {
    let mut result = ExecutionResult::new("Smoke".to_string());
    let response = HttpResponse::new(200, vec![], "ok".to_string(), 100);
    result.add_step_result(StepResult::success(
        "one".to_string(),
        response,
        AssocMap::new(),
        40,
    ));
    assert_eq!(
        result.summary(),
        "\u{2713} Chain 'Smoke' completed successfully: 1 steps, 40ms"
    );

    result.add_step_result(StepResult::failure("two".to_string(), "boom".to_string(), 10));
    assert_eq!(
        result.summary(),
        "\u{2717} Chain 'Smoke' failed: 1 passed, 1 failed, 50ms"
    );
}

#[test]
fn test_variables_persist_across_iterations() {
    // the pool is not reset between iterations: a value extracted in the
    // first pass is still visible to the template in the second
    let step = WorkflowStep::new(
        "echo".to_string(),
        HttpMethod::Get,
        "https://example.com/{{token}}".to_string(),
    )
    .extract_variable("token".to_string(), "$.t".to_string());
    let chain = RequestChain::new("Chain".to_string())
        .add_step(step)
        .with_config(ChainConfig::new().with_iterations(2));

    let mut run = ChainRun::new(chain);
    drive_step(&mut run, ok_response(r#"{"t":"first"}"#));

    run.on_pre_script(ScriptOutcome::NotRun, 0);
    assert_eq!(run.pending_request().url, "https://example.com/first");
    run.on_response(ok_response(r#"{"t":"second"}"#));
    run.on_post_script(ScriptOutcome::NotRun, 10);

    assert!(run.is_finished());
    let result = run.take_result();
    assert_eq!(
        result.final_variables.get("token").map(|s| s.as_str()),
        Some("second")
    );
}

#[test]
fn test_extraction_writes_empty_on_bad_json() {
    // a body that is not valid JSON still writes every declared name,
    // as the empty string
    let step = WorkflowStep::new(
        "step".to_string(),
        HttpMethod::Get,
        "https://example.com".to_string(),
    )
    .extract_variable("token".to_string(), "$.access_token".to_string());
    let chain = RequestChain::new("Chain".to_string()).add_step(step);

    let mut run = ChainRun::new(chain);
    drive_step(&mut run, ok_response("not json at all"));

    assert!(run.is_finished());
    let result = run.take_result();
    assert!(result.success);
    assert_eq!(
        result.step_results[0].extracted_variables.get("token").map(|s| s.as_str()),
        Some("")
    );
    assert_eq!(
        result.final_variables.get("token").map(|s| s.as_str()),
        Some("")
    );
}

#[test]
fn test_extraction_writes_empty_on_missing_path() {
    let step = WorkflowStep::new(
        "step".to_string(),
        HttpMethod::Get,
        "https://example.com".to_string(),
    )
    .extract_variable("token".to_string(), "$.absent".to_string());
    let chain = RequestChain::new("Chain".to_string()).add_step(step);

    let mut run = ChainRun::new(chain);
    drive_step(&mut run, ok_response(r#"{"present":1}"#));

    let result = run.take_result();
    assert_eq!(
        result.final_variables.get("token").map(|s| s.as_str()),
        Some("")
    );
}

#[test]
fn test_zero_budget_empty_chain_never_sleeps() {
    // a zero time budget is exhausted after the first (empty) iteration,
    // so no delay is ever awaited
    let chain = RequestChain::new("Empty".to_string()).with_config(
        ChainConfig::new()
            .with_iterations(3)
            .with_delay(50)
            .with_max_duration(0),
    );
    let run = ChainRun::new(chain);
    assert!(run.is_finished());
    let result = run.take_result();
    assert_eq!(result.step_results.len(), 0);
    assert!(result.success);
}

#[test]
fn test_assertion_failure_error_text() {
    let step = WorkflowStep::new(
        "check".to_string(),
        HttpMethod::Get,
        "https://example.com".to_string(),
    )
    .with_assertion(Assertion::status_code(Matcher::equals(200)));
    let chain = RequestChain::new("Chain".to_string()).add_step(step);

    let mut run = ChainRun::new(chain);
    drive_step(&mut run, HttpResponse::new(500, vec![], "oops".to_string(), 10));

    let result = run.take_result();
    assert_eq!(
        result.step_results[0].error,
        Some("Assertions failed: \u{2717} 1 of 1 assertions failed".to_string())
    );
}
