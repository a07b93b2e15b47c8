use pektin_api::auth::{
    api_method_name, continue_after_logins, continue_after_policy, finish_after_evaluation,
    start_auth, str_contains, ApiMethod, EvalRequest, PipelineStep, PolicyDecisionData,
    PolicyEvalResponse,
};

fn request() -> EvalRequest {
    EvalRequest {
        api_method: "set".to_string(),
        ip: Some("203.0.113.7".to_string()),
        user_agent: "pektin-client/1.0".to_string(),
        utc_millis: 1633037000000,
        request_payload: "{}".to_string(),
    }
}

fn response(outer: &str, outer_msg: &str, inner: &str, inner_msg: &str) -> PolicyEvalResponse {
    PolicyEvalResponse {
        status: outer.to_string(),
        message: outer_msg.to_string(),
        data: PolicyDecisionData { status: inner.to_string(), message: inner_msg.to_string() },
    }
}

#[test]
fn exact_sentinel_skips_authentication() {
    let step = start_auth("yes, I really want to disable authentication", "alice");
    match step {
        PipelineStep::Finished { answer } => {
            assert!(answer.success);
            assert_eq!(answer.message, "Skipped authentication because SKIP_AUTH is set");
        }
        _ => panic!("expected a finished pipeline"),
    }
}

#[test]
fn truthy_but_inexact_sentinel_does_not_skip() {
    let step = start_auth("yes", "alice");
    match step {
        PipelineStep::Logins { service_username, confidant_username } => {
            assert_eq!(service_username, "pektin-api");
            assert_eq!(confidant_username, "pektin-client-alice-confidant");
        }
        _ => panic!("expected the broker logins to be ordered"),
    }
}

#[test]
fn failed_service_login_denies_and_names_the_step() {
    let step = continue_after_logins(
        Err("connection refused".to_string()),
        Ok("conf-token".to_string()),
    );
    match step {
        PipelineStep::Finished { answer } => {
            assert!(!answer.success);
            assert_eq!(
                answer.message,
                "Could not get Vault token for pektin-api: connection refused"
            );
        }
        _ => panic!("a failed service login must end the pipeline"),
    }
}

#[test]
fn failed_confidant_login_denies_and_names_the_step() {
    let step = continue_after_logins(
        Ok("api-token".to_string()),
        Err("bad password".to_string()),
    );
    match step {
        PipelineStep::Finished { answer } => {
            assert!(!answer.success);
            assert_eq!(answer.message, "Could not get Vault token for confidant: bad password");
        }
        _ => panic!("a failed confidant login must end the pipeline"),
    }
}

#[test]
fn successful_logins_proceed_to_the_policy_fetch() {
    let step = continue_after_logins(Ok("api-token".to_string()), Ok("conf-token".to_string()));
    match step {
        PipelineStep::FetchPolicy { api_token } => assert_eq!(api_token, "api-token"),
        _ => panic!("expected the policy fetch to be ordered"),
    }
}

#[test]
fn bypass_marker_skips_policy_evaluation() {
    let policy = "allow everything @skip-ribston today".to_string();
    let step = continue_after_policy(Ok(policy), request());
    match step {
        PipelineStep::Finished { answer } => {
            assert!(answer.success);
            assert_eq!(answer.message, "Skipped evaluating policy");
        }
        _ => panic!("the bypass marker must end the pipeline before evaluation"),
    }
}

#[test]
fn plain_policy_goes_to_evaluation() {
    let step = continue_after_policy(Ok("allow nothing".to_string()), request());
    match step {
        PipelineStep::EvaluatePolicy { policy, request: carried } => {
            assert_eq!(policy, "allow nothing");
            assert_eq!(carried.api_method, "set");
        }
        _ => panic!("expected the evaluation to be ordered"),
    }
}

#[test]
fn failed_policy_fetch_denies_and_names_the_step() {
    let step = continue_after_policy(Err("no such client".to_string()), request());
    match step {
        PipelineStep::Finished { answer } => {
            assert!(!answer.success);
            assert_eq!(answer.message, "Could not get client policy: no such client");
        }
        _ => panic!("a failed policy fetch must end the pipeline"),
    }
}

#[test]
fn both_status_levels_must_succeed() {
    let answer =
        finish_after_evaluation(Ok(response("SUCCESS", "ok", "SUCCESS", "request allowed")));
    assert!(answer.success);
    assert_eq!(answer.message, "Ribston policy evaluation returned: request allowed");
}

#[test]
fn inner_failure_denies_with_the_inner_message() {
    let answer =
        finish_after_evaluation(Ok(response("SUCCESS", "ok", "ERROR", "request denied by policy")));
    assert!(!answer.success);
    assert_eq!(answer.message, "Ribston policy evaluation returned: request denied by policy");
}

#[test]
fn outer_failure_denies_with_the_outer_message() {
    let answer = finish_after_evaluation(Ok(response("ERROR", "engine crashed", "SUCCESS", "ok")));
    assert!(!answer.success);
    assert_eq!(answer.message, "engine crashed");
}

#[test]
fn failed_evaluation_call_denies_and_names_the_step() {
    let answer = finish_after_evaluation(Err("timeout".to_string()));
    assert!(!answer.success);
    assert_eq!(answer.message, "Could not evaluate client policy: timeout");
}

#[test]
fn substring_search_finds_the_marker() {
    assert!(str_contains("abc @skip-ribston xyz", "@skip-ribston"));
    assert!(str_contains("@skip-ribston", "@skip-ribston"));
    assert!(!str_contains("@skip-ribsto", "@skip-ribston"));
    assert!(!str_contains("", "@skip-ribston"));
    assert!(str_contains("anything", ""));
}

#[test]
fn method_names_match_the_api_surface() {
    assert_eq!(api_method_name(&ApiMethod::Get), "get");
    assert_eq!(api_method_name(&ApiMethod::GetZoneRecords), "get-zone-records");
    assert_eq!(api_method_name(&ApiMethod::SetRecords), "set");
    assert_eq!(api_method_name(&ApiMethod::Delete), "delete");
    assert_eq!(api_method_name(&ApiMethod::Search), "search");
    assert_eq!(api_method_name(&ApiMethod::Health), "health");
}
