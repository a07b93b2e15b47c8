//! The delegated authorization pipeline.
//!
//! The pipeline combines a credential broker with an external
//! policy-decision service. Every network call is performed by the caller;
//! this module makes the decisions: each step function takes the outcome of
//! the previous step's call and states what must happen next, so the whole
//! control flow — short-circuits included — is pinned down here. Any broker
//! or policy-engine failure denies the request (fail-closed), and the
//! denial message names the step that failed.
use vstd::prelude::*;

verus! {

/// The gateway's request kinds, as named to the policy-decision service.
pub enum ApiMethod {
    Get,
    GetZoneRecords,
    SetRecords,
    Delete,
    Search,
    Health,
}

/// The method name carried in a policy evaluation request.
pub fn api_method_name(m: &ApiMethod) -> (r: &'static str)
    ensures
        m is Get ==> r@ == "get"@,
        m is GetZoneRecords ==> r@ == "get-zone-records"@,
        m is SetRecords ==> r@ == "set"@,
        m is Delete ==> r@ == "delete"@,
        m is Search ==> r@ == "search"@,
        m is Health ==> r@ == "health"@,
{
    match m {
        ApiMethod::Get => "get",
        ApiMethod::GetZoneRecords => "get-zone-records",
        ApiMethod::SetRecords => "set",
        ApiMethod::Delete => "delete",
        ApiMethod::Search => "search",
        ApiMethod::Health => "health",
    }
}

/// The verdict the pipeline produces.
pub struct AuthAnswer {
    pub success: bool,
    pub message: String,
}

/// The structured request metadata handed to the policy-decision service:
/// built fresh per request and carried through the pipeline opaquely.
pub struct EvalRequest {
    pub api_method: String,
    pub ip: Option<String>,
    pub user_agent: String,
    pub utc_millis: u64,
    pub request_payload: String,
}

/// The two status levels of a policy-decision response: an outer
/// call-status, and an inner decision nested in the payload. The
/// duplication is the observed external contract, preserved exactly.
pub struct PolicyDecisionData {
    pub status: String,
    pub message: String,
}

/// A successful policy-decision call's response.
pub struct PolicyEvalResponse {
    pub status: String,
    pub message: String,
    pub data: PolicyDecisionData,
}

/// What the pipeline asks its caller to do next.
pub enum PipelineStep {
    /// Log in to the broker twice, concurrently: once as the gateway's own
    /// service identity and once as the client's delegated confidant
    /// identity.
    Logins { service_username: String, confidant_username: String },
    /// Fetch the client's policy document with the service token.
    FetchPolicy { api_token: String },
    /// Evaluate the policy document against the request metadata.
    EvaluatePolicy { policy: String, request: EvalRequest },
    /// The pipeline is over; no further call may be made.
    Finished { answer: AuthAnswer },
}

/// The exact opt-out sentinel: authorization is skipped only when the
/// configured value matches this literally, so that a merely truthy value
/// cannot disable authentication by accident.
pub open spec fn spec_skip_auth_sentinel() -> Seq<char> {
    "yes, I really want to disable authentication"@
}

/// The broker path of a client's delegated confidant identity.
pub open spec fn spec_confidant_path(username: Seq<char>) -> Seq<char> {
    "pektin-client-"@ + username + "-confidant"@
}

/// The literal marker that lets a policy document bypass evaluation.
pub open spec fn spec_bypass_marker() -> Seq<char> {
    "@skip-ribston"@
}

/// `n` occurs in `h` starting at position `i`.
pub open spec fn spec_contains_at(h: Seq<char>, n: Seq<char>, i: int) -> bool {
    0 <= i && i + n.len() <= h.len() && h.subrange(i, i + n.len()) == n
}

/// `n` occurs somewhere in `h`.
pub open spec fn spec_contains(h: Seq<char>, n: Seq<char>) -> bool {
    exists|i: int| spec_contains_at(h, n, i)
}

fn match_at(hay: &str, needle: &str, i: usize, hlen: usize, nlen: usize) -> (r: bool)
    requires
        hlen == hay@.len(),
        nlen == needle@.len(),
        i + nlen <= hlen,
    ensures
        r == spec_contains_at(hay@, needle@, i as int),
{
    let mut j: usize = 0;
    while j < nlen
        invariant
            j <= nlen,
            hlen == hay@.len(),
            nlen == needle@.len(),
            i + nlen <= hlen,
            forall|k: int| 0 <= k < j ==> hay@[i + k] == needle@[k],
        decreases nlen - j,
    {
        if hay.get_char(i + j) != needle.get_char(j) {
            proof {
                assert(hay@.subrange(i as int, i + nlen)[j as int] != needle@[j as int]);
            }
            return false;
        }
        j += 1;
    }
    proof {
        assert(hay@.subrange(i as int, i + nlen) =~= needle@);
    }
    true
}

/// Decides whether `needle` occurs as a substring of `hay`.
pub fn str_contains(hay: &str, needle: &str) -> (r: bool)
    ensures
        r == spec_contains(hay@, needle@),
{
    let hlen = hay.unicode_len();
    let nlen = needle.unicode_len();
    if nlen > hlen {
        proof {
            assert forall|i: int| !spec_contains_at(hay@, needle@, i) by {}
        }
        return false;
    }
    let limit = hlen - nlen;
    let mut i: usize = 0;
    loop
        invariant
            hlen == hay@.len(),
            nlen == needle@.len(),
            nlen <= hlen,
            limit == hlen - nlen,
            i <= limit,
            forall|k: int| 0 <= k < i ==> !spec_contains_at(hay@, needle@, k),
        decreases limit - i,
    {
        if match_at(hay, needle, i, hlen, nlen) {
            return true;
        }
        if i == limit {
            proof {
                assert forall|k: int| !spec_contains_at(hay@, needle@, k) by {
                    if 0 <= k < i {
                        assert(!spec_contains_at(hay@, needle@, k));
                    } else if k == limit {
                        assert(!spec_contains_at(hay@, needle@, k));
                    }
                }
            }
            return false;
        }
        i += 1;
    }
}

/// Characterizes the pipeline's first step: the exact-match opt-out
/// sentinel short-circuits to success; anything else orders the two broker
/// logins, naming the gateway's own identity and the client's confidant
/// identity.
pub open spec fn start_step_ok(skip_auth: Seq<char>, client_username: Seq<char>, r: PipelineStep) -> bool {
    if skip_auth == spec_skip_auth_sentinel() {
        r matches PipelineStep::Finished { answer } && answer.success && answer.message@
            == "Skipped authentication because SKIP_AUTH is set"@
    } else {
        r matches PipelineStep::Logins { service_username, confidant_username }
            && service_username@ == "pektin-api"@ && confidant_username@ == spec_confidant_path(
            client_username,
        )
    }
}

/// Begins the pipeline for one request.
pub fn start_auth(skip_auth: &str, client_username: &str) -> (r: PipelineStep)
    ensures
        start_step_ok(skip_auth@, client_username@, r),
{
    if crate::records::str_eq(skip_auth, "yes, I really want to disable authentication") {
        return PipelineStep::Finished {
            answer: AuthAnswer {
                success: true,
                message: "Skipped authentication because SKIP_AUTH is set".to_owned(),
            },
        };
    }
    let confidant_username = "pektin-client-".to_owned().concat(client_username).concat(
        "-confidant",
    );
    PipelineStep::Logins { service_username: "pektin-api".to_owned(), confidant_username }
}

/// Characterizes the step after the two broker logins: a failed service
/// login denies and names the service-identity step; otherwise a failed
/// confidant login denies and names the confidant step; only two
/// successful logins let the pipeline proceed to the policy fetch with the
/// service token.
pub open spec fn logins_step_ok(
    api_login: Result<String, String>,
    confidant_login: Result<String, String>,
    r: PipelineStep,
) -> bool {
    match api_login {
        Err(e) => r matches PipelineStep::Finished { answer } && !answer.success
            && answer.message@ == "Could not get Vault token for pektin-api: "@ + e@,
        Ok(token) => match confidant_login {
            Err(e) => r matches PipelineStep::Finished { answer } && !answer.success
                && answer.message@ == "Could not get Vault token for confidant: "@ + e@,
            Ok(_) => r matches PipelineStep::FetchPolicy { api_token } && api_token@ == token@,
        },
    }
}

/// Continues the pipeline once both broker logins have come back.
pub fn continue_after_logins(
    api_login: Result<String, String>,
    confidant_login: Result<String, String>,
) -> (r: PipelineStep)
    ensures
        logins_step_ok(api_login, confidant_login, r),
{
    let api_token = match api_login {
        Ok(t) => t,
        Err(e) => {
            return PipelineStep::Finished {
                answer: AuthAnswer {
                    success: false,
                    message: "Could not get Vault token for pektin-api: ".to_owned().concat(
                        e.as_str(),
                    ),
                },
            };
        },
    };
    match confidant_login {
        Ok(_) => PipelineStep::FetchPolicy { api_token },
        Err(e) => PipelineStep::Finished {
            answer: AuthAnswer {
                success: false,
                message: "Could not get Vault token for confidant: ".to_owned().concat(e.as_str()),
            },
        },
    }
}

/// Characterizes the step after the policy fetch: a failed fetch denies
/// and names the step; a document carrying the bypass marker
/// short-circuits to success without any policy evaluation; otherwise the
/// document goes to the policy-decision service together with the
/// request's metadata.
pub open spec fn policy_step_ok(
    policy_fetch: Result<String, String>,
    request: EvalRequest,
    r: PipelineStep,
) -> bool {
    match policy_fetch {
        Err(e) => r matches PipelineStep::Finished { answer } && !answer.success && answer.message@
            == "Could not get client policy: "@ + e@,
        Ok(p) => {
            if spec_contains(p@, spec_bypass_marker()) {
                r matches PipelineStep::Finished { answer } && answer.success && answer.message@
                    == "Skipped evaluating policy"@
            } else {
                r matches PipelineStep::EvaluatePolicy { policy, request: carried } && policy@
                    == p@ && carried == request
            }
        },
    }
}

/// Continues the pipeline once the client's policy document has come back.
pub fn continue_after_policy(policy_fetch: Result<String, String>, request: EvalRequest) -> (r:
    PipelineStep)
    ensures
        policy_step_ok(policy_fetch, request, r),
{
    let policy = match policy_fetch {
        Ok(p) => p,
        Err(e) => {
            return PipelineStep::Finished {
                answer: AuthAnswer {
                    success: false,
                    message: "Could not get client policy: ".to_owned().concat(e.as_str()),
                },
            };
        },
    };
    if str_contains(policy.as_str(), "@skip-ribston") {
        return PipelineStep::Finished {
            answer: AuthAnswer {
                success: true,
                message: "Skipped evaluating policy".to_owned(),
            },
        };
    }
    PipelineStep::EvaluatePolicy { policy, request }
}

/// Characterizes the pipeline's last answer. A failed call denies and names the
/// evaluation step. On a response, the verdict succeeds exactly when both
/// the outer call-status and the inner decision-status are the success
/// sentinel; the message is taken from whichever level failed — the outer
/// message when the call itself did not succeed, the inner one otherwise.
pub open spec fn evaluation_answer_ok(
    outcome: Result<PolicyEvalResponse, String>,
    r: AuthAnswer,
) -> bool {
    match outcome {
        Err(e) => !r.success && r.message@ == "Could not evaluate client policy: "@ + e@,
        Ok(resp) => {
            r.success == (resp.status@ == "SUCCESS"@ && resp.data.status@ == "SUCCESS"@)
                && r.message@ == if resp.status@ == "SUCCESS"@ {
                "Ribston policy evaluation returned: "@ + resp.data.message@
            } else {
                resp.message@
            }
        },
    }
}

/// Ends the pipeline once the policy-decision service has answered.
pub fn finish_after_evaluation(outcome: Result<PolicyEvalResponse, String>) -> (r: AuthAnswer)
    ensures
        evaluation_answer_ok(outcome, r),
{
    let resp = match outcome {
        Ok(resp) => resp,
        Err(e) => {
            return AuthAnswer {
                success: false,
                message: "Could not evaluate client policy: ".to_owned().concat(e.as_str()),
            };
        },
    };
    let outer_ok = crate::records::str_eq(resp.status.as_str(), "SUCCESS");
    let inner_ok = crate::records::str_eq(resp.data.status.as_str(), "SUCCESS");
    if outer_ok {
        AuthAnswer {
            success: inner_ok,
            message: "Ribston policy evaluation returned: ".to_owned().concat(
                resp.data.message.as_str(),
            ),
        }
    } else {
        AuthAnswer { success: false, message: resp.message }
    }
}

/// The success of a whole pipeline run, as a function of the outcomes of
/// the calls the pipeline can order: the exact opt-out sentinel grants;
/// any failed broker call denies; a failed policy fetch denies; the
/// bypass marker grants; otherwise both status levels of the evaluation
/// must be the success sentinel.
pub open spec fn spec_pipeline_success(
    skip_auth: Seq<char>,
    api_login: Result<String, String>,
    confidant_login: Result<String, String>,
    policy_fetch: Result<String, String>,
    evaluation: Result<PolicyEvalResponse, String>,
) -> bool {
    if skip_auth == spec_skip_auth_sentinel() {
        true
    } else if api_login is Err || confidant_login is Err {
        false
    } else {
        match policy_fetch {
            Err(_) => false,
            Ok(p) => spec_contains(p@, spec_bypass_marker()) || (evaluation
                matches Ok(resp) && resp.status@ == "SUCCESS"@ && resp.data.status@ == "SUCCESS"@),
        }
    }
}

/// Chaining the pipeline's steps in order — stopping at the first final
/// step — yields exactly the specified overall success: the pipeline
/// grants only by the sentinel, by the bypass marker, or by a doubly
/// successful policy evaluation, and denies on every upstream failure.
pub proof fn lemma_pipeline_run(
    skip_auth: Seq<char>,
    client_username: Seq<char>,
    api_login: Result<String, String>,
    confidant_login: Result<String, String>,
    policy_fetch: Result<String, String>,
    request: EvalRequest,
    evaluation: Result<PolicyEvalResponse, String>,
    s1: PipelineStep,
    s2: PipelineStep,
    s3: PipelineStep,
    answer: AuthAnswer,
)
    requires
        start_step_ok(skip_auth, client_username, s1),
        match s1 {
            PipelineStep::Finished { answer: a } => answer == a,
            _ => logins_step_ok(api_login, confidant_login, s2) && match s2 {
                PipelineStep::Finished { answer: a } => answer == a,
                _ => policy_step_ok(policy_fetch, request, s3) && match s3 {
                    PipelineStep::Finished { answer: a } => answer == a,
                    _ => evaluation_answer_ok(evaluation, answer),
                },
            },
        },
    ensures
        answer.success == spec_pipeline_success(
            skip_auth,
            api_login,
            confidant_login,
            policy_fetch,
            evaluation,
        ),
{
}

/// A policy document carrying the bypass marker ends the pipeline at the
/// policy-fetch step with success; the step after the fetch
/// is final, so no call to the policy-decision service is ever ordered.
pub proof fn lemma_bypass_marker_skips_evaluation(
    policy_fetch: Result<String, String>,
    request: EvalRequest,
    r: PipelineStep,
)
    requires
        policy_fetch matches Ok(p) && spec_contains(p@, spec_bypass_marker()),
        policy_step_ok(policy_fetch, request, r),
    ensures
        r matches PipelineStep::Finished { answer } && answer.success && answer.message@
            == "Skipped evaluating policy"@,
        !(r is EvaluatePolicy),
{
}

/// A failed broker login for the gateway's own service identity denies the
/// request at once: the step after the logins is final, its verdict names
/// the service-identity login step, and neither the policy fetch nor the
/// policy evaluation is ever ordered.
pub proof fn lemma_failed_service_login_short_circuits(
    api_login: Result<String, String>,
    confidant_login: Result<String, String>,
    r: PipelineStep,
)
    requires
        api_login matches Err(e),
        logins_step_ok(api_login, confidant_login, r),
    ensures
        r matches PipelineStep::Finished { answer } && !answer.success && answer.message@
            == "Could not get Vault token for pektin-api: "@ + api_login->Err_0@,
        !(r is FetchPolicy),
        !(r is EvaluatePolicy),
{
}

/// The verdict weighs both status levels of a policy-decision response: an
/// outer failure denies with the outer message; an outer success with an
/// inner non-success denies with the inner message; a failed call denies
/// with a message naming the evaluation step.
pub proof fn lemma_two_level_status_decides(
    outcome: Result<PolicyEvalResponse, String>,
    r: AuthAnswer,
)
    requires
        evaluation_answer_ok(outcome, r),
    ensures
        outcome matches Ok(resp) ==> {
            &&& resp.status@ == "SUCCESS"@ && resp.data.status@ != "SUCCESS"@ ==> !r.success
                && r.message@ == "Ribston policy evaluation returned: "@ + resp.data.message@
            &&& resp.status@ != "SUCCESS"@ ==> !r.success && r.message@ == resp.message@
        },
        outcome matches Err(e) ==> !r.success && r.message@ == "Could not evaluate client policy: "@
            + e@,
{
}

} // verus!
