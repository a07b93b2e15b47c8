//! The legacy shared-secret authentication variant: a pair of rotating
//! process-wide tokens compared against the one supplied by the caller.
//!
//! Authentication is a capability with two interchangeable variants — the
//! delegated broker pipeline, and this scheme — selected by configuration;
//! both produce the same verdict shape, so the rest of the gateway depends
//! only on that. The periodic rotation runs outside this library; it calls
//! in to build each fresh pair, and replaces the shared pair whole.
use vstd::prelude::*;

use crate::auth::AuthAnswer;
use crate::records::str_eq;

verus! {

/// The two currently accepted shared-secret tokens.
pub struct SharedSecretTokens {
    pub gss_token: String,
    pub gssr_token: String,
}

/// A supplied token is accepted when it equals either current token.
pub open spec fn spec_shared_secret_ok(tokens: SharedSecretTokens, supplied: Seq<char>) -> bool {
    supplied == tokens.gss_token@ || supplied == tokens.gssr_token@
}

/// Decides whether a supplied token matches either current token.
pub fn shared_secret_auth(tokens: &SharedSecretTokens, supplied: &str) -> (r: bool)
    ensures
        r == spec_shared_secret_ok(*tokens, supplied@),
{
    str_eq(supplied, tokens.gss_token.as_str()) || str_eq(supplied, tokens.gssr_token.as_str())
}

/// The verdict of the shared-secret variant, in the same shape the
/// delegated pipeline produces.
pub fn shared_secret_answer(tokens: &SharedSecretTokens, supplied: &str) -> (r: AuthAnswer)
    ensures
        r.success == spec_shared_secret_ok(*tokens, supplied@),
        r.success ==> r.message@ == "Success."@,
        !r.success ==> r.message@ == "Unauthorized."@,
{
    if shared_secret_auth(tokens, supplied) {
        AuthAnswer { success: true, message: "Success.".to_owned() }
    } else {
        AuthAnswer { success: false, message: "Unauthorized.".to_owned() }
    }
}

/// Builds the next token pair from two fresh random strings. The caller
/// replaces the process-wide pair with the result atomically, so a reader
/// never observes one rotated token without the other.
pub fn rotated_tokens(gss_random: &str, gssr_random: &str) -> (r: SharedSecretTokens)
    ensures
        r.gss_token@ == "gss_token:"@ + gss_random@,
        r.gssr_token@ == "gssr_token:"@ + gssr_random@,
{
    SharedSecretTokens {
        gss_token: "gss_token:".to_owned().concat(gss_random),
        gssr_token: "gssr_token:".to_owned().concat(gssr_random),
    }
}

} // verus!
