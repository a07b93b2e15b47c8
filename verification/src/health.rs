//! The health report: which upstream collaborators answered, and the exact
//! message the gateway returns for each combination.
use vstd::prelude::*;

verus! {

/// The gateway's health verdict over its three collaborators.
pub struct HealthSummary {
    pub all_ok: bool,
    pub message: String,
}

/// The message for a given combination of collaborator states.
pub open spec fn spec_health_message(db_ok: bool, vault_ok: bool, ribston_ok: bool) -> Seq<char> {
    let lonely = "Pektin API is healthy but lonely without a good relation with"@;
    if !db_ok && !vault_ok && !ribston_ok {
        lonely + " Redis, Vault, and Ribston."@
    } else if !db_ok && !vault_ok {
        lonely + " Redis and Vault."@
    } else if !db_ok && !ribston_ok {
        lonely + " Redis and Ribston."@
    } else if !vault_ok && !ribston_ok {
        lonely + " Vault and Ribston."@
    } else if !db_ok {
        lonely + " Redis."@
    } else if !vault_ok {
        lonely + " Vault."@
    } else if !ribston_ok {
        lonely + " Ribston."@
    } else {
        "Pektin API is feelin' good today."@
    }
}

/// Summarizes the gateway's health from the store connection's state and
/// the two upstream services' status codes. The whole report is healthy
/// exactly when the store answered and both services returned 200.
pub fn health_summary(db_ok: bool, vault_status: u16, ribston_status: u16) -> (r: HealthSummary)
    ensures
        r.all_ok == (db_ok && vault_status == 200 && ribston_status == 200),
        r.message@ == spec_health_message(db_ok, vault_status == 200, ribston_status == 200),
{
    let vault_ok = vault_status == 200;
    let ribston_ok = ribston_status == 200;
    let all_ok = db_ok && vault_ok && ribston_ok;
    let lonely = "Pektin API is healthy but lonely without a good relation with";
    let message: String = if !db_ok && !vault_ok && !ribston_ok {
        lonely.to_owned().concat(" Redis, Vault, and Ribston.")
    } else if !db_ok && !vault_ok {
        lonely.to_owned().concat(" Redis and Vault.")
    } else if !db_ok && !ribston_ok {
        lonely.to_owned().concat(" Redis and Ribston.")
    } else if !vault_ok && !ribston_ok {
        lonely.to_owned().concat(" Vault and Ribston.")
    } else if !db_ok {
        lonely.to_owned().concat(" Redis.")
    } else if !vault_ok {
        lonely.to_owned().concat(" Vault.")
    } else if !ribston_ok {
        lonely.to_owned().concat(" Ribston.")
    } else {
        "Pektin API is feelin' good today.".to_owned()
    };
    HealthSummary { all_ok, message }
}

} // verus!
