use pektin_api::authority::{check_authority, AuthorityError};
use pektin_api::cache::{CredentialCache, CONFIDANT_TOKEN_TTL_MILLIS};
use pektin_api::dns_name::{parse_dns_name, DnsName};
use pektin_api::health::health_summary;
use pektin_api::records::{RecordEntry, RrData};
use pektin_api::responses::{
    delete_outcome, invalid_indices, missing_zone_message, response_type, decide_write,
    zone_records_toplevel_message, DeleteOutcome, ResponseType, WriteDecision,
};
use pektin_api::shared_secret::{
    rotated_tokens, shared_secret_answer, shared_secret_auth, SharedSecretTokens,
};
use pektin_api::validation::validate_records;

fn entry(key: &str, rr_set: Vec<RrData>) -> RecordEntry {
    RecordEntry { key: key.to_string(), rr_set }
}

fn a(value: &str) -> RrData {
    RrData::A { value: value.to_string() }
}

fn soa() -> RrData {
    RrData::Soa {
        mname: "ns1.example.com.".to_string(),
        rname: "hostmaster.example.com.".to_string(),
        serial: 2021,
        refresh: 7200,
        retry: 3600,
        expire: 1209600,
        minimum: 3600,
    }
}

fn zones(names: &[&str]) -> Vec<DnsName> {
    names.iter().map(|n| parse_dns_name(n).expect("zone should parse")).collect()
}

#[test]
fn batch_with_soa_is_accepted_without_zone_lookup() {
    let entries = vec![entry("newzone.org.:SOA", vec![soa()])];
    assert_eq!(check_authority(&entries, &zones(&[])), Ok(()));
}

#[test]
fn covered_batch_is_accepted() {
    let entries = vec![entry("sub.example.com.:A", vec![a("1.2.3.4")])];
    assert_eq!(check_authority(&entries, &zones(&["example.com."])), Ok(()));
}

#[test]
fn uncovered_batch_is_rejected() {
    let entries = vec![entry("other.org.:A", vec![a("1.2.3.4")])];
    assert_eq!(
        check_authority(&entries, &zones(&["example.com."])),
        Err(AuthorityError::NoSoaRecord)
    );
}

#[test]
fn unparsable_first_name_is_rejected() {
    let entries = vec![entry("bad..name.:A", vec![a("1.2.3.4")])];
    assert_eq!(
        check_authority(&entries, &zones(&["example.com."])),
        Err(AuthorityError::InvalidDomainName)
    );
}

#[test]
fn authority_follows_the_first_entry_only() {
    // carried-over behaviour: the second entry's zone is never examined
    let entries = vec![
        entry("sub.example.com.:A", vec![a("1.2.3.4")]),
        entry("other.org.:A", vec![a("1.2.3.4")]),
    ];
    assert_eq!(check_authority(&entries, &zones(&["example.com."])), Ok(()));
}

#[test]
fn empty_batch_is_accepted() {
    assert_eq!(check_authority(&vec![], &zones(&["example.com."])), Ok(()));
}

#[test]
fn failing_indices_are_reported_in_order() {
    let entries = vec![
        entry("a.example.com.:A", vec![a("1.2.3.4")]),
        entry("b.example.com.:A", vec![]),
        entry("c.example.com.:A", vec![a("1.2.3.4")]),
        entry("d.example.com.:A", vec![a("999.0.0.1")]),
    ];
    let checks = validate_records(&entries);
    assert_eq!(invalid_indices(&checks), vec![1, 3]);
    match decide_write(&entries, &zones(&["example.com."])) {
        WriteDecision::InvalidRecords { indices } => assert_eq!(indices, vec![1, 3]),
        _ => panic!("expected the batch to be rejected as invalid"),
    }
}

#[test]
fn valid_covered_batch_is_planned_for_writing() {
    let entries = vec![entry("sub.example.com.:A", vec![a("1.2.3.4")])];
    match decide_write(&entries, &zones(&["example.com."])) {
        WriteDecision::Accepted => {}
        _ => panic!("expected the batch to be accepted"),
    }
}

#[test]
fn valid_uncovered_batch_is_rejected_by_authority() {
    let entries = vec![entry("other.org.:A", vec![a("1.2.3.4")])];
    match decide_write(&entries, &zones(&["example.com."])) {
        WriteDecision::AuthorityRejected { reason } => {
            assert_eq!(reason, AuthorityError::NoSoaRecord)
        }
        _ => panic!("expected an authority rejection"),
    }
}

#[test]
fn response_type_is_tristate() {
    assert_eq!(response_type(&vec![true, true]), ResponseType::Success);
    assert_eq!(response_type(&vec![false, false]), ResponseType::Error);
    assert_eq!(response_type(&vec![true, false]), ResponseType::PartialSuccess);
    assert_eq!(response_type(&vec![]), ResponseType::Success);
}

#[test]
fn toplevel_messages_follow_the_outcome() {
    assert_eq!(zone_records_toplevel_message(ResponseType::Success), "got records");
    assert_eq!(
        zone_records_toplevel_message(ResponseType::PartialSuccess),
        "couldn't get records for all zones"
    );
    assert_eq!(zone_records_toplevel_message(ResponseType::Error), "couldn't get records");
    assert_eq!(missing_zone_message(true), "not found");
    assert_eq!(missing_zone_message(false), "non-absolute name");
}

#[test]
fn delete_outcome_reports_the_count() {
    match delete_outcome(3) {
        DeleteOutcome::Removed { keys_removed } => assert_eq!(keys_removed, 3),
        _ => panic!("expected a removal count"),
    }
    match delete_outcome(0) {
        DeleteOutcome::NoneMatched => {}
        _ => panic!("expected no match"),
    }
}

#[test]
fn confidant_token_is_served_only_while_fresh() {
    let mut cache = CredentialCache::new();
    assert_eq!(cache.get_confidant_token("alice", 1000), None);
    cache.put_confidant_token("alice", "tok-1".to_string(), 1000);
    assert_eq!(cache.get_confidant_token("alice", 1000), Some("tok-1".to_string()));
    assert_eq!(
        cache.get_confidant_token("alice", 1000 + CONFIDANT_TOKEN_TTL_MILLIS - 1),
        Some("tok-1".to_string())
    );
    assert_eq!(cache.get_confidant_token("alice", 1000 + CONFIDANT_TOKEN_TTL_MILLIS), None);
    // a timestamp before the stored one counts as stale, not fresh
    assert_eq!(cache.get_confidant_token("alice", 999), None);
}

#[test]
fn client_slots_are_independent() {
    let mut cache = CredentialCache::new();
    cache.put_confidant_token("alice", "tok-a".to_string(), 0);
    cache.put_confidant_token("bob", "tok-b".to_string(), 0);
    cache.put_client_policy("alice", "alice-policy".to_string());
    assert_eq!(cache.get_confidant_token("alice", 1), Some("tok-a".to_string()));
    assert_eq!(cache.get_confidant_token("bob", 1), Some("tok-b".to_string()));
    assert_eq!(cache.get_client_policy("alice"), Some("alice-policy".to_string()));
    assert_eq!(cache.get_client_policy("bob"), None);
}

#[test]
fn policy_survives_token_refresh() {
    let mut cache = CredentialCache::new();
    cache.put_client_policy("alice", "p1".to_string());
    cache.put_confidant_token("alice", "tok-2".to_string(), 5);
    assert_eq!(cache.get_client_policy("alice"), Some("p1".to_string()));
    assert_eq!(cache.get_confidant_token("alice", 6), Some("tok-2".to_string()));
}

#[test]
fn api_token_lives_until_cleared() {
    let mut cache = CredentialCache::new();
    assert_eq!(cache.get_api_token(), None);
    cache.put_api_token("svc".to_string());
    assert_eq!(cache.get_api_token(), Some("svc".to_string()));
    cache.clear_api_token();
    assert_eq!(cache.get_api_token(), None);
}

#[test]
fn health_message_names_the_missing_collaborators() {
    let all = health_summary(true, 200, 200);
    assert!(all.all_ok);
    assert_eq!(all.message, "Pektin API is feelin' good today.");
    let none = health_summary(false, 500, 0);
    assert!(!none.all_ok);
    assert_eq!(
        none.message,
        "Pektin API is healthy but lonely without a good relation with Redis, Vault, and Ribston."
    );
    let no_vault = health_summary(true, 503, 200);
    assert!(!no_vault.all_ok);
    assert_eq!(
        no_vault.message,
        "Pektin API is healthy but lonely without a good relation with Vault."
    );
    let no_db_ribston = health_summary(false, 200, 404);
    assert_eq!(
        no_db_ribston.message,
        "Pektin API is healthy but lonely without a good relation with Redis and Ribston."
    );
}

#[test]
fn either_rotating_token_authenticates() {
    let tokens = SharedSecretTokens {
        gss_token: "gss_token:abc".to_string(),
        gssr_token: "gssr_token:def".to_string(),
    };
    assert!(shared_secret_auth(&tokens, "gss_token:abc"));
    assert!(shared_secret_auth(&tokens, "gssr_token:def"));
    assert!(!shared_secret_auth(&tokens, "gss_token:zzz"));
    assert!(shared_secret_answer(&tokens, "gss_token:abc").success);
    assert!(!shared_secret_answer(&tokens, "nope").success);
}

#[test]
fn rotation_builds_prefixed_tokens() {
    let pair = rotated_tokens("r1", "r2");
    assert_eq!(pair.gss_token, "gss_token:r1");
    assert_eq!(pair.gssr_token, "gssr_token:r2");
}
