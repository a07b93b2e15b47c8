use pektin_api::records::{RecordEntry, RrData};
use pektin_api::validation::{validate_entry, validate_records, RecordValidationError};

fn entry(key: &str, rr_set: Vec<RrData>) -> RecordEntry {
    RecordEntry { key: key.to_string(), rr_set }
}

fn a(value: &str) -> RrData {
    RrData::A { value: value.to_string() }
}

fn txt(value: &str) -> RrData {
    RrData::Txt { value: value.to_string() }
}

fn soa() -> RrData {
    RrData::Soa {
        mname: "ns1.example.com.".to_string(),
        rname: "hostmaster.example.com.".to_string(),
        serial: 2021,
        refresh: 7200,
        retry: 3600,
        expire: 1209600,
        minimum: 3600,
    }
}

#[test]
fn empty_rr_set_is_rejected() {
    let e = entry("sub.example.com.:A", vec![]);
    assert_eq!(validate_entry(&e), Err(RecordValidationError::EmptyRrset));
}

#[test]
fn valid_address_entry_passes() {
    let e = entry("sub.example.com.:A", vec![a("1.2.3.4")]);
    assert_eq!(validate_entry(&e), Ok(()));
}

#[test]
fn text_payload_under_address_type_is_a_mismatch() {
    let e = entry("sub.example.com.:A", vec![txt("hi")]);
    assert_eq!(validate_entry(&e), Err(RecordValidationError::RecordTypeMismatch));
}

#[test]
fn two_soas_in_one_entry_are_rejected() {
    let e = entry("sub.example.com.:SOA", vec![soa(), soa()]);
    assert_eq!(validate_entry(&e), Err(RecordValidationError::TooManySoas));
}

#[test]
fn single_soa_entry_passes() {
    let e = entry("example.com.:SOA", vec![soa()]);
    assert_eq!(validate_entry(&e), Ok(()));
}

#[test]
fn key_without_separator_is_rejected() {
    let e = entry("sub.example.com.", vec![a("1.2.3.4")]);
    assert_eq!(validate_entry(&e), Err(RecordValidationError::InvalidKey));
}

#[test]
fn key_with_two_separators_is_rejected() {
    let e = entry("sub.example.com.:A:B", vec![a("1.2.3.4")]);
    assert_eq!(validate_entry(&e), Err(RecordValidationError::InvalidKey));
}

#[test]
fn key_with_empty_name_part_is_rejected() {
    let e = entry(":A", vec![a("1.2.3.4")]);
    assert_eq!(validate_entry(&e), Err(RecordValidationError::InvalidKey));
}

#[test]
fn key_with_empty_type_part_is_rejected() {
    let e = entry("sub.example.com.:", vec![a("1.2.3.4")]);
    assert_eq!(validate_entry(&e), Err(RecordValidationError::InvalidKey));
}

#[test]
fn doubled_dot_in_name_is_rejected() {
    let e = entry("sub..example.com.:A", vec![a("1.2.3.4")]);
    assert_eq!(validate_entry(&e), Err(RecordValidationError::InvalidDnsName));
}

#[test]
fn space_in_name_is_rejected() {
    let e = entry("sub example.com.:A", vec![a("1.2.3.4")]);
    assert_eq!(validate_entry(&e), Err(RecordValidationError::InvalidDnsName));
}

#[test]
fn unrecognized_type_token_is_rejected() {
    let e = entry("sub.example.com.:WOOF", vec![a("1.2.3.4")]);
    assert_eq!(validate_entry(&e), Err(RecordValidationError::UnknownRecordType));
}

#[test]
fn lowercase_type_token_is_rejected() {
    let e = entry("sub.example.com.:a", vec![a("1.2.3.4")]);
    assert_eq!(validate_entry(&e), Err(RecordValidationError::UnknownRecordType));
}

#[test]
fn out_of_range_octet_is_invalid_data() {
    let e = entry("sub.example.com.:A", vec![a("999.1.1.1")]);
    assert_eq!(validate_entry(&e), Err(RecordValidationError::InvalidRecordData));
}

#[test]
fn three_group_address_is_invalid_data() {
    let e = entry("sub.example.com.:A", vec![a("1.2.3")]);
    assert_eq!(validate_entry(&e), Err(RecordValidationError::InvalidRecordData));
}

#[test]
fn mismatch_is_reported_before_invalid_data() {
    // the first failing rule decides: shape mismatch comes before decoding
    let e = entry("sub.example.com.:A", vec![a("999.1.1.1"), txt("hi")]);
    assert_eq!(validate_entry(&e), Err(RecordValidationError::RecordTypeMismatch));
}

#[test]
fn soa_with_invalid_mname_is_invalid_data() {
    let e = entry(
        "example.com.:SOA",
        vec![RrData::Soa {
            mname: "ns1..example.com.".to_string(),
            rname: "hostmaster.example.com.".to_string(),
            serial: 1,
            refresh: 1,
            retry: 1,
            expire: 1,
            minimum: 1,
        }],
    );
    assert_eq!(validate_entry(&e), Err(RecordValidationError::InvalidRecordData));
}

#[test]
fn mx_and_ns_payloads_decode_as_names() {
    let ok = entry(
        "example.com.:MX",
        vec![RrData::Mx { preference: 10, exchange: "mail.example.com.".to_string() }],
    );
    assert_eq!(validate_entry(&ok), Ok(()));
    let bad = entry(
        "example.com.:NS",
        vec![RrData::Ns { value: "ns1..example.com.".to_string() }],
    );
    assert_eq!(validate_entry(&bad), Err(RecordValidationError::InvalidRecordData));
}

#[test]
fn batch_results_keep_length_and_order() {
    let entries = vec![
        entry("a.example.com.:A", vec![a("1.2.3.4")]),
        entry("b.example.com.:A", vec![]),
        entry("c.example.com.:A", vec![a("1.2.3.4")]),
    ];
    let results = validate_records(&entries);
    assert_eq!(results.len(), 3);
    assert_eq!(results[0], Ok(()));
    assert_eq!(results[1], Err(RecordValidationError::EmptyRrset));
    assert_eq!(results[2], Ok(()));
}

#[test]
fn validation_is_idempotent() {
    let e = entry("sub.example.com.:A", vec![a("1.2.3.4"), txt("oops")]);
    let first = validate_entry(&e);
    let second = validate_entry(&e);
    assert_eq!(first, second);
    let good = entry("sub.example.com.:A", vec![a("1.2.3.4")]);
    assert_eq!(validate_entry(&good), validate_entry(&good));
}
