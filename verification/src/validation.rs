//! Per-entry structural and semantic validation of submitted records.
//!
//! Validation of a batch yields a same-length, same-order sequence of
//! per-entry results, so callers can report exactly which indices failed
//! and why. The per-entry rules run in a fixed order and the first failing
//! rule determines the reported reason.
use vstd::prelude::*;

use crate::dns_name::parse_dns_name;
use crate::dns_name::valid_name;
use crate::records::RecordEntry;
use crate::records::RecordType;
use crate::records::check_data_decodes;
use crate::records::check_data_matches_type;
use crate::records::data_decodes;
use crate::records::data_matches_type;
use crate::records::key_name_part;
use crate::records::key_type_part;
use crate::records::key_valid;
use crate::records::spec_type_of_token;
use crate::records::split_key;
use crate::records::type_of_token;

verus! {

/// The reason an entry failed validation: the first rule it broke.
#[derive(Clone, Copy, PartialEq, Eq, Structural, Debug)]
pub enum RecordValidationError {
    /// The key does not split at exactly one colon into two non-empty parts.
    InvalidKey,
    /// The key's name part is not a syntactically valid DNS name.
    InvalidDnsName,
    /// The key's type part is not a recognized record type token.
    UnknownRecordType,
    /// The RR set holds no items.
    EmptyRrset,
    /// Some item's payload shape differs from the declared type.
    RecordTypeMismatch,
    /// Some item's payload does not decode into valid typed data.
    InvalidRecordData,
    /// A SOA entry whose RR set holds more than one item.
    TooManySoas,
}

/// The validation verdict an entry receives: the rules of the validator,
/// applied in order, with the first failing rule as the reason.
pub open spec fn spec_validate_entry(e: RecordEntry) -> Result<(), RecordValidationError> {
    if !key_valid(e.key@) {
        Err(RecordValidationError::InvalidKey)
    } else if !valid_name(key_name_part(e.key@)) {
        Err(RecordValidationError::InvalidDnsName)
    } else if spec_type_of_token(key_type_part(e.key@)) is None {
        Err(RecordValidationError::UnknownRecordType)
    } else {
        let t = spec_type_of_token(key_type_part(e.key@))->0;
        if e.rr_set@.len() == 0 {
            Err(RecordValidationError::EmptyRrset)
        } else if !(forall|i: int|
            0 <= i < e.rr_set@.len() ==> data_matches_type(#[trigger] e.rr_set@[i], t)) {
            Err(RecordValidationError::RecordTypeMismatch)
        } else if !(forall|i: int|
            0 <= i < e.rr_set@.len() ==> data_decodes(#[trigger] e.rr_set@[i])) {
            Err(RecordValidationError::InvalidRecordData)
        } else if t is Soa && e.rr_set@.len() != 1 {
            Err(RecordValidationError::TooManySoas)
        } else {
            Ok(())
        }
    }
}

/// Validates one entry. The verdict is a pure function of the entry, so
/// repeated validation of the same entry always agrees.
pub fn validate_entry(e: &RecordEntry) -> (r: Result<(), RecordValidationError>)
    ensures
        r == spec_validate_entry(*e),
{
    let (name, typ) = match split_key(e.key.as_str()) {
        Some(p) => p,
        None => {
            return Err(RecordValidationError::InvalidKey);
        },
    };
    if parse_dns_name(name).is_none() {
        return Err(RecordValidationError::InvalidDnsName);
    }
    let t = match type_of_token(typ) {
        Some(t) => t,
        None => {
            return Err(RecordValidationError::UnknownRecordType);
        },
    };
    if e.rr_set.len() == 0 {
        return Err(RecordValidationError::EmptyRrset);
    }
    let mut i: usize = 0;
    while i < e.rr_set.len()
        invariant
            key_valid(e.key@),
            valid_name(key_name_part(e.key@)),
            spec_type_of_token(key_type_part(e.key@)) == Some(t),
            e.rr_set@.len() > 0,
            i <= e.rr_set@.len(),
            forall|k: int| 0 <= k < i ==> data_matches_type(#[trigger] e.rr_set@[k], t),
        decreases e.rr_set.len() - i,
    {
        if !check_data_matches_type(&e.rr_set[i], t) {
            proof {
                assert(!data_matches_type(e.rr_set@[i as int], t));
            }
            return Err(RecordValidationError::RecordTypeMismatch);
        }
        i += 1;
    }
    let mut i: usize = 0;
    while i < e.rr_set.len()
        invariant
            key_valid(e.key@),
            valid_name(key_name_part(e.key@)),
            spec_type_of_token(key_type_part(e.key@)) == Some(t),
            e.rr_set@.len() > 0,
            i <= e.rr_set@.len(),
            forall|k: int| 0 <= k < e.rr_set@.len() ==> data_matches_type(
                #[trigger] e.rr_set@[k],
                t,
            ),
            forall|k: int| 0 <= k < i ==> data_decodes(#[trigger] e.rr_set@[k]),
        decreases e.rr_set.len() - i,
    {
        if !check_data_decodes(&e.rr_set[i]) {
            proof {
                assert(!data_decodes(e.rr_set@[i as int]));
            }
            return Err(RecordValidationError::InvalidRecordData);
        }
        i += 1;
    }
    if matches!(t, RecordType::Soa) && e.rr_set.len() != 1 {
        return Err(RecordValidationError::TooManySoas);
    }
    Ok(())
}

/// Validates a batch. The result has the batch's length and order: the
/// verdict at each index is exactly the verdict of the entry at that index,
/// an entry fails if and only if some rule rejects it, and no entry's
/// verdict depends on any other entry.
pub fn validate_records(entries: &Vec<RecordEntry>) -> (r: Vec<
    Result<(), RecordValidationError>,
>)
    ensures
        r@.len() == entries@.len(),
        forall|i: int| 0 <= i < entries@.len() ==> r@[i] == spec_validate_entry(
            #[trigger] entries@[i],
        ),
{
    let mut out: Vec<Result<(), RecordValidationError>> = Vec::new();
    let mut i: usize = 0;
    while i < entries.len()
        invariant
            i <= entries@.len(),
            out@.len() == i,
            forall|k: int| 0 <= k < i ==> out@[k] == spec_validate_entry(#[trigger] entries@[k]),
        decreases entries.len() - i,
    {
        let v = validate_entry(&entries[i]);
        out.push(v);
        i += 1;
    }
    out
}

/// An entry passes validation exactly when every rule holds: the key
/// splits well, the name and type parts parse, the RR set is non-empty,
/// every item matches the declared type and decodes, and a SOA entry
/// holds exactly one item. When any rule fails, the reported reason is
/// the first failing rule in the listed order, by the shape of the
/// specified verdict.
pub proof fn lemma_entry_passes_iff_all_rules_hold(e: RecordEntry)
    ensures
        spec_validate_entry(e) is Ok <==> {
            &&& key_valid(e.key@)
            &&& valid_name(key_name_part(e.key@))
            &&& spec_type_of_token(key_type_part(e.key@)) is Some
            &&& e.rr_set@.len() > 0
            &&& forall|i: int|
                0 <= i < e.rr_set@.len() ==> data_matches_type(
                    #[trigger] e.rr_set@[i],
                    spec_type_of_token(key_type_part(e.key@))->0,
                )
            &&& forall|i: int| 0 <= i < e.rr_set@.len() ==> data_decodes(#[trigger] e.rr_set@[i])
            &&& (spec_type_of_token(key_type_part(e.key@))->0 is Soa ==> e.rr_set@.len() == 1)
        },
{
}

/// Validation is deterministic and idempotent: any two verdicts obtained
/// for the same entry are identical, since each equals the entry's one
/// specified verdict.
pub proof fn lemma_validation_idempotent(
    e: RecordEntry,
    r1: Result<(), RecordValidationError>,
    r2: Result<(), RecordValidationError>,
)
    requires
        r1 == spec_validate_entry(e),
        r2 == spec_validate_entry(e),
    ensures
        r1 == r2,
{
}

} // verus!
