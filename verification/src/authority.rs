//! Zone authority resolution: whether a write batch targets a zone this
//! deployment is authoritative for.
//!
//! A batch carrying any SOA-typed entry is accepted unconditionally, since
//! such a write establishes or updates a zone's own apex. Otherwise
//! authority is decided from the batch's first entry alone — carried over
//! from the observed behaviour, where a mixed-zone batch stands or falls
//! with that one entry.
use vstd::prelude::*;

use crate::dns_name::DnsName;
use crate::dns_name::covered;
use crate::dns_name::parse_dns_name;
use crate::dns_name::spec_covered;
use crate::dns_name::spec_labels_of;
use crate::dns_name::valid_name;
use crate::records::RecordEntry;
use crate::records::key_name_part;
use crate::records::key_type_part;
use crate::records::key_valid;
use crate::records::split_key;
use crate::records::str_eq;

verus! {

/// The typed rejection a write batch can receive from authority checking.
#[derive(Clone, Copy, PartialEq, Eq, Structural, Debug)]
pub enum AuthorityError {
    /// The first entry's name does not parse as a DNS name.
    InvalidDomainName,
    /// No stored SOA establishes a zone containing the first entry's name.
    NoSoaRecord,
}

/// The message a rejected write reports.
pub fn authority_error_message(e: AuthorityError) -> (r: &'static str)
    ensures
        e is InvalidDomainName ==> r@ == "invalid domain name"@,
        e is NoSoaRecord ==> r@ == "no SOA record found for this zone"@,
{
    match e {
        AuthorityError::InvalidDomainName => "invalid domain name",
        AuthorityError::NoSoaRecord => "no SOA record found for this zone",
    }
}

/// Whether an entry declares type SOA in its key.
pub open spec fn entry_declares_soa(e: RecordEntry) -> bool {
    key_valid(e.key@) && key_type_part(e.key@) == "SOA"@
}

/// The authority verdict for a batch against the current authoritative
/// zone set: accept when the batch itself carries a SOA entry or is empty;
/// otherwise the first entry's name must parse and must lie within some
/// authoritative zone.
pub open spec fn spec_check_authority(entries: Seq<RecordEntry>, zones: Seq<DnsName>) -> Result<
    (),
    AuthorityError,
> {
    if exists|i: int| 0 <= i < entries.len() && entry_declares_soa(#[trigger] entries[i]) {
        Ok(())
    } else if entries.len() == 0 {
        Ok(())
    } else if !key_valid(entries[0].key@) || !valid_name(key_name_part(entries[0].key@)) {
        Err(AuthorityError::InvalidDomainName)
    } else if exists|z: int|
        0 <= z < zones.len() && spec_covered(
            spec_labels_of(key_name_part(entries[0].key@)),
            (#[trigger] zones[z]).labels_seq(),
        ) {
        Ok(())
    } else {
        Err(AuthorityError::NoSoaRecord)
    }
}

/// Decides whether an entry declares type SOA.
pub fn check_entry_declares_soa(e: &RecordEntry) -> (r: bool)
    ensures
        r == entry_declares_soa(*e),
{
    match split_key(e.key.as_str()) {
        Some((_, typ)) => str_eq(typ, "SOA"),
        None => false,
    }
}

/// Decides authority for a write batch, given the authoritative zone set
/// read from the store's SOA index.
pub fn check_authority(entries: &Vec<RecordEntry>, zones: &Vec<DnsName>) -> (r: Result<
    (),
    AuthorityError,
>)
    ensures
        r == spec_check_authority(entries@, zones@),
{
    let mut i: usize = 0;
    while i < entries.len()
        invariant
            i <= entries@.len(),
            forall|k: int| 0 <= k < i ==> !entry_declares_soa(#[trigger] entries@[k]),
        decreases entries.len() - i,
    {
        if check_entry_declares_soa(&entries[i]) {
            proof {
                assert(entry_declares_soa(entries@[i as int]));
            }
            return Ok(());
        }
        i += 1;
    }
    if entries.len() == 0 {
        return Ok(());
    }
    let name = match split_key(entries[0].key.as_str()) {
        Some((name, _)) => name,
        None => {
            return Err(AuthorityError::InvalidDomainName);
        },
    };
    let parsed = match parse_dns_name(name) {
        Some(d) => d,
        None => {
            return Err(AuthorityError::InvalidDomainName);
        },
    };
    let mut z: usize = 0;
    while z < zones.len()
        invariant
            z <= zones@.len(),
            forall|k: int| 0 <= k < entries@.len() ==> !entry_declares_soa(#[trigger] entries@[k]),
            entries@.len() > 0,
            key_valid(entries@[0].key@),
            valid_name(key_name_part(entries@[0].key@)),
            parsed.labels_seq() == spec_labels_of(key_name_part(entries@[0].key@)),
            forall|k: int| 0 <= k < z ==> !spec_covered(
                spec_labels_of(key_name_part(entries@[0].key@)),
                (#[trigger] zones@[k]).labels_seq(),
            ),
        decreases zones.len() - z,
    {
        if covered(&parsed, &zones[z]) {
            return Ok(());
        }
        z += 1;
    }
    Err(AuthorityError::NoSoaRecord)
}

} // verus!
