//! Shaping of request outcomes into the gateway's structured responses:
//! which indices of a batch failed, the tri-state outcome of a batch
//! operation, and the exact texts of the fixed responses.
use vstd::prelude::*;

use crate::authority::AuthorityError;
use crate::authority::check_authority;
use crate::authority::spec_check_authority;
use crate::dns_name::DnsName;
use crate::records::RecordEntry;
use crate::validation::RecordValidationError;
use crate::validation::spec_validate_entry;
use crate::validation::validate_records;

verus! {

/// The tri-state outcome of a batch operation.
#[derive(Clone, Copy, PartialEq, Eq, Structural, Debug)]
pub enum ResponseType {
    /// Every item succeeded.
    Success,
    /// Some items succeeded and some failed, each independently.
    PartialSuccess,
    /// Every item failed.
    Error,
}

/// The indices at which a batch's verdicts are failures, in order.
pub open spec fn spec_invalid_indices(s: Seq<Result<(), RecordValidationError>>) -> Seq<int>
    decreases s.len(),
{
    if s.len() == 0 {
        seq![]
    } else {
        spec_invalid_indices(s.drop_last()) + if s.last() is Err {
            seq![s.len() - 1]
        } else {
            seq![]
        }
    }
}

/// Collects the indices of failing verdicts, in their original order.
pub fn invalid_indices(checks: &Vec<Result<(), RecordValidationError>>) -> (r: Vec<usize>)
    ensures
        r@.map_values(|x: usize| x as int) == spec_invalid_indices(checks@),
{
    let mut out: Vec<usize> = Vec::new();
    let mut i: usize = 0;
    proof {
        assert(checks@.subrange(0, 0) =~= Seq::<Result<(), RecordValidationError>>::empty());
        assert(out@.map_values(|x: usize| x as int) =~= spec_invalid_indices(
            checks@.subrange(0, 0),
        ));
    }
    while i < checks.len()
        invariant
            i <= checks@.len(),
            out@.map_values(|x: usize| x as int) == spec_invalid_indices(
                checks@.subrange(0, i as int),
            ),
        decreases checks.len() - i,
    {
        proof {
            assert(checks@.subrange(0, i + 1).drop_last() =~= checks@.subrange(0, i as int));
            assert(checks@.subrange(0, i + 1).last() == checks@[i as int]);
        }
        if checks[i].is_err() {
            out.push(i);
        }
        proof {
            assert(out@.map_values(|x: usize| x as int) =~= spec_invalid_indices(
                checks@.subrange(0, i + 1),
            ));
        }
        i += 1;
    }
    proof {
        assert(checks@.subrange(0, checks@.len() as int) =~= checks@);
    }
    out
}

/// Every index the collection yields is a failing one, every failing index
/// is in it, and the indices come in strictly increasing (original) order.
pub proof fn lemma_invalid_indices_exact(s: Seq<Result<(), RecordValidationError>>)
    ensures
        forall|j: int|
            0 <= j < spec_invalid_indices(s).len() ==> {
                let ix = #[trigger] spec_invalid_indices(s)[j];
                0 <= ix < s.len() && s[ix] is Err
            },
        forall|ix: int|
            0 <= ix < s.len() && (#[trigger] s[ix]) is Err ==> spec_invalid_indices(s).contains(
                ix,
            ),
        forall|j: int, k: int|
            0 <= j < k < spec_invalid_indices(s).len() ==> spec_invalid_indices(s)[j]
                < spec_invalid_indices(s)[k],
    decreases s.len(),
{
    if s.len() > 0 {
        lemma_invalid_indices_exact(s.drop_last());
        assert forall|ix: int|
            0 <= ix < s.len() && (#[trigger] s[ix]) is Err implies spec_invalid_indices(
            s,
        ).contains(ix) by {
            if ix < s.len() - 1 {
                assert(s.drop_last()[ix] is Err);
                let j = choose|j: int|
                    0 <= j < spec_invalid_indices(s.drop_last()).len()
                        && spec_invalid_indices(s.drop_last())[j] == ix;
                assert(spec_invalid_indices(s)[j] == ix);
            } else {
                assert(spec_invalid_indices(s).last() == ix);
            }
        }
    }
}

/// The tri-state outcome over per-item success flags: all succeeded, all
/// failed, or a mixture.
pub open spec fn spec_response_type(oks: Seq<bool>) -> ResponseType {
    if forall|i: int| 0 <= i < oks.len() ==> oks[i] {
        ResponseType::Success
    } else if forall|i: int| 0 <= i < oks.len() ==> !oks[i] {
        ResponseType::Error
    } else {
        ResponseType::PartialSuccess
    }
}

/// Computes the tri-state outcome of a batch from its per-item success
/// flags. A batch with no items counts as all-successful.
pub fn response_type(oks: &Vec<bool>) -> (r: ResponseType)
    ensures
        r == spec_response_type(oks@),
{
    let mut any_ok = false;
    let mut any_err = false;
    let mut i: usize = 0;
    while i < oks.len()
        invariant
            i <= oks@.len(),
            any_ok <==> exists|k: int| 0 <= k < i && oks@[k],
            any_err <==> exists|k: int| 0 <= k < i && !oks@[k],
        decreases oks.len() - i,
    {
        if oks[i] {
            any_ok = true;
        } else {
            any_err = true;
        }
        i += 1;
    }
    if !any_err {
        ResponseType::Success
    } else if !any_ok {
        proof {
            let k = choose|k: int| 0 <= k < oks@.len() && !oks@[k];
            assert(!oks@[k]);
        }
        ResponseType::Error
    } else {
        ResponseType::PartialSuccess
    }
}

/// The outcome of a delete request, shaped from the store's removal count.
pub enum DeleteOutcome {
    /// At least one key was removed; the count is reported.
    Removed { keys_removed: u32 },
    /// No key matched; the response says so without reporting an error.
    NoneMatched,
}

/// Shapes a delete request's outcome from the number of keys the store
/// removed.
pub fn delete_outcome(count: u32) -> (r: DeleteOutcome)
    ensures
        count > 0 ==> (r matches DeleteOutcome::Removed { keys_removed } && keys_removed == count),
        count == 0 ==> r is NoneMatched,
{
    if count > 0 {
        DeleteOutcome::Removed { keys_removed: count }
    } else {
        DeleteOutcome::NoneMatched
    }
}

/// The toplevel message of a zone-records response, by its tri-state
/// outcome.
pub fn zone_records_toplevel_message(t: ResponseType) -> (r: &'static str)
    ensures
        t is Success ==> r@ == "got records"@,
        t is PartialSuccess ==> r@ == "couldn't get records for all zones"@,
        t is Error ==> r@ == "couldn't get records"@,
{
    match t {
        ResponseType::Success => "got records",
        ResponseType::PartialSuccess => "couldn't get records for all zones",
        ResponseType::Error => "couldn't get records",
    }
}

/// The per-name failure message of a zone-records response: a name the
/// store holds no zone for is reported as missing, unless it was not even
/// absolute.
pub fn missing_zone_message(is_absolute: bool) -> (r: &'static str)
    ensures
        is_absolute ==> r@ == "not found"@,
        !is_absolute ==> r@ == "non-absolute name"@,
{
    if is_absolute {
        "not found"
    } else {
        "non-absolute name"
    }
}

/// The decision a write batch receives before it may touch the store:
/// first validation over every entry, then zone authority from the store's
/// SOA index.
pub enum WriteDecision {
    /// Some entries failed validation; the batch is rejected and these are
    /// exactly the failing indices, in original order.
    InvalidRecords { indices: Vec<usize> },
    /// Every entry is valid but the batch lies outside every authoritative
    /// zone, or its first entry's name does not parse.
    AuthorityRejected { reason: AuthorityError },
    /// The batch may be written.
    Accepted,
}

/// Characterizes the write decision for a batch against the authoritative
/// zone set.
pub open spec fn write_decision_ok(
    entries: Seq<RecordEntry>,
    zones: Seq<DnsName>,
    r: WriteDecision,
) -> bool {
    if exists|i: int| 0 <= i < entries.len() && (#[trigger] spec_validate_entry(entries[i])) is Err {
        r matches WriteDecision::InvalidRecords { indices } && indices@.map_values(
            |x: usize| x as int,
        ) == spec_invalid_indices(entries.map_values(|e: RecordEntry| spec_validate_entry(e)))
    } else {
        match spec_check_authority(entries, zones) {
            Err(reason) => r matches WriteDecision::AuthorityRejected {
                reason: carried,
            } && carried == reason,
            Ok(_) => r is Accepted,
        }
    }
}

/// Decides a write batch: validates every entry — reporting exactly the
/// failing indices when any fail — and otherwise checks zone authority.
pub fn decide_write(entries: &Vec<RecordEntry>, zones: &Vec<DnsName>) -> (r: WriteDecision)
    ensures
        write_decision_ok(entries@, zones@, r),
{
    let checks = validate_records(entries);
    let bad = invalid_indices(&checks);
    if bad.len() > 0 {
        proof {
            let m = entries@.map_values(|e: RecordEntry| spec_validate_entry(e));
            assert(checks@ =~= m);
            lemma_invalid_indices_exact(checks@);
            let ix = spec_invalid_indices(checks@)[0];
            assert(bad@.map_values(|x: usize| x as int)[0] == ix);
            assert(checks@[ix] is Err);
            assert(spec_validate_entry(entries@[ix]) is Err);
        }
        return WriteDecision::InvalidRecords { indices: bad };
    }
    proof {
        let m = entries@.map_values(|e: RecordEntry| spec_validate_entry(e));
        assert(checks@ =~= m);
        lemma_invalid_indices_exact(checks@);
        assert forall|i: int|
            0 <= i < entries@.len() implies !((#[trigger] spec_validate_entry(
            entries@[i],
        )) is Err) by {
            if spec_validate_entry(entries@[i]) is Err {
                assert(checks@[i] is Err);
                assert(spec_invalid_indices(checks@).contains(i));
                let j = choose|j: int|
                    0 <= j < spec_invalid_indices(checks@).len() && spec_invalid_indices(
                        checks@,
                    )[j] == i;
                assert(bad@.map_values(|x: usize| x as int).len() > 0);
            }
        }
    }
    match check_authority(entries, zones) {
        Ok(_) => WriteDecision::Accepted,
        Err(reason) => WriteDecision::AuthorityRejected { reason },
    }
}

} // verus!
