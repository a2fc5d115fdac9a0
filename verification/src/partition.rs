//! Partition management decisions. A logical index is backed by `count`
//! physical partitions named `{prefix}.{0}` .. `{prefix}.{count-1}`;
//! existence of the logical index is membership in the owning
//! application's registry list, checked here with its kind precedence.

use vstd::prelude::*;
use crate::errors::ErrorTypes;
use crate::naming::{spec_partition_name, spec_under_prefix, partition_name, lemma_partition_under_prefix};
use crate::status::{spec_is_success, is_success_status, STATUS_CREATED, STATUS_NOT_FOUND};
use crate::text::{str_eq, lemma_dec_digits_injective};

verus! {

/// Equal partition names under one prefix name equal partitions: the
/// decimal tail determines the number.
pub proof fn lemma_partition_name_injective(prefix: Seq<char>, a: nat, b: nat)
    requires
        spec_partition_name(prefix, a) == spec_partition_name(prefix, b),
    ensures
        a == b,
{
    let na = spec_partition_name(prefix, a);
    let nb = spec_partition_name(prefix, b);
    assert(crate::text::dec_digits(a) =~= na.subrange(
        prefix.len() as int + 1,
        na.len() as int,
    ));
    assert(crate::text::dec_digits(b) =~= nb.subrange(
        prefix.len() as int + 1,
        nb.len() as int,
    ));
    lemma_dec_digits_injective(a, b);
}

/// A logical index created with `count` partitions is backed by exactly
/// `count` physical names: they are pairwise distinct, and each lies
/// under the prefix, where the existence check and the fan-out wildcard
/// find it.
pub proof fn lemma_partition_names_complete(prefix: Seq<char>, count: nat)
    ensures
        forall|a: nat, b: nat|
            a < count && b < count && #[trigger] spec_partition_name(prefix, a)
                == #[trigger] spec_partition_name(prefix, b) ==> a == b,
        forall|i: nat|
            i < count ==> spec_under_prefix(#[trigger] spec_partition_name(prefix, i), prefix),
{
    assert forall|a: nat, b: nat|
        a < count && b < count && #[trigger] spec_partition_name(prefix, a)
            == #[trigger] spec_partition_name(prefix, b) implies a == b by {
        lemma_partition_name_injective(prefix, a, b);
    }
    assert forall|i: nat| i < count implies spec_under_prefix(
        #[trigger] spec_partition_name(prefix, i),
        prefix,
    ) by {
        lemma_partition_under_prefix(prefix, i);
    }
}

/// The physical names backing a logical index: one per partition, in
/// partition order, pairwise distinct.
pub fn partition_names(prefix: &str, count: usize) -> (r: Vec<String>)
    ensures
        r@.len() == count,
        forall|i: int|
            0 <= i < count ==> #[trigger] r@[i]@ == spec_partition_name(prefix@, i as nat),
        forall|i: int, j: int| 0 <= i < j < count ==> r@[i]@ != r@[j]@,
{
    let mut r: Vec<String> = Vec::new();
    let mut i: usize = 0;
    while i < count
        invariant
            i <= count,
            r@.len() == i,
            forall|k: int|
                0 <= k < i ==> #[trigger] r@[k]@ == spec_partition_name(prefix@, k as nat),
        decreases count - i,
    {
        r.push(partition_name(prefix, i as u64));
        i = i + 1;
    }
    proof {
        assert forall|i: int, j: int| 0 <= i < j < count implies r@[i]@ != r@[j]@ by {
            if r@[i]@ == r@[j]@ {
                lemma_partition_name_injective(prefix@, i as nat, j as nat);
            }
        }
    }
    r
}

/// Whether the index exists: the position of the name in the owning
/// application's list, with the list handed back either way so a caller
/// can mutate and re-save it without a second read. Kind precedence is
/// preserved: a registry failure (`ApplicationNotFound` above all)
/// passes through unchanged and is never reshaped into `IndexNotFound`;
/// only a fetched list that lacks the name yields `IndexNotFound`, even
/// if a physically identical-looking partition exists.
#[verifier::loop_isolation(false)]
pub fn index_exists(index_name: &str, registry: Result<Vec<String>, (u16, ErrorTypes)>) -> (r:
    Result<(usize, Vec<String>), (u16, ErrorTypes, Vec<String>)>)
    ensures
        match registry {
            Result::Err((st, err)) => r matches Result::Err((st2, err2, l)) && st2 == st && err2
                == err && l@.len() == 0,
            Result::Ok(list) => match r {
                Result::Ok((pos, l)) => {
                    &&& l@ == list@
                    &&& pos < list@.len()
                    &&& l@[pos as int]@ == index_name@
                    &&& forall|k: int| 0 <= k < pos ==> l@[k]@ != index_name@
                },
                Result::Err((st, err, l)) => {
                    &&& st == STATUS_NOT_FOUND
                    &&& err matches ErrorTypes::IndexNotFound(n) && n@ == index_name@
                    &&& l@ == list@
                    &&& forall|k: int| 0 <= k < list@.len() ==> l@[k]@ != index_name@
                },
            },
        },
{
    match registry {
        Result::Err(pair) => Result::Err((pair.0, pair.1, Vec::new())),
        Result::Ok(list) => {
            let mut pos: usize = 0;
            while pos < list.len()
                invariant
                    pos <= list@.len(),
                    forall|k: int| 0 <= k < pos ==> list@[k]@ != index_name@,
                decreases list@.len() - pos,
            {
                if str_eq(list[pos].as_str(), index_name) {
                    return Result::Ok((pos, list));
                }
                pos = pos + 1;
            }
            let mut name = String::new();
            name.append(index_name);
            Result::Err((STATUS_NOT_FOUND, ErrorTypes::IndexNotFound(name), list))
        },
    }
}

/// What the pre-create existence probe of a physical name decides: a
/// reachable name is a conflict, a missing one clears the way, anything
/// else is handed back as it came.
pub enum CreateGate {
    /// The name answers already: creating it again is a conflict.
    Conflict,
    /// The name is absent: go on and create.
    Proceed,
    /// The probe failed some other way; its status is the outcome.
    Other(u16),
}

/// Decides the pre-create gate from the existence probe's status.
pub fn create_gate_decide(exists_status: u16) -> (r: CreateGate)
    ensures
        spec_is_success(exists_status) ==> r is Conflict,
        exists_status == STATUS_NOT_FOUND ==> r is Proceed,
        (!spec_is_success(exists_status) && exists_status != STATUS_NOT_FOUND) ==> (r
            matches CreateGate::Other(st) && st == exists_status),
{
    if is_success_status(exists_status) {
        CreateGate::Conflict
    } else if exists_status == STATUS_NOT_FOUND {
        CreateGate::Proceed
    } else {
        CreateGate::Other(exists_status)
    }
}

/// The aggregate outcome of the fanned-out partition creations: success
/// only when every partition creation succeeded; any failure leaves the
/// probe's status as the (non-success) aggregate, with previously
/// created partitions left in place.
pub fn create_statuses_decide(exists_status: u16, statuses: &Vec<u16>) -> (r: u16)
    ensures
        (forall|k: int| 0 <= k < statuses@.len() ==> spec_is_success(#[trigger] statuses@[k]))
            ==> r == STATUS_CREATED,
        (exists|k: int| 0 <= k < statuses@.len() && !spec_is_success(#[trigger] statuses@[k]))
            ==> r == exists_status,
{
    let mut i: usize = 0;
    while i < statuses.len()
        invariant
            i <= statuses@.len(),
            forall|k: int| 0 <= k < i ==> spec_is_success(#[trigger] statuses@[k]),
        decreases statuses@.len() - i,
    {
        if !is_success_status(statuses[i]) {
            return exists_status;
        }
        i = i + 1;
    }
    STATUS_CREATED
}

/// Which logical indexes a statistics request covers: all the listed
/// ones, or the one asked for — which must be listed, else it is
/// reported missing rather than queried.
#[verifier::loop_isolation(false)]
pub fn wanted_indexes(list: Vec<String>, wanted: &Option<String>) -> (r: Result<
    Vec<String>,
    ErrorTypes,
>)
    ensures
        match wanted {
            Option::None => r matches Result::Ok(l) && l@ == list@,
            Option::Some(one) => {
                if exists|k: int| 0 <= k < list@.len() && #[trigger] list@[k]@ == one@ {
                    r matches Result::Ok(l) && l@.len() == 1 && l@[0]@ == one@
                } else {
                    r matches Result::Err(e) && (e matches ErrorTypes::IndexNotFound(n) && n@
                        == one@)
                }
            },
        },
{
    match wanted {
        Option::None => Result::Ok(list),
        Option::Some(one) => {
            let mut k: usize = 0;
            while k < list.len()
                invariant
                    k <= list@.len(),
                    forall|j: int| 0 <= j < k ==> list@[j]@ != one@,
                decreases list@.len() - k,
            {
                if str_eq(list[k].as_str(), one.as_str()) {
                    let mut name = String::new();
                    name.append(one.as_str());
                    let mut only: Vec<String> = Vec::new();
                    only.push(name);
                    return Result::Ok(only);
                }
                k = k + 1;
            }
            let mut name = String::new();
            name.append(one.as_str());
            Result::Err(ErrorTypes::IndexNotFound(name))
        },
    }
}

/// The partition count actually provisioned: the caller's override, or
/// the configured default.
pub fn effective_partitions(requested: Option<usize>, default_partitions: usize) -> (r: usize)
    ensures
        r == match requested {
            Option::Some(p) => p,
            Option::None => default_partitions,
        },
{
    match requested {
        Option::Some(p) => p,
        Option::None => default_partitions,
    }
}

} // verus!
