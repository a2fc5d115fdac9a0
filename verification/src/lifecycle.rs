//! Application and logical-index lifecycle: the decisions that compose
//! the registry and the partition manager, stated over the observed
//! engine answers; and the ghost model of the registry-plus-partitions
//! state that the cascade laws are proved over. The two-step sequences
//! here (registry write, then partition work) are not atomic: a failure
//! between the steps leaves partial state, which is reported, never
//! rolled back.

use vstd::prelude::*;
use crate::errors::ErrorTypes;
use crate::naming::{spec_under_prefix, spec_partition_name, spec_wildcard_name, wildcard_name};
use crate::registry::{add_index_to_list, list_has, strictly_sorted};
use crate::status::{
    spec_is_success, is_success_status, STATUS_CONFLICT, STATUS_CREATED, STATUS_NOT_FOUND,
    STATUS_SERVICE_UNAVAILABLE, STATUS_BAD_REQUEST,
};
use crate::text::{lower_seq, lower_chars, str_to_chars, chars_to_string};

verus! {

/// The lowercased copy of a string, untrimmed: the form under which an
/// application id prefixes its physical names.
pub fn lowercase_ascii(s: &str) -> (r: String)
    ensures
        r@ == lower_seq(s@),
{
    let chars = str_to_chars(s);
    let lowered = lower_chars(&chars);
    chars_to_string(&lowered)
}

/// The precondition of every data operation: an unreachable engine is
/// `ServerDown` before anything else; then the index-existence outcome
/// decides, its list handed through on success and its kind and status
/// on failure.
pub fn server_and_index_gate(
    server_up: bool,
    lookup: Result<(usize, Vec<String>), (u16, ErrorTypes, Vec<String>)>,
) -> (r: Result<(usize, Vec<String>), (u16, ErrorTypes)>)
    ensures
        !server_up ==> (r matches Result::Err((st, err)) && st == STATUS_SERVICE_UNAVAILABLE
            && err is ServerDown),
        server_up ==> match lookup {
            Result::Ok(found) => r matches Result::Ok(f) && f == found,
            Result::Err((st, err, _)) => r matches Result::Err((st2, err2)) && st2 == st && err2
                == err,
        },
{
    if !server_up {
        return Result::Err((STATUS_SERVICE_UNAVAILABLE, ErrorTypes::ServerDown));
    }
    match lookup {
        Result::Ok(found) => Result::Ok(found),
        Result::Err(triple) => Result::Err((triple.0, triple.1)),
    }
}

/// The short-circuit of application creation: a taken name is a
/// conflict before any insert is attempted.
pub fn insert_app_gate(name_exists: bool) -> (r: Option<u16>)
    ensures
        name_exists ==> (r matches Option::Some(st) && st == STATUS_CONFLICT),
        !name_exists ==> r is None,
{
    if name_exists {
        Option::Some(STATUS_CONFLICT)
    } else {
        Option::None
    }
}

/// What the insert status of a new application record means for the
/// caller: created and conflict pass through bare; anything else is an
/// unknown failure with the engine's status.
pub fn initialize_decide(insert_status: u16) -> (r: (u16, Option<ErrorTypes>))
    ensures
        insert_status == STATUS_CREATED ==> r == (STATUS_CREATED, Option::<ErrorTypes>::None),
        insert_status == STATUS_CONFLICT ==> r == (STATUS_CONFLICT, Option::<ErrorTypes>::None),
        (insert_status != STATUS_CREATED && insert_status != STATUS_CONFLICT) ==> (r.0
            == insert_status && (r.1 matches Option::Some(e) && e is Unknown)),
{
    if insert_status == STATUS_CREATED {
        (STATUS_CREATED, Option::None)
    } else if insert_status == STATUS_CONFLICT {
        (STATUS_CONFLICT, Option::None)
    } else {
        (insert_status, Option::Some(ErrorTypes::Unknown))
    }
}

/// What creating a logical index does next.
pub enum CreateIndexPlan {
    /// The name is already listed: conflict, with the error to report.
    Conflict { status: u16, error: ErrorTypes },
    /// The registry said no such application, or failed: report as it
    /// came.
    Fail { status: u16, error: ErrorTypes },
    /// The name is new: write this list back to the registry record,
    /// then provision the partitions.
    Proceed { new_list: Vec<String> },
}

/// Decides index creation from the existence check: a listed name is a
/// conflict (`IndexExists`); a missing application passes through with
/// its status; an unknown registry failure is reported unknown; a
/// missing index name proceeds, with the name added to the listed set —
/// sorted, deduplicated, nothing else changed.
pub fn create_index_plan(
    idx: &str,
    lookup: Result<(usize, Vec<String>), (u16, ErrorTypes, Vec<String>)>,
) -> (r: CreateIndexPlan)
    ensures
        match lookup {
            Result::Ok(_) => r matches CreateIndexPlan::Conflict { status, error } && status
                == STATUS_CONFLICT && (error matches ErrorTypes::IndexExists(n) && n@ == idx@),
            Result::Err((st, err, list)) => {
                if err is ApplicationNotFound {
                    r matches CreateIndexPlan::Fail { status, error } && status == st && error
                        == err
                } else if err is IndexNotFound {
                    r matches CreateIndexPlan::Proceed { new_list } && strictly_sorted(new_list@)
                        && forall|x: Seq<char>|
                        #[trigger] list_has(new_list@, x) <==> (list_has(list@, x) || x == idx@)
                } else {
                    r matches CreateIndexPlan::Fail { status, error } && status == st
                        && error is Unknown
                }
            },
        },
{
    match lookup {
        Result::Ok(_) => {
            let mut name = String::new();
            name.append(idx);
            CreateIndexPlan::Conflict {
                status: STATUS_CONFLICT,
                error: ErrorTypes::IndexExists(name),
            }
        },
        Result::Err(triple) => {
            let (st, err, list) = triple;
            match err {
                ErrorTypes::ApplicationNotFound(id) => CreateIndexPlan::Fail {
                    status: st,
                    error: ErrorTypes::ApplicationNotFound(id),
                },
                ErrorTypes::IndexNotFound(_) => CreateIndexPlan::Proceed {
                    new_list: add_index_to_list(&list, idx),
                },
                _ => CreateIndexPlan::Fail { status: st, error: ErrorTypes::Unknown },
            }
        },
    }
}

/// Decides index deletion from the existence check: when the index is
/// listed at `pos`, the registry record is rewritten first, with
/// exactly that entry removed; the physical partitions under the
/// prefix are deleted only after that write succeeds. A missing
/// application or index is reported as it came.
pub fn delete_index_plan(lookup: Result<(usize, Vec<String>), (u16, ErrorTypes, Vec<String>)>) -> (
    r: Result<Vec<String>, (u16, ErrorTypes)>)
    ensures
        match lookup {
            Result::Ok((pos, list)) => {
                &&& pos < list@.len() ==> (r matches Result::Ok(new_list) && new_list@
                    == list@.remove(pos as int))
                &&& pos >= list@.len() ==> (r matches Result::Ok(new_list) && new_list@ == list@)
            },
            Result::Err((st, err, _)) => r matches Result::Err((st2, err2)) && st2 == st && err2
                == err,
        },
{
    match lookup {
        Result::Ok(pair) => {
            let (pos, mut list) = pair;
            if pos < list.len() {
                list.remove(pos);
                Result::Ok(list)
            } else {
                Result::Ok(list)
            }
        },
        Result::Err(triple) => Result::Err((triple.0, triple.1)),
    }
}

/// Decides application deletion from the registry-record delete: on
/// success, every physical index under `{lowercase(app_id)}.` is to be
/// deleted, addressed by the returned wildcard; on failure the
/// application is reported missing, with not-found.
pub fn delete_application_decide(app_id: &str, delete_status: u16) -> (r: Result<String, (
    u16,
    ErrorTypes,
)>)
    ensures
        spec_is_success(delete_status) ==> (r matches Result::Ok(pattern) && pattern@
            == spec_wildcard_name(lower_seq(app_id@))),
        !spec_is_success(delete_status) ==> (r matches Result::Err((st, err)) && st
            == STATUS_NOT_FOUND && (err matches ErrorTypes::ApplicationNotFound(id) && id@
            == app_id@)),
{
    if is_success_status(delete_status) {
        let lowered = lowercase_ascii(app_id);
        Result::Ok(wildcard_name(lowered.as_str()))
    } else {
        let mut id = String::new();
        id.append(app_id);
        Result::Err((STATUS_NOT_FOUND, ErrorTypes::ApplicationNotFound(id)))
    }
}

/// How a point read of a document answers: nothing on success, the
/// document reported missing on not-found — a malformed or forged id
/// routes to a partition that does not hold it and surfaces here, not
/// as a routing error — and unknown otherwise. Deletion answers the
/// same way.
pub fn get_document_error(doc_id: &str, status: u16) -> (r: Option<ErrorTypes>)
    ensures
        spec_is_success(status) ==> r is None,
        (!spec_is_success(status) && status == STATUS_NOT_FOUND) ==> (r matches Option::Some(e)
            && (e matches ErrorTypes::DocumentNotFound(id) && id@ == doc_id@)),
        (!spec_is_success(status) && status != STATUS_NOT_FOUND) ==> (r matches Option::Some(e)
            && e is Unknown),
{
    if is_success_status(status) {
        Option::None
    } else if status == STATUS_NOT_FOUND {
        let mut id = String::new();
        id.append(doc_id);
        Option::Some(ErrorTypes::DocumentNotFound(id))
    } else {
        Option::Some(ErrorTypes::Unknown)
    }
}

/// How a document update answers: as a read, except that a rejected
/// payload is `BadDataRequest`.
pub fn update_document_error(doc_id: &str, status: u16) -> (r: Option<ErrorTypes>)
    ensures
        spec_is_success(status) ==> r is None,
        (!spec_is_success(status) && status == STATUS_NOT_FOUND) ==> (r matches Option::Some(e)
            && (e matches ErrorTypes::DocumentNotFound(id) && id@ == doc_id@)),
        (!spec_is_success(status) && status == STATUS_BAD_REQUEST) ==> (r matches Option::Some(e)
            && e is BadDataRequest),
        (!spec_is_success(status) && status != STATUS_NOT_FOUND && status != STATUS_BAD_REQUEST)
            ==> (r matches Option::Some(e) && e is Unknown),
{
    if is_success_status(status) {
        Option::None
    } else if status == STATUS_NOT_FOUND {
        let mut id = String::new();
        id.append(doc_id);
        Option::Some(ErrorTypes::DocumentNotFound(id))
    } else if status == STATUS_BAD_REQUEST {
        Option::Some(ErrorTypes::BadDataRequest)
    } else {
        Option::Some(ErrorTypes::Unknown)
    }
}

/// How a search answers: nothing on success; a missing target is the
/// index reported missing, a rejected body is `BadDataRequest`, and
/// anything else unknown.
pub fn search_error(index: &str, status: u16) -> (r: Option<ErrorTypes>)
    ensures
        spec_is_success(status) ==> r is None,
        (!spec_is_success(status) && status == STATUS_NOT_FOUND) ==> (r matches Option::Some(e)
            && (e matches ErrorTypes::IndexNotFound(n) && n@ == index@)),
        (!spec_is_success(status) && status == STATUS_BAD_REQUEST) ==> (r matches Option::Some(e)
            && e is BadDataRequest),
        (!spec_is_success(status) && status != STATUS_NOT_FOUND && status != STATUS_BAD_REQUEST)
            ==> (r matches Option::Some(e) && e is Unknown),
{
    if is_success_status(status) {
        Option::None
    } else if status == STATUS_NOT_FOUND {
        let mut name = String::new();
        name.append(index);
        Option::Some(ErrorTypes::IndexNotFound(name))
    } else if status == STATUS_BAD_REQUEST {
        Option::Some(ErrorTypes::BadDataRequest)
    } else {
        Option::Some(ErrorTypes::Unknown)
    }
}

/// One application's registry record, as the model sees it.
pub ghost struct RegistryRecord {
    /// The application's display name.
    pub name: Seq<char>,
    /// The logical index names the application owns.
    pub indexes: Seq<Seq<char>>,
}

/// The joint state the lifecycle keeps in agreement: the registry's
/// records by application id, and the set of physical index names the
/// engine holds.
pub ghost struct EngineState {
    /// One record per application id.
    pub registry: Map<Seq<char>, RegistryRecord>,
    /// Every physical index name that exists.
    pub physical: Set<Seq<char>>,
}

/// What the existence check of a logical index can answer, over the
/// model.
pub ghost enum ExistenceOutcome {
    /// The owning application has no registry record.
    AppMissing,
    /// The application lists the index.
    Found,
    /// The application exists but does not list the index.
    IndexMissing,
}

/// What the existence check of a logical index answers over the model:
/// the application's absence outranks the index's.
pub open spec fn spec_index_exists_outcome(
    s: EngineState,
    app_id: Seq<char>,
    index: Seq<char>,
) -> ExistenceOutcome {
    if !s.registry.dom().contains(app_id) {
        ExistenceOutcome::AppMissing
    } else if s.registry[app_id].indexes.contains(index) {
        ExistenceOutcome::Found
    } else {
        ExistenceOutcome::IndexMissing
    }
}

/// Deleting an application over the model: its registry record goes,
/// and with it every physical name under `{lowercase(app_id)}.` — what
/// the returned wildcard of `delete_application_decide` spans.
pub open spec fn spec_delete_application(s: EngineState, app_id: Seq<char>) -> EngineState {
    EngineState {
        registry: s.registry.remove(app_id),
        physical: s.physical.difference(
            Set::new(|n: Seq<char>| spec_under_prefix(n, lower_seq(app_id))),
        ),
    }
}

/// Creating a logical index with `count` partitions over the model: the
/// physical set gains exactly the `count` partition names of the
/// prefix.
pub open spec fn spec_create_partitions(
    s: EngineState,
    prefix: Seq<char>,
    count: nat,
) -> EngineState {
    EngineState {
        registry: s.registry,
        physical: s.physical.union(
            Set::new(|n: Seq<char>| exists|i: nat| i < count && n == spec_partition_name(prefix, i)),
        ),
    }
}

/// Deleting an application clears it for good: afterwards its registry
/// record is gone — so any existence check for a former index of it
/// answers `ApplicationNotFound`, never `IndexNotFound` — and no
/// physical name under `{lowercase(app_id)}.` survives, while names
/// not under that prefix are untouched.
pub proof fn lemma_delete_application_clears(s: EngineState, app_id: Seq<char>, index: Seq<char>)
    ensures
        !spec_delete_application(s, app_id).registry.dom().contains(app_id),
        spec_index_exists_outcome(spec_delete_application(s, app_id), app_id, index)
            is AppMissing,
        forall|n: Seq<char>|
            spec_under_prefix(n, lower_seq(app_id)) ==> !spec_delete_application(
                s,
                app_id,
            ).physical.contains(n),
        forall|n: Seq<char>|
            !spec_under_prefix(n, lower_seq(app_id)) ==> (spec_delete_application(
                s,
                app_id,
            ).physical.contains(n) == s.physical.contains(n)),
{
}

/// Creating a logical index with `count` partitions provisions exactly
/// `count` physical names: afterwards each of them satisfies an
/// existence check, before any document is written, and they are
/// pairwise distinct.
pub proof fn lemma_create_partitions_exist(s: EngineState, prefix: Seq<char>, count: nat)
    ensures
        forall|i: nat|
            i < count ==> spec_create_partitions(s, prefix, count).physical.contains(
                #[trigger] spec_partition_name(prefix, i),
            ),
        forall|a: nat, b: nat|
            a < count && b < count && a != b ==> #[trigger] spec_partition_name(prefix, a)
                != #[trigger] spec_partition_name(prefix, b),
{
    assert forall|i: nat| i < count implies spec_create_partitions(
        s,
        prefix,
        count,
    ).physical.contains(#[trigger] spec_partition_name(prefix, i)) by {
        assert(Set::new(
            |n: Seq<char>| exists|j: nat| j < count && n == spec_partition_name(prefix, j),
        ).contains(spec_partition_name(prefix, i)));
    }
    assert forall|a: nat, b: nat|
        a < count && b < count && a != b implies #[trigger] spec_partition_name(prefix, a)
        != #[trigger] spec_partition_name(prefix, b) by {
        if spec_partition_name(prefix, a) == spec_partition_name(prefix, b) {
            crate::partition::lemma_partition_name_injective(prefix, a, b);
        }
    }
}

} // verus!
