//! Bulk ingestion. A batch of documents becomes one engine request: each
//! document draws its own partition and id, and each per-item outcome of
//! the engine's answer is folded into one structured failure report. A
//! batch never fails as a whole because some items failed; callers must
//! read `has_errors`.

use vstd::prelude::*;
use crate::naming::spec_partition_name;
use crate::router::{compose_id, spec_token_ok, spec_visible_id, lemma_visible_id_roundtrip};
use crate::status::STATUS_MULTI_STATUS;
use crate::text::{
    after_last, dec_val, is_digit, parse_dec_chars, str_to_chars, suffix_after_last,
};

verus! {

/// One create operation of a bulk request: the composed visible id and
/// the physical partition the document goes to.
pub struct BulkCreateOp {
    /// The externally visible document id, `{token}.{partition}`.
    pub doc_id: String,
    /// The physical index the create is addressed to,
    /// `{prefix}.{partition}`.
    pub target: String,
}

/// Whether a bulk create operation is well-routed under a prefix: its id
/// was composed from a well-formed token and a partition below `count`,
/// and its target is that partition's physical name — so the id's
/// trailing segment leads any later point operation back to the same
/// partition.
pub open spec fn spec_op_routed(op: BulkCreateOp, prefix: Seq<char>, count: nat) -> bool {
    exists|t: Seq<char>, p: nat|
        {
            &&& spec_token_ok(t)
            &&& p < count
            &&& op.doc_id@ == spec_visible_id(t, p)
            &&& op.target@ == spec_partition_name(prefix, p)
        }
}

/// One bulk create request: each of the `n` documents independently
/// draws a random partition below `count` and a random id. Every
/// produced id parses back, through the routing rule, to the partition
/// its create was addressed to, and that partition lies in `[0, count)`.
/// Batches smaller than `count` can leave partitions empty; only
/// randomness balances the load.
pub fn bulk_create_ops(prefix: &str, n: usize, partition_count: usize) -> (r: Vec<BulkCreateOp>)
    requires
        partition_count >= 1,
    ensures
        r@.len() == n,
        forall|k: int| 0 <= k < n ==> spec_op_routed(#[trigger] r@[k], prefix@, partition_count as nat),
        forall|k: int|
            0 <= k < n ==> prefix@ + seq!['.'] + after_last(#[trigger] r@[k].doc_id@, '.')
                == r@[k].target@,
        forall|k: int|
            0 <= k < n ==> dec_val(after_last(#[trigger] r@[k].doc_id@, '.')) < partition_count,
{
    let mut r: Vec<BulkCreateOp> = Vec::new();
    let mut i: usize = 0;
    while i < n
        invariant
            partition_count >= 1,
            i <= n,
            r@.len() == i,
            forall|k: int|
                0 <= k < i ==> spec_op_routed(#[trigger] r@[k], prefix@, partition_count as nat),
            forall|k: int|
                0 <= k < i ==> prefix@ + seq!['.'] + after_last(#[trigger] r@[k].doc_id@, '.')
                    == r@[k].target@,
            forall|k: int|
                0 <= k < i ==> dec_val(after_last(#[trigger] r@[k].doc_id@, '.'))
                    < partition_count,
        decreases n - i,
    {
        let (doc_id, partition) = compose_id(partition_count);
        let target = crate::naming::partition_name(prefix, partition as u64);
        let op = BulkCreateOp { doc_id, target };
        proof {
            let t = choose|t: Seq<char>|
                spec_token_ok(t) && op.doc_id@ == spec_visible_id(t, partition as nat);
            lemma_visible_id_roundtrip(t, partition as nat, prefix@);
        }
        r.push(op);
        i = i + 1;
    }
    r
}

/// For Bulk Errors Output: one failed item of a bulk request.
pub struct BulkFailures {
    /// The index of the failed document in the submitted batch,
    /// zero-based.
    pub document_number: usize,
    /// The engine's reason text for the failure.
    pub error: String,
    /// The per-item status the engine reported.
    pub status: i64,
}

/// One per-item outcome of a bulk response, as plain values: the nested
/// error reason when the item failed, and the item's status.
pub struct BulkItemOutcome {
    /// The failure reason, present exactly when the item failed.
    pub error: Option<String>,
    /// The item's own status.
    pub status: i64,
}

/// The structured report of one bulk call.
pub struct BulkReport {
    /// How many items failed; always the length of `errors`.
    pub error_count: usize,
    /// The engine's overall errors flag.
    pub has_errors: bool,
    /// One entry per failed item, in batch order.
    pub errors: Vec<BulkFailures>,
}

/// Folds the engine's per-item outcomes into the failure report: with
/// the errors flag set, exactly the items whose nested error is present
/// appear, in batch order, each carrying its index, reason and status;
/// with the flag clear the report is empty. `error_count` always equals
/// the number of entries and `has_errors` hands the flag through.
pub fn bulk_report(errors_flag: bool, items: &Vec<BulkItemOutcome>) -> (r: BulkReport)
    ensures
        r.error_count == r.errors@.len(),
        r.has_errors == errors_flag,
        !errors_flag ==> r.errors@.len() == 0,
        errors_flag ==> {
            &&& forall|k: int|
                0 <= k < r.errors@.len() ==> {
                    let dn = #[trigger] r.errors@[k].document_number;
                    &&& dn < items@.len()
                    &&& items@[dn as int].error matches Option::Some(reason) && r.errors@[k].error@
                        == reason@
                    &&& r.errors@[k].status == items@[dn as int].status
                }
            &&& forall|k1: int, k2: int|
                0 <= k1 < k2 < r.errors@.len() ==> r.errors@[k1].document_number < r.errors@[
                    k2
                ].document_number
            &&& forall|i: int|
                0 <= i < items@.len() && (#[trigger] items@[i].error) is Some ==> exists|k: int|
                    0 <= k < r.errors@.len() && (#[trigger] r.errors@[k].document_number) == i
        },
{
    let mut failures: Vec<BulkFailures> = Vec::new();
    if errors_flag {
        let mut i: usize = 0;
        while i < items.len()
            invariant
                i <= items@.len(),
                forall|k: int|
                    0 <= k < failures@.len() ==> {
                        let dn = #[trigger] failures@[k].document_number;
                        &&& dn < i
                        &&& items@[dn as int].error matches Option::Some(reason)
                            && failures@[k].error@ == reason@
                        &&& failures@[k].status == items@[dn as int].status
                    },
                forall|k1: int, k2: int|
                    0 <= k1 < k2 < failures@.len() ==> failures@[k1].document_number < failures@[
                        k2
                    ].document_number,
                forall|j: int|
                    0 <= j < i && (#[trigger] items@[j].error) is Some ==> exists|k: int|
                        0 <= k < failures@.len() && (#[trigger] failures@[k].document_number) == j,
            decreases items@.len() - i,
        {
            let ghost old_f = failures@;
            match &items[i].error {
                Option::Some(reason) => {
                    failures.push(
                        BulkFailures {
                            document_number: i,
                            error: reason.clone(),
                            status: items[i].status,
                        },
                    );
                },
                Option::None => {},
            }
            i = i + 1;
            proof {
                assert forall|j: int|
                    0 <= j < i && (#[trigger] items@[j].error) is Some implies exists|k: int|
                    0 <= k < failures@.len() && (#[trigger] failures@[k].document_number) == j by {
                    if j < i - 1 {
                        let k = choose|k: int|
                            0 <= k < old_f.len() && (#[trigger] old_f[k].document_number) == j;
                        assert(failures@[k].document_number == j);
                    } else {
                        assert(failures@[failures@.len() - 1].document_number == j);
                    }
                }
            }
        }
    }
    BulkReport { error_count: failures.len(), has_errors: errors_flag, errors: failures }
}

/// The overall status of a bulk call: partial failure is answered as
/// multi-status, never as a terminal error; otherwise the engine's own
/// status stands.
pub fn bulk_status_decide(resp_status: u16, errors_flag: bool) -> (r: u16)
    ensures
        errors_flag ==> r == STATUS_MULTI_STATUS,
        !errors_flag ==> r == resp_status,
{
    if errors_flag {
        STATUS_MULTI_STATUS
    } else {
        resp_status
    }
}

/// The physical targets of a bulk update: each caller-supplied id's
/// trailing segment, read as a partition number, names the partition
/// the update is addressed to. `None` when any id's trailing segment is
/// not a number — the batch carries a malformed id and cannot be
/// routed.
pub fn bulk_update_targets(prefix: &str, doc_ids: &Vec<String>) -> (r: Option<Vec<String>>)
    ensures
        match r {
            Option::Some(targets) => {
                &&& targets@.len() == doc_ids@.len()
                &&& forall|k: int|
                    0 <= k < doc_ids@.len() ==> {
                        let sfx = after_last(#[trigger] doc_ids@[k]@, '.');
                        &&& sfx.len() > 0
                        &&& forall|j: int| 0 <= j < sfx.len() ==> is_digit(#[trigger] sfx[j])
                        &&& dec_val(sfx) <= u64::MAX
                        &&& targets@[k]@ == spec_partition_name(prefix@, dec_val(sfx))
                    }
            },
            Option::None => exists|k: int|
                0 <= k < doc_ids@.len() && {
                    let sfx = after_last(#[trigger] doc_ids@[k]@, '.');
                    sfx.len() == 0 || (exists|j: int| 0 <= j < sfx.len() && !is_digit(#[trigger] sfx[j]))
                        || dec_val(sfx) > u64::MAX
                },
        },
{
    let mut targets: Vec<String> = Vec::new();
    let mut i: usize = 0;
    while i < doc_ids.len()
        invariant
            i <= doc_ids@.len(),
            targets@.len() == i,
            forall|k: int|
                0 <= k < i ==> {
                    let sfx = after_last(#[trigger] doc_ids@[k]@, '.');
                    &&& sfx.len() > 0
                    &&& forall|j: int| 0 <= j < sfx.len() ==> is_digit(#[trigger] sfx[j])
                    &&& dec_val(sfx) <= u64::MAX
                    &&& targets@[k]@ == spec_partition_name(prefix@, dec_val(sfx))
                },
        decreases doc_ids@.len() - i,
    {
        let chars = str_to_chars(doc_ids[i].as_str());
        let sfx = suffix_after_last(&chars, '.');
        match parse_dec_chars(&sfx) {
            Option::Some(v) => {
                targets.push(crate::naming::partition_name(prefix, v));
            },
            Option::None => {
                return Option::None;
            },
        }
        i = i + 1;
    }
    Option::Some(targets)
}

} // verus!
