//! The application registry: one reserved index holds one record per
//! application, `{name, indexes[]}`. These functions build the registry
//! queries and turn the engine's answers into decisions; the list of a
//! record's index names is kept sorted and free of duplicates.

use vstd::prelude::*;
use crate::errors::ErrorTypes;
use crate::search::{search_body_builder, SearchBody, QueryKind};
use crate::status::{spec_is_success, is_success_status, STATUS_NOT_FOUND};
use crate::text::{lex_lt, lemma_lex_total, lemma_lex_trans, str_lex_lt, str_eq};

verus! {

/// The search term that asks the registry for one application name
/// exactly: the name as a quoted phrase.
pub open spec fn spec_exact_phrase(name: Seq<char>) -> Seq<char> {
    seq!['"'] + name + seq!['"']
}

/// The name wrapped in double quotes, searched as an exact phrase.
pub fn exact_phrase(name: &str) -> (r: String)
    ensures
        r@ == spec_exact_phrase(name@),
{
    let mut r = String::new();
    r.append("\"");
    r.append(name);
    r.append("\"");
    proof {
        vstd::prelude::reveal_strlit("\"");
        assert("\""@ + name@ + "\""@ =~= spec_exact_phrase(name@));
    }
    r
}

/// The search body that checks whether an application name is taken: an
/// exact-phrase query on the registry's `name` field, returning
/// everything the source filter defaults to. A phrase match can still
/// false-positive on names that tokenize identically; that weakness is
/// the registry's, kept as it stands.
pub fn app_exists_query(app_name: &str) -> (r: SearchBody)
    ensures
        r.query matches QueryKind::QueryString { query, query_type, fields, minimum_should_match }
            && query@ == spec_exact_phrase(app_name@) && query_type@ == "cross_fields"@
            && minimum_should_match@ == "75%"@ && fields@.len() == 1 && fields@[0]@ == "name"@,
        r.includes@.len() == 1 && r.includes@[0]@ == "*"@,
{
    let phrase = exact_phrase(app_name);
    let mut field = String::new();
    field.append("name");
    let mut fields: Vec<String> = Vec::new();
    fields.push(field);
    search_body_builder(&Option::Some(phrase), &Option::Some(fields), &Option::None)
}

/// Whether the hit total of the exists-query means the name is taken:
/// any hit at all.
pub fn app_exists_decide(total_hits: i64) -> (r: bool)
    ensures
        r == (total_hits > 0),
{
    total_hits > 0
}

/// What a fetch of an application's index list means. Success hands the
/// listed names through, an absent `indexes` field meaning none yet; a
/// missing record is `ApplicationNotFound`, never `IndexNotFound`; any
/// other failure is `Unknown`, with the engine's status alongside.
pub fn get_app_indexes_decide(app_id: &str, status: u16, indexes: Option<Vec<String>>) -> (r:
    Result<Vec<String>, (u16, ErrorTypes)>)
    ensures
        match r {
            Result::Ok(list) => spec_is_success(status) && match indexes {
                Option::Some(given) => list@ == given@,
                Option::None => list@.len() == 0,
            },
            Result::Err((st, err)) => !spec_is_success(status) && st == status && if status
                == STATUS_NOT_FOUND {
                err matches ErrorTypes::ApplicationNotFound(id) && id@ == app_id@
            } else {
                err is Unknown
            },
        },
{
    if !is_success_status(status) {
        if status == STATUS_NOT_FOUND {
            let mut id = String::new();
            id.append(app_id);
            return Result::Err((status, ErrorTypes::ApplicationNotFound(id)));
        }
        return Result::Err((status, ErrorTypes::Unknown));
    }
    match indexes {
        Option::Some(given) => Result::Ok(given),
        Option::None => Result::Ok(Vec::new()),
    }
}

/// Whether a list of names is strictly sorted: each before the next in
/// lexicographic order, which also rules out duplicates.
pub open spec fn strictly_sorted(l: Seq<String>) -> bool {
    forall|i: int, j: int| 0 <= i < j < l.len() ==> lex_lt(#[trigger] l[i]@, #[trigger] l[j]@)
}

/// Whether some entry of a list reads as the given characters.
pub open spec fn list_has(l: Seq<String>, x: Seq<char>) -> bool {
    exists|k: int| 0 <= k < l.len() && #[trigger] l[k]@ == x
}

fn find_insert_pos(out: &Vec<String>, s: &String) -> (pos: usize)
    ensures
        pos <= out@.len(),
        forall|k: int| 0 <= k < pos ==> lex_lt(#[trigger] out@[k]@, s@),
        pos < out@.len() ==> !lex_lt(out@[pos as int]@, s@),
{
    let mut i: usize = 0;
    while i < out.len()
        invariant
            i <= out@.len(),
            forall|k: int| 0 <= k < i ==> lex_lt(#[trigger] out@[k]@, s@),
        decreases out@.len() - i,
    {
        if !str_lex_lt(out[i].as_str(), s.as_str()) {
            return i;
        }
        i = i + 1;
    }
    i
}

fn insert_sorted(out: &mut Vec<String>, s: String)
    requires
        strictly_sorted(old(out)@),
    ensures
        strictly_sorted(final(out)@),
        forall|x: Seq<char>|
            #[trigger] list_has(final(out)@, x) <==> (list_has(old(out)@, x) || x == s@),
{
    let idx = find_insert_pos(out, &s);
    let ghost before = out@;
    if idx < out.len() && str_eq(out[idx].as_str(), s.as_str()) {
        proof {
            assert(list_has(before, s@));
        }
        return;
    }
    proof {
        if idx < before.len() {
            if !lex_lt(s@, before[idx as int]@) {
                lemma_lex_total(before[idx as int]@, s@);
                assert(false);
            }
        }
    }
    out.insert(idx, s);
    proof {
        assert forall|i: int, j: int| 0 <= i < j < out@.len() implies lex_lt(
            #[trigger] out@[i]@,
            #[trigger] out@[j]@,
        ) by {
            if i == idx {
                // the new element against an old one to its right
                let jj = j - 1;
                assert(out@[j]@ == before[jj]@);
                if jj > idx {
                    lemma_lex_trans(s@, before[idx as int]@, before[jj]@);
                }
            } else if j == idx {
                // an old element to the left against the new one
                assert(out@[i]@ == before[i]@);
                assert(lex_lt(before[i]@, s@));
            } else {
                let ii = if i < idx {
                    i
                } else {
                    i - 1
                };
                let jj = if j < idx {
                    j
                } else {
                    j - 1
                };
                assert(out@[i]@ == before[ii]@);
                assert(out@[j]@ == before[jj]@);
            }
        }
        assert forall|x: Seq<char>| #[trigger] list_has(out@, x) implies (list_has(before, x) || x
            == s@) by {
            let k = choose|k: int| 0 <= k < out@.len() && #[trigger] out@[k]@ == x;
            if k != idx {
                let kk = if k < idx {
                    k
                } else {
                    k - 1
                };
                assert(before[kk]@ == x);
            }
        }
        assert forall|x: Seq<char>| list_has(before, x) implies #[trigger] list_has(out@, x) by {
            let k = choose|k: int| 0 <= k < before.len() && #[trigger] before[k]@ == x;
            if k < idx {
                assert(out@[k]@ == x);
            } else {
                assert(out@[k + 1]@ == x);
            }
        }
        assert(out@[idx as int]@ == s@);
    }
}

/// The application's index list with one name added: the result is
/// sorted, holds no duplicates, and lists exactly the old names and the
/// new one — the push-sort-dedup the registry applies on every index
/// creation, stated as one step.
pub fn add_index_to_list(list: &Vec<String>, name: &str) -> (r: Vec<String>)
    ensures
        strictly_sorted(r@),
        forall|x: Seq<char>|
            #[trigger] list_has(r@, x) <==> (list_has(list@, x) || x == name@),
{
    let mut out: Vec<String> = Vec::new();
    let mut i: usize = 0;
    while i < list.len()
        invariant
            i <= list@.len(),
            strictly_sorted(out@),
            forall|x: Seq<char>|
                #[trigger] list_has(out@, x) <==> list_has(list@.subrange(0, i as int), x),
        decreases list@.len() - i,
    {
        let ghost before = out@;
        insert_sorted(&mut out, list[i].clone());
        i = i + 1;
        proof {
            assert forall|x: Seq<char>| #[trigger] list_has(list@.subrange(0, i as int), x)
                implies list_has(out@, x) by {
                let k = choose|k: int|
                    0 <= k < i && #[trigger] list@.subrange(0, i as int)[k]@ == x;
                if k < i - 1 {
                    assert(list@.subrange(0, i - 1)[k]@ == x);
                }
            }
            assert forall|x: Seq<char>| #[trigger] list_has(out@, x) implies list_has(
                list@.subrange(0, i as int),
                x,
            ) by {
                if list_has(before, x) {
                    let k = choose|k: int|
                        0 <= k < i - 1 && #[trigger] list@.subrange(0, i - 1)[k]@ == x;
                    assert(list@.subrange(0, i as int)[k]@ == x);
                } else {
                    assert(list@.subrange(0, i as int)[i - 1]@ == x);
                }
            }
        }
    }
    let ghost before = out@;
    let mut owned = String::new();
    owned.append(name);
    insert_sorted(&mut out, owned);
    proof {
        assert(list@.subrange(0, list@.len() as int) =~= list@);
    }
    out
}

} // verus!
