//! Search query construction. A search either matches everything
//! (restricted to the requested return fields) or runs one
//! `query_string` query across the requested fields with a fixed
//! three-quarters match ratio. Wildcard mode appends `*` to each
//! whitespace-separated token that is long enough; a term of exactly `*`
//! degrades to match-all.

use vstd::prelude::*;
use crate::text::{
    chars_to_string, join_seq, split_chars, str_eq, str_to_chars, trim_chars, trim_spec,
};

verus! {

/// The query part of a search body.
pub enum QueryKind {
    /// Matches every document.
    MatchAll,
    /// One engine-native `query_string` query spanning `fields`.
    QueryString {
        /// The (possibly wildcard-expanded) search term.
        query: String,
        /// Fixed to `cross_fields`: terms may match across the unioned
        /// fields.
        query_type: String,
        /// The fields the term is searched in.
        fields: Vec<String>,
        /// Fixed to `75%`: at least three-quarters of the query's terms
        /// must match.
        minimum_should_match: String,
    },
}

/// An engine search body: a source filter naming the fields to return,
/// and the query itself.
pub struct SearchBody {
    /// The fields of each hit to include in the response
    /// (`_source.includes`).
    pub includes: Vec<String>,
    /// The query.
    pub query: QueryKind,
}

/// Splits a comma-separated field list and trims each piece, as every
/// field-list parameter of the layer is read. The pieces are uniquely
/// determined: joining them back with commas, untrimmed, restores the
/// input.
pub fn split_csv(s: &str) -> (r: Vec<String>)
    ensures
        r@.len() >= 1,
        exists|parts: Seq<Seq<char>>|
            {
                &&& join_seq(parts, ',') == s@
                &&& parts.len() == r@.len()
                &&& forall|i: int, j: int|
                    0 <= i < parts.len() && 0 <= j < parts[i].len() ==> parts[i][j] != ','
                &&& forall|i: int| 0 <= i < r@.len() ==> #[trigger] r@[i]@ == trim_spec(parts[i])
            },
{
    let chars = str_to_chars(s);
    let pieces = split_chars(&chars, ',');
    let ghost parts = crate::text::views_of(pieces@);
    let mut r: Vec<String> = Vec::new();
    let mut i: usize = 0;
    while i < pieces.len()
        invariant
            i <= pieces@.len(),
            parts == crate::text::views_of(pieces@),
            r@.len() == i,
            forall|k: int| 0 <= k < i ==> #[trigger] r@[k]@ == trim_spec(parts[k]),
        decreases pieces@.len() - i,
    {
        let trimmed = trim_chars(&pieces[i]);
        r.push(chars_to_string(&trimmed));
        i = i + 1;
    }
    r
}

/// One vector of strings holding exactly `*`.
pub fn star_vec() -> (r: Vec<String>)
    ensures
        r@.len() == 1,
        r@[0]@ == "*"@,
{
    let mut r: Vec<String> = Vec::new();
    let mut s = String::new();
    s.append("*");
    r.push(s);
    r
}

/// A copy of a string list, character for character.
pub fn copy_strings(v: &Vec<String>) -> (r: Vec<String>)
    ensures
        r@.len() == v@.len(),
        forall|i: int| 0 <= i < v@.len() ==> #[trigger] r@[i]@ == v@[i]@,
{
    let mut r: Vec<String> = Vec::new();
    let mut i: usize = 0;
    while i < v.len()
        invariant
            i <= v@.len(),
            r@.len() == i,
            forall|k: int| 0 <= k < i ==> #[trigger] r@[k]@ == v@[k]@,
        decreases v@.len() - i,
    {
        r.push(v[i].clone());
        i = i + 1;
    }
    r
}

/// Each token lengthened by a trailing `*` when it has at least `min`
/// characters, and left alone when shorter: the bound keeps very short
/// wildcard tokens, whose expansion is costly, unexpanded.
pub open spec fn expand_tokens(tokens: Seq<Seq<char>>, min: nat) -> Seq<Seq<char>> {
    tokens.map_values(|t: Seq<char>| if t.len() >= min {
        t.push('*')
    } else {
        t
    })
}

/// Whether `res` is the wildcard expansion of `term` at bound `min`:
/// the trimmed term's space-separated tokens, each expanded exactly when
/// long enough, joined back with single spaces.
pub open spec fn is_expansion_of(res: Seq<char>, term: Seq<char>, min: nat) -> bool {
    exists|tokens: Seq<Seq<char>>|
        {
            &&& join_seq(tokens, ' ') == trim_spec(term)
            &&& forall|i: int, j: int|
                0 <= i < tokens.len() && 0 <= j < tokens[i].len() ==> tokens[i][j] != ' '
            &&& res == join_seq(expand_tokens(tokens, min), ' ')
        }
}

/// The wildcard expansion of a search term: each space-separated token
/// of the trimmed term gets a trailing `*` when it has at least `min`
/// characters.
pub fn expand_term(term: &str, min: usize) -> (r: String)
    ensures
        is_expansion_of(r@, term@, min as nat),
{
    let chars = str_to_chars(term);
    let trimmed = trim_chars(&chars);
    let tokens = split_chars(&trimmed, ' ');
    let ghost token_views = crate::text::views_of(tokens@);
    let mut expanded: Vec<Vec<char>> = Vec::new();
    let mut i: usize = 0;
    while i < tokens.len()
        invariant
            i <= tokens@.len(),
            token_views == crate::text::views_of(tokens@),
            crate::text::views_of(expanded@) =~= expand_tokens(
                token_views.subrange(0, i as int),
                min as nat,
            ),
        decreases tokens@.len() - i,
    {
        let mut t = crate::text::copy_chars(&tokens[i]);
        if t.len() >= min {
            t.push('*');
        }
        expanded.push(t);
        i = i + 1;
        proof {
            let prev = token_views.subrange(0, i - 1);
            let now = token_views.subrange(0, i as int);
            assert(now.drop_last() =~= prev);
            assert(now.last() == token_views[i - 1]);
            assert(expand_tokens(now, min as nat) =~~= expand_tokens(prev, min as nat).push(
                if token_views[i - 1].len() >= min as nat {
                    token_views[i - 1].push('*')
                } else {
                    token_views[i - 1]
                },
            ));
            assert(crate::text::views_of(expanded@) =~~= expand_tokens(
                token_views.subrange(0, i as int),
                min as nat,
            ));
        }
    }
    proof {
        assert(token_views.subrange(0, token_views.len() as int) =~= token_views);
    }
    let mut out: Vec<char> = Vec::new();
    let mut k: usize = 0;
    let ghost exp_views = crate::text::views_of(expanded@);
    while k < expanded.len()
        invariant
            k <= expanded@.len(),
            exp_views == crate::text::views_of(expanded@),
            k == 0 ==> out@ =~= Seq::<char>::empty(),
            k > 0 ==> out@ =~= join_seq(exp_views.subrange(0, k as int), ' '),
        decreases expanded@.len() - k,
    {
        if k > 0 {
            out.push(' ');
        }
        let ghost before = out@;
        let piece = &expanded[k];
        let mut j: usize = 0;
        while j < piece.len()
            invariant
                j <= piece@.len(),
                out@ =~= before + piece@.subrange(0, j as int),
            decreases piece@.len() - j,
        {
            out.push(piece[j]);
            j = j + 1;
        }
        proof {
            assert(out@ =~= before + exp_views[k as int]);
            crate::text::lemma_join_push(exp_views.subrange(0, k as int), ' ', exp_views[k as int]);
            assert(exp_views.subrange(0, k as int).push(exp_views[k as int]) =~= exp_views.subrange(
                0,
                k + 1,
            ));
        }
        k = k + 1;
    }
    proof {
        assert(exp_views.subrange(0, exp_views.len() as int) =~= exp_views);
        if expanded.len() == 0 {
            assert(token_views.len() >= 1);
        }
        assert(out@ == join_seq(expand_tokens(token_views, min as nat), ' '));
    }
    chars_to_string(&out)
}

/// The term policy: what the processed form of a raw search term must
/// be. An absent term stays absent; a literal `*` bypasses term
/// matching and becomes absent too; with wildcard mode off the term
/// passes through; with it on the term is wildcard-expanded at bound
/// `min`.
pub open spec fn spec_processed_term(
    term: Option<Seq<char>>,
    wildcards: bool,
    min: nat,
    r: Option<Seq<char>>,
) -> bool {
    match term {
        Option::None => r is None,
        Option::Some(t) => {
            if t == "*"@ {
                r is None
            } else if !wildcards {
                r == Option::Some(t)
            } else {
                r matches Option::Some(o) && is_expansion_of(o, t, min)
            }
        },
    }
}

/// A term of exactly `*` is processed as no term at all, whatever the
/// wildcard mode and bound: the policy admits the same processed forms
/// for both, so the body built afterwards — match-all — is the same.
pub proof fn lemma_star_term_is_match_all(wildcards: bool, min: nat, r: Option<Seq<char>>)
    ensures
        spec_processed_term(Option::Some("*"@), wildcards, min, r) == spec_processed_term(
            Option::None,
            wildcards,
            min,
            r,
        ),
{
}

/// Expansion acts on every token independently: a token gains a
/// trailing `*` exactly when it has at least `min` characters, and no
/// token is added or dropped.
pub proof fn lemma_expansion_per_token(tokens: Seq<Seq<char>>, min: nat)
    ensures
        expand_tokens(tokens, min).len() == tokens.len(),
        forall|i: int|
            0 <= i < tokens.len() ==> #[trigger] expand_tokens(tokens, min)[i] == (if tokens[
                i
            ].len() >= min {
                tokens[i].push('*')
            } else {
                tokens[i]
            }),
{
}

/// What becomes of a raw search term before the body is built: exactly
/// what the term policy admits.
pub fn process_search_term(search_term: &Option<String>, wildcards: bool, min: usize) -> (r:
    Option<String>)
    ensures
        spec_processed_term(
            match search_term {
                Option::None => Option::None,
                Option::Some(t) => Option::Some(t@),
            },
            wildcards,
            min as nat,
            match r {
                Option::None => Option::None,
                Option::Some(o) => Option::Some(o@),
            },
        ),
{
    match search_term {
        Option::None => Option::None,
        Option::Some(t) => {
            if str_eq(t.as_str(), "*") {
                Option::None
            } else if !wildcards {
                Option::Some(t.clone())
            } else {
                Option::Some(expand_term(t.as_str(), min))
            }
        },
    }
}

/// The page of hits a search returns: the given offset and count, or
/// the first twenty.
pub fn paging(from: &Option<i64>, count: &Option<i64>) -> (r: (i64, i64))
    ensures
        r.0 == match from {
            Option::Some(f) => *f,
            Option::None => 0,
        },
        r.1 == match count {
            Option::Some(c) => *c,
            Option::None => 20,
        },
{
    let f = match from {
        Option::Some(f) => *f,
        Option::None => 0,
    };
    let c = match count {
        Option::Some(c) => *c,
        Option::None => 20,
    };
    (f, c)
}

/// The physical target of a search: the canonical prefix of the
/// logical index, widened with the partition wildcard when the search
/// fans out over all partitions.
pub fn search_target(app_id: &str, index: &str, partitioned: bool) -> (r: String)
    ensures
        partitioned ==> r@ == crate::naming::spec_wildcard_name(
            crate::naming::spec_build_name(app_id@, index@),
        ),
        !partitioned ==> r@ == crate::naming::spec_build_name(app_id@, index@),
{
    let name = crate::naming::index_name_builder(app_id, index);
    if partitioned {
        crate::naming::wildcard_name(name.as_str())
    } else {
        name
    }
}

/// Returns a generated search body: match-all when no term is given,
/// else one `query_string` query with the fixed `cross_fields` type and
/// `75%` match ratio; the source filter carries the requested return
/// fields, `*` when none are named, and the term is searched in the
/// requested fields, `*` when none are named.
pub fn search_body_builder(
    search_term: &Option<String>,
    search_in: &Option<Vec<String>>,
    retrieve_field: &Option<String>,
) -> (r: SearchBody)
    ensures
        match retrieve_field {
            Option::None => r.includes@.len() == 1 && r.includes@[0]@ == "*"@,
            Option::Some(csv) => r.includes@.len() >= 1 && exists|parts: Seq<Seq<char>>|
                {
                    &&& join_seq(parts, ',') == csv@
                    &&& parts.len() == r.includes@.len()
                    &&& forall|i: int, j: int|
                        0 <= i < parts.len() && 0 <= j < parts[i].len() ==> parts[i][j] != ','
                    &&& forall|i: int|
                        0 <= i < parts.len() ==> #[trigger] r.includes@[i]@ == trim_spec(parts[i])
                },
        },
        match search_term {
            Option::None => r.query is MatchAll,
            Option::Some(t) => r.query matches QueryKind::QueryString {
                query,
                query_type,
                fields,
                minimum_should_match,
            } && {
                &&& query@ == t@
                &&& query_type@ == "cross_fields"@
                &&& minimum_should_match@ == "75%"@
                &&& match search_in {
                    Option::None => fields@.len() == 1 && fields@[0]@ == "*"@,
                    Option::Some(fs) => fields@.len() == fs@.len() && forall|i: int|
                        0 <= i < fs@.len() ==> #[trigger] fields@[i]@ == fs@[i]@,
                }
            },
        },
{
    let includes = match retrieve_field {
        Option::Some(csv) => split_csv(csv.as_str()),
        Option::None => star_vec(),
    };
    let query = match search_term {
        Option::None => QueryKind::MatchAll,
        Option::Some(t) => {
            let fields = match search_in {
                Option::Some(fs) => copy_strings(fs),
                Option::None => star_vec(),
            };
            let mut query_type = String::new();
            query_type.append("cross_fields");
            let mut msm = String::new();
            msm.append("75%");
            QueryKind::QueryString {
                query: t.clone(),
                query_type,
                fields,
                minimum_should_match: msm,
            }
        },
    };
    SearchBody { includes, query }
}

} // verus!
