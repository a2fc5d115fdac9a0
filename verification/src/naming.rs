//! Canonical physical names. A logical index of an application is backed
//! by physical indices named `{app_id}.{index_name}.{partition}`; both id
//! and name are normalized before joining. Every other module builds its
//! targets through these functions, so the mapping from logical to
//! physical names is stated once, here.

use vstd::prelude::*;
use crate::text::{
    chars_to_string, dec_digits, lower_chars, lower_seq, str_to_chars, trim_chars, trim_spec,
    u64_to_dec_string, underscore_chars, underscore_seq, lemma_dec_digits_are_digits,
};

verus! {

/// The normalization `index_name_builder` applies to each side:
/// whitespace trimmed, ASCII letters lowercased.
pub open spec fn norm(s: Seq<char>) -> Seq<char> {
    lower_seq(trim_spec(s))
}

/// The canonical physical prefix of a logical index:
/// `{norm(app_id)}.{norm(index_name)}`.
pub open spec fn spec_build_name(app_id: Seq<char>, index_name: Seq<char>) -> Seq<char> {
    norm(app_id) + seq!['.'] + norm(index_name)
}

/// The trimmed, lowercased copy of a string.
pub fn normalize_name(s: &str) -> (r: String)
    ensures
        r@ == norm(s@),
{
    let chars = str_to_chars(s);
    let trimmed = trim_chars(&chars);
    let lowered = lower_chars(&trimmed);
    chars_to_string(&lowered)
}

/// The index-name normalization used at creation: trimmed, lowercased,
/// spaces replaced by underscores.
pub open spec fn norm_index(s: Seq<char>) -> Seq<char> {
    underscore_seq(lower_seq(trim_spec(s)))
}

/// The trimmed, lowercased copy of an index name with spaces replaced by
/// underscores; the form under which a new logical index is registered.
pub fn normalize_index_name(s: &str) -> (r: String)
    ensures
        r@ == norm_index(s@),
{
    let chars = str_to_chars(s);
    let trimmed = trim_chars(&chars);
    let lowered = lower_chars(&trimmed);
    let underscored = underscore_chars(&lowered);
    chars_to_string(&underscored)
}

/// Formats the name into `app_id.index_name`, trimming and lowercasing
/// both sides. Pure and total; every route to a physical index goes
/// through it.
pub fn index_name_builder(app_id: &str, index_name: &str) -> (r: String)
    ensures
        r@ == spec_build_name(app_id@, index_name@),
{
    let a = normalize_name(app_id);
    let mut r = a;
    r.append(".");
    let i = normalize_name(index_name);
    r.append(i.as_str());
    proof {
        vstd::prelude::reveal_strlit(".");
        assert(norm(app_id@) + "."@ + norm(index_name@) =~= spec_build_name(
            app_id@,
            index_name@,
        ));
    }
    r
}

/// The name of one physical partition: `{prefix}.{partition}`.
pub open spec fn spec_partition_name(prefix: Seq<char>, partition: nat) -> Seq<char> {
    prefix + seq!['.'] + dec_digits(partition)
}

/// The physical name of one partition of a logical index.
pub fn partition_name(prefix: &str, partition: u64) -> (r: String)
    ensures
        r@ == spec_partition_name(prefix@, partition as nat),
{
    let mut r = String::new();
    r.append(prefix);
    r.append(".");
    let d = u64_to_dec_string(partition);
    r.append(d.as_str());
    proof {
        vstd::prelude::reveal_strlit(".");
        assert(prefix@ + "."@ + dec_digits(partition as nat) =~= spec_partition_name(
            prefix@,
            partition as nat,
        ));
    }
    r
}

/// The pattern that spans every partition of a prefix: `{prefix}.*`.
pub open spec fn spec_wildcard_name(prefix: Seq<char>) -> Seq<char> {
    prefix + seq!['.', '*']
}

/// The wildcard target spanning all partitions of a prefix.
pub fn wildcard_name(prefix: &str) -> (r: String)
    ensures
        r@ == spec_wildcard_name(prefix@),
{
    let mut r = String::new();
    r.append(prefix);
    r.append(".*");
    proof {
        vstd::prelude::reveal_strlit(".*");
        assert(prefix@ + ".*"@ =~= spec_wildcard_name(prefix@));
    }
    r
}

/// Whether a name lies under a prefix: it continues the prefix right
/// after a dot, as every physical name of the prefix's owner does. This
/// is the set of names the wildcard `{prefix}.*` spans.
pub open spec fn spec_under_prefix(name: Seq<char>, prefix: Seq<char>) -> bool {
    name.len() > prefix.len() && name.subrange(0, prefix.len() as int) == prefix && name[
        prefix.len() as int
    ] == '.'
}

/// A partition name always lies under its prefix.
pub proof fn lemma_partition_under_prefix(prefix: Seq<char>, partition: nat)
    ensures
        spec_under_prefix(spec_partition_name(prefix, partition), prefix),
{
    lemma_dec_digits_are_digits(partition);
    let n = spec_partition_name(prefix, partition);
    assert(n.subrange(0, prefix.len() as int) =~= prefix);
}

/// Building a name is insensitive to case and to surrounding whitespace:
/// two inputs with the same normal form build the same name.
pub proof fn lemma_build_name_insensitive(
    a1: Seq<char>,
    i1: Seq<char>,
    a2: Seq<char>,
    i2: Seq<char>,
)
    requires
        norm(a1) == norm(a2),
        norm(i1) == norm(i2),
    ensures
        spec_build_name(a1, i1) == spec_build_name(a2, i2),
{
}

/// Normalizing is idempotent: a built name is unchanged by building it
/// again from its normalized parts.
pub proof fn lemma_norm_idempotent(s: Seq<char>)
    ensures
        norm(norm(s)) == norm(s),
{
    let t = trim_spec(s);
    let l = lower_seq(t);
    crate::text::lemma_trim_ends_nonspace(s);
    if l.len() > 0 {
        assert(l[0] == crate::text::lower_char(t[0]));
        assert(l.last() == crate::text::lower_char(t.last()));
    }
    crate::text::lemma_trim_fixed(l);
    assert(lower_seq(l) =~= l) by {
        assert forall|j: int| 0 <= j < l.len() implies crate::text::lower_char(l[j]) == l[j] by {
            assert(l[j] == crate::text::lower_char(t[j]));
        }
    }
}

/// Over inputs whose normal form holds no dot in the application part,
/// building is injective: equal built names force equal normal forms.
/// (An application id whose normal form holds a dot can collide with
/// another split of the same joined name, so such ids are left out.)
pub proof fn lemma_build_name_injective(
    a1: Seq<char>,
    i1: Seq<char>,
    a2: Seq<char>,
    i2: Seq<char>,
)
    requires
        !norm(a1).contains('.'),
        !norm(a2).contains('.'),
        spec_build_name(a1, i1) == spec_build_name(a2, i2),
    ensures
        norm(a1) == norm(a2),
        norm(i1) == norm(i2),
{
    let x = norm(a1);
    let y = norm(i1);
    let u = norm(a2);
    let v = norm(i2);
    let s = spec_build_name(a1, i1);
    assert(s.len() == x.len() + 1 + y.len());
    assert(s.len() == u.len() + 1 + v.len());
    if x.len() < u.len() {
        assert(s[x.len() as int] == '.');
        assert(u[x.len() as int] == s[x.len() as int]) by {
            assert(s.subrange(0, u.len() as int) =~= u);
        }
        assert(u.contains('.'));
        assert(false);
    }
    if u.len() < x.len() {
        assert(s[u.len() as int] == '.');
        assert(x[u.len() as int] == s[u.len() as int]) by {
            assert(s.subrange(0, x.len() as int) =~= x);
        }
        assert(x.contains('.'));
        assert(false);
    }
    assert(x =~= u) by {
        assert forall|j: int| 0 <= j < x.len() implies x[j] == u[j] by {
            assert(s[j] == x[j]);
            assert(s[j] == u[j]);
        }
    }
    assert(y =~= v) by {
        assert forall|j: int| 0 <= j < y.len() implies y[j] == v[j] by {
            assert(s[x.len() + 1 + j] == y[j]);
            assert(s[u.len() + 1 + j] == v[j]);
        }
    }
}

} // verus!
