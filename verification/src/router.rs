//! Document identity and routing. A new document draws a random token
//! and a random partition; the externally visible id is
//! `{token}.{partition}`. Point reads never consult a lookup table: the
//! partition is read back from the id's trailing segment, so composing
//! and parsing must round-trip exactly.

use vstd::prelude::*;
use crate::text::{
    after_last, chars_to_string, dec_digits, dec_val, is_digit, lemma_after_last_append,
    lemma_dec_digits_are_digits, lemma_dec_val_of_digits, str_to_chars, suffix_after_last,
    u64_to_dec_string,
};

verus! {

/// The length of the random token drawn for every new document.
pub const ID_TOKEN_LEN: usize = 26;

/// A character of the URL-safe id alphabet: letters, digits, underscore
/// and hyphen. The separator `.` is not among them, which is what keeps
/// the trailing partition segment of a visible id parseable.
pub open spec fn is_id_char(c: char) -> bool {
    c == '_' || c == '-' || ('0' <= c && c <= '9') || ('a' <= c && c <= 'z') || ('A' <= c
        && c <= 'Z')
}

/// A well-formed random token: the drawn length, all id characters.
pub open spec fn spec_token_ok(t: Seq<char>) -> bool {
    t.len() == ID_TOKEN_LEN && forall|i: int| 0 <= i < t.len() ==> is_id_char(#[trigger] t[i])
}

/// Relies on `nanoid::format` with `nanoid::alphabet::SAFE` and the
/// default entropy source: the result holds exactly `len` characters,
/// each from the 64-character URL-safe alphabet. A zero length is
/// required away: on it the generator's fill loop never returns.
#[verifier::external_body]
fn random_token(len: usize) -> (r: String)
    requires
        len >= 1,
    ensures
        r@.len() == len,
        forall|i: int| 0 <= i < r@.len() ==> is_id_char(#[trigger] r@[i]),
{
    nanoid::format(nanoid::rngs::default, &nanoid::alphabet::SAFE, len)
}

/// Relies on `fastrand::usize`: a draw from `0..n` lies below `n`; the
/// empty range (and only it) panics, so it is required away.
#[verifier::external_body]
pub(crate) fn random_below(n: usize) -> (r: usize)
    requires
        n >= 1,
    ensures
        r < n,
{
    fastrand::usize(0..n)
}

/// The externally visible document id: `{token}.{partition}`.
pub open spec fn spec_visible_id(token: Seq<char>, partition: nat) -> Seq<char> {
    token + seq!['.'] + dec_digits(partition)
}

/// Joins a token and its assigned partition into the visible id.
pub fn compose_visible_id(token: &str, partition: u64) -> (r: String)
    ensures
        r@ == spec_visible_id(token@, partition as nat),
{
    let mut r = String::new();
    r.append(token);
    r.append(".");
    let d = u64_to_dec_string(partition);
    r.append(d.as_str());
    proof {
        vstd::prelude::reveal_strlit(".");
        assert(token@ + "."@ + dec_digits(partition as nat) =~= spec_visible_id(
            token@,
            partition as nat,
        ));
    }
    r
}

/// Draws a fresh document identity: a random token and a uniformly
/// random partition below the current partition count, joined into the
/// visible id. The trailing segment of the id is the partition, so the
/// id routes back to where the document is written.
pub fn compose_id(partition_count: usize) -> (r: (String, usize))
    requires
        partition_count >= 1,
    ensures
        r.1 < partition_count,
        exists|t: Seq<char>|
            spec_token_ok(t) && r.0@ == spec_visible_id(t, r.1 as nat),
        after_last(r.0@, '.') == dec_digits(r.1 as nat),
        dec_val(after_last(r.0@, '.')) == r.1,
{
    let token = random_token(ID_TOKEN_LEN);
    let partition = random_below(partition_count);
    let id = compose_visible_id(token.as_str(), partition as u64);
    proof {
        assert(spec_token_ok(token@) && id@ == spec_visible_id(token@, partition as nat));
        lemma_visible_id_roundtrip(token@, partition as nat, Seq::empty());
    }
    (id, partition)
}

/// The trailing segment of a visible id: what routing reads back as the
/// partition. For an id composed by this layer it is the partition's
/// decimal rendering; for a foreign id it is whatever follows the last
/// dot, taken as given.
pub fn visible_id_suffix(doc_id: &str) -> (r: String)
    ensures
        r@ == after_last(doc_id@, '.'),
{
    let chars = str_to_chars(doc_id);
    let suffix = suffix_after_last(&chars, '.');
    chars_to_string(&suffix)
}

/// The physical target of a point operation on a document: the prefix
/// of the logical index with the id's trailing segment appended,
/// `{prefix}.{suffix}`.
pub fn doc_target(prefix: &str, doc_id: &str) -> (r: String)
    ensures
        r@ == prefix@ + seq!['.'] + after_last(doc_id@, '.'),
{
    let mut r = String::new();
    r.append(prefix);
    r.append(".");
    let suffix = visible_id_suffix(doc_id);
    r.append(suffix.as_str());
    proof {
        vstd::prelude::reveal_strlit(".");
        assert(prefix@ + "."@ + after_last(doc_id@, '.') =~= prefix@ + seq!['.'] + after_last(
            doc_id@,
            '.',
        ));
    }
    r
}

/// Composing and parsing round-trip: the trailing segment of a composed
/// id is the partition it was composed with, read back exactly, and the
/// routed target is that partition's physical name.
pub proof fn lemma_visible_id_roundtrip(token: Seq<char>, partition: nat, prefix: Seq<char>)
    requires
        spec_token_ok(token),
    ensures
        after_last(spec_visible_id(token, partition), '.') == dec_digits(partition),
        dec_val(after_last(spec_visible_id(token, partition), '.')) == partition,
        prefix + seq!['.'] + after_last(spec_visible_id(token, partition), '.')
            == crate::naming::spec_partition_name(prefix, partition),
{
    lemma_dec_digits_are_digits(partition);
    assert forall|j: int| 0 <= j < dec_digits(partition).len() implies dec_digits(partition)[j]
        != '.' by {
        assert(is_digit(dec_digits(partition)[j]));
    }
    lemma_after_last_append(token, '.', dec_digits(partition));
    lemma_dec_val_of_digits(partition);
}

} // verus!
