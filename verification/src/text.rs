//! Character and string helpers shared by the naming, routing and search
//! modules: whitespace trimming, ASCII lowercasing, splitting and joining,
//! and decimal rendering of partition numbers.

use vstd::prelude::*;

verus! {

/// A character with the Unicode `White_Space` property; the set that
/// `str::trim` removes at either end of a string.
pub open spec fn is_unicode_space(c: char) -> bool {
    c == '\u{0009}' || c == '\u{000A}' || c == '\u{000B}' || c == '\u{000C}'
        || c == '\u{000D}' || c == ' ' || c == '\u{0085}' || c == '\u{00A0}'
        || c == '\u{1680}' || c == '\u{2000}' || c == '\u{2001}' || c == '\u{2002}'
        || c == '\u{2003}' || c == '\u{2004}' || c == '\u{2005}' || c == '\u{2006}'
        || c == '\u{2007}' || c == '\u{2008}' || c == '\u{2009}' || c == '\u{200A}'
        || c == '\u{2028}' || c == '\u{2029}' || c == '\u{202F}' || c == '\u{205F}'
        || c == '\u{3000}'
}

fn is_space(c: char) -> (r: bool)
    ensures
        r == is_unicode_space(c),
{
    c == '\u{0009}' || c == '\u{000A}' || c == '\u{000B}' || c == '\u{000C}'
        || c == '\u{000D}' || c == ' ' || c == '\u{0085}' || c == '\u{00A0}'
        || c == '\u{1680}' || c == '\u{2000}' || c == '\u{2001}' || c == '\u{2002}'
        || c == '\u{2003}' || c == '\u{2004}' || c == '\u{2005}' || c == '\u{2006}'
        || c == '\u{2007}' || c == '\u{2008}' || c == '\u{2009}' || c == '\u{200A}'
        || c == '\u{2028}' || c == '\u{2029}' || c == '\u{202F}' || c == '\u{205F}'
        || c == '\u{3000}'
}

/// ASCII lowercasing of a single character, as `char::to_ascii_lowercase`
/// defines it: `A`..`Z` map to `a`..`z`, everything else is unchanged.
pub open spec fn lower_char(c: char) -> char {
    if 'A' <= c && c <= 'Z' {
        ((c as u8) + 32) as char
    } else {
        c
    }
}

fn to_lower_char(c: char) -> (r: char)
    ensures
        r == lower_char(c),
{
    match c {
        'A' => 'a',
        'B' => 'b',
        'C' => 'c',
        'D' => 'd',
        'E' => 'e',
        'F' => 'f',
        'G' => 'g',
        'H' => 'h',
        'I' => 'i',
        'J' => 'j',
        'K' => 'k',
        'L' => 'l',
        'M' => 'm',
        'N' => 'n',
        'O' => 'o',
        'P' => 'p',
        'Q' => 'q',
        'R' => 'r',
        'S' => 's',
        'T' => 't',
        'U' => 'u',
        'V' => 'v',
        'W' => 'w',
        'X' => 'x',
        'Y' => 'y',
        'Z' => 'z',
        _ => c,
    }
}

/// The characters of a string as a vector, in order.
pub fn str_to_chars(s: &str) -> (v: Vec<char>)
    ensures
        v@ == s@,
{
    let n = s.unicode_len();
    let mut v: Vec<char> = Vec::new();
    let mut i: usize = 0;
    while i < n
        invariant
            n == s@.len(),
            i <= n,
            v@ == s@.subrange(0, i as int),
        decreases n - i,
    {
        v.push(s.get_char(i));
        i = i + 1;
        assert(v@ =~= s@.subrange(0, i as int));
    }
    assert(v@ =~= s@);
    v
}

/// Relies on `String::push`: appends exactly the one character.
#[verifier::external_body]
fn push_char(s: &mut String, c: char)
    ensures
        final(s)@ == old(s)@.push(c),
{
    s.push(c);
}

/// A string holding exactly the given characters, in order.
pub fn chars_to_string(v: &Vec<char>) -> (s: String)
    ensures
        s@ == v@,
{
    let mut s = String::new();
    let mut i: usize = 0;
    while i < v.len()
        invariant
            i <= v@.len(),
            s@ == v@.subrange(0, i as int),
        decreases v@.len() - i,
    {
        push_char(&mut s, v[i]);
        i = i + 1;
        assert(s@ =~= v@.subrange(0, i as int));
    }
    assert(s@ =~= v@);
    s
}

/// The sequence with leading whitespace removed.
pub open spec fn trim_front(s: Seq<char>) -> Seq<char>
    decreases s.len(),
{
    if s.len() == 0 {
        s
    } else if is_unicode_space(s[0]) {
        trim_front(s.drop_first())
    } else {
        s
    }
}

/// The sequence with trailing whitespace removed.
pub open spec fn trim_back(s: Seq<char>) -> Seq<char>
    decreases s.len(),
{
    if s.len() == 0 {
        s
    } else if is_unicode_space(s.last()) {
        trim_back(s.drop_last())
    } else {
        s
    }
}

/// The sequence with whitespace removed from both ends, as `str::trim`
/// leaves it.
pub open spec fn trim_spec(s: Seq<char>) -> Seq<char> {
    trim_back(trim_front(s))
}

proof fn lemma_trim_front_skip(s: Seq<char>, k: int)
    requires
        0 <= k <= s.len(),
        forall|j: int| 0 <= j < k ==> is_unicode_space(s[j]),
    ensures
        trim_front(s) == trim_front(s.skip(k)),
    decreases k,
{
    if k > 0 {
        assert(s.drop_first() =~= s.skip(1));
        lemma_trim_front_skip(s.skip(1), k - 1);
        assert(s.skip(1).skip(k - 1) =~= s.skip(k));
    } else {
        assert(s.skip(0) =~= s);
    }
}

proof fn lemma_trim_back_take(s: Seq<char>, k: int)
    requires
        0 <= k <= s.len(),
        forall|j: int| k <= j < s.len() ==> is_unicode_space(s[j]),
    ensures
        trim_back(s) == trim_back(s.take(k)),
    decreases s.len() - k,
{
    if k < s.len() {
        assert(s.drop_last() =~= s.take(s.len() - 1));
        lemma_trim_back_take(s.take(s.len() - 1), k);
        assert(s.take(s.len() - 1).take(k) =~= s.take(k));
    } else {
        assert(s.take(s.len() as int) =~= s);
    }
}

/// The trimmed copy of a character vector.
pub fn trim_chars(v: &Vec<char>) -> (r: Vec<char>)
    ensures
        r@ == trim_spec(v@),
{
    let n = v.len();
    let mut start: usize = 0;
    while start < n && is_space(v[start])
        invariant
            n == v@.len(),
            start <= n,
            forall|j: int| 0 <= j < start ==> is_unicode_space(v@[j]),
        decreases n - start,
    {
        start = start + 1;
    }
    proof {
        lemma_trim_front_skip(v@, start as int);
    }
    // from here on trim_front(v@) == v@.skip(start), a sequence whose
    // first character (if any) is not whitespace
    let mut end: usize = n;
    while end > start && is_space(v[end - 1])
        invariant
            n == v@.len(),
            start <= end <= n,
            forall|j: int| end <= j < n ==> is_unicode_space(v@[j]),
        decreases end,
    {
        end = end - 1;
    }
    proof {
        lemma_trim_back_take(v@.skip(start as int), end - start);
        if start < end {
            assert(v@.skip(start as int)[0] == v@[start as int]);
            assert(!is_unicode_space(v@.skip(start as int)[0]));
            assert(trim_front(v@) == v@.skip(start as int));
        } else {
            assert(v@.skip(start as int).take(0) =~= Seq::<char>::empty());
        }
    }
    let mut r: Vec<char> = Vec::new();
    let mut i: usize = start;
    while i < end
        invariant
            start <= i <= end <= n,
            n == v@.len(),
            r@ == v@.subrange(start as int, i as int),
        decreases end - i,
    {
        r.push(v[i]);
        i = i + 1;
        assert(r@ =~= v@.subrange(start as int, i as int));
    }
    proof {
        assert(v@.skip(start as int).take(end - start) =~= v@.subrange(
            start as int,
            end as int,
        ));
        if start < end {
            assert(!is_unicode_space(v@.skip(start as int).take(end - start).last()));
        }
        assert(trim_back(v@.skip(start as int)) == v@.subrange(start as int, end as int));
        if start == end && start < n {
            assert(trim_front(v@) == trim_front(v@.skip(start as int)));
        }
    }
    r
}

proof fn lemma_trim_front_first(s: Seq<char>)
    ensures
        trim_front(s).len() > 0 ==> !is_unicode_space(trim_front(s)[0]),
    decreases s.len(),
{
    if s.len() > 0 && is_unicode_space(s[0]) {
        lemma_trim_front_first(s.drop_first());
    }
}

proof fn lemma_trim_back_is_prefix(s: Seq<char>)
    ensures
        trim_back(s).len() <= s.len(),
        trim_back(s) == s.take(trim_back(s).len() as int),
        trim_back(s).len() > 0 ==> !is_unicode_space(trim_back(s).last()),
    decreases s.len(),
{
    if s.len() == 0 {
        assert(s.take(0) =~= s);
    } else if is_unicode_space(s.last()) {
        lemma_trim_back_is_prefix(s.drop_last());
        assert(s.drop_last() =~= s.take(s.len() - 1));
        assert(s.take(s.len() - 1).take(trim_back(s).len() as int) =~= s.take(
            trim_back(s).len() as int,
        ));
    } else {
        assert(s.take(s.len() as int) =~= s);
    }
}

/// A trimmed sequence, when non-empty, neither starts nor ends with
/// whitespace.
pub proof fn lemma_trim_ends_nonspace(s: Seq<char>)
    ensures
        trim_spec(s).len() > 0 ==> !is_unicode_space(trim_spec(s)[0]),
        trim_spec(s).len() > 0 ==> !is_unicode_space(trim_spec(s).last()),
{
    let f = trim_front(s);
    lemma_trim_front_first(s);
    lemma_trim_back_is_prefix(f);
    if trim_spec(s).len() > 0 {
        assert(trim_spec(s)[0] == f[0]);
    }
}

/// A sequence that neither starts nor ends with whitespace is its own
/// trim.
pub proof fn lemma_trim_fixed(s: Seq<char>)
    requires
        s.len() > 0 ==> !is_unicode_space(s[0]),
        s.len() > 0 ==> !is_unicode_space(s.last()),
    ensures
        trim_spec(s) == s,
{
    assert(trim_front(s) == s);
    assert(trim_back(s) == s);
}

/// The sequence with every ASCII uppercase letter lowercased, as
/// `str::to_ascii_lowercase` leaves it.
pub open spec fn lower_seq(s: Seq<char>) -> Seq<char> {
    s.map_values(|c: char| lower_char(c))
}

/// The ASCII-lowercased copy of a character vector.
pub fn lower_chars(v: &Vec<char>) -> (r: Vec<char>)
    ensures
        r@ == lower_seq(v@),
{
    let mut r: Vec<char> = Vec::new();
    let mut i: usize = 0;
    while i < v.len()
        invariant
            i <= v@.len(),
            r@ == lower_seq(v@.subrange(0, i as int)),
        decreases v@.len() - i,
    {
        r.push(to_lower_char(v[i]));
        i = i + 1;
        assert(r@ =~= lower_seq(v@.subrange(0, i as int)));
    }
    assert(v@.subrange(0, v@.len() as int) =~= v@);
    r
}

/// The sequence with every space replaced by an underscore.
pub open spec fn underscore_seq(s: Seq<char>) -> Seq<char> {
    s.map_values(|c: char| if c == ' ' { '_' } else { c })
}

/// The copy of a character vector with spaces replaced by underscores.
pub fn underscore_chars(v: &Vec<char>) -> (r: Vec<char>)
    ensures
        r@ == underscore_seq(v@),
{
    let mut r: Vec<char> = Vec::new();
    let mut i: usize = 0;
    while i < v.len()
        invariant
            i <= v@.len(),
            r@ == underscore_seq(v@.subrange(0, i as int)),
        decreases v@.len() - i,
    {
        if v[i] == ' ' {
            r.push('_');
        } else {
            r.push(v[i]);
        }
        i = i + 1;
        assert(r@ =~= underscore_seq(v@.subrange(0, i as int)));
    }
    assert(v@.subrange(0, v@.len() as int) =~= v@);
    r
}

/// A copy of a character vector.
pub fn copy_chars(v: &Vec<char>) -> (r: Vec<char>)
    ensures
        r@ == v@,
{
    let mut r: Vec<char> = Vec::new();
    let mut i: usize = 0;
    while i < v.len()
        invariant
            i <= v@.len(),
            r@ == v@.subrange(0, i as int),
        decreases v@.len() - i,
    {
        r.push(v[i]);
        i = i + 1;
        assert(r@ =~= v@.subrange(0, i as int));
    }
    assert(r@ =~= v@);
    r
}

/// Whether two strings hold the same characters.
pub fn str_eq(a: &str, b: &str) -> (r: bool)
    ensures
        r == (a@ == b@),
{
    let na = a.unicode_len();
    let nb = b.unicode_len();
    if na != nb {
        assert(a@.len() != b@.len());
        return false;
    }
    let mut i: usize = 0;
    while i < na
        invariant
            na == a@.len(),
            na == b@.len(),
            i <= na,
            forall|j: int| 0 <= j < i ==> a@[j] == b@[j],
        decreases na - i,
    {
        if a.get_char(i) != b.get_char(i) {
            return false;
        }
        i = i + 1;
    }
    assert(a@ =~= b@);
    true
}

/// The character for one decimal digit.
pub open spec fn digit_char(d: nat) -> char {
    if d == 0 {
        '0'
    } else if d == 1 {
        '1'
    } else if d == 2 {
        '2'
    } else if d == 3 {
        '3'
    } else if d == 4 {
        '4'
    } else if d == 5 {
        '5'
    } else if d == 6 {
        '6'
    } else if d == 7 {
        '7'
    } else if d == 8 {
        '8'
    } else {
        '9'
    }
}

/// Whether a character is a decimal digit.
pub open spec fn is_digit(c: char) -> bool {
    '0' <= c && c <= '9'
}

/// The numeric value of a digit character.
pub open spec fn digit_val(c: char) -> nat {
    (c as nat - '0' as nat) as nat
}

/// The decimal rendering of a number, most significant digit first, with
/// no leading zeros (`0` renders as `"0"`).
pub open spec fn dec_digits(n: nat) -> Seq<char>
    decreases n,
{
    if n < 10 {
        seq![digit_char(n)]
    } else {
        dec_digits(n / 10) + seq![digit_char(n % 10)]
    }
}

/// The value of a digit string, most significant digit first.
pub open spec fn dec_val(s: Seq<char>) -> nat
    decreases s.len(),
{
    if s.len() == 0 {
        0
    } else {
        dec_val(s.drop_last()) * 10 + digit_val(s.last())
    }
}

/// Every character of a decimal rendering is a digit; in particular none
/// is a `.` separator.
pub proof fn lemma_dec_digits_are_digits(n: nat)
    ensures
        dec_digits(n).len() >= 1,
        forall|i: int| 0 <= i < dec_digits(n).len() ==> is_digit(#[trigger] dec_digits(n)[i]),
    decreases n,
{
    if n >= 10 {
        lemma_dec_digits_are_digits(n / 10);
    }
}

/// Reading a decimal rendering back yields the rendered number.
pub proof fn lemma_dec_val_of_digits(n: nat)
    ensures
        dec_val(dec_digits(n)) == n,
    decreases n,
{
    if n < 10 {
        assert(dec_digits(n) == seq![digit_char(n)]);
        assert(dec_digits(n).len() == 1);
        assert(dec_digits(n).drop_last() =~= Seq::<char>::empty());
        assert(dec_val(Seq::<char>::empty()) == 0);
        assert(dec_val(dec_digits(n)) == dec_val(dec_digits(n).drop_last()) * 10 + digit_val(
            dec_digits(n).last(),
        ));
        assert(dec_digits(n).last() == digit_char(n));
        assert(digit_val(digit_char(n)) == n);
    } else {
        lemma_dec_val_of_digits(n / 10);
        assert(dec_digits(n).drop_last() =~= dec_digits(n / 10));
        assert(dec_digits(n).last() == digit_char(n % 10));
        assert(digit_val(digit_char(n % 10)) == n % 10);
        assert(dec_val(dec_digits(n)) == (n / 10) * 10 + n % 10);
    }
}

/// Distinct numbers have distinct decimal renderings.
pub proof fn lemma_dec_digits_injective(a: nat, b: nat)
    requires
        dec_digits(a) == dec_digits(b),
    ensures
        a == b,
{
    lemma_dec_val_of_digits(a);
    lemma_dec_val_of_digits(b);
}

fn digit_to_char(d: u64) -> (c: char)
    requires
        d < 10,
    ensures
        c == digit_char(d as nat),
{
    match d {
        0 => '0',
        1 => '1',
        2 => '2',
        3 => '3',
        4 => '4',
        5 => '5',
        6 => '6',
        7 => '7',
        8 => '8',
        _ => '9',
    }
}

/// The decimal rendering of a number as characters.
pub fn u64_to_dec_chars(n: u64) -> (r: Vec<char>)
    ensures
        r@ == dec_digits(n as nat),
    decreases n,
{
    if n < 10 {
        let mut r: Vec<char> = Vec::new();
        r.push(digit_to_char(n));
        assert(r@ =~= seq![digit_char(n as nat)]);
        r
    } else {
        let mut r = u64_to_dec_chars(n / 10);
        r.push(digit_to_char(n % 10));
        assert(r@ =~= dec_digits((n / 10) as nat) + seq![digit_char((n % 10) as nat)]);
        r
    }
}

/// The decimal rendering of a number as a string.
pub fn u64_to_dec_string(n: u64) -> (r: String)
    ensures
        r@ == dec_digits(n as nat),
{
    let chars = u64_to_dec_chars(n);
    chars_to_string(&chars)
}

fn char_digit_val(c: char) -> (d: u64)
    requires
        is_digit(c),
    ensures
        d == digit_val(c),
        d < 10,
{
    match c {
        '0' => 0,
        '1' => 1,
        '2' => 2,
        '3' => 3,
        '4' => 4,
        '5' => 5,
        '6' => 6,
        '7' => 7,
        '8' => 8,
        _ => 9,
    }
}

/// Reads a non-empty all-digit string as a number, as `str::parse::<u64>`
/// accepts it (without a sign). `None` exactly when the string is empty,
/// holds a non-digit, or denotes a value above `u64::MAX`.
pub fn parse_dec_chars(v: &Vec<char>) -> (r: Option<u64>)
    ensures
        match r {
            Some(n) => v@.len() > 0 && (forall|i: int|
                0 <= i < v@.len() ==> is_digit(#[trigger] v@[i])) && n == dec_val(v@),
            None => v@.len() == 0 || (exists|i: int|
                0 <= i < v@.len() && !is_digit(#[trigger] v@[i])) || dec_val(v@) > u64::MAX,
        },
{
    if v.len() == 0 {
        return None;
    }
    let mut acc: u64 = 0;
    let mut i: usize = 0;
    while i < v.len()
        invariant
            i <= v@.len(),
            forall|j: int| 0 <= j < i ==> is_digit(#[trigger] v@[j]),
            acc == dec_val(v@.subrange(0, i as int)),
        decreases v@.len() - i,
    {
        let c = v[i];
        if !('0' <= c && c <= '9') {
            return None;
        }
        let d = char_digit_val(c);
        if acc > (u64::MAX - d) / 10 {
            proof {
                lemma_dec_val_overflow(v@, i as int, acc as nat, d as nat);
            }
            return None;
        }
        assert(acc * 10 + d <= u64::MAX) by (nonlinear_arith)
            requires
                acc <= (u64::MAX - d) / 10,
                d < 10,
        ;
        acc = acc * 10 + d;
        i = i + 1;
        assert(v@.subrange(0, i as int).drop_last() =~= v@.subrange(0, i - 1));
    }
    assert(v@.subrange(0, v@.len() as int) =~= v@);
    Some(acc)
}

proof fn lemma_dec_val_monotone_prefix(s: Seq<char>, k: int)
    requires
        0 <= k <= s.len(),
        forall|i: int| 0 <= i < s.len() ==> is_digit(#[trigger] s[i]),
    ensures
        dec_val(s) >= dec_val(s.subrange(0, k)),
    decreases s.len() - k,
{
    if k < s.len() {
        lemma_dec_val_monotone_prefix(s, k + 1);
        let p = s.subrange(0, k + 1);
        assert(p.drop_last() =~= s.subrange(0, k));
        assert(dec_val(p) == dec_val(s.subrange(0, k)) * 10 + digit_val(p.last()));
        assert(dec_val(s.subrange(0, k)) * 10 >= dec_val(s.subrange(0, k))) by (nonlinear_arith);
    } else {
        assert(s.subrange(0, s.len() as int) =~= s);
    }
}

proof fn lemma_dec_val_overflow(s: Seq<char>, i: int, acc: nat, d: nat)
    requires
        0 <= i < s.len(),
        forall|j: int| 0 <= j <= i ==> is_digit(#[trigger] s[j]),
        acc == dec_val(s.subrange(0, i)),
        d == digit_val(s[i]),
        acc > (u64::MAX - d) / 10,
        d < 10,
    ensures
        (exists|j: int| 0 <= j < s.len() && !is_digit(#[trigger] s[j])) || dec_val(s) > u64::MAX,
{
    if forall|j: int| 0 <= j < s.len() ==> is_digit(#[trigger] s[j]) {
        assert(s.subrange(0, i + 1).drop_last() =~= s.subrange(0, i));
        assert(dec_val(s.subrange(0, i + 1)) == acc * 10 + d);
        assert(acc * 10 + d > u64::MAX) by (nonlinear_arith)
            requires
                acc > (u64::MAX - d) / 10,
                d < 10,
        ;
        lemma_dec_val_monotone_prefix(s, i + 1);
    }
}

/// The segment of a sequence after the last occurrence of `sep`; the
/// whole sequence when `sep` does not occur. This is what taking the last
/// piece of `str::split` yields.
pub open spec fn after_last(s: Seq<char>, sep: char) -> Seq<char>
    decreases s.len(),
{
    if s.len() == 0 {
        s
    } else if s.last() == sep {
        Seq::empty()
    } else {
        after_last(s.drop_last(), sep).push(s.last())
    }
}

pub proof fn lemma_after_last_no_sep(s: Seq<char>, sep: char)
    requires
        forall|j: int| 0 <= j < s.len() ==> s[j] != sep,
    ensures
        after_last(s, sep) == s,
    decreases s.len(),
{
    if s.len() > 0 {
        lemma_after_last_no_sep(s.drop_last(), sep);
        assert(s.drop_last().push(s.last()) =~= s);
    }
}

pub proof fn lemma_after_last_at(s: Seq<char>, sep: char, k: int)
    requires
        0 <= k < s.len(),
        s[k] == sep,
        forall|j: int| k < j < s.len() ==> s[j] != sep,
    ensures
        after_last(s, sep) == s.subrange(k + 1, s.len() as int),
    decreases s.len(),
{
    if k == s.len() - 1 {
        assert(s.subrange(k + 1, s.len() as int) =~= Seq::<char>::empty());
    } else {
        lemma_after_last_at(s.drop_last(), sep, k);
        assert(s.drop_last().subrange(k + 1, s.len() - 1).push(s.last()) =~= s.subrange(
            k + 1,
            s.len() as int,
        ));
    }
}

/// After appending `sep` and a `sep`-free tail, the tail is what stands
/// after the last separator.
pub proof fn lemma_after_last_append(head: Seq<char>, sep: char, tail: Seq<char>)
    requires
        forall|j: int| 0 <= j < tail.len() ==> tail[j] != sep,
    ensures
        after_last(head + seq![sep] + tail, sep) == tail,
{
    let s = head + seq![sep] + tail;
    let k = head.len() as int;
    assert(s[k] == sep);
    lemma_after_last_at(s, sep, k);
    assert(s.subrange(k + 1, s.len() as int) =~= tail);
}

/// The characters after the last `sep`, or all of them when `sep` does
/// not occur.
pub fn suffix_after_last(v: &Vec<char>, sep: char) -> (r: Vec<char>)
    ensures
        r@ == after_last(v@, sep),
{
    let n = v.len();
    let mut k: usize = n;
    while k > 0 && v[k - 1] != sep
        invariant
            n == v@.len(),
            k <= n,
            forall|j: int| k <= j < n ==> v@[j] != sep,
        decreases k,
    {
        k = k - 1;
    }
    proof {
        if k == 0 {
            lemma_after_last_no_sep(v@, sep);
        } else {
            lemma_after_last_at(v@, sep, k - 1);
        }
    }
    let mut r: Vec<char> = Vec::new();
    let mut i: usize = k;
    while i < n
        invariant
            k <= i <= n,
            n == v@.len(),
            r@ == v@.subrange(k as int, i as int),
        decreases n - i,
    {
        r.push(v[i]);
        i = i + 1;
        assert(r@ =~= v@.subrange(k as int, i as int));
    }
    proof {
        if k == 0 {
            assert(v@.subrange(0, n as int) =~= v@);
        }
    }
    r
}

/// The pieces joined with `sep` between each two; what `str::split`
/// undoes.
pub open spec fn join_seq(parts: Seq<Seq<char>>, sep: char) -> Seq<char>
    decreases parts.len(),
{
    if parts.len() == 0 {
        Seq::empty()
    } else if parts.len() == 1 {
        parts[0]
    } else {
        parts[0] + seq![sep] + join_seq(parts.drop_first(), sep)
    }
}

pub proof fn lemma_join_push(parts: Seq<Seq<char>>, sep: char, x: Seq<char>)
    ensures
        join_seq(parts.push(x), sep) == if parts.len() == 0 {
            x
        } else {
            join_seq(parts, sep) + seq![sep] + x
        },
    decreases parts.len(),
{
    if parts.len() == 0 {
        assert(parts.push(x)[0] == x);
    } else if parts.len() == 1 {
        assert(parts.push(x).drop_first() =~= seq![x]);
        assert(parts.push(x)[0] == parts[0]);
        assert(seq![x][0] == x);
        assert(join_seq(seq![x], sep) == x);
        assert(join_seq(parts.push(x), sep) == parts[0] + seq![sep] + x);
    } else {
        lemma_join_push(parts.drop_first(), sep, x);
        assert(parts.push(x).drop_first() =~= parts.drop_first().push(x));
        assert(parts.push(x)[0] == parts[0]);
        assert(parts[0] + seq![sep] + (join_seq(parts.drop_first(), sep) + seq![sep] + x) =~= (
        parts[0] + seq![sep] + join_seq(parts.drop_first(), sep)) + seq![sep] + x);
    }
}

/// The views of a list of character vectors.
pub open spec fn views_of(parts: Seq<Vec<char>>) -> Seq<Seq<char>> {
    parts.map_values(|p: Vec<char>| p@)
}

/// Splits on a separator character, as `str::split` does: the returned
/// pieces are free of the separator and joining them restores the input,
/// which pins the result down. The input with no separator yields one
/// piece; every separator adds one.
pub fn split_chars(v: &Vec<char>, sep: char) -> (r: Vec<Vec<char>>)
    ensures
        r@.len() >= 1,
        join_seq(views_of(r@), sep) == v@,
        forall|i: int, j: int|
            0 <= i < r@.len() && 0 <= j < r@[i]@.len() ==> r@[i]@[j] != sep,
{
    let mut parts: Vec<Vec<char>> = Vec::new();
    let mut cur: Vec<char> = Vec::new();
    let mut i: usize = 0;
    while i < v.len()
        invariant
            i <= v@.len(),
            join_seq(views_of(parts@).push(cur@), sep) == v@.subrange(0, i as int),
            forall|p: int, j: int|
                0 <= p < parts@.len() && 0 <= j < parts@[p]@.len() ==> parts@[p]@[j] != sep,
            forall|j: int| 0 <= j < cur@.len() ==> cur@[j] != sep,
        decreases v@.len() - i,
    {
        let ghost old_parts = views_of(parts@);
        let ghost old_cur = cur@;
        let c = v[i];
        proof {
            assert(v@.subrange(0, i + 1) =~= v@.subrange(0, i as int).push(v@[i as int]));
        }
        if c == sep {
            parts.push(cur);
            cur = Vec::new();
            proof {
                assert(views_of(parts@) =~= old_parts.push(old_cur));
                lemma_join_push(old_parts.push(old_cur), sep, Seq::empty());
                lemma_join_push(old_parts, sep, old_cur);
                let joined = join_seq(old_parts.push(old_cur), sep);
                assert(joined + seq![sep] + Seq::<char>::empty() =~= joined.push(sep));
                assert(join_seq(views_of(parts@).push(cur@), sep) =~= v@.subrange(
                    0,
                    i + 1,
                ));
            }
        } else {
            cur.push(c);
            proof {
                lemma_join_push(old_parts, sep, old_cur.push(c));
                lemma_join_push(old_parts, sep, old_cur);
                if old_parts.len() == 0 {
                    assert(join_seq(old_parts.push(old_cur.push(c)), sep) =~= join_seq(
                        old_parts.push(old_cur),
                        sep,
                    ).push(c));
                } else {
                    assert(join_seq(old_parts, sep) + seq![sep] + old_cur.push(c) =~= (
                    join_seq(old_parts, sep) + seq![sep] + old_cur).push(c));
                }
                assert(join_seq(views_of(parts@).push(cur@), sep) =~= v@.subrange(
                    0,
                    i + 1,
                ));
            }
        }
        i = i + 1;
    }
    let ghost final_parts = views_of(parts@);
    let ghost final_cur = cur@;
    parts.push(cur);
    proof {
        assert(views_of(parts@) =~= final_parts.push(final_cur));
        assert(v@.subrange(0, v@.len() as int) =~= v@);
    }
    parts
}

/// Strict lexicographic order on character sequences, by code point; the
/// order `str::lt` and a `sort` on strings follow.
pub open spec fn lex_lt(a: Seq<char>, b: Seq<char>) -> bool
    decreases a.len(),
{
    if b.len() == 0 {
        false
    } else if a.len() == 0 {
        true
    } else if a[0] != b[0] {
        a[0] < b[0]
    } else {
        lex_lt(a.drop_first(), b.drop_first())
    }
}

proof fn lemma_lex_skip(a: Seq<char>, b: Seq<char>, k: int)
    requires
        0 <= k <= a.len(),
        k <= b.len(),
        forall|j: int| 0 <= j < k ==> a[j] == b[j],
    ensures
        lex_lt(a, b) == lex_lt(a.skip(k), b.skip(k)),
    decreases k,
{
    if k > 0 {
        assert(a.drop_first() =~= a.skip(1));
        assert(b.drop_first() =~= b.skip(1));
        lemma_lex_skip(a.skip(1), b.skip(1), k - 1);
        assert(a.skip(1).skip(k - 1) =~= a.skip(k));
        assert(b.skip(1).skip(k - 1) =~= b.skip(k));
    } else {
        assert(a.skip(0) =~= a);
        assert(b.skip(0) =~= b);
    }
}

/// Of two sequences neither below the other, each equals the other: the
/// order is total.
pub proof fn lemma_lex_total(a: Seq<char>, b: Seq<char>)
    requires
        !lex_lt(a, b),
        !lex_lt(b, a),
    ensures
        a == b,
    decreases a.len(),
{
    if a.len() == 0 || b.len() == 0 {
        assert(a =~= b);
    } else {
        lemma_lex_total(a.drop_first(), b.drop_first());
        assert(a =~= seq![a[0]] + a.drop_first());
        assert(b =~= seq![b[0]] + b.drop_first());
    }
}

/// Lexicographic order is transitive.
pub proof fn lemma_lex_trans(a: Seq<char>, b: Seq<char>, c: Seq<char>)
    requires
        lex_lt(a, b),
        lex_lt(b, c),
    ensures
        lex_lt(a, c),
    decreases a.len(),
{
    if a.len() > 0 && b.len() > 0 && c.len() > 0 {
        if a[0] == b[0] && b[0] == c[0] {
            lemma_lex_trans(a.drop_first(), b.drop_first(), c.drop_first());
        }
    }
}

/// Whether one string stands strictly before another in lexicographic
/// order.
pub fn str_lex_lt(a: &str, b: &str) -> (r: bool)
    ensures
        r == lex_lt(a@, b@),
{
    let na = a.unicode_len();
    let nb = b.unicode_len();
    let min = if na < nb {
        na
    } else {
        nb
    };
    let mut i: usize = 0;
    while i < min
        invariant
            na == a@.len(),
            nb == b@.len(),
            min == if na < nb {
                na
            } else {
                nb
            },
            i <= min,
            forall|j: int| 0 <= j < i ==> a@[j] == b@[j],
        decreases min - i,
    {
        let ca = a.get_char(i);
        let cb = b.get_char(i);
        if ca != cb {
            proof {
                lemma_lex_skip(a@, b@, i as int);
                assert(a@.skip(i as int)[0] == a@[i as int]);
                assert(b@.skip(i as int)[0] == b@[i as int]);
            }
            return ca < cb;
        }
        i = i + 1;
    }
    proof {
        lemma_lex_skip(a@, b@, min as int);
        if na == nb {
            assert(a@.skip(min as int).len() == 0);
            assert(b@.skip(min as int).len() == 0);
        }
    }
    na < nb
}

} // verus!
