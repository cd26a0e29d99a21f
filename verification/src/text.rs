//! Character-level rules shared by tags and paths.

use vstd::prelude::*;

verus! {

/// The symbols that may not appear in a path segment.
pub open spec fn is_invalid_symbol(c: char) -> bool {
    c == '<' || c == '>' || c == ':' || c == '"' || c == '/' || c == '\\' || c == '|' || c == '?'
        || c == '*'
}

/// No character of `s` is an invalid symbol.
pub open spec fn has_no_invalid_symbol(s: Seq<char>) -> bool {
    forall|i: int| 0 <= i < s.len() ==> !is_invalid_symbol(#[trigger] s[i])
}

/// No character of `s` is the null character.
pub open spec fn has_no_null_byte(s: Seq<char>) -> bool {
    forall|i: int| 0 <= i < s.len() ==> #[trigger] s[i] != '\0'
}

/// `s` can stand as a path segment as it is.
pub open spec fn is_filesystem_safe(s: Seq<char>) -> bool {
    has_no_invalid_symbol(s) && has_no_null_byte(s)
}

/// Every character of `s` occurs in `origin`.
pub open spec fn drawn_from(s: Seq<char>, origin: Seq<char>) -> bool {
    forall|i: int| 0 <= i < s.len() ==> origin.contains(#[trigger] s[i])
}

/// `s` with every `/` turned into `-`.
pub open spec fn with_slashes_replaced(s: Seq<char>) -> Seq<char> {
    s.map_values(|c: char| if c == '/' { '-' } else { c })
}

/// `s` with every null character dropped.
pub open spec fn without_null_bytes(s: Seq<char>) -> Seq<char> {
    s.filter(|c: char| c != '\0')
}

/// `s` with every invalid symbol dropped.
pub open spec fn without_invalid_symbols(s: Seq<char>) -> Seq<char> {
    s.filter(|c: char| !is_invalid_symbol(c))
}

/// Dropping the invalid symbols leaves none, adds no character, and changes
/// nothing where there was none to drop.
pub proof fn lemma_without_invalid_symbols(s: Seq<char>)
    ensures
        has_no_invalid_symbol(without_invalid_symbols(s)),
        drawn_from(without_invalid_symbols(s), s),
        has_no_invalid_symbol(s) ==> without_invalid_symbols(s) == s,
{
    let keep = |c: char| !is_invalid_symbol(c);
    let r = s.filter(keep);
    assert forall|i: int| 0 <= i < r.len() implies !is_invalid_symbol(#[trigger] r[i])
        && s.contains(r[i]) by {
        s.lemma_filter_pred(keep, i);
        assert(r.contains(r[i]));
        s.lemma_filter_contains_rev(keep, r[i]);
    }
    if has_no_invalid_symbol(s) {
        lemma_filter_all(s, keep);
    }
}

/// Dropping the null characters leaves none, adds no character, and changes
/// nothing where there was none to drop.
pub proof fn lemma_without_null_bytes(s: Seq<char>)
    ensures
        has_no_null_byte(without_null_bytes(s)),
        drawn_from(without_null_bytes(s), s),
        has_no_null_byte(s) ==> without_null_bytes(s) == s,
{
    let keep = |c: char| c != '\0';
    let r = s.filter(keep);
    assert forall|i: int| 0 <= i < r.len() implies #[trigger] r[i] != '\0' && s.contains(r[i]) by {
        s.lemma_filter_pred(keep, i);
        assert(r.contains(r[i]));
        s.lemma_filter_contains_rev(keep, r[i]);
    }
    if has_no_null_byte(s) {
        lemma_filter_all(s, keep);
    }
}

/// A filter that every element passes changes nothing.
pub proof fn lemma_filter_all(s: Seq<char>, keep: spec_fn(char) -> bool)
    requires
        forall|i: int| 0 <= i < s.len() ==> keep(#[trigger] s[i]),
    ensures
        s.filter(keep) == s,
    decreases s.len(),
{
    reveal(Seq::filter);
    if s.len() > 0 {
        lemma_filter_all(s.drop_last(), keep);
        assert(s.drop_last().push(s.last()) =~= s);
    }
}

pub open spec fn is_ascii_digit(c: char) -> bool {
    '0' <= c <= '9'
}

pub open spec fn all_digits(s: Seq<char>) -> bool {
    forall|i: int| 0 <= i < s.len() ==> is_ascii_digit(#[trigger] s[i])
}

/// How many ASCII digits `s` starts with.
pub open spec fn digit_run(s: Seq<char>) -> nat
    decreases s.len(),
{
    if s.len() > 0 && is_ascii_digit(s[0]) {
        1 + digit_run(s.drop_first())
    } else {
        0
    }
}

/// The longest prefix of `s` made of ASCII digits.
pub open spec fn leading_digits(s: Seq<char>) -> Seq<char> {
    s.take(digit_run(s) as int)
}

/// Position `k` is where the leading run of digits of `s` ends.
pub open spec fn ends_digit_run(s: Seq<char>, k: int) -> bool {
    &&& 0 <= k <= s.len()
    &&& all_digits(s.take(k))
    &&& k < s.len() ==> !is_ascii_digit(s[k])
}

/// The leading run of digits ends at exactly one position.
pub proof fn lemma_digit_run(s: Seq<char>, k: int)
    requires
        ends_digit_run(s, k),
    ensures
        digit_run(s) == k,
    decreases s.len(),
{
    if k > 0 {
        assert(s.take(k)[0] == s[0]);
        let rest = s.drop_first();
        assert forall|i: int| 0 <= i < k - 1 implies is_ascii_digit(
            #[trigger] rest.take(k - 1)[i],
        ) by {
            assert(rest.take(k - 1)[i] == s.take(k)[i + 1]);
        }
        lemma_digit_run(rest, k - 1);
    }
}

/// The leading run of digits is made of digits and stops at the first
/// character that is none.
pub proof fn lemma_leading_digits(s: Seq<char>)
    ensures
        ends_digit_run(s, digit_run(s) as int),
        all_digits(leading_digits(s)),
        leading_digits(s).is_prefix_of(s),
        all_digits(s) ==> leading_digits(s) == s,
    decreases s.len(),
{
    if s.len() > 0 && is_ascii_digit(s[0]) {
        let rest = s.drop_first();
        lemma_leading_digits(rest);
        let k = digit_run(s) as int;
        assert forall|i: int| 0 <= i < k implies is_ascii_digit(#[trigger] s.take(k)[i]) by {
            if i > 0 {
                assert(s.take(k)[i] == rest.take(k - 1)[i - 1]);
            }
        }
    }
    if all_digits(s) {
        assert(s.take(s.len() as int) =~= s);
        lemma_digit_run(s, s.len() as int);
    }
}

pub fn invalid_symbol(c: char) -> (r: bool)
    ensures
        r == is_invalid_symbol(c),
{
    c == '<' || c == '>' || c == ':' || c == '"' || c == '/' || c == '\\' || c == '|' || c == '?'
        || c == '*'
}

pub fn ascii_digit(c: char) -> (r: bool)
    ensures
        r == is_ascii_digit(c),
{
    '0' <= c && c <= '9'
}

/// Appends the character at position `i` of `s` to `out`.
pub fn push_char_of(out: &mut String, s: &str, i: usize)
    requires
        i < s@.len() <= usize::MAX,
    ensures
        final(out)@ == old(out)@.push(s@[i as int]),
{
    let one = s.substring_char(i, i + 1);
    assert(one@ =~= seq![s@[i as int]]);
    out.append(one);
    assert(out@ =~= old(out)@.push(s@[i as int]));
}

/// Turns every `/` of `s` into `-`.
pub fn replace_slashes(s: &str) -> (r: String)
    ensures
        r@ == with_slashes_replaced(s@),
{
    let n: usize = s.unicode_len();
    let mut out = String::new();
    let mut i: usize = 0;
    assert(out@ =~= with_slashes_replaced(s@.take(0)));
    while i < n
        invariant
            n == s@.len(),
            i <= n,
            out@ == with_slashes_replaced(s@.take(i as int)),
        decreases n - i,
    {
        let c = s.get_char(i);
        if c == '/' {
            out.append("-");
            proof {
                reveal_strlit("-");
                assert(out@ =~= with_slashes_replaced(s@.take(i + 1)));
            }
        } else {
            push_char_of(&mut out, s, i);
            assert(out@ =~= with_slashes_replaced(s@.take(i + 1)));
        }
        i += 1;
    }
    assert(s@.take(n as int) =~= s@);
    out
}

/// Drops every null character from `s`.
pub fn strip_null_bytes(s: &str) -> (r: String)
    ensures
        r@ == without_null_bytes(s@),
{
    let n: usize = s.unicode_len();
    let mut out = String::new();
    let mut i: usize = 0;
    proof {
        reveal(Seq::filter);
        assert(s@.take(0) =~= Seq::<char>::empty());
    }
    while i < n
        invariant
            n == s@.len(),
            i <= n,
            out@ == without_null_bytes(s@.take(i as int)),
        decreases n - i,
    {
        let c = s.get_char(i);
        proof {
            assert(s@.take(i + 1) =~= s@.take(i as int).push(c));
            s@.take(i as int).lemma_filter_push(c, |c: char| c != '\0');
        }
        if c != '\0' {
            push_char_of(&mut out, s, i);
        }
        i += 1;
    }
    assert(s@.take(n as int) =~= s@);
    out
}

/// Drops every invalid symbol from `s`.
pub fn strip_invalid_symbols(s: &str) -> (r: String)
    ensures
        r@ == without_invalid_symbols(s@),
{
    let n: usize = s.unicode_len();
    let mut out = String::new();
    let mut i: usize = 0;
    proof {
        reveal(Seq::filter);
        assert(s@.take(0) =~= Seq::<char>::empty());
    }
    while i < n
        invariant
            n == s@.len(),
            i <= n,
            out@ == without_invalid_symbols(s@.take(i as int)),
        decreases n - i,
    {
        let c = s.get_char(i);
        proof {
            assert(s@.take(i + 1) =~= s@.take(i as int).push(c));
            s@.take(i as int).lemma_filter_push(c, |c: char| !is_invalid_symbol(c));
        }
        if !invalid_symbol(c) {
            push_char_of(&mut out, s, i);
        }
        i += 1;
    }
    assert(s@.take(n as int) =~= s@);
    out
}

/// Keeps the digits that `s` starts with and drops the rest.
pub fn digit_prefix(s: &str) -> (r: String)
    ensures
        r@ == leading_digits(s@),
{
    let n: usize = s.unicode_len();
    let mut i: usize = 0;
    while i < n && ascii_digit(s.get_char(i))
        invariant
            n == s@.len(),
            i <= n,
            all_digits(s@.take(i as int)),
        decreases n - i,
    {
        assert forall|j: int| 0 <= j < i + 1 implies is_ascii_digit(
            #[trigger] s@.take(i + 1)[j],
        ) by {
            if j < i {
                assert(s@.take(i + 1)[j] == s@.take(i as int)[j]);
            }
        }
        i += 1;
    }
    proof {
        lemma_digit_run(s@, i as int);
    }
    String::from_str(s.substring_char(0, i))
}

} // verus!
