//! Relative paths as text whose segments are separated by `/`.

use vstd::prelude::*;

verus! {

/// The position of the last `c` in `s`, or -1 where `s` holds none.
pub open spec fn last_position(s: Seq<char>, c: char) -> int
    decreases s.len(),
{
    if s.len() == 0 {
        -1
    } else if s.last() == c {
        s.len() - 1
    } else {
        last_position(s.drop_last(), c)
    }
}

/// `k` is -1 and `s` holds no `c`, or `k` is where the last `c` of `s` stands.
pub open spec fn is_last_position(s: Seq<char>, c: char, k: int) -> bool {
    &&& -1 <= k < s.len()
    &&& k >= 0 ==> s[k] == c
    &&& forall|j: int| k < j < s.len() ==> s[j] != c
}

/// `last_position` is the one position that `is_last_position` accepts.
pub proof fn lemma_last_position(s: Seq<char>, c: char)
    ensures
        is_last_position(s, c, last_position(s, c)),
        forall|k: int| is_last_position(s, c, k) ==> k == last_position(s, c),
    decreases s.len(),
{
    if s.len() > 0 && s.last() != c {
        lemma_last_position(s.drop_last(), c);
        let k = last_position(s.drop_last(), c);
        assert(k >= 0 ==> s[k] == s.drop_last()[k]);
        assert forall|j: int| k < j < s.len() implies s[j] != c by {
            if j < s.len() - 1 {
                assert(s[j] == s.drop_last()[j]);
            }
        }
    }
}

/// The last segment of `p`: what follows its last `/`, or all of it.
pub open spec fn file_name_of(p: Seq<char>) -> Seq<char> {
    p.skip(last_position(p, '/') + 1)
}

/// What stands before the last `/` of `p`; none where `p` is a single segment.
pub open spec fn parent_of(p: Seq<char>) -> Option<Seq<char>> {
    let k = last_position(p, '/');
    if k < 0 {
        None
    } else {
        Some(p.take(k))
    }
}

/// The name of the directory that holds `p`, empty where there is none.
pub open spec fn parent_name_of(p: Option<Seq<char>>) -> Seq<char> {
    match p {
        Some(dir) => file_name_of(dir),
        None => Seq::empty(),
    }
}

/// The directory above the one in `p`.
pub open spec fn grandparent_of(p: Option<Seq<char>>) -> Option<Seq<char>> {
    match p {
        Some(dir) => parent_of(dir),
        None => None,
    }
}

/// The position of the `.` that starts the extension of `name`, or -1.
/// A `.` at the very start of a name starts no extension.
pub open spec fn extension_dot(name: Seq<char>) -> int {
    let k = last_position(name, '.');
    if k <= 0 {
        -1
    } else {
        k
    }
}

/// `name` without its extension and the `.` before it.
pub open spec fn stem_of(name: Seq<char>) -> Seq<char> {
    let k = extension_dot(name);
    if k < 0 {
        name
    } else {
        name.take(k)
    }
}

/// What follows the last `.` of `name`, where that `.` starts an extension.
pub open spec fn extension_of(name: Seq<char>) -> Option<Seq<char>> {
    let k = extension_dot(name);
    if k < 0 {
        None
    } else {
        Some(name.skip(k + 1))
    }
}

/// `segment` names a directory: it is not empty and is neither `.` nor `..`.
pub open spec fn names_a_directory(segment: Seq<char>) -> bool {
    segment.len() > 0 && segment != seq!['.'] && segment != seq!['.', '.']
}

/// The extension of the last segment of `p` is there and not empty.
pub open spec fn has_extension(p: Seq<char>) -> bool {
    extension_of(file_name_of(p)) matches Some(e) && e.len() > 0
}

/// `rel` below `base`.
pub open spec fn joined(base: Seq<char>, rel: Seq<char>) -> Seq<char> {
    if base.len() == 0 {
        rel
    } else if base.last() == '/' {
        base + rel
    } else {
        base + seq!['/'] + rel
    }
}

/// `p` with the extension of its last segment replaced by `ext`. A path
/// whose last segment is empty stays as it is.
pub open spec fn with_extension(p: Seq<char>, ext: Seq<char>) -> Seq<char> {
    let name = file_name_of(p);
    if name.len() == 0 {
        p
    } else {
        p.take(p.len() - name.len()) + stem_of(name) + seq!['.'] + ext
    }
}

/// Finds the last `c` in `s`.
pub fn last_index_of(s: &str, c: char) -> (r: Option<usize>)
    ensures
        match r {
            Some(k) => k == last_position(s@, c) && k < s@.len(),
            None => last_position(s@, c) == -1,
        },
{
    let n: usize = s.unicode_len();
    let mut i: usize = n;
    while i > 0
        invariant
            n == s@.len(),
            i <= n,
            forall|j: int| i <= j < n ==> s@[j] != c,
        decreases i,
    {
        if s.get_char(i - 1) == c {
            proof {
                lemma_last_position(s@, c);
                assert(is_last_position(s@, c, i - 1));
            }
            return Some(i - 1);
        }
        i -= 1;
    }
    proof {
        lemma_last_position(s@, c);
        assert(is_last_position(s@, c, -1));
    }
    None
}

/// The last segment of `p`.
pub fn file_name(p: &str) -> (r: &str)
    ensures
        r@ == file_name_of(p@),
{
    let n: usize = p.unicode_len();
    match last_index_of(p, '/') {
        Some(k) => p.substring_char(k + 1, n),
        None => {
            assert(p@.skip(0) =~= p@);
            p
        },
    }
}

/// What stands before the last `/` of `p`.
pub fn parent(p: &str) -> (r: Option<&str>)
    ensures
        r.deep_view() == parent_of(p@),
{
    match last_index_of(p, '/') {
        Some(k) => Some(p.substring_char(0, k)),
        None => None,
    }
}

/// `name` without its extension.
pub fn file_stem(name: &str) -> (r: &str)
    ensures
        r@ == stem_of(name@),
{
    match last_index_of(name, '.') {
        Some(k) => if k == 0 {
            name
        } else {
            name.substring_char(0, k)
        },
        None => name,
    }
}

/// The extension of `name`, without the `.` before it.
pub fn extension(name: &str) -> (r: Option<&str>)
    ensures
        r.deep_view() == extension_of(name@),
{
    let n: usize = name.unicode_len();
    match last_index_of(name, '.') {
        Some(k) => if k == 0 {
            None
        } else {
            Some(name.substring_char(k + 1, n))
        },
        None => None,
    }
}

/// Puts `rel` below `base`.
pub fn join(base: &str, rel: &str) -> (r: String)
    ensures
        r@ == joined(base@, rel@),
{
    let n: usize = base.unicode_len();
    if n == 0 {
        return String::from_str(rel);
    }
    let mut out = String::from_str(base);
    if base.get_char(n - 1) != '/' {
        out.append("/");
        proof {
            reveal_strlit("/");
            assert(out@ =~= base@ + seq!['/']);
        }
    }
    out.append(rel);
    out
}

/// Replaces the extension of the last segment of `p` by `ext`.
pub fn replace_extension(p: &str, ext: &str) -> (r: String)
    ensures
        r@ == with_extension(p@, ext@),
{
    let n: usize = p.unicode_len();
    let name = file_name(p);
    let m: usize = name.unicode_len();
    if m == 0 {
        return String::from_str(p);
    }
    proof {
        lemma_last_position(p@, '/');
    }
    let mut out = String::from_str(p.substring_char(0, n - m));
    out.append(file_stem(name));
    out.append(".");
    proof {
        reveal_strlit(".");
        assert(out@ =~= p@.take(n - m) + stem_of(name@) + seq!['.']);
    }
    out.append(ext);
    out
}

} // verus!
