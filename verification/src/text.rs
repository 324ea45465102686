//! Verified string helpers: lexicographic order, prefix/suffix/substring
//! tests, and character classification used by path validation.

use vstd::prelude::*;

verus! {

/// Lexicographic order on character sequences by code point; the order in
/// which categories and files are listed.
pub open spec fn lex_le(a: Seq<char>, b: Seq<char>) -> bool
    decreases a.len(),
{
    if a.len() == 0 {
        true
    } else if b.len() == 0 {
        false
    } else if a[0] != b[0] {
        (a[0] as int) < (b[0] as int)
    } else {
        lex_le(a.skip(1), b.skip(1))
    }
}

/// Two sequences that agree on their first `i` characters compare the same
/// as their tails from `i` on.
proof fn lemma_lex_le_skip(a: Seq<char>, b: Seq<char>, i: int)
    requires
        0 <= i <= a.len(),
        i <= b.len(),
        forall|j: int| 0 <= j < i ==> a[j] == b[j],
    ensures
        lex_le(a, b) == lex_le(a.skip(i), b.skip(i)),
    decreases i,
{
    if i == 0 {
        assert(a.skip(0) =~= a);
        assert(b.skip(0) =~= b);
    } else {
        lemma_lex_le_skip(a.skip(1), b.skip(1), i - 1);
        assert(a.skip(1).skip(i - 1) =~= a.skip(i));
        assert(b.skip(1).skip(i - 1) =~= b.skip(i));
    }
}

/// `lex_le` is total: any two sequences compare one way or the other.
pub proof fn lemma_lex_le_total(a: Seq<char>, b: Seq<char>)
    ensures
        lex_le(a, b) || lex_le(b, a),
    decreases a.len(),
{
    if a.len() == 0 {
        assert(lex_le(a, b));
    } else if b.len() == 0 {
        assert(lex_le(b, a));
    } else if a[0] == b[0] {
        lemma_lex_le_total(a.skip(1), b.skip(1));
    } else {
        assert((a[0] as int) < (b[0] as int) || (b[0] as int) < (a[0] as int));
    }
}

/// `lex_le` is reflexive.
pub proof fn lemma_lex_le_refl(a: Seq<char>)
    ensures
        lex_le(a, a),
    decreases a.len(),
{
    if a.len() > 0 {
        lemma_lex_le_refl(a.skip(1));
    }
}

/// `lex_le` is transitive.
pub proof fn lemma_lex_le_trans(a: Seq<char>, b: Seq<char>, c: Seq<char>)
    requires
        lex_le(a, b),
        lex_le(b, c),
    ensures
        lex_le(a, c),
    decreases a.len(),
{
    if a.len() != 0 && b.len() != 0 && c.len() != 0 && a[0] == b[0] && b[0] == c[0] {
        lemma_lex_le_trans(a.skip(1), b.skip(1), c.skip(1));
    }
}

/// `lex_le` is antisymmetric: mutual order means equality.
pub proof fn lemma_lex_le_antisym(a: Seq<char>, b: Seq<char>)
    requires
        lex_le(a, b),
        lex_le(b, a),
    ensures
        a == b,
    decreases a.len(),
{
    if a.len() == 0 {
        assert(b.len() == 0);
        assert(a =~= b);
    } else {
        assert(a[0] == b[0]);
        lemma_lex_le_antisym(a.skip(1), b.skip(1));
        assert(a =~= Seq::empty().push(a[0]) + a.skip(1));
        assert(b =~= Seq::empty().push(b[0]) + b.skip(1));
    }
}

/// Compares two strings for equality of their character sequences.
pub fn str_eq(a: &str, b: &str) -> (r: bool)
    ensures
        r == (a@ == b@),
{
    let sa = a.to_owned();
    let sb = b.to_owned();
    sa == sb
}

/// Decides the lexicographic order of two strings.
pub fn str_le(a: &str, b: &str) -> (r: bool)
    ensures
        r == lex_le(a@, b@),
{
    let alen = a.unicode_len();
    let blen = b.unicode_len();
    let mut i: usize = 0;
    loop
        invariant
            i <= alen,
            i <= blen,
            alen == a@.len(),
            blen == b@.len(),
            forall|j: int| 0 <= j < i ==> a@[j] == b@[j],
        decreases alen - i,
    {
        if i == alen || i == blen {
            proof {
                lemma_lex_le_skip(a@, b@, i as int);
            }
            return alen <= blen;
        }
        let ca = a.get_char(i);
        let cb = b.get_char(i);
        if ca != cb {
            proof {
                lemma_lex_le_skip(a@, b@, i as int);
            }
            return ca < cb;
        }
        i = i + 1;
    }
}

/// Whether `s` begins with `prefix`.
pub open spec fn has_prefix(s: Seq<char>, prefix: Seq<char>) -> bool {
    prefix.len() <= s.len() && s.subrange(0, prefix.len() as int) == prefix
}

/// Whether `s` ends with `suffix`.
pub open spec fn has_suffix(s: Seq<char>, suffix: Seq<char>) -> bool {
    suffix.len() <= s.len() && s.subrange(s.len() - suffix.len(), s.len() as int) == suffix
}

/// Whether `pat` occurs in `s` starting at position `i`.
pub open spec fn matches_at(s: Seq<char>, pat: Seq<char>, i: int) -> bool {
    0 <= i && i + pat.len() <= s.len() && s.subrange(i, i + pat.len()) == pat
}

/// Whether `pat` occurs anywhere in `s`.
pub open spec fn has_substring(s: Seq<char>, pat: Seq<char>) -> bool {
    exists|i: int| matches_at(s, pat, i)
}

/// Decides whether `s` starts with `prefix`.
pub fn str_starts_with(s: &str, prefix: &str) -> (r: bool)
    ensures
        r == has_prefix(s@, prefix@),
{
    let slen = s.unicode_len();
    let plen = prefix.unicode_len();
    if plen > slen {
        return false;
    }
    let mut i: usize = 0;
    loop
        invariant
            i <= plen,
            plen <= slen,
            slen == s@.len(),
            plen == prefix@.len(),
            forall|j: int| 0 <= j < i ==> s@[j] == prefix@[j],
        decreases plen - i,
    {
        if i == plen {
            assert(s@.subrange(0, plen as int) =~= prefix@);
            return true;
        }
        if s.get_char(i) != prefix.get_char(i) {
            assert(s@.subrange(0, plen as int)[i as int] != prefix@[i as int]);
            return false;
        }
        i = i + 1;
    }
}

/// Decides whether `s` ends with `suffix`.
pub fn str_ends_with(s: &str, suffix: &str) -> (r: bool)
    ensures
        r == has_suffix(s@, suffix@),
{
    let slen = s.unicode_len();
    let xlen = suffix.unicode_len();
    if xlen > slen {
        return false;
    }
    let base = slen - xlen;
    let mut i: usize = 0;
    loop
        invariant
            i <= xlen,
            base == slen - xlen,
            xlen <= slen,
            slen == s@.len(),
            xlen == suffix@.len(),
            forall|j: int| 0 <= j < i ==> s@[base + j] == suffix@[j],
        decreases xlen - i,
    {
        if i == xlen {
            assert(s@.subrange(s@.len() - suffix@.len(), s@.len() as int) =~= suffix@);
            return true;
        }
        if s.get_char(base + i) != suffix.get_char(i) {
            assert(s@.subrange(s@.len() - suffix@.len(), s@.len() as int)[i as int]
                != suffix@[i as int]);
            return false;
        }
        i = i + 1;
    }
}

/// Decides whether `pat` occurs in `s` starting at position `at`.
fn str_matches_at(s: &str, pat: &str, at: usize) -> (r: bool)
    requires
        at + pat@.len() <= s@.len(),
    ensures
        r == matches_at(s@, pat@, at as int),
{
    let slen = s.unicode_len();
    let plen = pat.unicode_len();
    let mut i: usize = 0;
    loop
        invariant
            i <= plen,
            at + plen <= slen,
            slen == s@.len(),
            plen == pat@.len(),
            forall|j: int| 0 <= j < i ==> s@[at + j] == pat@[j],
        decreases plen - i,
    {
        if i == plen {
            assert(s@.subrange(at as int, at + pat@.len()) =~= pat@);
            return true;
        }
        if s.get_char(at + i) != pat.get_char(i) {
            assert(s@.subrange(at as int, at + pat@.len())[i as int] != pat@[i as int]);
            return false;
        }
        i = i + 1;
    }
}

/// Decides whether `pat` occurs anywhere in `s`.
pub fn str_contains(s: &str, pat: &str) -> (r: bool)
    ensures
        r == has_substring(s@, pat@),
{
    let slen = s.unicode_len();
    let plen = pat.unicode_len();
    if plen > slen {
        assert(!has_substring(s@, pat@));
        return false;
    }
    let mut i: usize = 0;
    loop
        invariant
            i <= slen - plen,
            plen <= slen,
            slen == s@.len(),
            plen == pat@.len(),
            forall|j: int| 0 <= j < i ==> !matches_at(s@, pat@, j),
        decreases slen - plen - i,
    {
        if str_matches_at(s, pat, i) {
            return true;
        }
        if i == slen - plen {
            assert(forall|j: int| j > i ==> !matches_at(s@, pat@, j));
            return false;
        }
        i = i + 1;
    }
}

/// The index of the last occurrence of `c` in `s`, or `-1` when absent.
pub open spec fn last_index_of(s: Seq<char>, c: char) -> int
    decreases s.len(),
{
    if s.len() == 0 {
        -1
    } else if s[s.len() - 1] == c {
        s.len() - 1
    } else {
        last_index_of(s.drop_last(), c)
    }
}

/// `last_index_of` is the largest position holding `c`, or `-1` when `c`
/// does not occur.
pub proof fn lemma_last_index_of(s: Seq<char>, c: char)
    ensures
        -1 <= last_index_of(s, c) < s.len(),
        last_index_of(s, c) >= 0 ==> s[last_index_of(s, c)] == c,
        forall|j: int| last_index_of(s, c) < j < s.len() ==> s[j] != c,
    decreases s.len(),
{
    if s.len() > 0 && s[s.len() - 1] != c {
        lemma_last_index_of(s.drop_last(), c);
        assert(forall|j: int| 0 <= j < s.len() - 1 ==> s.drop_last()[j] == s[j]);
    }
}

/// Finds the last occurrence of `c` in `s`.
pub fn rfind_char(s: &str, c: char) -> (r: Option<usize>)
    ensures
        match r {
            Some(i) => i == last_index_of(s@, c),
            None => last_index_of(s@, c) == -1,
        },
{
    let n = s.unicode_len();
    let mut i: usize = n;
    loop
        invariant
            i <= n,
            n == s@.len(),
            forall|j: int| i <= j < n ==> s@[j] != c,
        decreases i,
    {
        if i == 0 {
            proof {
                lemma_last_index_of(s@, c);
            }
            return None;
        }
        i = i - 1;
        if s.get_char(i) == c {
            proof {
                lemma_last_index_of(s@, c);
            }
            return Some(i);
        }
    }
}

/// The part of a path after its last slash; the whole path when it has
/// no slash.
pub open spec fn base_name_spec(p: Seq<char>) -> Seq<char> {
    p.subrange(last_index_of(p, '/') + 1, p.len() as int)
}

/// The path with its trailing slashes removed.
pub open spec fn strip_trailing_slashes(p: Seq<char>) -> Seq<char>
    decreases p.len(),
{
    if p.len() == 0 {
        p
    } else if p[p.len() - 1] == '/' {
        strip_trailing_slashes(p.drop_last())
    } else {
        p
    }
}

/// The file name of a path, by the component rules paths are read with:
/// trailing slashes are ignored, the name is what follows the last
/// remaining slash; a bare root or an empty path has an empty name.
pub open spec fn path_file_name_spec(p: Seq<char>) -> Seq<char> {
    base_name_spec(strip_trailing_slashes(p))
}

/// The parent of a path, by the same component rules: trailing slashes
/// are ignored, the parent is everything before the last remaining
/// slash, itself stripped of trailing slashes; a file directly under
/// the root keeps the root `/` as its parent, and a single-component
/// or empty path has an empty parent.
pub open spec fn path_parent_spec(p: Seq<char>) -> Seq<char> {
    let s = strip_trailing_slashes(p);
    if last_index_of(s, '/') < 0 {
        Seq::empty()
    } else {
        let pre = strip_trailing_slashes(s.subrange(0, last_index_of(s, '/') + 1));
        if pre.len() == 0 {
            "/"@
        } else {
            pre
        }
    }
}

/// Stripping trailing slashes keeps exactly the prefix before them.
proof fn lemma_strip_prefix(p: Seq<char>, e: int)
    requires
        0 <= e <= p.len(),
        forall|j: int| e <= j < p.len() ==> p[j] == '/',
        e > 0 ==> p[e - 1] != '/',
    ensures
        strip_trailing_slashes(p) == p.subrange(0, e),
    decreases p.len(),
{
    if p.len() == 0 {
        assert(p.subrange(0, 0) =~= p);
    } else if p[p.len() - 1] == '/' {
        assert(e < p.len());
        assert(forall|j: int| 0 <= j < p.len() - 1 ==> p.drop_last()[j] == p[j]);
        lemma_strip_prefix(p.drop_last(), e);
        assert(p.drop_last().subrange(0, e) =~= p.subrange(0, e));
    } else {
        assert(e == p.len());
        assert(p.subrange(0, e) =~= p);
    }
}

/// The index just past the last character that is not a slash: the
/// characters from it on are all slashes.
fn strip_end_index(s: &str) -> (e: usize)
    ensures
        e <= s@.len(),
        s@.subrange(0, e as int) == strip_trailing_slashes(s@),
{
    let n = s.unicode_len();
    let mut e: usize = n;
    loop
        invariant
            e <= n,
            n == s@.len(),
            forall|j: int| e <= j < n ==> s@[j] == '/',
        decreases e,
    {
        if e == 0 {
            proof {
                lemma_strip_prefix(s@, 0);
            }
            return 0;
        }
        if s.get_char(e - 1) != '/' {
            proof {
                lemma_strip_prefix(s@, e as int);
            }
            return e;
        }
        e = e - 1;
    }
}

/// The file name of a path, by the component rules of
/// `path_file_name_spec`.
pub fn path_file_name(p: &str) -> (r: String)
    ensures
        r@ == path_file_name_spec(p@),
{
    let e = strip_end_index(p);
    let stripped: &str = p.substring_char(0, e);
    let m = stripped.unicode_len();
    match rfind_char(stripped, '/') {
        None => {
            proof {
                assert(base_name_spec(stripped@) =~= stripped@);
            }
            stripped.to_owned()
        },
        Some(i) => {
            proof {
                lemma_last_index_of(stripped@, '/');
            }
            stripped.substring_char(i + 1, m).to_owned()
        },
    }
}

/// The parent of a path, by the component rules of `path_parent_spec`.
pub fn path_parent(p: &str) -> (r: String)
    ensures
        r@ == path_parent_spec(p@),
{
    let e = strip_end_index(p);
    let stripped: &str = p.substring_char(0, e);
    match rfind_char(stripped, '/') {
        None => String::new(),
        Some(i) => {
            proof {
                lemma_last_index_of(stripped@, '/');
            }
            let with_sep: &str = stripped.substring_char(0, i + 1);
            let e2 = strip_end_index(with_sep);
            if e2 == 0 {
                String::from_str("/")
            } else {
                with_sep.substring_char(0, e2).to_owned()
            }
        },
    }
}

/// Joins a directory path and a file name with a slash.
pub fn join_path(dir: &str, name: &str) -> (r: String)
    ensures
        r@ == dir@ + "/"@ + name@,
{
    let mut out = dir.to_owned();
    out.append("/");
    out.append(name);
    out
}

/// Whether `c` is a control character: the C0 range, delete, or the C1 range.
pub open spec fn is_control_char(c: char) -> bool {
    (c as int) < 0x20 || (0x7f <= (c as int) && (c as int) <= 0x9f)
}

/// Decides whether `c` is a control character.
pub fn char_is_control(c: char) -> (r: bool)
    ensures
        r == is_control_char(c),
{
    (c as u32) < 0x20 || (0x7f <= (c as u32) && (c as u32) <= 0x9f)
}

/// Whether `c` is one of the Unicode white-space characters.
pub open spec fn is_space_char(c: char) -> bool {
    let n = c as int;
    (0x09 <= n && n <= 0x0d) || n == 0x20 || n == 0x85 || n == 0xa0 || n == 0x1680 || (0x2000 <= n
        && n <= 0x200a) || n == 0x2028 || n == 0x2029 || n == 0x202f || n == 0x205f || n == 0x3000
}

/// Decides whether `c` is a white-space character.
pub fn char_is_space(c: char) -> (r: bool)
    ensures
        r == is_space_char(c),
{
    let n = c as u32;
    (0x09 <= n && n <= 0x0d) || n == 0x20 || n == 0x85 || n == 0xa0 || n == 0x1680 || (0x2000 <= n
        && n <= 0x200a) || n == 0x2028 || n == 0x2029 || n == 0x202f || n == 0x205f || n == 0x3000
}

/// Whether `s` consists of white space only, i.e. trimming leaves nothing.
pub open spec fn is_blank(s: Seq<char>) -> bool {
    forall|i: int| 0 <= i < s.len() ==> is_space_char(#[trigger] s[i])
}

/// Decides whether `s` consists of white space only.
pub fn str_is_blank(s: &str) -> (r: bool)
    ensures
        r == is_blank(s@),
{
    let slen = s.unicode_len();
    let mut i: usize = 0;
    loop
        invariant
            i <= slen,
            slen == s@.len(),
            forall|j: int| 0 <= j < i ==> is_space_char(#[trigger] s@[j]),
        decreases slen - i,
    {
        if i == slen {
            return true;
        }
        if !char_is_space(s.get_char(i)) {
            return false;
        }
        i = i + 1;
    }
}

} // verus!
