//! Character-sequence helpers: Unicode lowercasing (named, supplied by the
//! standard library), lexicographic ordering, substring search, and the
//! path-segment operations the rest of the crate builds on.

use vstd::prelude::*;

verus! {

/// The character sequence that `str::to_lowercase` returns for `s`.
pub uninterp spec fn lower_of(s: Seq<char>) -> Seq<char>;

/// The character that `char::to_lowercase` maps `c` to (its first character;
/// `c` itself when the mapping is empty).
pub uninterp spec fn lower_char_of(c: char) -> char;

/// Relies on str::to_lowercase: the result is a function of the characters
/// alone, and an empty string stays empty.
#[verifier::external_body]
pub(crate) fn lowercase(s: &str) -> (r: String)
    ensures
        r@ == lower_of(s@),
        s@.len() == 0 ==> r@.len() == 0,
{
    s.to_lowercase()
}

/// Relies on char::to_lowercase: the iterator it returns is never empty, and
/// its first character depends on `c` alone.
#[verifier::external_body]
pub(crate) fn lowercase_char(c: char) -> (r: char)
    ensures
        r == lower_char_of(c),
{
    c.to_lowercase().next().unwrap_or(c)
}

/// Lexicographic order on character sequences by code point, the order in
/// which `str::cmp` ranks the corresponding strings.
pub open spec fn lex_le(a: Seq<char>, b: Seq<char>) -> bool
    decreases a.len(),
{
    if a.len() == 0 {
        true
    } else if b.len() == 0 {
        false
    } else if a[0] != b[0] {
        a[0] < b[0]
    } else {
        lex_le(a.drop_first(), b.drop_first())
    }
}

pub proof fn lemma_lex_le_total(a: Seq<char>, b: Seq<char>)
    ensures
        lex_le(a, b) || lex_le(b, a),
    decreases a.len(),
{
    if a.len() == 0 || b.len() == 0 {
    } else if a[0] != b[0] {
    } else {
        lemma_lex_le_total(a.drop_first(), b.drop_first());
    }
}

pub proof fn lemma_lex_le_trans(a: Seq<char>, b: Seq<char>, c: Seq<char>)
    requires
        lex_le(a, b),
        lex_le(b, c),
    ensures
        lex_le(a, c),
    decreases a.len(),
{
    if a.len() == 0 {
    } else {
        if a[0] == b[0] && b[0] == c[0] {
            lemma_lex_le_trans(a.drop_first(), b.drop_first(), c.drop_first());
        }
    }
}

/// If the first `i` characters agree, the order is decided by the remainders.
proof fn lemma_lex_le_skip(a: Seq<char>, b: Seq<char>, i: int)
    requires
        0 <= i <= a.len(),
        i <= b.len(),
        forall|k: int| 0 <= k < i ==> a[k] == b[k],
    ensures
        lex_le(a, b) == lex_le(a.skip(i), b.skip(i)),
    decreases i,
{
    if i > 0 {
        assert(a.len() > 0 && b.len() > 0 && a[0] == b[0]);
        assert(a.drop_first() =~= a.skip(1));
        assert(b.drop_first() =~= b.skip(1));
        lemma_lex_le_skip(a.skip(1), b.skip(1), i - 1);
        assert(a.skip(1).skip(i - 1) =~= a.skip(i));
        assert(b.skip(1).skip(i - 1) =~= b.skip(i));
    } else {
        assert(a.skip(0) =~= a);
        assert(b.skip(0) =~= b);
    }
}

/// Compares two strings in the code-point lexicographic order.
pub fn str_lex_le(a: &str, b: &str) -> (r: bool)
    ensures
        r == lex_le(a@, b@),
{
    let a_len: usize = a.unicode_len();
    let b_len: usize = b.unicode_len();
    let mut i: usize = 0;
    loop
        invariant
            0 <= i <= a_len,
            i <= b_len,
            a_len == a@.len(),
            b_len == b@.len(),
            forall|k: int| 0 <= k < i ==> a@[k] == b@[k],
        decreases a_len - i,
    {
        proof {
            lemma_lex_le_skip(a@, b@, i as int);
        }
        if i >= a_len {
            assert(a@.skip(i as int).len() == 0);
            return true;
        }
        if i >= b_len {
            assert(b@.skip(i as int).len() == 0);
            assert(a@.skip(i as int).len() > 0);
            return false;
        }
        let ca = a.get_char(i);
        let cb = b.get_char(i);
        if ca != cb {
            assert(a@.skip(i as int)[0] == ca);
            assert(b@.skip(i as int)[0] == cb);
            return ca < cb;
        }
        i = i + 1;
    }
}

/// `p` is an initial segment of `s`.
pub open spec fn is_prefix_of(p: Seq<char>, s: Seq<char>) -> bool {
    p.len() <= s.len() && s.subrange(0, p.len() as int) == p
}

/// Whether `s` starts with `p`.
pub fn str_starts_with(s: &str, p: &str) -> (r: bool)
    ensures
        r == is_prefix_of(p@, s@),
{
    let s_len: usize = s.unicode_len();
    let p_len: usize = p.unicode_len();
    if p_len > s_len {
        return false;
    }
    let mut i: usize = 0;
    while i < p_len
        invariant
            0 <= i <= p_len,
            p_len <= s_len,
            s_len == s@.len(),
            p_len == p@.len(),
            forall|k: int| 0 <= k < i ==> s@[k] == p@[k],
        decreases p_len - i,
    {
        if s.get_char(i) != p.get_char(i) {
            assert(s@.subrange(0, p@.len() as int)[i as int] != p@[i as int]);
            return false;
        }
        i = i + 1;
    }
    assert(s@.subrange(0, p@.len() as int) =~= p@);
    true
}

/// Whether the two strings hold the same characters.
pub fn str_eq(a: &str, b: &str) -> (r: bool)
    ensures
        r == (a@ == b@),
{
    let a_len: usize = a.unicode_len();
    let b_len: usize = b.unicode_len();
    if a_len != b_len {
        return false;
    }
    let mut i: usize = 0;
    while i < a_len
        invariant
            0 <= i <= a_len,
            a_len == a@.len(),
            b_len == b@.len(),
            a_len == b_len,
            forall|k: int| 0 <= k < i ==> a@[k] == b@[k],
        decreases a_len - i,
    {
        if a.get_char(i) != b.get_char(i) {
            return false;
        }
        i = i + 1;
    }
    assert(a@ =~= b@);
    true
}

/// `needle` occurs somewhere in `s` (anywhere, the empty sequence always).
pub open spec fn contains_seq(s: Seq<char>, needle: Seq<char>) -> bool {
    exists|i: int|
        0 <= i <= s.len() - needle.len() && #[trigger] s.subrange(i, i + needle.len() as int)
            == needle
}

/// Whether `needle` occurs in `s`, as `str::contains` decides for plain
/// substring needles.
pub fn str_contains(s: &str, needle: &str) -> (r: bool)
    ensures
        r == contains_seq(s@, needle@),
{
    let s_len: usize = s.unicode_len();
    let n_len: usize = needle.unicode_len();
    if n_len > s_len {
        return false;
    }
    let bound: usize = s_len - n_len;
    let mut i: usize = 0;
    loop
        invariant
            0 <= i <= bound,
            n_len <= s_len,
            s_len == s@.len(),
            n_len == needle@.len(),
            bound == s_len - n_len,
            forall|j: int|
                0 <= j < i ==> #[trigger] s@.subrange(j, j + needle@.len() as int) != needle@,
        decreases bound - i,
    {
        let mut k: usize = 0;
        let mut all_eq: bool = true;
        while k < n_len
            invariant
                0 <= k <= n_len,
                i + n_len <= s_len,
                s_len == s@.len(),
                n_len == needle@.len(),
                all_eq ==> forall|t: int| 0 <= t < k ==> s@[i + t] == needle@[t],
                !all_eq ==> s@.subrange(i as int, i + needle@.len() as int) != needle@,
            decreases n_len - k,
        {
            if s.get_char(i + k) != needle.get_char(k) {
                all_eq = false;
                assert(s@.subrange(i as int, i + needle@.len() as int)[k as int]
                    != needle@[k as int]);
                k = n_len;
            } else {
                k = k + 1;
            }
        }
        if all_eq {
            assert(s@.subrange(i as int, i + needle@.len() as int) =~= needle@);
            return true;
        }
        assert(s@.subrange(i as int, i + needle@.len() as int) != needle@);
        if i == bound {
            return false;
        }
        i = i + 1;
    }
}

/// `c` occurs in `s`.
pub open spec fn contains_char(s: Seq<char>, c: char) -> bool {
    exists|i: int| 0 <= i < s.len() && s[i] == c
}

/// Whether character `c` occurs in `s`.
pub fn str_contains_char(s: &str, c: char) -> (r: bool)
    ensures
        r == contains_char(s@, c),
{
    let s_len: usize = s.unicode_len();
    let mut i: usize = 0;
    while i < s_len
        invariant
            0 <= i <= s_len,
            s_len == s@.len(),
            forall|k: int| 0 <= k < i ==> s@[k] != c,
        decreases s_len - i,
    {
        if s.get_char(i) == c {
            return true;
        }
        i = i + 1;
    }
    false
}

/// Index of the last occurrence of `c` in `s`, or -1 when absent.
pub open spec fn last_index_of(s: Seq<char>, c: char) -> int
    decreases s.len(),
{
    if s.len() == 0 {
        -1
    } else if s[s.len() - 1] == c {
        s.len() - 1
    } else {
        last_index_of(s.drop_last(), c)
    }
}

pub proof fn lemma_last_index_of(s: Seq<char>, c: char)
    ensures
        -1 <= last_index_of(s, c) < s.len(),
        last_index_of(s, c) >= 0 ==> s[last_index_of(s, c)] == c,
        forall|k: int| last_index_of(s, c) < k < s.len() ==> s[k] != c,
        last_index_of(s, c) == -1 ==> !contains_char(s, c),
    decreases s.len(),
{
    if s.len() == 0 {
    } else if s[s.len() - 1] == c {
    } else {
        lemma_last_index_of(s.drop_last(), c);
        assert(forall|k: int| 0 <= k < s.len() - 1 ==> s.drop_last()[k] == s[k]);
        if last_index_of(s, c) == -1 {
            assert(forall|k: int| 0 <= k < s.len() ==> s[k] != c);
        }
    }
}

/// The characters after the last occurrence of `c` (all of `s` when absent).
pub open spec fn tail_after_last(s: Seq<char>, c: char) -> Seq<char> {
    s.subrange(last_index_of(s, c) + 1, s.len() as int)
}

/// Finds the last occurrence of `c`, if any.
pub fn find_last(s: &str, c: char) -> (r: Option<usize>)
    ensures
        match r {
            Some(i) => last_index_of(s@, c) == i as int,
            None => last_index_of(s@, c) == -1,
        },
{
    proof {
        lemma_last_index_of(s@, c);
    }
    let s_len: usize = s.unicode_len();
    let mut i: usize = s_len;
    while i > 0
        invariant
            0 <= i <= s_len,
            s_len == s@.len(),
            forall|k: int| i <= k < s_len ==> s@[k] != c,
        decreases i,
    {
        i = i - 1;
        if s.get_char(i) == c {
            assert(last_index_of(s@, c) == i as int) by {
                lemma_last_index_of(s@, c);
            }
            return Some(i);
        }
    }
    assert(last_index_of(s@, c) == -1) by {
        lemma_last_index_of(s@, c);
        if last_index_of(s@, c) >= 0 {
            assert(s@[last_index_of(s@, c)] == c);
        }
    }
    None
}

/// The directory above the one `s` names, under a plain string model of
/// paths: nothing above the root `/` or the empty path; the empty path above
/// a bare name; otherwise everything before the last `/` (the root when the
/// last `/` is the first character).
pub open spec fn parent_of(s: Seq<char>) -> Option<Seq<char>> {
    if s.len() == 0 || s == seq!['/'] {
        None
    } else if !contains_char(s, '/') {
        Some(Seq::empty())
    } else if last_index_of(s, '/') == 0 {
        Some(seq!['/'])
    } else {
        Some(s.subrange(0, last_index_of(s, '/')))
    }
}

/// The parent of path `s`, under the string model of `parent_of`.
pub fn str_parent(s: &str) -> (r: Option<String>)
    ensures
        match r {
            Some(p) => parent_of(s@) == Some(p@),
            None => parent_of(s@) is None,
        },
{
    let s_len: usize = s.unicode_len();
    if s_len == 0 {
        return None;
    }
    if s_len == 1 && s.get_char(0) == '/' {
        assert(s@ =~= seq!['/']);
        return None;
    }
    assert(s@ != seq!['/']) by {
        if s@.len() != 1 {
            assert(seq!['/'].len() == 1);
        }
    }
    proof {
        lemma_last_index_of(s@, '/');
    }
    match find_last(s, '/') {
        None => {
            let empty = String::new();
            Some(empty)
        },
        Some(i) => {
            if i == 0 {
                let root = String::from_str("/");
                proof {
                    reveal_strlit("/");
                    assert(root@ =~= seq!['/']);
                }
                Some(root)
            } else {
                assert(contains_char(s@, '/')) by {
                    assert(s@[last_index_of(s@, '/')] == '/');
                }
                let p = s.substring_char(0, i);
                Some(String::from_str(p))
            }
        },
    }
}

/// The substring after the last occurrence of `c`; `s` itself when absent.
pub fn str_tail_after_last(s: &str, c: char) -> (r: String)
    ensures
        r@ == tail_after_last(s@, c),
{
    proof {
        lemma_last_index_of(s@, c);
    }
    let s_len: usize = s.unicode_len();
    match find_last(s, c) {
        Some(i) => {
            let t = s.substring_char(i + 1, s_len);
            String::from_str(t)
        },
        None => {
            let t = s.substring_char(0, s_len);
            assert(s@.subrange(0, s@.len() as int) =~= s@);
            String::from_str(t)
        },
    }
}

/// Relies on String::push: it appends exactly the one character.
pub assume_specification[ String::push ](s: &mut String, ch: char)
    ensures
        final(s)@ == old(s)@.push(ch),
;

/// Relies on String::pop: it removes and returns the last character, or
/// leaves an empty string alone and returns nothing.
pub assume_specification[ String::pop ](s: &mut String) -> (r: Option<char>)
    ensures
        old(s)@.len() == 0 ==> final(s)@ == old(s)@ && r is None,
        old(s)@.len() > 0 ==> final(s)@ == old(s)@.drop_last() && r == Some(old(s)@.last()),
;

} // verus!
