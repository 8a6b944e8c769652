//! Verified character-level string helpers: prefix tests, first-occurrence
//! substring search, ASCII case folding, and filename-stem extraction.
//!
//! All contracts are stated over `Seq<char>` views, so callers can connect
//! them to string literals and to the catalog's own fields.

use vstd::prelude::*;

verus! {

/// True when `p` is a prefix of `s`.
pub open spec fn starts_with(s: Seq<char>, p: Seq<char>) -> bool {
    p.len() <= s.len() && s.subrange(0, p.len() as int) == p
}

/// True when `p` occurs in `s` at position `i`.
pub open spec fn match_at(s: Seq<char>, p: Seq<char>, i: int) -> bool {
    0 <= i && i + p.len() <= s.len() && s.subrange(i, i + p.len()) == p
}

/// True when `p` occurs somewhere in `s`.
pub open spec fn contains_seq(s: Seq<char>, p: Seq<char>) -> bool {
    exists|i: int| match_at(s, p, i)
}

/// Exec test for string equality, stated over the character views.
pub fn str_eq(a: &str, b: &str) -> (r: bool)
    ensures
        r == (a@ == b@),
{
    let n = a.unicode_len();
    if n != b.unicode_len() {
        assert(a@ != b@);
        return false;
    }
    let mut i: usize = 0;
    while i < n
        invariant
            i <= n,
            n == a@.len(),
            n == b@.len(),
            forall|j: int| 0 <= j < i ==> a@[j] == b@[j],
        decreases n - i,
    {
        if a.get_char(i) != b.get_char(i) {
            return false;
        }
        i += 1;
    }
    assert(a@ =~= b@);
    true
}

/// Exec prefix test.
pub fn str_starts_with(s: &str, p: &str) -> (r: bool)
    ensures
        r == starts_with(s@, p@),
{
    let n = p.unicode_len();
    if n > s.unicode_len() {
        return false;
    }
    let mut i: usize = 0;
    while i < n
        invariant
            i <= n,
            n == p@.len(),
            n <= s@.len(),
            forall|j: int| 0 <= j < i ==> s@[j] == p@[j],
        decreases n - i,
    {
        if s.get_char(i) != p.get_char(i) {
            assert(s@.subrange(0, p@.len() as int)[i as int] != p@[i as int]);
            return false;
        }
        i += 1;
    }
    assert(s@.subrange(0, p@.len() as int) =~= p@);
    true
}

/// Exec test for an occurrence of `p` at position `i` of `s`.
pub fn matches_at(s: &str, p: &str, i: usize) -> (r: bool)
    ensures
        r == match_at(s@, p@, i as int),
{
    let n = s.unicode_len();
    let m = p.unicode_len();
    if i > n || m > n - i {
        return false;
    }
    let mut j: usize = 0;
    while j < m
        invariant
            j <= m,
            m == p@.len(),
            n == s@.len(),
            i + m <= n,
            forall|k: int| 0 <= k < j ==> s@[i + k] == p@[k],
        decreases m - j,
    {
        if s.get_char(i + j) != p.get_char(j) {
            assert(s@.subrange(i as int, i + p@.len())[j as int] != p@[j as int]);
            return false;
        }
        j += 1;
    }
    assert(s@.subrange(i as int, i + p@.len()) =~= p@);
    true
}

/// Exec first-occurrence substring search: the least index at which `p`
/// occurs in `s`, if any.
pub fn find_sub(s: &str, p: &str) -> (r: Option<usize>)
    ensures
        match r {
            Some(i) => match_at(s@, p@, i as int) && (forall|j: int|
                0 <= j < i ==> !match_at(s@, p@, j)),
            None => forall|j: int| !match_at(s@, p@, j),
        },
{
    let n = s.unicode_len();
    let mut i: usize = 0;
    while i < n
        invariant
            i <= n,
            n == s@.len(),
            forall|j: int| 0 <= j < i ==> !match_at(s@, p@, j),
        decreases n - i,
    {
        if matches_at(s, p, i) {
            return Some(i);
        }
        i += 1;
    }
    if matches_at(s, p, n) {
        // only possible when `p` is empty
        return Some(n);
    }
    assert(forall|j: int| match_at(s@, p@, j) ==> 0 <= j <= n);
    None
}

/// The ASCII-lowercase image of one character; anything outside `A`..`Z`
/// is left as it is.
pub open spec fn lower_char(c: char) -> char {
    if 65 <= c as u32 && c as u32 <= 90 {
        ((c as u8) + 32) as char
    } else {
        c
    }
}

/// The ASCII-lowercase image of a character sequence.
pub open spec fn lower_seq(s: Seq<char>) -> Seq<char> {
    s.map_values(|c: char| lower_char(c))
}

/// Exec ASCII-lowercase of one character.
pub fn to_lower_char(c: char) -> (r: char)
    ensures
        r == lower_char(c),
{
    let u = c as u32;
    if 65 <= u && u <= 90 {
        ((c as u8) + 32) as char
    } else {
        c
    }
}

/// Exec equality up to ASCII case.
pub fn eq_ignore_ascii_case(a: &str, b: &str) -> (r: bool)
    ensures
        r == (lower_seq(a@) == lower_seq(b@)),
{
    let n = a.unicode_len();
    if n != b.unicode_len() {
        assert(lower_seq(a@).len() != lower_seq(b@).len());
        return false;
    }
    let mut i: usize = 0;
    while i < n
        invariant
            i <= n,
            n == a@.len(),
            n == b@.len(),
            forall|j: int| 0 <= j < i ==> lower_char(a@[j]) == lower_char(b@[j]),
        decreases n - i,
    {
        if to_lower_char(a.get_char(i)) != to_lower_char(b.get_char(i)) {
            assert(lower_seq(a@)[i as int] != lower_seq(b@)[i as int]);
            return false;
        }
        i += 1;
    }
    assert(lower_seq(a@) =~= lower_seq(b@));
    true
}

/// Exec case-insensitive containment: does `p` occur in `s` when both are
/// folded to ASCII lowercase?
pub fn contains_ignore_ascii_case(s: &str, p: &str) -> (r: bool)
    ensures
        r == contains_seq(lower_seq(s@), lower_seq(p@)),
{
    let n = s.unicode_len();
    let m = p.unicode_len();
    if m > n {
        assert(forall|j: int| !match_at(lower_seq(s@), lower_seq(p@), j));
        return false;
    }
    if m == 0 {
        assert(lower_seq(s@).subrange(0, 0) =~= lower_seq(p@));
        assert(match_at(lower_seq(s@), lower_seq(p@), 0));
        return true;
    }
    let mut i: usize = 0;
    while i <= n - m
        invariant
            1 <= m <= n,
            i <= n - m + 1,
            n == s@.len(),
            m == p@.len(),
            forall|j: int| 0 <= j < i ==> !match_at(lower_seq(s@), lower_seq(p@), j),
        decreases n - i,
    {
        if ci_matches_at(s, p, i) {
            return true;
        }
        i += 1;
    }
    assert(forall|j: int| match_at(lower_seq(s@), lower_seq(p@), j) ==> 0 <= j <= n - m);
    false
}

/// Exec case-insensitive occurrence test at one position.
fn ci_matches_at(s: &str, p: &str, i: usize) -> (r: bool)
    requires
        i + p@.len() <= s@.len(),
    ensures
        r == match_at(lower_seq(s@), lower_seq(p@), i as int),
{
    let n = s.unicode_len();
    let m = p.unicode_len();
    let mut j: usize = 0;
    while j < m
        invariant
            j <= m,
            m == p@.len(),
            n == s@.len(),
            i + m <= n,
            forall|k: int| 0 <= k < j ==> lower_char(s@[i + k]) == lower_char(p@[k]),
        decreases m - j,
    {
        if to_lower_char(s.get_char(i + j)) != to_lower_char(p.get_char(j)) {
            assert(lower_seq(s@).subrange(i as int, i + lower_seq(p@).len())[j as int]
                != lower_seq(p@)[j as int]);
            return false;
        }
        j += 1;
    }
    assert(lower_seq(s@).subrange(i as int, i + lower_seq(p@).len()) =~= lower_seq(p@));
    true
}

/// True of the two path separators the catalog accepts.
pub open spec fn is_sep(c: char) -> bool {
    c == '\\' || c == '/'
}

/// The index just after the last path separator of `s`; 0 when `s` holds
/// no separator.
pub open spec fn base_start(s: Seq<char>) -> int
    decreases s.len(),
{
    if s.len() == 0 {
        0
    } else if is_sep(s[s.len() - 1]) {
        s.len() as int
    } else {
        base_start(s.drop_last())
    }
}

/// The index of the last `.` of `s` that lies strictly after position
/// `from`, or -1 when there is none.
pub open spec fn last_dot_after(s: Seq<char>, from: int) -> int
    decreases s.len(),
{
    if s.len() == 0 {
        -1
    } else if s.len() - 1 > from && s[s.len() - 1] == '.' {
        s.len() - 1
    } else {
        last_dot_after(s.drop_last(), from)
    }
}

/// The filename stem of a path: what follows the last separator, cut before
/// the last dot.  A dot that begins the filename introduces no extension, so
/// a bare dotfile keeps its full name.
pub open spec fn stem_of(s: Seq<char>) -> Seq<char> {
    let b = base_start(s);
    let d = last_dot_after(s, b);
    if d == -1 {
        s.subrange(b, s.len() as int)
    } else {
        s.subrange(b, d)
    }
}

proof fn lemma_base_start_bounds(s: Seq<char>)
    ensures
        0 <= base_start(s) <= s.len(),
    decreases s.len(),
{
    if s.len() > 0 && !is_sep(s[s.len() - 1]) {
        lemma_base_start_bounds(s.drop_last());
    }
}

proof fn lemma_last_dot_after_bounds(s: Seq<char>, from: int)
    ensures
        last_dot_after(s, from) == -1 || (from < last_dot_after(s, from) < s.len()),
    decreases s.len(),
{
    if s.len() > 0 && !(s.len() - 1 > from && s[s.len() - 1] == '.') {
        lemma_last_dot_after_bounds(s.drop_last(), from);
    }
}

proof fn lemma_last_dot_after_none(s: Seq<char>, from: int)
    requires
        from >= s.len() - 1,
    ensures
        last_dot_after(s, from) == -1,
    decreases s.len(),
{
    if s.len() > 0 {
        lemma_last_dot_after_none(s.drop_last(), from);
    }
}

/// The filename stem of `path`: what follows the last `\` or `/`, without
/// the extension that a final dot introduces.  This is the candidate program
/// name the version lookup derives from a launch target.
pub fn target_stem(path: &str) -> (r: String)
    ensures
        r@ == stem_of(path@),
{
    let n = path.unicode_len();
    let mut bs: usize = 0;
    let mut ld: Option<usize> = None;
    let mut i: usize = 0;
    while i < n
        invariant
            i <= n,
            n == path@.len(),
            bs as int == base_start(path@.subrange(0, i as int)),
            bs <= i,
            match ld {
                None => last_dot_after(path@.subrange(0, i as int), bs as int) == -1,
                Some(d) => last_dot_after(path@.subrange(0, i as int), bs as int) == d
                    && bs < d < i,
            },
        decreases n - i,
    {
        let ghost prefix = path@.subrange(0, i as int);
        let ghost prefix1 = path@.subrange(0, i + 1);
        proof {
            assert(prefix1.drop_last() =~= prefix);
            assert(prefix1[prefix1.len() - 1] == path@[i as int]);
        }
        let c = path.get_char(i);
        if c == '\\' || c == '/' {
            bs = i + 1;
            ld = None;
            proof {
                lemma_last_dot_after_none(prefix1, bs as int);
            }
        } else if c == '.' {
            if i > bs {
                ld = Some(i);
            }
        }
        i += 1;
    }
    proof {
        assert(path@.subrange(0, n as int) =~= path@);
        lemma_base_start_bounds(path@);
        lemma_last_dot_after_bounds(path@, bs as int);
    }
    let stem = match ld {
        Some(d) => path.substring_char(bs, d),
        None => path.substring_char(bs, n),
    };
    String::from_str(stem)
}

} // verus!
