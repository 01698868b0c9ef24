//! Character-level text primitives: exact and ASCII-case-insensitive pattern
//! matching at a position, and leftmost-occurrence search, stated over
//! `Seq<char>` views of `&str`.

use vstd::prelude::*;

verus! {

/// Code point of `c` with ASCII upper-case letters folded to lower case.
pub open spec fn lower(c: char) -> u32 {
    if 65 <= c as u32 && c as u32 <= 90 {
        (c as u32 + 32) as u32
    } else {
        c as u32
    }
}

/// `pat` occurs verbatim at position `i` of `text`.
pub open spec fn matches_at(text: Seq<char>, pat: Seq<char>, i: int) -> bool {
    &&& 0 <= i
    &&& i + pat.len() <= text.len()
    &&& forall|k: int| 0 <= k < pat.len() ==> text[i + k] == pat[k]
}

/// `pat` occurs at position `i` of `text`, compared ASCII-case-insensitively.
pub open spec fn matches_ci_at(text: Seq<char>, pat: Seq<char>, i: int) -> bool {
    &&& 0 <= i
    &&& i + pat.len() <= text.len()
    &&& forall|k: int| 0 <= k < pat.len() ==> lower(text[i + k]) == lower(pat[k])
}

/// Position of the leftmost verbatim occurrence of `pat` in `text` at or
/// after `from`, if any.
pub open spec fn find_at(text: Seq<char>, pat: Seq<char>, from: int) -> Option<int>
    decreases text.len() - from when 0 <= from
{
    if from + pat.len() > text.len() {
        None
    } else if matches_at(text, pat, from) {
        Some(from)
    } else {
        find_at(text, pat, from + 1)
    }
}

/// Position of the leftmost ASCII-case-insensitive occurrence of `pat` in
/// `text` at or after `from`, if any.
pub open spec fn find_ci_at(text: Seq<char>, pat: Seq<char>, from: int) -> Option<int>
    decreases text.len() - from when 0 <= from
{
    if from + pat.len() > text.len() {
        None
    } else if matches_ci_at(text, pat, from) {
        Some(from)
    } else {
        find_ci_at(text, pat, from + 1)
    }
}

/// A found position lies in range, matches there, and nothing matches before it.
pub proof fn lemma_find_at(text: Seq<char>, pat: Seq<char>, from: int)
    requires
        0 <= from,
    ensures
        match find_at(text, pat, from) {
            Some(i) => {
                &&& from <= i
                &&& i + pat.len() <= text.len()
                &&& matches_at(text, pat, i)
                &&& forall|j: int| from <= j < i ==> !matches_at(text, pat, j)
            },
            None => forall|j: int| from <= j ==> !matches_at(text, pat, j),
        },
    decreases text.len() - from,
{
    if from + pat.len() > text.len() {
        assert forall|j: int| from <= j implies !matches_at(text, pat, j) by {}
    } else if matches_at(text, pat, from) {
    } else {
        lemma_find_at(text, pat, from + 1);
    }
}

/// Case-insensitive counterpart of `lemma_find_at`.
pub proof fn lemma_find_ci_at(text: Seq<char>, pat: Seq<char>, from: int)
    requires
        0 <= from,
    ensures
        match find_ci_at(text, pat, from) {
            Some(i) => {
                &&& from <= i
                &&& i + pat.len() <= text.len()
                &&& matches_ci_at(text, pat, i)
                &&& forall|j: int| from <= j < i ==> !matches_ci_at(text, pat, j)
            },
            None => forall|j: int| from <= j ==> !matches_ci_at(text, pat, j),
        },
    decreases text.len() - from,
{
    if from + pat.len() > text.len() {
        assert forall|j: int| from <= j implies !matches_ci_at(text, pat, j) by {}
    } else if matches_ci_at(text, pat, from) {
    } else {
        lemma_find_ci_at(text, pat, from + 1);
    }
}

/// ASCII-case-fold a single character's code point.
fn lower_exec(c: char) -> (r: u32)
    ensures
        r == lower(c),
{
    let u = c as u32;
    if 65 <= u && u <= 90 {
        u + 32
    } else {
        u
    }
}

/// Compare `pat` against `text` at character position `i`, verbatim.
pub fn match_at(text: &str, pat: &str, i: usize) -> (r: bool)
    ensures
        r == matches_at(text@, pat@, i as int),
{
    let n = text.unicode_len();
    let m = pat.unicode_len();
    if i > n || m > n - i {
        return false;
    }
    let mut k: usize = 0;
    while k < m
        invariant
            i + m <= n,
            n == text@.len(),
            m == pat@.len(),
            k <= m,
            forall|j: int| 0 <= j < k ==> text@[i + j] == pat@[j],
        decreases m - k,
    {
        if text.get_char(i + k) != pat.get_char(k) {
            return false;
        }
        k = k + 1;
    }
    true
}

/// Compare `pat` against `text` at character position `i`, ignoring ASCII case.
pub fn match_ci_at(text: &str, pat: &str, i: usize) -> (r: bool)
    ensures
        r == matches_ci_at(text@, pat@, i as int),
{
    let n = text.unicode_len();
    let m = pat.unicode_len();
    if i > n || m > n - i {
        return false;
    }
    let mut k: usize = 0;
    while k < m
        invariant
            i + m <= n,
            n == text@.len(),
            m == pat@.len(),
            k <= m,
            forall|j: int| 0 <= j < k ==> lower(text@[i + j]) == lower(pat@[j]),
        decreases m - k,
    {
        if lower_exec(text.get_char(i + k)) != lower_exec(pat.get_char(k)) {
            return false;
        }
        k = k + 1;
    }
    true
}

/// Leftmost verbatim occurrence of `pat` in `text` at or after `from`.
pub fn find_from(text: &str, pat: &str, from: usize) -> (r: Option<usize>)
    ensures
        match r {
            Some(i) => find_at(text@, pat@, from as int) == Some(i as int),
            None => find_at(text@, pat@, from as int) is None,
        },
{
    let n = text.unicode_len();
    let m = pat.unicode_len();
    let mut i: usize = from;
    loop
        invariant
            n == text@.len(),
            m == pat@.len(),
            from <= i,
            find_at(text@, pat@, from as int) == find_at(text@, pat@, i as int),
        decreases n + m - i,
    {
        if i > n || m > n - i {
            return None;
        }
        if match_at(text, pat, i) {
            return Some(i);
        }
        i = i + 1;
    }
}

/// Leftmost ASCII-case-insensitive occurrence of `pat` in `text` at or after `from`.
pub fn find_ci_from(text: &str, pat: &str, from: usize) -> (r: Option<usize>)
    ensures
        match r {
            Some(i) => find_ci_at(text@, pat@, from as int) == Some(i as int),
            None => find_ci_at(text@, pat@, from as int) is None,
        },
{
    let n = text.unicode_len();
    let m = pat.unicode_len();
    let mut i: usize = from;
    loop
        invariant
            n == text@.len(),
            m == pat@.len(),
            from <= i,
            find_ci_at(text@, pat@, from as int) == find_ci_at(text@, pat@, i as int),
        decreases n + m - i,
    {
        if i > n || m > n - i {
            return None;
        }
        if match_ci_at(text, pat, i) {
            return Some(i);
        }
        i = i + 1;
    }
}

} // verus!
