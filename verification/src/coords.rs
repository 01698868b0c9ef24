//! Coordinate parser: extracts the ordered sequence of integer pairs of the
//! literal form `( digits , digits )`, with arbitrary whitespace inside the
//! parentheses, from a tag body. A pair whose digit run does not fit in
//! `u32` is skipped; scanning resumes after the match either way.

use vstd::prelude::*;

verus! {

/// Whitespace accepted inside a coordinate pair.
pub open spec fn is_space(c: char) -> bool {
    c == ' ' || c == '\t' || c == '\n' || c == '\r' || c == '\u{b}' || c == '\u{c}'
}

/// ASCII decimal digit.
pub open spec fn is_digit(c: char) -> bool {
    48 <= c as u32 <= 57
}

/// Numeric value of an ASCII decimal digit.
pub open spec fn digit_val(c: char) -> u32 {
    (c as u32 - 48) as u32
}

/// First position at or after `i` holding no whitespace (or the text end).
pub open spec fn skip_ws(text: Seq<char>, i: int) -> int
    decreases text.len() - i when 0 <= i
{
    if i >= text.len() {
        text.len() as int
    } else if is_space(text[i]) {
        skip_ws(text, i + 1)
    } else {
        i
    }
}

/// First position at or after `i` holding no digit (or the text end).
pub open spec fn skip_digits(text: Seq<char>, i: int) -> int
    decreases text.len() - i when 0 <= i
{
    if i >= text.len() {
        text.len() as int
    } else if is_digit(text[i]) {
        skip_digits(text, i + 1)
    } else {
        i
    }
}

pub proof fn lemma_skip_ws(text: Seq<char>, i: int)
    requires
        0 <= i <= text.len(),
    ensures
        i <= skip_ws(text, i) <= text.len(),
    decreases text.len() - i,
{
    if i < text.len() && is_space(text[i]) {
        lemma_skip_ws(text, i + 1);
    }
}

pub proof fn lemma_skip_digits(text: Seq<char>, i: int)
    requires
        0 <= i <= text.len(),
    ensures
        i <= skip_digits(text, i) <= text.len(),
        forall|j: int| i <= j < skip_digits(text, i) ==> is_digit(text[j]),
    decreases text.len() - i,
{
    if i < text.len() && is_digit(text[i]) {
        lemma_skip_digits(text, i + 1);
    }
}

/// A coordinate pair match starting exactly at `s`:
/// `(`, whitespace, digits, whitespace, `,`, whitespace, digits, whitespace, `)`.
/// Returns the two digit runs' boundaries and the position just past `)`.
pub open spec fn coord_match_at(text: Seq<char>, s: int) -> Option<(int, int, int, int, int)> {
    if !(0 <= s && s < text.len() && text[s] == '(') {
        None
    } else {
        let d1s = skip_ws(text, s + 1);
        let d1e = skip_digits(text, d1s);
        if d1e == d1s {
            None
        } else {
            let cm = skip_ws(text, d1e);
            if !(cm < text.len() && text[cm] == ',') {
                None
            } else {
                let d2s = skip_ws(text, cm + 1);
                let d2e = skip_digits(text, d2s);
                if d2e == d2s {
                    None
                } else {
                    let cp = skip_ws(text, d2e);
                    if !(cp < text.len() && text[cp] == ')') {
                        None
                    } else {
                        Some((d1s, d1e, d2s, d2e, cp + 1))
                    }
                }
            }
        }
    }
}

/// Component bounds of a coordinate pair match.
pub proof fn lemma_coord_match_at(text: Seq<char>, s: int)
    ensures
        match coord_match_at(text, s) {
            Some((d1s, d1e, d2s, d2e, end)) => {
                &&& 0 <= s
                &&& s + 1 <= d1s < d1e
                &&& d1e < d2s < d2e
                &&& d2e < end <= text.len()
                &&& forall|j: int| d1s <= j < d1e ==> is_digit(text[j])
                &&& forall|j: int| d2s <= j < d2e ==> is_digit(text[j])
            },
            None => true,
        },
{
    if 0 <= s && s < text.len() && text[s] == '(' {
        lemma_skip_ws(text, s + 1);
        let d1s = skip_ws(text, s + 1);
        lemma_skip_digits(text, d1s);
        let d1e = skip_digits(text, d1s);
        if d1e != d1s {
            lemma_skip_ws(text, d1e);
            let cm = skip_ws(text, d1e);
            if cm < text.len() && text[cm] == ',' {
                lemma_skip_ws(text, cm + 1);
                let d2s = skip_ws(text, cm + 1);
                lemma_skip_digits(text, d2s);
                let d2e = skip_digits(text, d2s);
                if d2e != d2s {
                    lemma_skip_ws(text, d2e);
                }
            }
        }
    }
}

/// Start and components of the leftmost coordinate pair match at or after `from`.
pub open spec fn first_coord_at(text: Seq<char>, from: int) -> Option<
    (int, (int, int, int, int, int)),
>
    decreases text.len() - from when 0 <= from
{
    if from >= text.len() {
        None
    } else {
        match coord_match_at(text, from) {
            Some(m) => Some((from, m)),
            None => first_coord_at(text, from + 1),
        }
    }
}

pub proof fn lemma_first_coord_at(text: Seq<char>, from: int)
    requires
        0 <= from,
    ensures
        match first_coord_at(text, from) {
            Some((s, m)) => {
                &&& from <= s
                &&& coord_match_at(text, s) == Some(m)
                &&& forall|j: int| from <= j < s ==> coord_match_at(text, j) is None
            },
            None => forall|j: int| from <= j ==> coord_match_at(text, j) is None,
        },
    decreases text.len() - from,
{
    if from >= text.len() {
        assert forall|j: int| from <= j implies coord_match_at(text, j) is None by {}
    } else if coord_match_at(text, from) is None {
        lemma_first_coord_at(text, from + 1);
    }
}

/// Value of the decimal digit run `text[lo..hi]`.
pub open spec fn digits_val(text: Seq<char>, lo: int, hi: int) -> nat
    decreases hi - lo when lo <= hi
{
    if lo >= hi {
        0
    } else {
        digits_val(text, lo, hi - 1) * 10 + digit_val(text[hi - 1]) as nat
    }
}

/// The parsed coordinate pairs at or after `from`, in text order. A pair
/// whose digits exceed `u32::MAX` is dropped.
pub open spec fn coords_at(text: Seq<char>, from: int) -> Seq<(u32, u32)>
    decreases text.len() - from when 0 <= from
{
    match first_coord_at(text, from) {
        None => Seq::empty(),
        Some((s, (d1s, d1e, d2s, d2e, end))) => {
            let rest = if from < end <= text.len() {
                coords_at(text, end)
            } else {
                Seq::empty()
            };
            let x = digits_val(text, d1s, d1e);
            let y = digits_val(text, d2s, d2e);
            if x <= u32::MAX && y <= u32::MAX {
                seq![(x as u32, y as u32)] + rest
            } else {
                rest
            }
        },
    }
}

fn is_space_exec(c: char) -> (r: bool)
    ensures
        r == is_space(c),
{
    c == ' ' || c == '\t' || c == '\n' || c == '\r' || c == '\u{b}' || c == '\u{c}'
}

fn is_digit_exec(c: char) -> (r: bool)
    ensures
        r == is_digit(c),
{
    let u = c as u32;
    48 <= u && u <= 57
}

fn skip_ws_exec(text: &str, i: usize, n: usize) -> (r: usize)
    requires
        n == text@.len(),
        i <= n,
    ensures
        r == skip_ws(text@, i as int),
        i <= r <= n,
{
    let mut j: usize = i;
    while j < n && is_space_exec(text.get_char(j))
        invariant
            n == text@.len(),
            i <= j <= n,
            skip_ws(text@, i as int) == skip_ws(text@, j as int),
        decreases n - j,
    {
        j = j + 1;
    }
    j
}

fn skip_digits_exec(text: &str, i: usize, n: usize) -> (r: usize)
    requires
        n == text@.len(),
        i <= n,
    ensures
        r == skip_digits(text@, i as int),
        i <= r <= n,
{
    let mut j: usize = i;
    while j < n && is_digit_exec(text.get_char(j))
        invariant
            n == text@.len(),
            i <= j <= n,
            skip_digits(text@, i as int) == skip_digits(text@, j as int),
        decreases n - j,
    {
        j = j + 1;
    }
    j
}

/// Parse the digit run `text[lo..hi]` as a `u32`, or report that it does
/// not fit.
fn parse_digits(text: &str, lo: usize, hi: usize) -> (r: Option<u32>)
    requires
        lo <= hi <= text@.len(),
        forall|j: int| lo <= j < hi ==> is_digit(text@[j]),
    ensures
        match r {
            Some(v) => v as nat == digits_val(text@, lo as int, hi as int),
            None => digits_val(text@, lo as int, hi as int) > u32::MAX,
        },
{
    let mut acc: Option<u32> = Some(0);
    let mut k: usize = lo;
    while k < hi
        invariant
            lo <= k <= hi <= text@.len(),
            forall|j: int| lo <= j < hi ==> is_digit(text@[j]),
            match acc {
                Some(v) => v as nat == digits_val(text@, lo as int, k as int),
                None => digits_val(text@, lo as int, k as int) > u32::MAX,
            },
        decreases hi - k,
    {
        let c = text.get_char(k);
        let d = (c as u32) - 48;
        proof {
            assert(is_digit(text@[k as int]));
            assert(digits_val(text@, lo as int, (k + 1) as int) == digits_val(
                text@,
                lo as int,
                k as int,
            ) * 10 + digit_val(text@[k as int]) as nat);
        }
        acc = match acc {
            Some(v) => match v.checked_mul(10) {
                Some(w) => w.checked_add(d),
                None => None,
            },
            None => None,
        };
        k = k + 1;
    }
    acc
}

fn coord_match_exec(text: &str, s: usize, n: usize) -> (r: Option<
    (usize, usize, usize, usize, usize),
>)
    requires
        n == text@.len(),
        s <= n,
    ensures
        match r {
            Some(t) => coord_match_at(text@, s as int) == Some(
                (t.0 as int, t.1 as int, t.2 as int, t.3 as int, t.4 as int),
            ),
            None => coord_match_at(text@, s as int) is None,
        },
{
    if s >= n || text.get_char(s) != '(' {
        return None;
    }
    let d1s = skip_ws_exec(text, s + 1, n);
    let d1e = skip_digits_exec(text, d1s, n);
    if d1e == d1s {
        return None;
    }
    let cm = skip_ws_exec(text, d1e, n);
    if cm >= n || text.get_char(cm) != ',' {
        return None;
    }
    let d2s = skip_ws_exec(text, cm + 1, n);
    let d2e = skip_digits_exec(text, d2s, n);
    if d2e == d2s {
        return None;
    }
    let cp = skip_ws_exec(text, d2e, n);
    if cp >= n || text.get_char(cp) != ')' {
        return None;
    }
    Some((d1s, d1e, d2s, d2e, cp + 1))
}

fn first_coord_exec(text: &str, from: usize, n: usize) -> (r: Option<
    (usize, (usize, usize, usize, usize, usize)),
>)
    requires
        n == text@.len(),
    ensures
        match r {
            Some((s, t)) => first_coord_at(text@, from as int) == Some(
                (s as int, (t.0 as int, t.1 as int, t.2 as int, t.3 as int, t.4 as int)),
            ),
            None => first_coord_at(text@, from as int) is None,
        },
{
    let mut i: usize = from;
    loop
        invariant
            n == text@.len(),
            from <= i,
            first_coord_at(text@, from as int) == first_coord_at(text@, i as int),
        decreases n + 1 - i,
    {
        if i >= n {
            return None;
        }
        match coord_match_exec(text, i, n) {
            Some(t) => {
                return Some((i, t));
            },
            None => {},
        }
        i = i + 1;
    }
}

/// The ordered sequence of integer coordinate pairs found in `body`.
pub fn parse_coords(body: &str) -> (r: Vec<(u32, u32)>)
    ensures
        r@ == coords_at(body@, 0),
{
    let n = body.unicode_len();
    let mut r: Vec<(u32, u32)> = Vec::new();
    let mut pos: usize = 0;
    proof {
        assert(coords_at(body@, 0) =~= r@ + coords_at(body@, 0));
    }
    loop
        invariant
            n == body@.len(),
            pos <= n + 1,
            coords_at(body@, 0) == r@ + coords_at(body@, pos as int),
        decreases n + 1 - pos,
    {
        match first_coord_exec(body, pos, n) {
            None => {
                proof {
                    assert(coords_at(body@, pos as int) =~= Seq::<(u32, u32)>::empty());
                    assert(r@ =~= coords_at(body@, 0));
                }
                return r;
            },
            Some((s, (d1s, d1e, d2s, d2e, end))) => {
                proof {
                    lemma_first_coord_at(body@, pos as int);
                    lemma_coord_match_at(body@, s as int);
                }
                let x = parse_digits(body, d1s, d1e);
                let y = parse_digits(body, d2s, d2e);
                match (x, y) {
                    (Some(xv), Some(yv)) => {
                        r.push((xv, yv));
                    },
                    _ => {},
                }
                proof {
                    assert(coords_at(body@, 0) =~= r@ + coords_at(body@, end as int));
                }
                pos = end;
            },
        }
    }
}

} // verus!
