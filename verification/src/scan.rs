//! Tag scanner: locates occurrences of a named pseudo-XML tag in a text,
//! case-insensitively on the tag name and non-greedily on the body.
//!
//! A match of tag `t` starting at `s` consists of `<t`, an attribute
//! substring running to the nearest following `>`, a body running to the
//! nearest following `</t>`, and that closing tag. Matches are reported
//! leftmost-first and scanning resumes after each full match.

use vstd::prelude::*;
use vstd::string::*;

use crate::text::{
    find_at, find_ci_at, find_ci_from, find_from, lemma_find_at, lemma_find_ci_at, match_ci_at,
    matches_ci_at,
};

verus! {

/// The opening pattern of a tag: `<` followed by the tag name.
pub open spec fn open_pat(tag: Seq<char>) -> Seq<char> {
    seq!['<'] + tag
}

/// The closing pattern of a tag: `</`, the tag name, `>`.
pub open spec fn close_pat(tag: Seq<char>) -> Seq<char> {
    seq!['<', '/'] + tag + seq!['>']
}

/// Attempt a full tag match starting exactly at `s`: the opening pattern,
/// then the nearest `>` ending the attribute substring, then the nearest
/// closing tag. Returns the positions of that `>` and of the closing tag.
pub open spec fn tag_match_at(text: Seq<char>, tag: Seq<char>, s: int) -> Option<(int, int)> {
    if !matches_ci_at(text, open_pat(tag), s) {
        None
    } else {
        match find_at(text, seq!['>'], s + 1 + tag.len()) {
            None => None,
            Some(gt) => match find_ci_at(text, close_pat(tag), gt + 1) {
                None => None,
                Some(close) => Some((gt, close)),
            },
        }
    }
}

/// The leftmost position at or after `from` where a full tag match starts,
/// with the positions of its attribute-ending `>` and of its closing tag.
pub open spec fn first_tag_at(text: Seq<char>, tag: Seq<char>, from: int) -> Option<
    (int, int, int),
>
    decreases text.len() - from when 0 <= from
{
    if from + 1 + tag.len() > text.len() {
        None
    } else {
        match tag_match_at(text, tag, from) {
            Some((gt, close)) => Some((from, gt, close)),
            None => first_tag_at(text, tag, from + 1),
        }
    }
}

/// Position just past the closing tag of a match whose closing tag starts at `close`.
pub open spec fn match_end(tag: Seq<char>, close: int) -> int {
    close + tag.len() + 3
}

/// All tag matches at or after `from`, leftmost-first and non-overlapping:
/// after a match, scanning resumes just past its closing tag.
pub open spec fn tag_matches_at(text: Seq<char>, tag: Seq<char>, from: int) -> Seq<
    (int, int, int),
>
    decreases text.len() - from when 0 <= from
{
    match first_tag_at(text, tag, from) {
        None => Seq::empty(),
        Some((s, gt, close)) => {
            let end = match_end(tag, close);
            if from < end && end <= text.len() {
                seq![(s, gt, close)] + tag_matches_at(text, tag, end)
            } else {
                seq![(s, gt, close)]
            }
        },
    }
}

/// The text from `from` on, with the full span of every tag match removed.
pub open spec fn strip_tags_at(text: Seq<char>, tag: Seq<char>, from: int) -> Seq<char>
    decreases text.len() - from when 0 <= from
{
    match first_tag_at(text, tag, from) {
        None => if 0 <= from <= text.len() {
            text.subrange(from, text.len() as int)
        } else {
            Seq::empty()
        },
        Some((s, gt, close)) => {
            let end = match_end(tag, close);
            if from <= s && from < end && end <= text.len() {
                text.subrange(from, s) + strip_tags_at(text, tag, end)
            } else {
                Seq::empty()
            }
        },
    }
}

/// The attribute substring of a match `(s, gt, _)`: between the tag name and `>`.
pub open spec fn attrs_of(text: Seq<char>, tag: Seq<char>, s: int, gt: int) -> Seq<char> {
    text.subrange(s + 1 + tag.len(), gt)
}

/// The body of a match `(_, gt, close)`: between `>` and the closing tag.
pub open spec fn body_of(text: Seq<char>, gt: int, close: int) -> Seq<char> {
    text.subrange(gt + 1, close)
}

/// Bounds of the components of the first tag match, and minimality.
pub proof fn lemma_first_tag_at(text: Seq<char>, tag: Seq<char>, from: int)
    requires
        0 <= from,
    ensures
        match first_tag_at(text, tag, from) {
            Some((s, gt, close)) => {
                &&& from <= s
                &&& tag_match_at(text, tag, s) == Some((gt, close))
                &&& matches_ci_at(text, open_pat(tag), s)
                &&& s + 1 + tag.len() <= gt
                &&& gt + 1 <= close
                &&& match_end(tag, close) <= text.len()
                &&& forall|j: int| from <= j < s ==> tag_match_at(text, tag, j) is None
            },
            None => forall|j: int| from <= j ==> tag_match_at(text, tag, j) is None,
        },
    decreases text.len() - from,
{
    if from + 1 + tag.len() > text.len() {
        assert forall|j: int| from <= j implies tag_match_at(text, tag, j) is None by {
            assert(!matches_ci_at(text, open_pat(tag), j));
        }
    } else {
        match tag_match_at(text, tag, from) {
            Some((gt, close)) => {
                lemma_find_at(text, seq!['>'], from + 1 + tag.len());
                lemma_find_ci_at(text, close_pat(tag), gt + 1);
            },
            None => {
                lemma_first_tag_at(text, tag, from + 1);
            },
        }
    }
}

/// Every triple in `ms` has well-ordered components that fit inside `text`.
pub open spec fn matches_bounded(text: Seq<char>, tag: Seq<char>, ms: Seq<(int, int, int)>) -> bool {
    forall|k: int|
        0 <= k < ms.len() ==> {
            let (s, gt, close) = #[trigger] ms[k];
            &&& 0 <= s
            &&& s + 1 + tag.len() <= gt
            &&& gt + 1 <= close
            &&& match_end(tag, close) <= text.len()
        }
}

/// Every reported match satisfies the component bounds of `lemma_first_tag_at`.
pub proof fn lemma_tag_matches_at(text: Seq<char>, tag: Seq<char>, from: int)
    requires
        0 <= from,
    ensures
        matches_bounded(text, tag, tag_matches_at(text, tag, from)),
    decreases text.len() - from,
{
    lemma_first_tag_at(text, tag, from);
    match first_tag_at(text, tag, from) {
        None => {},
        Some((s, gt, close)) => {
            let end = match_end(tag, close);
            if from < end && end <= text.len() {
                lemma_tag_matches_at(text, tag, end);
                assert forall|k: int|
                    0 <= k < tag_matches_at(text, tag, from).len() implies {
                    let (s2, gt2, close2) = #[trigger] tag_matches_at(text, tag, from)[k];
                    &&& 0 <= s2
                    &&& s2 + 1 + tag.len() <= gt2
                    &&& gt2 + 1 <= close2
                    &&& match_end(tag, close2) <= text.len()
                } by {
                    if k > 0 {
                        assert(tag_matches_at(text, tag, from)[k] == tag_matches_at(
                            text,
                            tag,
                            end,
                        )[k - 1]);
                    }
                }
            }
        },
    }
}

/// An exec-level triple `(start, attrs_end, body_end)` describes the same
/// positions as a spec-level match triple.
pub open spec fn triples_correspond(
    v: Seq<(usize, usize, usize)>,
    s: Seq<(int, int, int)>,
) -> bool {
    &&& v.len() == s.len()
    &&& forall|k: int|
        0 <= k < v.len() ==> s[k] == (
            #[trigger] v[k].0 as int,
            v[k].1 as int,
            v[k].2 as int,
        )
}

/// Build the opening pattern `<tag`.
pub fn make_open_pat(tag: &str) -> (r: String)
    ensures
        r@ == open_pat(tag@),
{
    let mut s = "<".to_owned();
    s.append(tag);
    proof {
        reveal_strlit("<");
        assert(s@ =~= open_pat(tag@));
    }
    s
}

/// Build the closing pattern `</tag>`.
pub fn make_close_pat(tag: &str) -> (r: String)
    ensures
        r@ == close_pat(tag@),
{
    let mut s = "</".to_owned();
    s.append(tag);
    s.append(">");
    proof {
        reveal_strlit("</");
        reveal_strlit(">");
        assert(s@ =~= close_pat(tag@));
    }
    s
}

/// Leftmost full tag match at or after `from`, as positions
/// `(start, attrs_end, body_end)`.
pub fn first_tag_from(text: &str, tag: &str, open: &str, close: &str, from: usize) -> (r: Option<
    (usize, usize, usize),
>)
    requires
        open@ == open_pat(tag@),
        close@ == close_pat(tag@),
    ensures
        match r {
            Some(t) => first_tag_at(text@, tag@, from as int) == Some(
                (t.0 as int, t.1 as int, t.2 as int),
            ),
            None => first_tag_at(text@, tag@, from as int) is None,
        },
{
    let n = text.unicode_len();
    let tl = tag.unicode_len();
    let mut i: usize = from;
    loop
        invariant
            n == text@.len(),
            tl == tag@.len(),
            open@ == open_pat(tag@),
            close@ == close_pat(tag@),
            from <= i,
            first_tag_at(text@, tag@, from as int) == first_tag_at(text@, tag@, i as int),
        decreases n + 2 - i,
    {
        if i >= n || tl > n - (i + 1) {
            return None;
        }
        let a0 = i + 1 + tl;
        if match_ci_at(text, open, i) {
            proof {
                reveal_strlit(">");
                assert(">"@ =~= seq!['>']);
            }
            match find_from(text, ">", a0) {
                None => {},
                Some(gt) => {
                    proof {
                        lemma_find_at(text@, seq!['>'], a0 as int);
                    }
                    match find_ci_from(text, close, gt + 1) {
                        None => {},
                        Some(cl) => {
                            return Some((i, gt, cl));
                        },
                    }
                },
            }
        }
        proof {
            assert(tag_match_at(text@, tag@, i as int) is None);
        }
        i = i + 1;
    }
}

/// All full tag matches in `text`, leftmost-first, as position triples.
pub fn scan_tags(text: &str, tag: &str, open: &str, close: &str) -> (r: Vec<
    (usize, usize, usize),
>)
    requires
        open@ == open_pat(tag@),
        close@ == close_pat(tag@),
    ensures
        triples_correspond(r@, tag_matches_at(text@, tag@, 0)),
{
    let n = text.unicode_len();
    let tl = tag.unicode_len();
    let mut r: Vec<(usize, usize, usize)> = Vec::new();
    let ghost mut prefix: Seq<(int, int, int)> = Seq::empty();
    let mut pos: usize = 0;
    proof {
        assert(tag_matches_at(text@, tag@, 0) =~= prefix + tag_matches_at(text@, tag@, 0));
    }
    loop
        invariant
            n == text@.len(),
            tl == tag@.len(),
            open@ == open_pat(tag@),
            close@ == close_pat(tag@),
            pos <= n + 2,
            triples_correspond(r@, prefix),
            tag_matches_at(text@, tag@, 0) == prefix + tag_matches_at(text@, tag@, pos as int),
        decreases n + 2 - pos,
    {
        match first_tag_from(text, tag, open, close, pos) {
            None => {
                proof {
                    assert(tag_matches_at(text@, tag@, pos as int) =~= Seq::<
                        (int, int, int),
                    >::empty());
                    assert(tag_matches_at(text@, tag@, 0) =~= prefix);
                }
                return r;
            },
            Some((s, gt, cl)) => {
                proof {
                    lemma_first_tag_at(text@, tag@, pos as int);
                }
                r.push((s, gt, cl));
                let end = cl + tl + 3;
                proof {
                    prefix = prefix.push((s as int, gt as int, cl as int));
                    assert(tag_matches_at(text@, tag@, pos as int) == seq![
                        (s as int, gt as int, cl as int),
                    ] + tag_matches_at(text@, tag@, end as int));
                    assert(tag_matches_at(text@, tag@, 0) =~= prefix + tag_matches_at(
                        text@,
                        tag@,
                        end as int,
                    ));
                }
                pos = end;
            },
        }
    }
}

/// `text` with the full span of every tag match removed.
pub fn strip_tags(text: &str, tag: &str, open: &str, close: &str) -> (r: String)
    requires
        open@ == open_pat(tag@),
        close@ == close_pat(tag@),
    ensures
        r@ == strip_tags_at(text@, tag@, 0),
{
    let n = text.unicode_len();
    let tl = tag.unicode_len();
    let mut out = String::new();
    let mut pos: usize = 0;
    proof {
        assert(strip_tags_at(text@, tag@, 0) =~= out@ + strip_tags_at(text@, tag@, 0));
    }
    loop
        invariant
            n == text@.len(),
            tl == tag@.len(),
            open@ == open_pat(tag@),
            close@ == close_pat(tag@),
            pos <= n,
            strip_tags_at(text@, tag@, 0) == out@ + strip_tags_at(text@, tag@, pos as int),
        decreases n + 1 - pos,
    {
        match first_tag_from(text, tag, open, close, pos) {
            None => {
                let tail = text.substring_char(pos, n);
                out.append(tail);
                proof {
                    assert(out@ =~= strip_tags_at(text@, tag@, 0));
                }
                return out;
            },
            Some((s, gt, cl)) => {
                proof {
                    lemma_first_tag_at(text@, tag@, pos as int);
                }
                let piece = text.substring_char(pos, s);
                out.append(piece);
                let end = cl + tl + 3;
                proof {
                    assert(strip_tags_at(text@, tag@, 0) =~= out@ + strip_tags_at(
                        text@,
                        tag@,
                        end as int,
                    ));
                }
                pos = end;
            },
        }
    }
}

} // verus!
