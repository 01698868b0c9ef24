//! Mention resolver: extracts the optional label from a tag's attribute
//! substring. The label is the value of the literal attribute form
//! `mention="value"` — double-quoted, no escaping, matched case-sensitively;
//! any other attribute text is ignored.

use vstd::prelude::*;
use vstd::string::*;

use crate::text::{find_at, find_from, lemma_find_at, match_at, matches_at};

verus! {

/// The literal attribute prefix `mention="`.
pub open spec fn mention_pat() -> Seq<char> {
    seq!['m', 'e', 'n', 't', 'i', 'o', 'n', '=', '"']
}

/// A mention attribute match starting exactly at `s`: the prefix, a value
/// free of double quotes, and the closing quote. Returns the value's bounds.
pub open spec fn mention_match_at(attrs: Seq<char>, s: int) -> Option<(int, int)> {
    if !matches_at(attrs, mention_pat(), s) {
        None
    } else {
        match find_at(attrs, seq!['"'], s + 9) {
            None => None,
            Some(q) => Some((s + 9, q)),
        }
    }
}

/// Value bounds of the leftmost mention attribute match at or after `from`.
pub open spec fn first_mention_at(attrs: Seq<char>, from: int) -> Option<(int, int)>
    decreases attrs.len() - from when 0 <= from
{
    if from + 9 > attrs.len() {
        None
    } else {
        match mention_match_at(attrs, from) {
            Some(v) => Some(v),
            None => first_mention_at(attrs, from + 1),
        }
    }
}

/// The mention label of an attribute substring, if one is present.
pub open spec fn mention_of(attrs: Seq<char>) -> Option<Seq<char>> {
    match first_mention_at(attrs, 0) {
        None => None,
        Some((lo, hi)) => Some(attrs.subrange(lo, hi)),
    }
}

/// Bounds of the value reported by `first_mention_at`.
pub proof fn lemma_first_mention_at(attrs: Seq<char>, from: int)
    requires
        0 <= from,
    ensures
        match first_mention_at(attrs, from) {
            Some((lo, hi)) => from + 9 <= lo <= hi <= attrs.len(),
            None => true,
        },
    decreases attrs.len() - from,
{
    if from + 9 <= attrs.len() {
        match mention_match_at(attrs, from) {
            Some((lo, hi)) => {
                lemma_find_at(attrs, seq!['"'], from + 9);
            },
            None => {
                lemma_first_mention_at(attrs, from + 1);
            },
        }
    }
}

fn first_mention_exec(attrs: &str) -> (r: Option<(usize, usize)>)
    ensures
        match r {
            Some(v) => first_mention_at(attrs@, 0) == Some((v.0 as int, v.1 as int)),
            None => first_mention_at(attrs@, 0) is None,
        },
{
    let n = attrs.unicode_len();
    let pat = "mention=\"";
    proof {
        reveal_strlit("mention=\"");
        assert(pat@ =~= mention_pat());
        reveal_strlit("\"");
        assert("\""@ =~= seq!['"']);
    }
    let mut i: usize = 0;
    loop
        invariant
            n == attrs@.len(),
            pat@ == mention_pat(),
            first_mention_at(attrs@, 0) == first_mention_at(attrs@, i as int),
        decreases n + 9 - i,
    {
        if i > n || 9 > n - i {
            return None;
        }
        if match_at(attrs, pat, i) {
            proof {
                reveal_strlit("\"");
                assert("\""@ =~= seq!['"']);
            }
            match find_from(attrs, "\"", i + 9) {
                Some(q) => {
                    return Some((i + 9, q));
                },
                None => {},
            }
        }
        proof {
            assert(mention_match_at(attrs@, i as int) is None);
        }
        i = i + 1;
    }
}

/// The optional label in a matched tag's raw attribute substring.
pub fn parse_mention(attr_str: &str) -> (r: Option<String>)
    ensures
        match r {
            Some(s) => mention_of(attr_str@) == Some(s@),
            None => mention_of(attr_str@) is None,
        },
{
    match first_mention_exec(attr_str) {
        None => None,
        Some((lo, hi)) => {
            proof {
                lemma_first_mention_at(attr_str@, 0);
            }
            Some(attr_str.substring_char(lo, hi).to_owned())
        },
    }
}

} // verus!
