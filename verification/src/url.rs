//! The parts of an address.

use crate::request::Pairs;
use vstd::prelude::*;
use vstd::string::*;

verus! {

/// What stands before the first place of a character, and what stands behind it where it occurs.
pub open spec fn cut(text: Seq<char>, at: char) -> (Seq<char>, Option<Seq<char>>)
    decreases text.len(),
{
    if text.len() == 0 {
        (Seq::empty(), None)
    } else if text[0] == at {
        (Seq::empty(), Some(text.skip(1)))
    } else {
        let (before, behind) = cut(text.skip(1), at);
        (seq![text[0]] + before, behind)
    }
}

/// One part of a query: its name, and its value up to a second equals sign.
pub open spec fn query_pair(part: Seq<char>) -> (Seq<char>, Seq<char>) {
    let (name, behind) = cut(part, '=');
    match behind {
        Some(value) => (name, cut(value, '=').0),
        None => (name, Seq::empty()),
    }
}

/// The parts of a query, which ampersands keep apart.
pub open spec fn query_pairs(query: Seq<char>) -> Pairs
    decreases query.len(),
{
    proof {
        lemma_cut_shortens(query, '&');
    }
    let (part, rest) = cut(query, '&');
    match rest {
        Some(rest) => seq![query_pair(part)] + query_pairs(rest),
        None => seq![query_pair(part)],
    }
}

/// The path and the query that an address is made of.
pub open spec fn split_url(url: Seq<char>) -> (Seq<char>, Pairs) {
    let (uri, query) = cut(url, '?');
    match query {
        Some(query) => (uri, query_pairs(query)),
        None => (uri, Seq::empty()),
    }
}

/// What stands behind a cut is shorter than the text.
pub proof fn lemma_cut_shortens(text: Seq<char>, at: char)
    ensures
        cut(text, at).1 matches Some(rest) ==> rest.len() < text.len(),
    decreases text.len(),
{
    if text.len() > 0 && text[0] != at {
        lemma_cut_shortens(text.skip(1), at);
    }
}

/// A text is cut at the first place of a character.
pub(crate) proof fn lemma_cut_at(text: Seq<char>, at: char, i: int)
    requires
        0 <= i < text.len(),
        text[i] == at,
        forall|j: int| 0 <= j < i ==> text[j] != at,
    ensures
        cut(text, at) == (text.take(i), Some(text.skip(i + 1))),
    decreases text.len(),
{
    if i == 0 {
        assert(text.take(0) =~= Seq::empty());
    } else {
        let rest = text.skip(1);
        lemma_cut_at(rest, at, i - 1);
        assert(seq![text[0]] + rest.take(i - 1) =~= text.take(i));
        assert(rest.skip(i) =~= text.skip(i + 1));
    }
}

/// A text without the character is not cut.
pub(crate) proof fn lemma_cut_none(text: Seq<char>, at: char)
    requires
        forall|j: int| 0 <= j < text.len() ==> text[j] != at,
    ensures
        cut(text, at) == (text, None::<Seq<char>>),
    decreases text.len(),
{
    if text.len() > 0 {
        lemma_cut_none(text.skip(1), at);
        assert(seq![text[0]] + text.skip(1) =~= text);
    } else {
        assert(text =~= Seq::empty());
    }
}

/// Cuts a text at the first place of a character.
pub fn cut_at(text: &str, at: char) -> (r: (&str, Option<&str>))
    ensures
        (r.0@, r.1.deep_view()) == cut(text@, at),
{
    let n: usize = text.unicode_len();
    let mut i: usize = 0;
    while i < n
        invariant
            i <= n == text@.len(),
            forall|j: int| 0 <= j < i ==> text@[j] != at,
        decreases n - i,
    {
        if text.get_char(i) == at {
            proof {
                lemma_cut_at(text@, at, i as int);
                assert(text@.subrange(0, i as int) =~= text@.take(i as int));
                assert(text@.subrange(i + 1, n as int) =~= text@.skip(i + 1));
            }
            return (text.substring_char(0, i), Some(text.substring_char(i + 1, n)));
        }
        i += 1;
    }
    proof {
        lemma_cut_none(text@, at);
    }
    (text, None)
}

fn pair_of(part: &str) -> (r: (String, String))
    ensures
        (r.0@, r.1@) == query_pair(part@),
{
    let (name, behind) = cut_at(part, '=');
    match behind {
        Some(value) => (name.to_owned(), cut_at(value, '=').0.to_owned()),
        None => (name.to_owned(), String::new()),
    }
}

fn pairs_of(query: &str) -> (r: Vec<(String, String)>)
    ensures
        r.deep_view() == query_pairs(query@),
{
    let mut pairs: Vec<(String, String)> = Vec::new();
    let mut rest: &str = query;
    assert(pairs.deep_view() + query_pairs(query@) =~= query_pairs(query@));
    loop
        invariant
            pairs.deep_view() + query_pairs(rest@) == query_pairs(query@),
        decreases rest@.len(),
    {
        let ghost before = pairs.deep_view();
        proof {
            lemma_cut_shortens(rest@, '&');
        }
        let (part, behind) = cut_at(rest, '&');
        let pair = pair_of(part);
        pairs.push(pair);
        assert(pairs.deep_view() =~= before.push(query_pair(part@)));
        match behind {
            Some(next) => {
                proof {
                    assert(before.push(query_pair(part@)) + query_pairs(next@) =~= before + (seq![
                        query_pair(part@),
                    ] + query_pairs(next@)));
                }
                rest = next;
            },
            None => {
                assert(before.push(query_pair(part@)) =~= before + seq![query_pair(part@)]);
                return pairs;
            },
        }
    }
}

/// Splits an address into its path and its query.
pub fn parts_of(url: &str) -> (r: (String, Vec<(String, String)>))
    ensures
        (r.0@, r.1.deep_view()) == split_url(url@),
{
    let (uri, query) = cut_at(url, '?');
    match query {
        Some(query) => (uri.to_owned(), pairs_of(query)),
        None => {
            let none: Vec<(String, String)> = Vec::new();
            assert(none.deep_view() =~= Seq::empty());
            (uri.to_owned(), none)
        },
    }
}

} // verus!
