//! Turning an idea into a query: the keywords handed to registry search
//! endpoints.

use vstd::prelude::*;
use vstd::string::*;

use crate::model::Query;
use crate::text::{chars_of, is_whitespace, is_ws, lowercase, string_from_chars, string_views, to_lowercase};

verus! {

/// The words of `s` split at whitespace, with the word still being read:
/// `(words, current)`.
pub open spec fn split_state(s: Seq<char>) -> (Seq<Seq<char>>, Seq<char>)
    decreases s.len(),
{
    if s.len() == 0 {
        (seq![], seq![])
    } else {
        let (words, cur) = split_state(s.drop_last());
        let c = s.last();
        if is_ws(c) {
            if cur.len() > 0 {
                (words.push(cur), seq![])
            } else {
                (words, seq![])
            }
        } else {
            (words, cur.push(c))
        }
    }
}

/// The maximal runs of non-whitespace characters of `s`, in order
/// (`str::split_whitespace`).
pub open spec fn split_words(s: Seq<char>) -> Seq<Seq<char>> {
    let (words, cur) = split_state(s);
    if cur.len() > 0 {
        words.push(cur)
    } else {
        words
    }
}

/// The number of bytes that `c` takes in UTF-8.
pub open spec fn utf8_width(c: char) -> nat {
    if (c as u32) < 0x80 {
        1
    } else if (c as u32) < 0x800 {
        2
    } else if (c as u32) < 0x10000 {
        3
    } else {
        4
    }
}

/// The number of bytes that `s` takes in UTF-8 (`str::len`).
pub open spec fn utf8_len(s: Seq<char>) -> nat
    decreases s.len(),
{
    if s.len() == 0 {
        0
    } else {
        utf8_len(s.drop_last()) + utf8_width(s.last())
    }
}

/// The keywords of a list of words: those longer than two bytes, lowercased,
/// in order.
pub open spec fn keywords_of(words: Seq<Seq<char>>) -> Seq<Seq<char>>
    decreases words.len(),
{
    if words.len() == 0 {
        seq![]
    } else {
        let rest = keywords_of(words.drop_last());
        if utf8_len(words.last()) > 2 {
            rest.push(lowercase(words.last()))
        } else {
            rest
        }
    }
}

/// The state of the split: the words read so far and the word being read,
/// together, hold the non-whitespace characters in order; every word is
/// non-empty, and none of them holds whitespace.
proof fn lemma_split_state(s: Seq<char>)
    ensures
        ({
            let (words, cur) = split_state(s);
            &&& words.flatten_alt() + cur == s.filter(|c: char| !is_ws(c))
            &&& forall|i: int| 0 <= i < words.len() ==> #[trigger] words[i].len() > 0
            &&& forall|i: int, j: int|
                0 <= i < words.len() && 0 <= j < words[i].len() ==> !is_ws(#[trigger] words[i][j])
            &&& forall|j: int| 0 <= j < cur.len() ==> !is_ws(#[trigger] cur[j])
        }),
    decreases s.len(),
{
    reveal(Seq::filter);
    if s.len() == 0 {
        assert(s.filter(|c: char| !is_ws(c)) =~= Seq::<char>::empty());
    } else {
        lemma_split_state(s.drop_last());
        let (words, cur) = split_state(s.drop_last());
        let c = s.last();
        let f = s.drop_last().filter(|c: char| !is_ws(c));
        if is_ws(c) {
            if cur.len() > 0 {
                assert(words.push(cur).drop_last() =~= words);
                assert(words.push(cur).flatten_alt() == words.flatten_alt() + cur);
                assert(words.push(cur).flatten_alt() + Seq::<char>::empty() =~= f);
                assert forall|i: int, j: int|
                    0 <= i < words.push(cur).len() && 0 <= j < words.push(cur)[i].len()
                        implies !is_ws(#[trigger] words.push(cur)[i][j]) by {
                    if i < words.len() {
                        assert(words.push(cur)[i] == words[i]);
                    }
                }
            }
        } else {
            assert(words.flatten_alt() + cur.push(c) =~= f.push(c));
        }
    }
}

/// The words of `s` hold exactly its non-whitespace characters, in order;
/// no word is empty, and none holds whitespace.
pub proof fn law_split_words(s: Seq<char>)
    ensures
        split_words(s).flatten_alt() == s.filter(|c: char| !is_ws(c)),
        forall|i: int| 0 <= i < split_words(s).len() ==> #[trigger] split_words(s)[i].len() > 0,
        forall|i: int, j: int|
            0 <= i < split_words(s).len() && 0 <= j < split_words(s)[i].len() ==> !is_ws(
                #[trigger] split_words(s)[i][j],
            ),
{
    lemma_split_state(s);
    let (words, cur) = split_state(s);
    if cur.len() > 0 {
        assert(words.push(cur).drop_last() =~= words);
        assert forall|i: int, j: int|
            0 <= i < words.push(cur).len() && 0 <= j < words.push(cur)[i].len() implies !is_ws(
            #[trigger] words.push(cur)[i][j],
        ) by {
            if i < words.len() {
                assert(words.push(cur)[i] == words[i]);
            }
        }
    } else {
        assert(words.flatten_alt() + cur =~= words.flatten_alt());
    }
}

/// The keywords are exactly the words longer than two bytes, each
/// lowercased, in order, with none dropped.
pub proof fn law_keywords_are_long_words(words: Seq<Seq<char>>)
    ensures
        keywords_of(words) == words.filter(|w: Seq<char>| utf8_len(w) > 2).map_values(
            |w: Seq<char>| lowercase(w),
        ),
    decreases words.len(),
{
    reveal(Seq::filter);
    if words.len() > 0 {
        law_keywords_are_long_words(words.drop_last());
        let f = words.drop_last().filter(|w: Seq<char>| utf8_len(w) > 2);
        assert(f.push(words.last()).map_values(|w: Seq<char>| lowercase(w)) =~= f.map_values(
            |w: Seq<char>| lowercase(w),
        ).push(lowercase(words.last())));
    }
}

/// The number of bytes that `c` takes in UTF-8.
fn char_width(c: char) -> (r: usize)
    ensures
        r == utf8_width(c),
{
    let code = c as u32;
    if code < 0x80 {
        1
    } else if code < 0x800 {
        2
    } else if code < 0x10000 {
        3
    } else {
        4
    }
}

/// The UTF-8 length of a prefix is at most that of the whole.
proof fn lemma_utf8_len_prefix(s: Seq<char>, i: int)
    requires
        0 <= i <= s.len(),
    ensures
        utf8_len(s.take(i)) <= utf8_len(s),
    decreases s.len(),
{
    if i < s.len() {
        assert(s.drop_last().take(i) =~= s.take(i));
        lemma_utf8_len_prefix(s.drop_last(), i);
    } else {
        assert(s.take(i) =~= s);
    }
}

/// Whether the word takes more than two bytes in UTF-8.
fn longer_than_two_bytes(w: &Vec<char>) -> (r: bool)
    ensures
        r == (utf8_len(w@) > 2),
{
    let mut n: usize = 0;
    let mut i: usize = 0;
    while i < w.len() && n <= 2
        invariant
            i <= w.len(),
            n == utf8_len(w@.take(i as int)),
            n <= 6,
        decreases w.len() - i,
    {
        assert(w@.take(i + 1).drop_last() =~= w@.take(i as int));
        n = n + char_width(w[i]);
        i += 1;
    }
    proof {
        lemma_utf8_len_prefix(w@, i as int);
        if i == w.len() {
            assert(w@.take(w.len() as int) =~= w@);
        }
    }
    n > 2
}

/// The words of `s` split at whitespace.
pub fn split_whitespace(s: &str) -> (r: Vec<Vec<char>>)
    ensures
        r@.map_values(|w: Vec<char>| w@) == split_words(s@),
{
    let chars = chars_of(s);
    let mut words: Vec<Vec<char>> = Vec::new();
    let mut cur: Vec<char> = Vec::new();
    let mut i: usize = 0;
    while i < chars.len()
        invariant
            i <= chars.len(),
            (words@.map_values(|w: Vec<char>| w@), cur@) == split_state(chars@.take(i as int)),
        decreases chars.len() - i,
    {
        assert(chars@.take(i + 1).drop_last() =~= chars@.take(i as int));
        let c = chars[i];
        let ghost before = words@;
        if is_whitespace(c) {
            if cur.len() > 0 {
                let done = cur;
                words.push(done);
                cur = Vec::new();
                assert(words@.map_values(|w: Vec<char>| w@) =~= before.map_values(
                    |w: Vec<char>| w@,
                ).push(done@));
            }
        } else {
            cur.push(c);
        }
        i += 1;
    }
    assert(chars@.take(chars.len() as int) =~= s@);
    let ghost before = words@;
    if cur.len() > 0 {
        let done = cur;
        words.push(done);
        assert(words@.map_values(|w: Vec<char>| w@) =~= before.map_values(|w: Vec<char>| w@).push(
            done@,
        ));
    }
    words
}

/// Builds the query for an idea: the idea itself, and as keywords its words
/// (split at whitespace) that are longer than two bytes, lowercased.
pub fn build_query(idea: &str) -> (r: Query)
    ensures
        r.idea@ == idea@,
        string_views(r.keywords@) == keywords_of(split_words(idea@)),
{
    let words = split_whitespace(idea);
    let ghost views = words@.map_values(|w: Vec<char>| w@);
    let mut keywords: Vec<String> = Vec::new();
    let mut i: usize = 0;
    while i < words.len()
        invariant
            i <= words.len(),
            views == words@.map_values(|w: Vec<char>| w@),
            string_views(keywords@) == keywords_of(views.take(i as int)),
        decreases words.len() - i,
    {
        assert(views.take(i + 1).drop_last() =~= views.take(i as int));
        if longer_than_two_bytes(&words[i]) {
            let word = string_from_chars(words[i].as_slice());
            let lower = to_lowercase(word.as_str());
            let ghost before = keywords@;
            keywords.push(lower);
            assert(string_views(keywords@) =~= string_views(before).push(lower@));
        }
        i += 1;
    }
    assert(views.take(views.len() as int) =~= views);
    Query { idea: String::from_str(idea), keywords }
}

} // verus!
