//! Why a verdict's headline never asserts non-existence: each data headline,
//! lowercased, holds none of the absence phrases.
//!
//! The argument: every absence phrase contains a short window (one or two
//! characters) that occurs in none of the fixed parts of the data headlines,
//! and the number in between is made of digits, which no window holds.

use vstd::prelude::*;

use crate::model::{Match, Saturation};
use crate::text::{
    all_lower_known, ascii_lower, ascii_lowered, contains_seq, decimal, lower_known, lowercase,
    occurs_at,
};
use crate::verdict::{
    absence_phrases, asserts_absence, count_at_least, data_headline_text, has_absence_phrase,
    CLOSE_SIMILARITY,
};

verus! {

/// `c` is a decimal digit.
pub open spec fn is_digit(c: char) -> bool {
    '0' <= c && c <= '9'
}

/// The decimal text of a number is non-empty and made of digits.
pub proof fn lemma_decimal_digits(n: nat)
    ensures
        decimal(n).len() > 0,
        forall|i: int| 0 <= i < decimal(n).len() ==> is_digit(#[trigger] decimal(n)[i]),
    decreases n,
{
    if n >= 10 {
        lemma_decimal_digits(n / 10);
        let d = decimal(n);
        let a = decimal(n / 10);
        assert forall|i: int| 0 <= i < d.len() implies is_digit(#[trigger] d[i]) by {
            if i < a.len() {
                assert(d[i] == a[i]);
            }
        }
    }
}

/// The windows by which the absence phrases are told apart from the data
/// headlines.
pub open spec fn windows() -> Seq<Seq<char>> {
    seq![seq!['x'], seq!['\''], seq!['o', ' '], seq!['l', 'i'], seq!['v'], seq!['h', 'a'], seq!['t', ' '], seq!['o', 'b'], seq!['j'], seq!['e', 'n'], seq!['b', 'r']]
}

/// `h` holds none of the windows.
pub open spec fn clean(h: Seq<char>) -> bool {
    forall|k: int| 0 <= k < windows().len() ==> !contains_seq(h, #[trigger] windows()[k])
}

/// No character of `h` is `c`, so `c` alone does not occur in it.
proof fn lemma_no_char(h: Seq<char>, c: char)
    requires
        forall|i: int| 0 <= i < h.len() ==> #[trigger] h[i] != c,
    ensures
        !contains_seq(h, seq![c]),
{
    if contains_seq(h, seq![c]) {
        let i = choose|i: int| occurs_at(h, seq![c], i);
        assert(h.subrange(i, i + 1)[0] == h[i]);
    }
}

/// No two neighbouring characters of `h` are `a` then `b`.
proof fn lemma_no_pair(h: Seq<char>, a: char, b: char)
    requires
        forall|i: int| 0 <= i < h.len() - 1 ==> !(#[trigger] h[i] == a && h[i + 1] == b),
    ensures
        !contains_seq(h, seq![a, b]),
{
    if contains_seq(h, seq![a, b]) {
        let i = choose|i: int| occurs_at(h, seq![a, b], i);
        assert(h.subrange(i, i + 2)[0] == h[i]);
        assert(h.subrange(i, i + 2)[1] == h[i + 1]);
    }
}

/// A text without any window is clean.
proof fn lemma_clean_from(h: Seq<char>)
    requires
        !contains_seq(h, seq!['x']),
        !contains_seq(h, seq!['\'']),
        !contains_seq(h, seq!['o', ' ']),
        !contains_seq(h, seq!['l', 'i']),
        !contains_seq(h, seq!['v']),
        !contains_seq(h, seq!['h', 'a']),
        !contains_seq(h, seq!['t', ' ']),
        !contains_seq(h, seq!['o', 'b']),
        !contains_seq(h, seq!['j']),
        !contains_seq(h, seq!['e', 'n']),
        !contains_seq(h, seq!['b', 'r']),
    ensures
        clean(h),
{
    assert forall|k: int| 0 <= k < windows().len() implies !contains_seq(h, #[trigger] windows()[k]) by {
        if k == 0 {
            assert(windows()[k] == seq!['x']);
        } else if k == 1 {
            assert(windows()[k] == seq!['\'']);
        } else if k == 2 {
            assert(windows()[k] == seq!['o', ' ']);
        } else if k == 3 {
            assert(windows()[k] == seq!['l', 'i']);
        } else if k == 4 {
            assert(windows()[k] == seq!['v']);
        } else if k == 5 {
            assert(windows()[k] == seq!['h', 'a']);
        } else if k == 6 {
            assert(windows()[k] == seq!['t', ' ']);
        } else if k == 7 {
            assert(windows()[k] == seq!['o', 'b']);
        } else if k == 8 {
            assert(windows()[k] == seq!['j']);
        } else if k == 9 {
            assert(windows()[k] == seq!['e', 'n']);
        } else if k == 10 {
            assert(windows()[k] == seq!['b', 'r']);
        }
    }
}

/// `saturated —` holds no window.
proof fn lemma_clean_saturated()
    ensures
        clean("saturated — "@),
{
    reveal_strlit("saturated — ");
    let h = "saturated — "@;
    lemma_no_char(h, 'x');
    lemma_no_char(h, '\'');
    lemma_no_pair(h, 'o', ' ');
    lemma_no_pair(h, 'l', 'i');
    lemma_no_char(h, 'v');
    lemma_no_pair(h, 'h', 'a');
    lemma_no_pair(h, 't', ' ');
    lemma_no_pair(h, 'o', 'b');
    lemma_no_char(h, 'j');
    lemma_no_pair(h, 'e', 'n');
    lemma_no_pair(h, 'b', 'r');
    lemma_clean_from(h);
}

/// `crowded —` holds no window.
proof fn lemma_clean_crowded()
    ensures
        clean("crowded — "@),
{
    reveal_strlit("crowded — ");
    let h = "crowded — "@;
    lemma_no_char(h, 'x');
    lemma_no_char(h, '\'');
    lemma_no_pair(h, 'o', ' ');
    lemma_no_pair(h, 'l', 'i');
    lemma_no_char(h, 'v');
    lemma_no_pair(h, 'h', 'a');
    lemma_no_pair(h, 't', ' ');
    lemma_no_pair(h, 'o', 'b');
    lemma_no_char(h, 'j');
    lemma_no_pair(h, 'e', 'n');
    lemma_no_pair(h, 'b', 'r');
    lemma_clean_from(h);
}

/// `closely-related tools turned up in the sources checked.` holds no window.
proof fn lemma_clean_tools()
    ensures
        clean(" closely-related tools turned up in the sources checked."@),
{
    reveal_strlit(" closely-related tools turned up in the sources checked.");
    let h = " closely-related tools turned up in the sources checked."@;
    lemma_no_char(h, 'x');
    lemma_no_char(h, '\'');
    lemma_no_pair(h, 'o', ' ');
    lemma_no_pair(h, 'l', 'i');
    lemma_no_char(h, 'v');
    lemma_no_pair(h, 'h', 'a');
    lemma_no_pair(h, 't', ' ');
    lemma_no_pair(h, 'o', 'b');
    lemma_no_char(h, 'j');
    lemma_no_pair(h, 'e', 'n');
    lemma_no_pair(h, 'b', 'r');
    lemma_clean_from(h);
}

/// `closely-related tool turned up in the sources checked.` holds no window.
proof fn lemma_clean_tool()
    ensures
        clean(" closely-related tool turned up in the sources checked."@),
{
    reveal_strlit(" closely-related tool turned up in the sources checked.");
    let h = " closely-related tool turned up in the sources checked."@;
    lemma_no_char(h, 'x');
    lemma_no_char(h, '\'');
    lemma_no_pair(h, 'o', ' ');
    lemma_no_pair(h, 'l', 'i');
    lemma_no_char(h, 'v');
    lemma_no_pair(h, 'h', 'a');
    lemma_no_pair(h, 't', ' ');
    lemma_no_pair(h, 'o', 'b');
    lemma_no_char(h, 'j');
    lemma_no_pair(h, 'e', 'n');
    lemma_no_pair(h, 'b', 'r');
    lemma_clean_from(h);
}

/// `nothing close turned up in the sources checked — keep looking before committing.` holds no window.
proof fn lemma_clean_open()
    ensures
        clean("nothing close turned up in the sources checked — keep looking before committing."@),
{
    reveal_strlit("nothing close turned up in the sources checked — keep looking before committing.");
    let h = "nothing close turned up in the sources checked — keep looking before committing."@;
    lemma_no_char(h, 'x');
    lemma_no_char(h, '\'');
    lemma_no_pair(h, 'o', ' ');
    lemma_no_pair(h, 'l', 'i');
    lemma_no_char(h, 'v');
    lemma_no_pair(h, 'h', 'a');
    lemma_no_pair(h, 't', ' ');
    lemma_no_pair(h, 'o', 'b');
    lemma_no_char(h, 'j');
    lemma_no_pair(h, 'e', 'n');
    lemma_no_pair(h, 'b', 'r');
    lemma_clean_from(h);
}

/// Putting digits between two clean texts keeps them clean.
proof fn lemma_clean_concat(x: Seq<char>, d: Seq<char>, y: Seq<char>)
    requires
        clean(x),
        clean(y),
        d.len() > 0,
        forall|i: int| 0 <= i < d.len() ==> is_digit(#[trigger] d[i]),
    ensures
        clean(x + d + y),
{
    let s = x + d + y;
    assert forall|k: int| 0 <= k < windows().len() implies !contains_seq(s, #[trigger] windows()[k]) by {
        let w = windows()[k];
        assert(!contains_seq(x, w) && !contains_seq(y, w));
        assert(1 <= w.len() <= 2 && forall|j: int| 0 <= j < w.len() ==> !is_digit(#[trigger] w[j])) by {
            if k == 0 {
                assert(w == seq!['x']);
            } else if k == 1 {
                assert(w == seq!['\'']);
            } else if k == 2 {
                assert(w == seq!['o', ' ']);
            } else if k == 3 {
                assert(w == seq!['l', 'i']);
            } else if k == 4 {
                assert(w == seq!['v']);
            } else if k == 5 {
                assert(w == seq!['h', 'a']);
            } else if k == 6 {
                assert(w == seq!['t', ' ']);
            } else if k == 7 {
                assert(w == seq!['o', 'b']);
            } else if k == 8 {
                assert(w == seq!['j']);
            } else if k == 9 {
                assert(w == seq!['e', 'n']);
            } else if k == 10 {
                assert(w == seq!['b', 'r']);
            }
        }
        if contains_seq(s, w) {
            let i = choose|i: int| occurs_at(s, w, i);
            let wl = w.len() as int;
            if i + wl <= x.len() {
                assert(x.subrange(i, i + wl) =~= s.subrange(i, i + wl));
                assert(occurs_at(x, w, i));
            } else if i >= x.len() + d.len() {
                let i2 = i - x.len() - d.len();
                assert(y.subrange(i2, i2 + wl) =~= s.subrange(i, i + wl));
                assert(occurs_at(y, w, i2));
            } else {
                let j = if i >= x.len() {
                    i
                } else {
                    x.len() as int
                };
                assert(s[j] == d[j - x.len()]);
                assert(s.subrange(i, i + wl)[j - i] == s[j]);
                assert(is_digit(w[j - i]));
            }
        }
    }
}

/// A phrase that contains a window absent from `h` is absent from `h`.
proof fn lemma_window(h: Seq<char>, p: Seq<char>, o: int, w: Seq<char>)
    requires
        0 <= o,
        o + w.len() <= p.len(),
        p.subrange(o, o + w.len()) == w,
        !contains_seq(h, w),
    ensures
        !contains_seq(h, p),
{
    if contains_seq(h, p) {
        let i = choose|i: int| occurs_at(h, p, i);
        assert(h.subrange(i + o, i + o + w.len()) =~= p.subrange(o, o + w.len()));
        assert(occurs_at(h, w, i + o));
    }
}

/// A clean text holds no absence phrase.
pub proof fn lemma_clean_has_no_phrase(h: Seq<char>)
    requires
        clean(h),
    ensures
        !has_absence_phrase(h),
{
    assert forall|k: int| 0 <= k < absence_phrases().len() implies !#[trigger] contains_seq(
        h,
        absence_phrases()[k],
    ) by {
        if k == 0 {
            reveal_strlit("does not exist");
            assert(windows()[0] == seq!['x']);
            assert("does not exist"@.subrange(10, 11) =~= seq!['x']);
            lemma_window(h, "does not exist"@, 10, windows()[0]);
        } else if k == 1 {
            reveal_strlit("doesn't exist");
            assert(windows()[0] == seq!['x']);
            assert("doesn't exist"@.subrange(9, 10) =~= seq!['x']);
            lemma_window(h, "doesn't exist"@, 9, windows()[0]);
        } else if k == 2 {
            reveal_strlit("do not exist");
            assert(windows()[0] == seq!['x']);
            assert("do not exist"@.subrange(8, 9) =~= seq!['x']);
            lemma_window(h, "do not exist"@, 8, windows()[0]);
        } else if k == 3 {
            reveal_strlit("don't exist");
            assert(windows()[0] == seq!['x']);
            assert("don't exist"@.subrange(7, 8) =~= seq!['x']);
            lemma_window(h, "don't exist"@, 7, windows()[0]);
        } else if k == 4 {
            reveal_strlit("no prior art");
            assert(windows()[2] == seq!['o', ' ']);
            assert("no prior art"@.subrange(1, 3) =~= seq!['o', ' ']);
            lemma_window(h, "no prior art"@, 1, windows()[2]);
        } else if k == 5 {
            reveal_strlit("nothing exists");
            assert(windows()[0] == seq!['x']);
            assert("nothing exists"@.subrange(9, 10) =~= seq!['x']);
            lemma_window(h, "nothing exists"@, 9, windows()[0]);
        } else if k == 6 {
            reveal_strlit("nothing like this");
            assert(windows()[3] == seq!['l', 'i']);
            assert("nothing like this"@.subrange(8, 10) =~= seq!['l', 'i']);
            lemma_window(h, "nothing like this"@, 8, windows()[3]);
        } else if k == 7 {
            reveal_strlit("never been built");
            assert(windows()[4] == seq!['v']);
            assert("never been built"@.subrange(2, 3) =~= seq!['v']);
            lemma_window(h, "never been built"@, 2, windows()[4]);
        } else if k == 8 {
            reveal_strlit("never been made");
            assert(windows()[4] == seq!['v']);
            assert("never been made"@.subrange(2, 3) =~= seq!['v']);
            lemma_window(h, "never been made"@, 2, windows()[4]);
        } else if k == 9 {
            reveal_strlit("never been implemented");
            assert(windows()[4] == seq!['v']);
            assert("never been implemented"@.subrange(2, 3) =~= seq!['v']);
            lemma_window(h, "never been implemented"@, 2, windows()[4]);
        } else if k == 10 {
            reveal_strlit("has not been built");
            assert(windows()[5] == seq!['h', 'a']);
            assert("has not been built"@.subrange(0, 2) =~= seq!['h', 'a']);
            lemma_window(h, "has not been built"@, 0, windows()[5]);
        } else if k == 11 {
            reveal_strlit("hasn't been built");
            assert(windows()[1] == seq!['\'']);
            assert("hasn't been built"@.subrange(4, 5) =~= seq!['\'']);
            lemma_window(h, "hasn't been built"@, 4, windows()[1]);
        } else if k == 12 {
            reveal_strlit("has not been implemented");
            assert(windows()[5] == seq!['h', 'a']);
            assert("has not been implemented"@.subrange(0, 2) =~= seq!['h', 'a']);
            lemma_window(h, "has not been implemented"@, 0, windows()[5]);
        } else if k == 13 {
            reveal_strlit("hasn't been implemented");
            assert(windows()[1] == seq!['\'']);
            assert("hasn't been implemented"@.subrange(4, 5) =~= seq!['\'']);
            lemma_window(h, "hasn't been implemented"@, 4, windows()[1]);
        } else if k == 14 {
            reveal_strlit("not been implemented");
            assert(windows()[6] == seq!['t', ' ']);
            assert("not been implemented"@.subrange(2, 4) =~= seq!['t', ' ']);
            lemma_window(h, "not been implemented"@, 2, windows()[6]);
        } else if k == 15 {
            reveal_strlit("no one has built");
            assert(windows()[2] == seq!['o', ' ']);
            assert("no one has built"@.subrange(1, 3) =~= seq!['o', ' ']);
            lemma_window(h, "no one has built"@, 1, windows()[2]);
        } else if k == 16 {
            reveal_strlit("no one has made");
            assert(windows()[2] == seq!['o', ' ']);
            assert("no one has made"@.subrange(1, 3) =~= seq!['o', ' ']);
            lemma_window(h, "no one has made"@, 1, windows()[2]);
        } else if k == 17 {
            reveal_strlit("no one else");
            assert(windows()[2] == seq!['o', ' ']);
            assert("no one else"@.subrange(1, 3) =~= seq!['o', ' ']);
            lemma_window(h, "no one else"@, 1, windows()[2]);
        } else if k == 18 {
            reveal_strlit("nobody else");
            assert(windows()[7] == seq!['o', 'b']);
            assert("nobody else"@.subrange(1, 3) =~= seq!['o', 'b']);
            lemma_window(h, "nobody else"@, 1, windows()[7]);
        } else if k == 19 {
            reveal_strlit("no one is doing");
            assert(windows()[2] == seq!['o', ' ']);
            assert("no one is doing"@.subrange(1, 3) =~= seq!['o', ' ']);
            lemma_window(h, "no one is doing"@, 1, windows()[2]);
        } else if k == 20 {
            reveal_strlit("no such tool");
            assert(windows()[2] == seq!['o', ' ']);
            assert("no such tool"@.subrange(1, 3) =~= seq!['o', ' ']);
            lemma_window(h, "no such tool"@, 1, windows()[2]);
        } else if k == 21 {
            reveal_strlit("no existing tool");
            assert(windows()[0] == seq!['x']);
            assert("no existing tool"@.subrange(4, 5) =~= seq!['x']);
            lemma_window(h, "no existing tool"@, 4, windows()[0]);
        } else if k == 22 {
            reveal_strlit("no existing solution");
            assert(windows()[0] == seq!['x']);
            assert("no existing solution"@.subrange(4, 5) =~= seq!['x']);
            lemma_window(h, "no existing solution"@, 4, windows()[0]);
        } else if k == 23 {
            reveal_strlit("no existing \
         implementation");
            assert(windows()[0] == seq!['x']);
            assert("no existing \
         implementation"@.subrange(4, 5) =~= seq!['x']);
            lemma_window(h, "no existing \
         implementation"@, 4, windows()[0]);
        } else if k == 24 {
            reveal_strlit("no similar tool");
            assert(windows()[2] == seq!['o', ' ']);
            assert("no similar tool"@.subrange(1, 3) =~= seq!['o', ' ']);
            lemma_window(h, "no similar tool"@, 1, windows()[2]);
        } else if k == 25 {
            reveal_strlit("no similar project");
            assert(windows()[2] == seq!['o', ' ']);
            assert("no similar project"@.subrange(1, 3) =~= seq!['o', ' ']);
            lemma_window(h, "no similar project"@, 1, windows()[2]);
        } else if k == 26 {
            reveal_strlit("no comparable");
            assert(windows()[2] == seq!['o', ' ']);
            assert("no comparable"@.subrange(1, 3) =~= seq!['o', ' ']);
            lemma_window(h, "no comparable"@, 1, windows()[2]);
        } else if k == 27 {
            reveal_strlit("no competitors");
            assert(windows()[2] == seq!['o', ' ']);
            assert("no competitors"@.subrange(1, 3) =~= seq!['o', ' ']);
            lemma_window(h, "no competitors"@, 1, windows()[2]);
        } else if k == 28 {
            reveal_strlit("no alternatives");
            assert(windows()[2] == seq!['o', ' ']);
            assert("no alternatives"@.subrange(1, 3) =~= seq!['o', ' ']);
            lemma_window(h, "no alternatives"@, 1, windows()[2]);
        } else if k == 29 {
            reveal_strlit("no equivalent");
            assert(windows()[2] == seq!['o', ' ']);
            assert("no equivalent"@.subrange(1, 3) =~= seq!['o', ' ']);
            lemma_window(h, "no equivalent"@, 1, windows()[2]);
        } else if k == 30 {
            reveal_strlit("there is no tool");
            assert(windows()[2] == seq!['o', ' ']);
            assert("there is no tool"@.subrange(10, 12) =~= seq!['o', ' ']);
            lemma_window(h, "there is no tool"@, 10, windows()[2]);
        } else if k == 31 {
            reveal_strlit("there are no tools");
            assert(windows()[2] == seq!['o', ' ']);
            assert("there are no tools"@.subrange(11, 13) =~= seq!['o', ' ']);
            lemma_window(h, "there are no tools"@, 11, windows()[2]);
        } else if k == 32 {
            reveal_strlit("there is no existing");
            assert(windows()[0] == seq!['x']);
            assert("there is no existing"@.subrange(13, 14) =~= seq!['x']);
            lemma_window(h, "there is no existing"@, 13, windows()[0]);
        } else if k == 33 {
            reveal_strlit("there is no software");
            assert(windows()[2] == seq!['o', ' ']);
            assert("there is no software"@.subrange(10, 12) =~= seq!['o', ' ']);
            lemma_window(h, "there is no software"@, 10, windows()[2]);
        } else if k == 34 {
            reveal_strlit("there is no prior");
            assert(windows()[2] == seq!['o', ' ']);
            assert("there is no prior"@.subrange(10, 12) =~= seq!['o', ' ']);
            lemma_window(h, "there is no prior"@, 10, windows()[2]);
        } else if k == 35 {
            reveal_strlit("completely novel");
            assert(windows()[4] == seq!['v']);
            assert("completely novel"@.subrange(13, 14) =~= seq!['v']);
            lemma_window(h, "completely novel"@, 13, windows()[4]);
        } else if k == 36 {
            reveal_strlit("entirely new");
            assert(windows()[9] == seq!['e', 'n']);
            assert("entirely new"@.subrange(0, 2) =~= seq!['e', 'n']);
            lemma_window(h, "entirely new"@, 0, windows()[9]);
        } else if k == 37 {
            reveal_strlit("brand new concept");
            assert(windows()[10] == seq!['b', 'r']);
            assert("brand new concept"@.subrange(0, 2) =~= seq!['b', 'r']);
            lemma_window(h, "brand new concept"@, 0, windows()[10]);
        } else if k == 38 {
            reveal_strlit("first of its kind");
            assert(windows()[6] == seq!['t', ' ']);
            assert("first of its kind"@.subrange(4, 6) =~= seq!['t', ' ']);
            lemma_window(h, "first of its kind"@, 4, windows()[6]);
        } else if k == 39 {
            reveal_strlit("unprecedented");
            assert(windows()[9] == seq!['e', 'n']);
            assert("unprecedented"@.subrange(8, 10) =~= seq!['e', 'n']);
            lemma_window(h, "unprecedented"@, 8, windows()[9]);
        }
    }
}

/// Lowercasing leaves digits and the listed characters alone when none of
/// them is an uppercase ASCII letter.
proof fn lemma_lower_identity(s: Seq<char>)
    requires
        forall|i: int| 0 <= i < s.len() ==> lower_known(#[trigger] s[i]) && !('A' <= s[i] && s[i] <= 'Z'),
    ensures
        all_lower_known(s),
        ascii_lowered(s) == s,
{
    assert(ascii_lowered(s) =~= s);
}

/// Lowercasing a concatenation lowercases each part.
proof fn lemma_lower_concat(x: Seq<char>, y: Seq<char>)
    ensures
        ascii_lowered(x + y) == ascii_lowered(x) + ascii_lowered(y),
        all_lower_known(x) && all_lower_known(y) ==> all_lower_known(x + y),
{
    assert(ascii_lowered(x + y) =~= ascii_lowered(x) + ascii_lowered(y));
    if all_lower_known(x) && all_lower_known(y) {
        assert forall|i: int| 0 <= i < (x + y).len() implies lower_known(#[trigger] (x + y)[i]) by {
            if i >= x.len() {
                assert((x + y)[i] == y[i - x.len()]);
            }
        }
    }
}

/// Digits are kept by lowercasing.
proof fn lemma_lower_digits(d: Seq<char>)
    requires
        forall|i: int| 0 <= i < d.len() ==> is_digit(#[trigger] d[i]),
    ensures
        all_lower_known(d),
        ascii_lowered(d) == d,
{
    lemma_lower_identity(d);
}

/// `Saturated — ` lowercases to `saturated — `.
proof fn lemma_lower_saturated()
    ensures
        all_lower_known("Saturated — "@),
        ascii_lowered("Saturated — "@) == "saturated — "@,
{
    reveal_strlit("Saturated — ");
    reveal_strlit("saturated — ");
    assert(ascii_lowered("Saturated — "@) =~= "saturated — "@);
}

/// `Crowded — ` lowercases to `crowded — `.
proof fn lemma_lower_crowded()
    ensures
        all_lower_known("Crowded — "@),
        ascii_lowered("Crowded — "@) == "crowded — "@,
{
    reveal_strlit("Crowded — ");
    reveal_strlit("crowded — ");
    assert(ascii_lowered("Crowded — "@) =~= "crowded — "@);
}

/// The open headline lowercases to its lowercase form.
proof fn lemma_lower_open()
    ensures
        all_lower_known(
            "Nothing close turned up in the sources checked — keep looking before committing."@,
        ),
        ascii_lowered(
            "Nothing close turned up in the sources checked — keep looking before committing."@,
        ) == "nothing close turned up in the sources checked — keep looking before committing."@,
{
    reveal_strlit(
        "Nothing close turned up in the sources checked — keep looking before committing.",
    );
    reveal_strlit(
        "nothing close turned up in the sources checked — keep looking before committing.",
    );
    assert(ascii_lowered(
        "Nothing close turned up in the sources checked — keep looking before committing."@,
    ) =~= "nothing close turned up in the sources checked — keep looking before committing."@);
}

/// The tails of the counted headlines have no uppercase letter.
proof fn lemma_lower_tails()
    ensures
        all_lower_known(" closely-related tools turned up in the sources checked."@),
        ascii_lowered(" closely-related tools turned up in the sources checked."@)
            == " closely-related tools turned up in the sources checked."@,
        all_lower_known(" closely-related tool turned up in the sources checked."@),
        ascii_lowered(" closely-related tool turned up in the sources checked."@)
            == " closely-related tool turned up in the sources checked."@,
        " closely-related tool"@ + "s"@ + " turned up in the sources checked."@
            == " closely-related tools turned up in the sources checked."@,
        " closely-related tool"@ + Seq::<char>::empty() + " turned up in the sources checked."@
            == " closely-related tool turned up in the sources checked."@,
{
    reveal_strlit(" closely-related tools turned up in the sources checked.");
    reveal_strlit(" closely-related tool turned up in the sources checked.");
    reveal_strlit(" closely-related tool");
    reveal_strlit("s");
    reveal_strlit(" turned up in the sources checked.");
    lemma_lower_identity(" closely-related tools turned up in the sources checked."@);
    lemma_lower_identity(" closely-related tool turned up in the sources checked."@);
    assert(" closely-related tool"@ + "s"@ + " turned up in the sources checked."@
        =~= " closely-related tools turned up in the sources checked."@);
    assert(" closely-related tool"@ + Seq::<char>::empty() + " turned up in the sources checked."@
        =~= " closely-related tool turned up in the sources checked."@);
}

/// `head + digits + tail`, lowercased, holds no absence phrase when the
/// lowercased head and tail are clean.
proof fn lemma_counted_headline_scoped(head: Seq<char>, lower_head: Seq<char>, d: Seq<char>, tail: Seq<char>)
    requires
        all_lower_known(head),
        ascii_lowered(head) == lower_head,
        all_lower_known(tail),
        ascii_lowered(tail) == tail,
        clean(lower_head),
        clean(tail),
        d.len() > 0,
        forall|i: int| 0 <= i < d.len() ==> is_digit(#[trigger] d[i]),
    ensures
        !asserts_absence(head + d + tail),
{
    lemma_lower_digits(d);
    lemma_lower_concat(head, d);
    lemma_lower_concat(head + d, tail);
    lemma_clean_concat(lower_head, d, tail);
    assert(lowercase(head + d + tail) == lower_head + d + tail);
    lemma_clean_has_no_phrase(lower_head + d + tail);
}

/// The data headline never asserts that something does not exist: lowercased,
/// it holds none of the absence phrases.
pub proof fn law_data_headline_scoped(level: Saturation, matches: Seq<Match>)
    ensures
        !asserts_absence(data_headline_text(level, matches)),
{
    let n = count_at_least(matches, CLOSE_SIMILARITY as int);
    let d = decimal(n);
    lemma_decimal_digits(n);
    lemma_lower_tails();
    match level {
        Saturation::Saturated => {
            lemma_lower_saturated();
            lemma_clean_saturated();
            lemma_clean_tools();
            lemma_counted_headline_scoped(
                "Saturated — "@,
                "saturated — "@,
                d,
                " closely-related tools turned up in the sources checked."@,
            );
        },
        Saturation::Crowded => {
            lemma_lower_crowded();
            lemma_clean_crowded();
            if n == 1 {
                lemma_clean_tool();
                assert(data_headline_text(level, matches) == "Crowded — "@ + d
                    + " closely-related tool turned up in the sources checked."@);
                lemma_counted_headline_scoped(
                    "Crowded — "@,
                    "crowded — "@,
                    d,
                    " closely-related tool turned up in the sources checked."@,
                );
            } else {
                lemma_clean_tools();
                assert(data_headline_text(level, matches) == "Crowded — "@ + d
                    + " closely-related tools turned up in the sources checked."@);
                lemma_counted_headline_scoped(
                    "Crowded — "@,
                    "crowded — "@,
                    d,
                    " closely-related tools turned up in the sources checked."@,
                );
            }
        },
        Saturation::Open => {
            lemma_lower_open();
            lemma_clean_open();
            lemma_clean_has_no_phrase(
                "nothing close turned up in the sources checked — keep looking before committing."@,
            );
        },
    }
}

} // verus!
