//! Text primitives over character sequences: strings seen as `Seq<char>`,
//! substring search, whitespace trimming, decimal rendering and joining.

use vstd::prelude::*;
use vstd::string::*;

verus! {

broadcast use vstd::string::group_string_axioms;

/// The characters of `s`, in order.
pub fn chars_of(s: &str) -> (v: Vec<char>)
    ensures
        v@ == s@,
{
    let mut v: Vec<char> = Vec::new();
    for c in it: s.chars()
        invariant
            v@ == it.seq().take(it.index()),
    {
        v.push(c);
    }
    assert(v@ =~= s@);
    v
}

/// Whether `c` has the Unicode `White_Space` property, which is what
/// `char::is_whitespace` tests.
pub open spec fn is_ws(c: char) -> bool {
    ||| ('\u{9}' <= c && c <= '\u{d}')
    ||| c == ' '
    ||| c == '\u{85}'
    ||| c == '\u{a0}'
    ||| c == '\u{1680}'
    ||| ('\u{2000}' <= c && c <= '\u{200a}')
    ||| c == '\u{2028}'
    ||| c == '\u{2029}'
    ||| c == '\u{202f}'
    ||| c == '\u{205f}'
    ||| c == '\u{3000}'
}

/// Executable `White_Space` test.
pub fn is_whitespace(c: char) -> (r: bool)
    ensures
        r == is_ws(c),
{
    ('\u{9}' <= c && c <= '\u{d}') || c == ' ' || c == '\u{85}' || c == '\u{a0}' || c == '\u{1680}'
        || ('\u{2000}' <= c && c <= '\u{200a}') || c == '\u{2028}' || c == '\u{2029}' || c
        == '\u{202f}' || c == '\u{205f}' || c == '\u{3000}'
}

/// Whether `c` is an ASCII letter or digit.
pub open spec fn is_ascii_alnum(c: char) -> bool {
    ('0' <= c && c <= '9') || ('a' <= c && c <= 'z') || ('A' <= c && c <= 'Z')
}

/// Executable ASCII alphanumeric test.
pub fn is_ascii_alphanumeric(c: char) -> (r: bool)
    ensures
        r == is_ascii_alnum(c),
{
    ('0' <= c && c <= '9') || ('a' <= c && c <= 'z') || ('A' <= c && c <= 'Z')
}

/// `needle` occurs in `hay` starting at position `i`.
pub open spec fn occurs_at(hay: Seq<char>, needle: Seq<char>, i: int) -> bool {
    0 <= i && i + needle.len() <= hay.len() && hay.subrange(i, i + needle.len()) == needle
}

/// `needle` occurs somewhere in `hay`.
pub open spec fn contains_seq(hay: Seq<char>, needle: Seq<char>) -> bool {
    exists|i: int| occurs_at(hay, needle, i)
}

/// `i` is the first position at which `needle` occurs in `hay`.
pub open spec fn is_first_occurrence(hay: Seq<char>, needle: Seq<char>, i: int) -> bool {
    &&& occurs_at(hay, needle, i)
    &&& forall|j: int| 0 <= j < i ==> !occurs_at(hay, needle, j)
}

/// Whether `needle` occurs in `hay` at position `i`.
pub fn matches_at(hay: &[char], needle: &[char], i: usize) -> (r: bool)
    ensures
        r == occurs_at(hay@, needle@, i as int),
{
    if i > hay.len() || needle.len() > hay.len() - i {
        return false;
    }
    let mut k: usize = 0;
    while k < needle.len()
        invariant
            k <= needle.len(),
            i + needle.len() <= hay.len(),
            forall|j: int| 0 <= j < k ==> hay@[i + j] == needle@[j],
        decreases needle.len() - k,
    {
        if hay[i + k] != needle[k] {
            assert(hay@.subrange(i as int, i + needle.len())[k as int] != needle@[k as int]);
            return false;
        }
        k += 1;
    }
    assert(hay@.subrange(i as int, i + needle.len()) =~= needle@);
    true
}

/// The first position at which `needle` occurs in `hay`, if it occurs.
pub fn find(hay: &[char], needle: &[char]) -> (r: Option<usize>)
    ensures
        match r {
            Some(i) => is_first_occurrence(hay@, needle@, i as int),
            None => !contains_seq(hay@, needle@),
        },
{
    let mut i: usize = 0;
    loop
        invariant
            i <= hay.len(),
            forall|j: int| 0 <= j < i ==> !occurs_at(hay@, needle@, j),
        decreases hay.len() - i,
    {
        if matches_at(hay, needle, i) {
            return Some(i);
        }
        if i == hay.len() {
            return None;
        }
        i += 1;
    }
}

/// Whether `needle` occurs anywhere in `hay`.
pub fn contains(hay: &[char], needle: &[char]) -> (r: bool)
    ensures
        r == contains_seq(hay@, needle@),
{
    match find(hay, needle) {
        Some(_) => true,
        None => false,
    }
}

/// `s` with its leading whitespace removed (`str::trim_start`).
pub open spec fn trim_start(s: Seq<char>) -> Seq<char>
    decreases s.len(),
{
    if s.len() > 0 && is_ws(s[0]) {
        trim_start(s.drop_first())
    } else {
        s
    }
}

/// `s` with its trailing whitespace removed (`str::trim_end`).
pub open spec fn trim_end(s: Seq<char>) -> Seq<char>
    decreases s.len(),
{
    if s.len() > 0 && is_ws(s.last()) {
        trim_end(s.drop_last())
    } else {
        s
    }
}

/// `s` with leading and trailing whitespace removed (`str::trim`).
pub open spec fn trim(s: Seq<char>) -> Seq<char> {
    trim_end(trim_start(s))
}

/// The characters of `s` from `lo` up to `hi`.
pub fn slice_to_vec(s: &[char], lo: usize, hi: usize) -> (v: Vec<char>)
    requires
        lo <= hi <= s.len(),
    ensures
        v@ == s@.subrange(lo as int, hi as int),
{
    let mut v: Vec<char> = Vec::new();
    let mut k = lo;
    while k < hi
        invariant
            lo <= k <= hi <= s.len(),
            v@ == s@.subrange(lo as int, k as int),
        decreases hi - k,
    {
        v.push(s[k]);
        k += 1;
        assert(v@ =~= s@.subrange(lo as int, k as int));
    }
    v
}

/// The first position from `lo` on, up to `hi`, that is not whitespace: the
/// start of `s[lo..hi]` trimmed at its start.
pub fn trim_start_index(s: &[char], lo: usize, hi: usize) -> (i: usize)
    requires
        lo <= hi <= s.len(),
    ensures
        lo <= i <= hi,
        trim_start(s@.subrange(lo as int, hi as int)) == s@.subrange(i as int, hi as int),
{
    let mut i: usize = lo;
    while i < hi && is_whitespace(s[i])
        invariant
            lo <= i <= hi <= s.len(),
            trim_start(s@.subrange(lo as int, hi as int)) == trim_start(
                s@.subrange(i as int, hi as int),
            ),
        decreases hi - i,
    {
        assert(s@.subrange(i as int, hi as int).drop_first() =~= s@.subrange(i + 1, hi as int));
        i += 1;
    }
    i
}

/// The end of `s[lo..hi]` trimmed at its end.
pub fn trim_end_index(s: &[char], lo: usize, hi: usize) -> (j: usize)
    requires
        lo <= hi <= s.len(),
    ensures
        lo <= j <= hi,
        trim_end(s@.subrange(lo as int, hi as int)) == s@.subrange(lo as int, j as int),
{
    let mut j: usize = hi;
    while j > lo && is_whitespace(s[j - 1])
        invariant
            lo <= j <= hi <= s.len(),
            trim_end(s@.subrange(lo as int, hi as int)) == trim_end(
                s@.subrange(lo as int, j as int),
            ),
        decreases j,
    {
        assert(s@.subrange(lo as int, j as int).drop_last() =~= s@.subrange(lo as int, j - 1));
        j -= 1;
    }
    j
}

/// The characters of `s` without leading whitespace.
pub fn trim_start_chars(s: &[char]) -> (v: Vec<char>)
    ensures
        v@ == trim_start(s@),
{
    assert(s@.subrange(0, s.len() as int) =~= s@);
    let i = trim_start_index(s, 0, s.len());
    slice_to_vec(s, i, s.len())
}

/// The characters of `s` without trailing whitespace.
pub fn trim_end_chars(s: &[char]) -> (v: Vec<char>)
    ensures
        v@ == trim_end(s@),
{
    assert(s@.subrange(0, s.len() as int) =~= s@);
    let j = trim_end_index(s, 0, s.len());
    slice_to_vec(s, 0, j)
}

/// A needle has at most one first occurrence.
pub proof fn lemma_first_occurrence_unique(hay: Seq<char>, needle: Seq<char>, p: int, q: int)
    requires
        is_first_occurrence(hay, needle, p),
        is_first_occurrence(hay, needle, q),
    ensures
        p == q,
{
    if p < q {
        assert(!occurs_at(hay, needle, p));
    } else if q < p {
        assert(!occurs_at(hay, needle, q));
    }
}

/// `trim_start(s)` is a suffix of `s` that starts with no whitespace.
pub proof fn lemma_trim_start_suffix(s: Seq<char>) -> (k: int)
    ensures
        0 <= k <= s.len(),
        trim_start(s) == s.skip(k),
        trim_start(s).len() > 0 ==> !is_ws(trim_start(s)[0]),
    decreases s.len(),
{
    if s.len() > 0 && is_ws(s[0]) {
        let k = lemma_trim_start_suffix(s.drop_first());
        assert(s.drop_first().skip(k) =~= s.skip(k + 1));
        k + 1
    } else {
        assert(s.skip(0) =~= s);
        0
    }
}

/// `trim_end(s)` is a prefix of `s` that ends with no whitespace.
pub proof fn lemma_trim_end_prefix(s: Seq<char>) -> (k: int)
    ensures
        0 <= k <= s.len(),
        trim_end(s) == s.take(k),
        trim_end(s).len() > 0 ==> !is_ws(trim_end(s).last()),
    decreases s.len(),
{
    if s.len() > 0 && is_ws(s.last()) {
        let k = lemma_trim_end_prefix(s.drop_last());
        assert(s.drop_last().take(k) =~= s.take(k));
        k
    } else {
        assert(s.take(s.len() as int) =~= s);
        s.len() as int
    }
}

/// `trim(s)` is a piece of `s`, and trimming it again changes nothing.
pub proof fn lemma_trim_piece(s: Seq<char>) -> (ab: (int, int))
    ensures
        0 <= ab.0 <= ab.1 <= s.len(),
        trim(s) == s.subrange(ab.0, ab.1),
        trim(trim(s)) == trim(s),
{
    let a = lemma_trim_start_suffix(s);
    let u = trim_start(s);
    let k = lemma_trim_end_prefix(u);
    let v = trim_end(u);
    assert(s.skip(a).take(k) =~= s.subrange(a, a + k));
    if v.len() > 0 {
        assert(v[0] == u[0]);
    }
    assert(trim_start(v) == v);
    assert(trim_end(v) == v);
    (a, a + k)
}

/// A needle that does not occur in `s` occurs in no piece of it.
pub proof fn lemma_absent_from_piece(s: Seq<char>, needle: Seq<char>, i: int, j: int)
    requires
        0 <= i <= j <= s.len(),
        !contains_seq(s, needle),
    ensures
        !contains_seq(s.subrange(i, j), needle),
{
    let piece = s.subrange(i, j);
    assert forall|q: int| !occurs_at(piece, needle, q) by {
        if occurs_at(piece, needle, q) {
            assert(s.subrange(i + q, i + q + needle.len()) =~= piece.subrange(
                q,
                q + needle.len(),
            ));
            assert(occurs_at(s, needle, i + q));
        }
    }
}

/// A needle that occurs has a first occurrence, at or before any given one.
pub proof fn lemma_first_occurrence_exists(hay: Seq<char>, needle: Seq<char>, i: int)
    requires
        occurs_at(hay, needle, i),
    ensures
        exists|p: int| is_first_occurrence(hay, needle, p),
    decreases i,
{
    if exists|j: int| 0 <= j < i && occurs_at(hay, needle, j) {
        let j = choose|j: int| 0 <= j < i && occurs_at(hay, needle, j);
        lemma_first_occurrence_exists(hay, needle, j);
    } else {
        assert(is_first_occurrence(hay, needle, i));
    }
}

/// Before the first occurrence of a non-empty needle, the needle does not occur.
pub proof fn lemma_absent_before_first(hay: Seq<char>, needle: Seq<char>, e: int)
    requires
        needle.len() > 0,
        is_first_occurrence(hay, needle, e),
    ensures
        !contains_seq(hay.take(e), needle),
{
    let head = hay.take(e);
    assert forall|q: int| !occurs_at(head, needle, q) by {
        if occurs_at(head, needle, q) {
            assert(hay.subrange(q, q + needle.len()) =~= head.subrange(q, q + needle.len()));
            assert(occurs_at(hay, needle, q));
        }
    }
}

/// The characters of `s` without leading and trailing whitespace.
pub fn trim_chars(s: &[char]) -> (v: Vec<char>)
    ensures
        v@ == trim(s@),
{
    let t = trim_start_chars(s);
    trim_end_chars(t.as_slice())
}

/// The character that writes the decimal digit `d`.
pub open spec fn digit(d: int) -> char {
    if d == 0 {
        '0'
    } else if d == 1 {
        '1'
    } else if d == 2 {
        '2'
    } else if d == 3 {
        '3'
    } else if d == 4 {
        '4'
    } else if d == 5 {
        '5'
    } else if d == 6 {
        '6'
    } else if d == 7 {
        '7'
    } else if d == 8 {
        '8'
    } else {
        '9'
    }
}

/// The decimal digits of `n`, most significant first, without leading zeros.
pub open spec fn decimal(n: nat) -> Seq<char>
    decreases n,
{
    if n < 10 {
        seq![digit(n as int)]
    } else {
        decimal(n / 10) + seq![digit((n % 10) as int)]
    }
}

/// Executable digit character.
pub fn digit_char(d: u64) -> (c: char)
    requires
        d < 10,
    ensures
        c == digit(d as int),
{
    if d == 0 {
        '0'
    } else if d == 1 {
        '1'
    } else if d == 2 {
        '2'
    } else if d == 3 {
        '3'
    } else if d == 4 {
        '4'
    } else if d == 5 {
        '5'
    } else if d == 6 {
        '6'
    } else if d == 7 {
        '7'
    } else if d == 8 {
        '8'
    } else {
        '9'
    }
}

/// Appends the decimal digits of `n` to `out`.
pub fn push_decimal(out: &mut Vec<char>, n: u64)
    ensures
        final(out)@ == old(out)@ + decimal(n as nat),
    decreases n,
{
    let ghost start = out@;
    if n >= 10 {
        push_decimal(out, n / 10);
    }
    out.push(digit_char(n % 10));
    assert(out@ =~= start + decimal(n as nat));
}

/// A character whose lowercase mapping the library relies on: an ASCII
/// character, or U+2014 EM DASH (which has no lowercase mapping).
pub open spec fn lower_known(c: char) -> bool {
    (c as u32) < 128 || c == '\u{2014}'
}

/// The lowercase mapping of such a character: `A`–`Z` become `a`–`z`, every
/// other one stays as it is.
pub open spec fn ascii_lower(c: char) -> char {
    if 'A' <= c && c <= 'Z' {
        ((c as u32) + 32) as char
    } else {
        c
    }
}

/// Every character of `s` is one whose lowercase mapping is relied on.
pub open spec fn all_lower_known(s: Seq<char>) -> bool {
    forall|i: int| 0 <= i < s.len() ==> lower_known(#[trigger] s[i])
}

/// `s` with `A`–`Z` mapped to `a`–`z`.
pub open spec fn ascii_lowered(s: Seq<char>) -> Seq<char> {
    s.map_values(|c: char| ascii_lower(c))
}

/// What `str::to_lowercase` returns for a string with these characters, in
/// general: the Unicode lowercase mapping of the whole string.
pub uninterp spec fn unicode_lowercase(s: Seq<char>) -> Seq<char>;

/// What `str::to_lowercase` returns for a string with these characters. A
/// string of ASCII characters and em dashes is mapped character by
/// character: `A`–`Z` to `a`–`z`, the rest unchanged (none of them has
/// another lowercase mapping, and none is the context-dependent `Σ`).
pub open spec fn lowercase(s: Seq<char>) -> Seq<char> {
    if all_lower_known(s) {
        ascii_lowered(s)
    } else {
        unicode_lowercase(s)
    }
}

/// `str::to_lowercase`. Trusted to return `lowercase` of its argument: a
/// function of the characters alone, which on ASCII characters and em dashes
/// maps `A`–`Z` to `a`–`z` and leaves the rest; nothing else about the
/// Unicode mapping is stated.
#[verifier::external_body]
pub(crate) fn to_lowercase(s: &str) -> (r: String)
    ensures
        r@ == (if all_lower_known(s@) {
            ascii_lowered(s@)
        } else {
            unicode_lowercase(s@)
        }),
{
    s.to_lowercase()
}

/// `String`'s `FromIterator<&char>`. Trusted to give a string that holds
/// exactly the given characters, in order.
#[verifier::external_body]
pub(crate) fn string_from_chars(v: &[char]) -> (s: String)
    ensures
        s@ == v@,
{
    v.iter().collect()
}

/// The parts joined with `sep` between neighbours (`[T]::join`).
pub open spec fn join(parts: Seq<Seq<char>>, sep: Seq<char>) -> Seq<char>
    decreases parts.len(),
{
    if parts.len() == 0 {
        seq![]
    } else if parts.len() == 1 {
        parts[0]
    } else {
        join(parts.drop_last(), sep) + sep + parts.last()
    }
}

/// The character views of strings.
pub open spec fn string_views(v: Seq<String>) -> Seq<Seq<char>> {
    v.map_values(|s: String| s@)
}

/// The strings joined with `sep` between neighbours.
pub fn join_strings(parts: &[String], sep: &str) -> (r: String)
    ensures
        r@ == join(string_views(parts@), sep@),
{
    let mut r = String::new();
    let mut i: usize = 0;
    while i < parts.len()
        invariant
            i <= parts.len(),
            r@ == join(string_views(parts@.take(i as int)), sep@),
        decreases parts.len() - i,
    {
        assert(string_views(parts@.take(i + 1)).drop_last() =~= string_views(
            parts@.take(i as int),
        ));
        if i != 0 {
            r.append(sep);
        }
        r.append(parts[i].as_str());
        assert(r@ =~= join(string_views(parts@.take(i + 1)), sep@));
        i += 1;
    }
    assert(parts@.take(parts.len() as int) =~= parts@);
    r
}

/// The decimal text of `n`.
pub fn decimal_string(n: u64) -> (r: String)
    ensures
        r@ == decimal(n as nat),
{
    let mut v: Vec<char> = Vec::new();
    push_decimal(&mut v, n);
    assert(v@ =~= decimal(n as nat));
    string_from_chars(v.as_slice())
}

/// `num / den` (for `den > 0`) rounded to the nearest integer; an exact
/// half goes to the even neighbour, as `{:.2}` does for a value that it
/// holds exactly.
pub open spec fn round_div(num: int, den: int) -> int {
    let q = num / den;
    let r = num % den;
    if 2 * r < den {
        q
    } else if 2 * r > den {
        q + 1
    } else if q % 2 == 0 {
        q
    } else {
        q + 1
    }
}

/// The text of `h` hundredths with two decimals, such as `0.85` or `-1.20`.
pub open spec fn two_decimals(h: int) -> Seq<char> {
    let a = if h < 0 {
        -h
    } else {
        h
    };
    let sign = if h < 0 {
        seq!['-']
    } else {
        Seq::<char>::empty()
    };
    sign + decimal((a / 100) as nat) + seq!['.', digit((a % 100) / 10), digit(a % 10)]
}

/// `round_div` is the nearest integer: `num` lies within half a `den` of
/// `r * den`, and when it lies exactly half-way the even neighbour is taken.
pub proof fn law_round_div_nearest(num: int, den: int)
    requires
        den > 0,
    ensures
        ({
            let r = round_div(num, den);
            let d = num - r * den;
            &&& -den <= 2 * d <= den
            &&& (2 * d == den || 2 * d == -den) ==> r % 2 == 0
        }),
{
    let q = num / den;
    let rem = num % den;
    vstd::arithmetic::div_mod::lemma_fundamental_div_mod(num, den);
    vstd::arithmetic::div_mod::lemma_mod_bound(num, den);
    assert((q + 1) * den == q * den + den) by (nonlinear_arith);
    assert(den * q == q * den) by (nonlinear_arith);
}

/// `num / den` rounded to the nearest integer, exact halves to even.
pub fn round_div_exec(num: i64, den: i64) -> (r: i64)
    requires
        0 < den <= 1_000_000,
        -1_000_000_000_000 <= num <= 1_000_000_000_000,
    ensures
        r == round_div(num as int, den as int),
        den >= 2 ==> -1_000_000_000_000 <= r <= 1_000_000_000_000,
{
    let d: u64 = den as u64;
    let neg: bool = num < 0;
    let a: u64 = if neg {
        (-num) as u64
    } else {
        num as u64
    };
    let q0: u64 = a / d;
    let r0: u64 = a % d;
    proof {
        vstd::arithmetic::div_mod::lemma_fundamental_div_mod(a as int, d as int);
        assert(d >= 2 ==> 2 * q0 <= a) by (nonlinear_arith)
            requires
                a as int == d as int * q0 as int + r0 as int,
                r0 >= 0,
                q0 >= 0,
        ;
    }
    let q: i64;
    let rem: u64;
    if !neg {
        q = q0 as i64;
        rem = r0;
    } else if r0 == 0 {
        q = -(q0 as i64);
        rem = 0;
    } else {
        q = -(q0 as i64) - 1;
        rem = d - r0;
    }
    proof {
        assert(num as int == q as int * den as int + rem as int) by (nonlinear_arith)
            requires
                a as int == d as int * q0 as int + r0 as int,
                d as int == den as int,
                neg ==> num as int == -(a as int),
                !neg ==> num as int == a as int,
                !neg ==> q as int == q0 as int && rem as int == r0 as int,
                neg && r0 == 0 ==> q as int == -(q0 as int) && rem == 0,
                neg && r0 != 0 ==> q as int == -(q0 as int) - 1 && rem as int == d as int
                    - r0 as int,
        ;
        vstd::arithmetic::div_mod::lemma_fundamental_div_mod_converse(
            num as int,
            den as int,
            q as int,
            rem as int,
        );
    }
    let even: bool = if !neg || r0 == 0 {
        q0 % 2 == 0
    } else {
        q0 % 2 == 1
    };
    assert(even == ((q as int) % 2 == 0));
    if 2 * rem < d {
        q
    } else if 2 * rem > d {
        q + 1
    } else if even {
        q
    } else {
        q + 1
    }
}

/// The text of `h` hundredths with two decimals.
pub fn two_decimals_string(h: i64) -> (r: String)
    requires
        -1_000_000_000_000 <= h <= 1_000_000_000_000,
    ensures
        r@ == two_decimals(h as int),
{
    let a: u64 = if h < 0 {
        (-h) as u64
    } else {
        h as u64
    };
    let mut v: Vec<char> = Vec::new();
    if h < 0 {
        v.push('-');
    }
    push_decimal(&mut v, a / 100);
    v.push('.');
    v.push(digit_char((a % 100) / 10));
    v.push(digit_char(a % 10));
    assert(v@ =~= two_decimals(h as int));
    string_from_chars(v.as_slice())
}

/// `String::push`. Trusted to append the character.
#[verifier::external_body]
pub(crate) fn string_push(s: &mut String, c: char)
    ensures
        final(s)@ == old(s)@.push(c),
{
    s.push(c)
}

/// `String::pop`. Trusted to remove and return the last character, if any.
#[verifier::external_body]
pub(crate) fn string_pop(s: &mut String) -> (r: Option<char>)
    ensures
        old(s)@.len() == 0 ==> r is None && final(s)@ == old(s)@,
        old(s)@.len() > 0 ==> r == Some(old(s)@.last()) && final(s)@ == old(s)@.drop_last(),
{
    s.pop()
}

} // verus!
