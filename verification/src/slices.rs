//! Trimming, splitting and stripping of character slices.

use crate::text;
use crate::text::{find_chars, occurs, to_chars};
use vstd::prelude::*;
use vstd::slice::slice_subrange;

verus! {

// ---------------------------------------------------------------------------
// White space
// ---------------------------------------------------------------------------

/// The white space characters of Unicode.
pub open spec fn is_space(c: char) -> bool {
    ||| '\u{9}' <= c && c <= '\u{d}'
    ||| c == ' '
    ||| c == '\u{85}'
    ||| c == '\u{a0}'
    ||| c == '\u{1680}'
    ||| '\u{2000}' <= c && c <= '\u{200a}'
    ||| c == '\u{2028}'
    ||| c == '\u{2029}'
    ||| c == '\u{202f}'
    ||| c == '\u{205f}'
    ||| c == '\u{3000}'
}

/// Whether a character is white space.
pub fn is_white(c: char) -> (r: bool)
    ensures
        r == is_space(c),
{
    ('\u{9}' <= c && c <= '\u{d}') || c == ' ' || c == '\u{85}' || c == '\u{a0}' || c == '\u{1680}'
        || ('\u{2000}' <= c && c <= '\u{200a}') || c == '\u{2028}' || c == '\u{2029}' || c
        == '\u{202f}' || c == '\u{205f}' || c == '\u{3000}'
}

/// The text without leading white space.
pub open spec fn trim_start(s: Seq<char>) -> Seq<char>
    decreases s.len(),
{
    if s.len() > 0 && is_space(s[0]) {
        trim_start(s.subrange(1, s.len() as int))
    } else {
        s
    }
}

/// The text without trailing white space.
pub open spec fn trim_end(s: Seq<char>) -> Seq<char>
    decreases s.len(),
{
    if s.len() > 0 && is_space(s.last()) {
        trim_end(s.drop_last())
    } else {
        s
    }
}

/// The text without white space at its ends.
pub open spec fn trim(s: Seq<char>) -> Seq<char> {
    trim_end(trim_start(s))
}

pub fn trim_start_of<'a>(s: &'a [char]) -> (r: &'a [char])
    ensures
        r@ == trim_start(s@),
        r@.len() <= s@.len(),
        r@ == s@.subrange(s@.len() - r@.len(), s@.len() as int),
{
    let n: usize = s.len();
    let mut i: usize = 0;
    assert(s@.subrange(0, n as int) =~= s@);
    while i < n && is_white(s[i])
        invariant
            i <= n,
            n == s@.len(),
            trim_start(s@) == trim_start(s@.subrange(i as int, n as int)),
        decreases n - i,
    {
        assert(s@.subrange(i as int, n as int).subrange(1, n - i) =~= s@.subrange(
            i + 1,
            n as int,
        ));
        i = i + 1;
    }
    slice_subrange(s, i, n)
}

pub fn trim_end_of<'a>(s: &'a [char]) -> (r: &'a [char])
    ensures
        r@ == trim_end(s@),
        r@.len() <= s@.len(),
{
    let mut n: usize = s.len();
    assert(s@.subrange(0, n as int) =~= s@);
    while n > 0 && is_white(s[n - 1])
        invariant
            n <= s@.len(),
            trim_end(s@) == trim_end(s@.subrange(0, n as int)),
        decreases n,
    {
        assert(s@.subrange(0, n as int).drop_last() =~= s@.subrange(0, n - 1));
        n = n - 1;
    }
    slice_subrange(s, 0, n)
}

pub fn trim_of<'a>(s: &'a [char]) -> (r: &'a [char])
    ensures
        r@ == trim(s@),
        r@.len() <= s@.len(),
{
    trim_end_of(trim_start_of(s))
}

/// The words between white space.
pub open spec fn words(s: Seq<char>) -> Seq<Seq<char>>
    decreases s.len(),
{
    let t = trim_start(s);
    if t.len() == 0 || t.len() > s.len() {
        Seq::empty()
    } else {
        let n = word_len(t);
        if 0 < n <= t.len() {
            seq![t.subrange(0, n)] + words(t.subrange(n, t.len() as int))
        } else {
            Seq::empty()
        }
    }
}

/// The number of characters before the first white space.
pub open spec fn word_len(s: Seq<char>) -> int
    decreases s.len(),
{
    if s.len() > 0 && !is_space(s[0]) {
        1 + word_len(s.subrange(1, s.len() as int))
    } else {
        0
    }
}

/// The number of characters before the first white space.
pub fn word_len_of(s: &[char]) -> (n: usize)
    ensures
        n == word_len(s@),
        n <= s@.len(),
{
    let len: usize = s.len();
    let mut i: usize = 0;
    assert(s@.subrange(0, len as int) =~= s@);
    while i < len && !is_white(s[i])
        invariant
            i <= len,
            len == s@.len(),
            word_len(s@) == i + word_len(s@.subrange(i as int, len as int)),
        decreases len - i,
    {
        assert(s@.subrange(i as int, len as int).subrange(1, len - i) =~= s@.subrange(
            i + 1,
            len as int,
        ));
        i = i + 1;
    }
    i
}

/// The contents of a sequence of slices.
pub open spec fn slice_views(v: Seq<&[char]>) -> Seq<Seq<char>> {
    Seq::new(v.len(), |i: int| v[i]@)
}

pub fn words_of<'a>(s: &'a [char]) -> (v: Vec<&'a [char]>)
    ensures
        slice_views(v@) == words(s@),
{
    let mut v: Vec<&'a [char]> = Vec::new();
    let mut rest: &'a [char] = s;
    assert(slice_views(v@) + words(rest@) =~= words(s@));
    loop
        invariant
            slice_views(v@) + words(rest@) == words(s@),
        decreases rest@.len(),
    {
        let t: &'a [char] = trim_start_of(rest);
        if t.len() == 0 {
            assert(slice_views(v@) + Seq::empty() =~= slice_views(v@));
            return v;
        }
        let n: usize = word_len_of(t);
        proof {
            assert(!is_space(t@[0])) by {
                lemma_trim_start_head(rest@);
            }
            assert(n >= 1) by {
                assert(word_len(t@) == 1 + word_len(t@.subrange(1, t@.len() as int)));
                lemma_word_len_nonneg(t@.subrange(1, t@.len() as int));
            }
        }
        let word: &'a [char] = slice_subrange(t, 0, n);
        let ghost before = slice_views(v@);
        v.push(word);
        let next: &'a [char] = slice_subrange(t, n, t.len());
        proof {
            assert(slice_views(v@) =~= before.push(word@));
            assert(before + (seq![word@] + words(next@)) =~= before.push(word@) + words(next@));
        }
        rest = next;
    }
}

pub proof fn lemma_trim_start_head(s: Seq<char>)
    ensures
        trim_start(s).len() > 0 ==> !is_space(trim_start(s)[0]),
        trim_start(s).len() <= s.len(),
    decreases s.len(),
{
    if s.len() > 0 && is_space(s[0]) {
        lemma_trim_start_head(s.subrange(1, s.len() as int));
    }
}

/// The first word, or nothing.
pub open spec fn first_word(s: Seq<char>) -> Seq<char> {
    if words(s).len() > 0 {
        words(s)[0]
    } else {
        Seq::empty()
    }
}

/// The first word, or nothing.
pub fn first_word_of<'a>(s: &'a [char]) -> (r: &'a [char])
    ensures
        r@ == first_word(s@),
{
    let v: Vec<&'a [char]> = words_of(s);
    if v.len() > 0 {
        assert(slice_views(v@)[0] == v@[0]@);
        v[0]
    } else {
        let empty: &'a [char] = slice_subrange(s, 0, 0);
        assert(empty@ =~= Seq::empty());
        empty
    }
}

/// What is left after trimming the start is the end of the text.
pub proof fn lemma_trim_start_tail(s: Seq<char>)
    ensures
        trim_start(s).len() <= s.len(),
        trim_start(s) == s.subrange(s.len() - trim_start(s).len(), s.len() as int),
    decreases s.len(),
{
    if s.len() > 0 && is_space(s[0]) {
        let rest = s.subrange(1, s.len() as int);
        lemma_trim_start_tail(rest);
        let n = trim_start(s).len() as int;
        assert(rest.subrange(rest.len() - n, rest.len() as int) =~= s.subrange(
            s.len() - n,
            s.len() as int,
        ));
    } else {
        assert(s.subrange(0, s.len() as int) =~= s);
    }
}

proof fn lemma_word_len_nonneg(s: Seq<char>)
    ensures
        0 <= word_len(s) <= s.len(),
    decreases s.len(),
{
    if s.len() > 0 && !is_space(s[0]) {
        lemma_word_len_nonneg(s.subrange(1, s.len() as int));
    }
}

// ---------------------------------------------------------------------------
// Stripping
// ---------------------------------------------------------------------------

/// The text without the prefix `p`, however often it is repeated.
pub open spec fn strip_all(s: Seq<char>, p: Seq<char>) -> Seq<char>
    decreases s.len(),
{
    if p.len() > 0 && text::starts_with(s, p) {
        strip_all(s.subrange(p.len() as int, s.len() as int), p)
    } else {
        s
    }
}

/// The text without the trailing characters `c`.
pub open spec fn strip_end(s: Seq<char>, c: char) -> Seq<char>
    decreases s.len(),
{
    if s.len() > 0 && s.last() == c {
        strip_end(s.drop_last(), c)
    } else {
        s
    }
}

/// The text without the leading characters `c`.
pub open spec fn strip_start(s: Seq<char>, c: char) -> Seq<char>
    decreases s.len(),
{
    if s.len() > 0 && s[0] == c {
        strip_start(s.subrange(1, s.len() as int), c)
    } else {
        s
    }
}

pub fn strip_all_of<'a>(s: &'a [char], p: &str) -> (r: &'a [char])
    ensures
        r@ == strip_all(s@, p@),
        r@.len() <= s@.len(),
{
    let pat: Vec<char> = to_chars(p);
    let n: usize = s.len();
    let mut i: usize = 0;
    assert(s@.subrange(0, n as int) =~= s@);
    if pat.len() == 0 {
        return s;
    }
    while occurs(s, pat.as_slice(), i)
        invariant
            i <= n,
            n == s@.len(),
            pat@ == p@,
            pat@.len() > 0,
            strip_all(s@, p@) == strip_all(s@.subrange(i as int, n as int), p@),
        decreases n - i,
    {
        proof {
            let rest = s@.subrange(i as int, n as int);
            assert(rest.subrange(0, pat@.len() as int) =~= s@.subrange(i as int, i + pat@.len()));
            assert(rest.subrange(pat@.len() as int, n - i) =~= s@.subrange(
                i + pat@.len(),
                n as int,
            ));
        }
        i = i + pat.len();
    }
    proof {
        let rest = s@.subrange(i as int, n as int);
        if text::starts_with(rest, p@) {
            assert(s@.subrange(i as int, i + pat@.len()) =~= rest.subrange(0, pat@.len() as int));
        }
    }
    slice_subrange(s, i, n)
}

pub fn strip_end_of<'a>(s: &'a [char], c: char) -> (r: &'a [char])
    ensures
        r@ == strip_end(s@, c),
        r@.len() <= s@.len(),
{
    let mut n: usize = s.len();
    assert(s@.subrange(0, n as int) =~= s@);
    while n > 0 && s[n - 1] == c
        invariant
            n <= s@.len(),
            strip_end(s@, c) == strip_end(s@.subrange(0, n as int), c),
        decreases n,
    {
        assert(s@.subrange(0, n as int).drop_last() =~= s@.subrange(0, n - 1));
        n = n - 1;
    }
    slice_subrange(s, 0, n)
}

pub fn strip_start_of<'a>(s: &'a [char], c: char) -> (r: &'a [char])
    ensures
        r@ == strip_start(s@, c),
        r@.len() <= s@.len(),
{
    let n: usize = s.len();
    let mut i: usize = 0;
    assert(s@.subrange(0, n as int) =~= s@);
    while i < n && s[i] == c
        invariant
            i <= n,
            n == s@.len(),
            strip_start(s@, c) == strip_start(s@.subrange(i as int, n as int), c),
        decreases n - i,
    {
        assert(s@.subrange(i as int, n as int).subrange(1, n - i) =~= s@.subrange(
            i + 1,
            n as int,
        ));
        i = i + 1;
    }
    slice_subrange(s, i, n)
}

// ---------------------------------------------------------------------------
// Comparing
// ---------------------------------------------------------------------------

pub fn is_text(s: &[char], p: &str) -> (r: bool)
    ensures
        r == (s@ == p@),
{
    let pat: Vec<char> = to_chars(p);
    let r: bool = s.len() == pat.len() && occurs(s, pat.as_slice(), 0);
    assert(s@.len() == p@.len() ==> s@.subrange(0, p@.len() as int) =~= s@);
    r
}

pub fn starts_with_str(s: &[char], p: &str) -> (r: bool)
    ensures
        r == text::starts_with(s@, p@),
{
    let pat: Vec<char> = to_chars(p);
    occurs(s, pat.as_slice(), 0)
}

pub fn ends_with_str(s: &[char], p: &str) -> (r: bool)
    ensures
        r == text::ends_with(s@, p@),
{
    let pat: Vec<char> = to_chars(p);
    s.len() >= pat.len() && occurs(s, pat.as_slice(), s.len() - pat.len())
}

pub fn contains_of(s: &[char], p: &str) -> (r: bool)
    ensures
        r == text::contains(s@, p@),
{
    let pat: Vec<char> = to_chars(p);
    find_chars(s, pat.as_slice(), 0).is_some()
}

/// Whether a text begins with a character.
pub open spec fn begins(s: Seq<char>, c: char) -> bool {
    s.len() > 0 && s[0] == c
}

/// Whether a text ends with a character.
pub open spec fn finishes(s: Seq<char>, c: char) -> bool {
    s.len() > 0 && s.last() == c
}

pub fn begins_with(s: &[char], c: char) -> (r: bool)
    ensures
        r == begins(s@, c),
{
    s.len() > 0 && s[0] == c
}

pub fn finishes_with(s: &[char], c: char) -> (r: bool)
    ensures
        r == finishes(s@, c),
{
    s.len() > 0 && s[s.len() - 1] == c
}

// ---------------------------------------------------------------------------
// Splitting
// ---------------------------------------------------------------------------

/// The first position of a character from `i` on, or the end of the text.
pub open spec fn index_of(s: Seq<char>, c: char, i: int) -> int
    decreases s.len() - i,
{
    if 0 <= i < s.len() && s[i] != c {
        index_of(s, c, i + 1)
    } else {
        i
    }
}

pub proof fn lemma_index_of(s: Seq<char>, c: char, i: int)
    requires
        0 <= i <= s.len(),
    ensures
        i <= index_of(s, c, i) <= s.len(),
        index_of(s, c, i) < s.len() ==> s[index_of(s, c, i)] == c,
        forall|k: int| i <= k < index_of(s, c, i) ==> s[k] != c,
    decreases s.len() - i,
{
    if i < s.len() && s[i] != c {
        lemma_index_of(s, c, i + 1);
    }
}

pub fn find_char(s: &[char], c: char, i: usize) -> (k: usize)
    requires
        i <= s@.len(),
    ensures
        k == index_of(s@, c, i as int),
        i <= k <= s@.len(),
        k < s@.len() ==> s@[k as int] == c,
        forall|j: int| i <= j < k ==> s@[j] != c,
{
    let mut k: usize = i;
    while k < s.len() && s[k] != c
        invariant
            i <= k <= s@.len(),
            index_of(s@, c, i as int) == index_of(s@, c, k as int),
            forall|j: int| i <= j < k ==> s@[j] != c,
        decreases s@.len() - k,
    {
        k = k + 1;
    }
    k
}

/// The text before a character, or all of it.
pub open spec fn before_char(s: Seq<char>, c: char) -> Seq<char> {
    s.subrange(0, index_of(s, c, 0))
}

/// The text behind the first such character, where there is one.
pub open spec fn after_char(s: Seq<char>, c: char) -> Option<Seq<char>> {
    let k = index_of(s, c, 0);
    if k < s.len() {
        Some(s.subrange(k + 1, s.len() as int))
    } else {
        None
    }
}

pub fn before_char_of<'a>(s: &'a [char], c: char) -> (r: &'a [char])
    ensures
        r@ == before_char(s@, c),
        r@.len() <= s@.len(),
{
    let k: usize = find_char(s, c, 0);
    slice_subrange(s, 0, k)
}

pub fn after_char_of<'a>(s: &'a [char], c: char) -> (r: Option<&'a [char]>)
    ensures
        match after_char(s@, c) {
            Some(t) => r is Some && (r->0)@ == t,
            None => r is None,
        },
{
    let k: usize = find_char(s, c, 0);
    if k < s.len() {
        Some(slice_subrange(s, k + 1, s.len()))
    } else {
        None
    }
}

/// The text before the first `p`, or all of it.
pub open spec fn before(s: Seq<char>, p: Seq<char>) -> Seq<char> {
    match text::find(s, p) {
        Some(k) => s.subrange(0, k),
        None => s,
    }
}

/// The text behind the first `p`; nothing where there is none.
pub open spec fn behind(s: Seq<char>, p: Seq<char>) -> Seq<char> {
    match text::find(s, p) {
        Some(k) => s.subrange(k + p.len(), s.len() as int),
        None => Seq::empty(),
    }
}

/// The text split at the first `p`.
pub fn split_at_first<'a>(s: &'a [char], p: &str) -> (r: (&'a [char], &'a [char]))
    ensures
        r.0@ == before(s@, p@),
        r.1@ == behind(s@, p@),
{
    let pat: Vec<char> = to_chars(p);
    let n: usize = s.len();
    match find_chars(s, pat.as_slice(), 0) {
        Some(k) => (slice_subrange(s, 0, k), slice_subrange(s, k + pat.len(), n)),
        None => {
            let empty: &'a [char] = slice_subrange(s, n, n);
            assert(empty@ =~= Seq::empty());
            (s, empty)
        },
    }
}

/// One line from `i` up to its end at `e`, without a carriage return before a
/// newline.
pub open spec fn line_text(s: Seq<char>, i: int, e: int) -> Seq<char> {
    if e < s.len() && e > i && s[e - 1] == '\r' {
        s.subrange(i, e - 1)
    } else {
        s.subrange(i, e)
    }
}

/// The lines of a text from `i` on. What follows the last newline is a line
/// where it is not empty.
pub open spec fn lines_from(s: Seq<char>, i: int) -> Seq<Seq<char>>
    decreases s.len() + 1 - i,
{
    if i < 0 || i >= s.len() {
        Seq::empty()
    } else {
        let e = index_of(s, '\n', i);
        if i <= e <= s.len() {
            seq![line_text(s, i, e)] + lines_from(s, e + 1)
        } else {
            Seq::empty()
        }
    }
}

/// The lines of a text.
pub open spec fn lines(s: Seq<char>) -> Seq<Seq<char>> {
    lines_from(s, 0)
}

pub fn lines_of<'a>(s: &'a [char]) -> (v: Vec<&'a [char]>)
    ensures
        slice_views(v@) == lines(s@),
{
    let mut v: Vec<&'a [char]> = Vec::new();
    let n: usize = s.len();
    let mut i: usize = 0;
    assert(slice_views(v@) + lines_from(s@, 0) =~= lines(s@));
    while i < n
        invariant
            i <= n,
            n == s@.len(),
            slice_views(v@) + lines_from(s@, i as int) == lines(s@),
        decreases n - i,
    {
        let e: usize = find_char(s, '\n', i);
        let line: &'a [char] = if e < n && e > i && s[e - 1] == '\r' {
            slice_subrange(s, i, e - 1)
        } else {
            slice_subrange(s, i, e)
        };
        let ghost before = slice_views(v@);
        v.push(line);
        proof {
            assert(slice_views(v@) =~= before.push(line@));
            assert(before + (seq![line@] + lines_from(s@, e + 1)) =~= before.push(line@)
                + lines_from(s@, e + 1));
        }
        if e == n {
            assert(lines_from(s@, e + 1) =~= Seq::empty());
            assert(lines_from(s@, n as int) =~= Seq::empty());
            i = n;
        } else {
            i = e + 1;
        }
    }
    assert(slice_views(v@) + Seq::empty() =~= slice_views(v@));
    v
}

// ---------------------------------------------------------------------------
// Bytes
// ---------------------------------------------------------------------------

/// The number of bytes of a character.
pub open spec fn char_bytes(c: char) -> nat {
    if (c as u32) < 0x80 {
        1
    } else if (c as u32) < 0x800 {
        2
    } else if (c as u32) < 0x1_0000 {
        3
    } else {
        4
    }
}

/// The number of bytes of a character.
pub fn bytes_of(c: char) -> (n: u8)
    ensures
        n == char_bytes(c),
{
    let code: u32 = c as u32;
    if code < 0x80 {
        1
    } else if code < 0x800 {
        2
    } else if code < 0x1_0000 {
        3
    } else {
        4
    }
}

/// The number of bytes of a text.
pub open spec fn byte_count(s: Seq<char>) -> nat
    decreases s.len(),
{
    if s.len() == 0 {
        0
    } else {
        byte_count(s.drop_last()) + char_bytes(s.last())
    }
}

/// The number of bytes of a text.
pub fn count_bytes(s: &[char]) -> (n: u128)
    ensures
        n == byte_count(s@),
{
    let len: usize = s.len();
    let mut n: u128 = 0;
    let mut i: usize = 0;
    assert(s@.take(0) =~= Seq::empty());
    while i < len
        invariant
            i <= len,
            len == s@.len(),
            n == byte_count(s@.take(i as int)),
            n <= 4 * i,
        decreases len - i,
    {
        proof {
            assert(s@.take(i + 1).drop_last() =~= s@.take(i as int));
            assert(s@.take(i + 1).last() == s@[i as int]);
        }
        n = n + bytes_of(s[i]) as u128;
        i = i + 1;
    }
    assert(s@.take(i as int) =~= s@);
    n
}

// ---------------------------------------------------------------------------
// Numbers
// ---------------------------------------------------------------------------

/// Whether a character is a digit.
pub open spec fn is_digit(c: char) -> bool {
    '0' <= c <= '9'
}

/// The value of digits.
pub open spec fn digits_value(s: Seq<char>) -> nat
    decreases s.len(),
{
    if s.len() == 0 {
        0
    } else {
        10 * digits_value(s.drop_last()) + (s.last() as nat - '0' as nat) as nat
    }
}

/// A text without a plus sign at its beginning.
pub open spec fn unsigned(s: Seq<char>) -> Seq<char> {
    if begins(s, '+') {
        s.subrange(1, s.len() as int)
    } else {
        s
    }
}

/// Whether a text is made of digits alone.
pub open spec fn all_digits(s: Seq<char>) -> bool {
    forall|i: int| 0 <= i < s.len() ==> is_digit(#[trigger] s[i])
}

/// The number that a text holds: digits, with a plus sign before them or none.
/// Nothing where the number is too large.
pub open spec fn number_in(s: Seq<char>) -> Option<nat> {
    let digits = unsigned(s);
    if digits.len() > 0 && all_digits(digits) && digits_value(digits) <= usize::MAX {
        Some(digits_value(digits))
    } else {
        None
    }
}

proof fn lemma_value_grows(s: Seq<char>, n: int)
    requires
        0 <= n <= s.len(),
    ensures
        digits_value(s.take(n)) <= digits_value(s),
    decreases s.len() - n,
{
    if n == s.len() {
        assert(s.take(n) =~= s);
    } else {
        lemma_value_grows(s, n + 1);
        assert(s.take(n + 1).drop_last() =~= s.take(n));
    }
}

/// The number that a text holds.
pub fn read_number(s: &[char]) -> (r: Option<usize>)
    ensures
        match number_in(s@) {
            Some(v) => r is Some && r->0 == v,
            None => r is None,
        },
{
    let digits: &[char] = if begins_with(s, '+') {
        slice_subrange(s, 1, s.len())
    } else {
        s
    };
    let n: usize = digits.len();
    if n == 0 {
        return None;
    }
    let mut value: u128 = 0;
    let mut i: usize = 0;
    assert(digits@.take(0) =~= Seq::empty());
    while i < n
        invariant
            i <= n,
            n == digits@.len(),
            n > 0,
            digits@ == unsigned(s@),
            value == digits_value(digits@.take(i as int)),
            value <= usize::MAX,
            forall|j: int| 0 <= j < i ==> is_digit(#[trigger] digits@[j]),
        decreases n - i,
    {
        let c: char = digits[i];
        proof {
            assert(digits@.take(i + 1).drop_last() =~= digits@.take(i as int));
            assert(digits@.take(i + 1).last() == c);
        }
        if !('0' <= c && c <= '9') {
            assert(!is_digit(digits@[i as int]));
            assert(!all_digits(digits@));
            return None;
        }
        value = value * 10 + (c as u32 - '0' as u32) as u128;
        if value > usize::MAX as u128 {
            proof {
                lemma_value_grows(digits@, i + 1);
            }
            return None;
        }
        i = i + 1;
    }
    assert(digits@.take(n as int) =~= digits@);
    Some(value as usize)
}

// ---------------------------------------------------------------------------
// Building
// ---------------------------------------------------------------------------

/// Appends characters.
pub fn push_chars(out: &mut Vec<char>, s: &[char])
    ensures
        final(out)@ == old(out)@ + s@,
{
    let ghost base = out@;
    let mut i: usize = 0;
    assert(base + s@.take(0) =~= base);
    while i < s.len()
        invariant
            i <= s@.len(),
            base == old(out)@,
            out@ == base + s@.take(i as int),
        decreases s@.len() - i,
    {
        out.push(s[i]);
        assert(base + s@.take(i + 1) =~= (base + s@.take(i as int)).push(s@[i as int]));
        i = i + 1;
    }
    assert(s@.take(i as int) =~= s@);
}

/// Appends a string.
pub fn push_str(out: &mut Vec<char>, s: &str)
    ensures
        final(out)@ == old(out)@ + s@,
{
    let cs: Vec<char> = to_chars(s);
    push_chars(out, cs.as_slice());
}

/// A text between two others.
pub fn wrapped(head: &str, s: &[char], tail: &str) -> (r: Vec<char>)
    ensures
        r@ == head@ + s@ + tail@,
{
    let mut r: Vec<char> = to_chars(head);
    push_chars(&mut r, s);
    push_str(&mut r, tail);
    r
}

/// The characters, copied.
pub fn copy_chars(s: &[char]) -> (r: Vec<char>)
    ensures
        r@ == s@,
{
    let mut r: Vec<char> = Vec::new();
    push_chars(&mut r, s);
    assert(r@ =~= s@);
    r
}

} // verus!
