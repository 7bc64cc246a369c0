//! What trimming, splitting and searching leave of a text.

use crate::slices;
use crate::text;
use vstd::prelude::*;

verus! {

/// Whether every character is white space.
pub open spec fn all_blank(s: Seq<char>) -> bool {
    forall|i: int| 0 <= i < s.len() ==> slices::is_space(#[trigger] s[i])
}

/// Whether no character is white space, and there is one.
pub open spec fn is_one_word(s: Seq<char>) -> bool {
    s.len() > 0 && forall|i: int| 0 <= i < s.len() ==> !slices::is_space(#[trigger] s[i])
}

/// Whether a text is not empty and has no white space at its ends.
pub open spec fn is_bare(s: Seq<char>) -> bool {
    s.len() > 0 && !slices::is_space(s[0]) && !slices::is_space(s.last())
}

proof fn lemma_trim_end_parts(s: Seq<char>)
    ensures
        slices::trim_end(s).len() <= s.len(),
        slices::trim_end(s) == s.take(slices::trim_end(s).len() as int),
        all_blank(s.skip(slices::trim_end(s).len() as int)),
        slices::trim_end(s).len() > 0 ==> !slices::is_space(slices::trim_end(s).last()),
    decreases s.len(),
{
    if s.len() > 0 && slices::is_space(s.last()) {
        let t = s.drop_last();
        lemma_trim_end_parts(t);
        let n = slices::trim_end(s).len() as int;
        assert(t.take(n) =~= s.take(n));
        assert forall|i: int| 0 <= i < s.skip(n).len() implies slices::is_space(
            #[trigger] s.skip(n)[i],
        ) by {
            if i < t.skip(n).len() {
                assert(t.skip(n)[i] == s.skip(n)[i]);
            }
        }
    } else {
        assert(s.take(s.len() as int) =~= s);
    }
}

proof fn lemma_trim_start_blank(s: Seq<char>)
    ensures
        slices::trim_start(s).len() <= s.len(),
        slices::trim_start(s) == s.skip(s.len() - slices::trim_start(s).len()),
        all_blank(s.take(s.len() - slices::trim_start(s).len())),
        slices::trim_start(s).len() > 0 ==> !slices::is_space(slices::trim_start(s)[0]),
    decreases s.len(),
{
    if s.len() > 0 && slices::is_space(s[0]) {
        let t = s.subrange(1, s.len() as int);
        lemma_trim_start_blank(t);
        let n = slices::trim_start(s).len() as int;
        assert(t.skip(t.len() - n) =~= s.skip(s.len() - n));
        let head = s.take(s.len() - n);
        assert forall|i: int| 0 <= i < head.len() implies slices::is_space(
            #[trigger] head[i],
        ) by {
            if i > 0 {
                assert(t.take(t.len() - n)[i - 1] == head[i]);
            }
        }
    } else {
        assert(s.skip(0) =~= s);
    }
}

/// Trimming takes white space from both ends of a text and nothing else: the
/// text is white space, what is left, and white space; and what is left has
/// none at its ends.
pub proof fn law_trim_takes_white_space(s: Seq<char>) -> (r: (int, int))
    ensures
        0 <= r.0 <= r.1 <= s.len(),
        slices::trim(s) == s.subrange(r.0, r.1),
        all_blank(s.take(r.0)),
        all_blank(s.skip(r.1)),
        slices::trim(s).len() == 0 || is_bare(slices::trim(s)),
{
    let t = slices::trim_start(s);
    lemma_trim_start_blank(s);
    lemma_trim_end_parts(t);
    let a = s.len() - t.len();
    let b = a + slices::trim(s).len();
    assert(slices::trim(s) =~= s.subrange(a, b));
    assert forall|i: int| 0 <= i < s.skip(b).len() implies slices::is_space(
        #[trigger] s.skip(b)[i],
    ) by {
        assert(t.skip(slices::trim(s).len() as int)[i] == s.skip(b)[i]);
    }
    if slices::trim(s).len() > 0 {
        assert(slices::trim(s)[0] == t[0]);
    }
    (a, b)
}

/// A text without white space at its ends is left alone by trimming, also with
/// white space around it.
pub proof fn law_trim_keeps(a: Seq<char>, s: Seq<char>, b: Seq<char>)
    requires
        is_bare(s),
        all_blank(a),
        all_blank(b),
    ensures
        slices::trim(s) == s,
        slices::trim_start(s) == s,
        slices::trim(a + s + b) == s,
        slices::trim_start(a + s + b) == s + b,
{
    lemma_drop_blank_start(a, s + b);
    assert(a + (s + b) =~= a + s + b);
    lemma_drop_blank_end(s, b);
}

proof fn lemma_drop_blank_start(a: Seq<char>, s: Seq<char>)
    requires
        all_blank(a),
        s.len() > 0,
        !slices::is_space(s[0]),
    ensures
        slices::trim_start(a + s) == s,
    decreases a.len(),
{
    if a.len() == 0 {
        assert(a + s =~= s);
    } else {
        let rest = a.skip(1);
        assert((a + s)[0] == a[0]);
        assert((a + s).subrange(1, (a + s).len() as int) =~= rest + s);
        assert forall|i: int| 0 <= i < rest.len() implies slices::is_space(#[trigger] rest[i]) by {
            assert(rest[i] == a[i + 1]);
        }
        lemma_drop_blank_start(rest, s);
    }
}

proof fn lemma_drop_blank_end(s: Seq<char>, b: Seq<char>)
    requires
        all_blank(b),
        s.len() > 0,
        !slices::is_space(s.last()),
    ensures
        slices::trim_end(s + b) == s,
    decreases b.len(),
{
    if b.len() == 0 {
        assert(s + b =~= s);
    } else {
        assert((s + b).last() == b.last());
        assert((s + b).drop_last() =~= s + b.drop_last());
        lemma_drop_blank_end(s, b.drop_last());
    }
}

/// The first place of a character is where it stands and stands nowhere before.
pub proof fn law_first_place(s: Seq<char>, c: char, i: int, k: int)
    requires
        0 <= i <= k <= s.len(),
        forall|j: int| i <= j < k ==> s[j] != c,
        k < s.len() ==> s[k] == c,
    ensures
        slices::index_of(s, c, i) == k,
    decreases k - i,
{
    if i < k {
        law_first_place(s, c, i + 1, k);
    }
}

proof fn lemma_word_len(s: Seq<char>, k: int)
    requires
        0 <= k <= s.len(),
        forall|j: int| 0 <= j < k ==> !slices::is_space(#[trigger] s[j]),
        k < s.len() ==> slices::is_space(s[k]),
    ensures
        slices::word_len(s) == k,
    decreases k,
{
    if k > 0 {
        let t = s.subrange(1, s.len() as int);
        assert forall|j: int| 0 <= j < k - 1 implies !slices::is_space(#[trigger] t[j]) by {
            assert(t[j] == s[j + 1]);
        }
        lemma_word_len(t, k - 1);
    }
}

proof fn lemma_blank_start(s: Seq<char>)
    requires
        all_blank(s),
    ensures
        slices::trim_start(s).len() == 0,
    decreases s.len(),
{
    if s.len() > 0 {
        let t = s.subrange(1, s.len() as int);
        assert forall|i: int| 0 <= i < t.len() implies slices::is_space(#[trigger] t[i]) by {
            assert(t[i] == s[i + 1]);
        }
        lemma_blank_start(t);
    }
}

/// The words of a text: white space has none, and a text that begins with a word
/// has that word and those of what follows the white space behind it.
pub proof fn law_words(blank: Seq<char>, word: Seq<char>, rest: Seq<char>)
    requires
        all_blank(blank),
        is_one_word(word),
        rest.len() == 0 || slices::is_space(rest[0]),
    ensures
        slices::words(blank) == Seq::<Seq<char>>::empty(),
        slices::words(blank + word + rest) == seq![word] + slices::words(rest),
{
    lemma_blank_start(blank);
    lemma_drop_blank_start(blank, word + rest);
    let s = blank + word + rest;
    let t = word + rest;
    assert(blank + t =~= s);
    assert forall|j: int| 0 <= j < word.len() implies !slices::is_space(#[trigger] t[j]) by {
        assert(t[j] == word[j]);
    }
    lemma_word_len(t, word.len() as int);
    assert(t.subrange(0, word.len() as int) =~= word);
    assert(t.subrange(word.len() as int, t.len() as int) =~= rest);
}

/// A text that nothing stands in is found nowhere.
pub proof fn lemma_not_found(s: Seq<char>, p: Seq<char>)
    requires
        forall|i: int| !text::occurs_at(s, p, i),
    ensures
        text::find(s, p) is None,
{
    text::lemma_find_from(s, p, 0);
}

/// The first place of a text is where it stands and stands nowhere before.
pub proof fn law_first_occurrence(s: Seq<char>, p: Seq<char>, k: int)
    requires
        text::occurs_at(s, p, k),
        forall|i: int| 0 <= i < k ==> !text::occurs_at(s, p, i),
    ensures
        text::find(s, p) == Some(k),
        slices::before(s, p) == s.take(k),
        slices::behind(s, p) == s.skip(k + p.len()),
{
    text::lemma_find_from(s, p, 0);
    let f = text::find(s, p)->0;
    assert(f == k);
    assert(s.subrange(0, k) =~= s.take(k));
    assert(s.subrange(k + p.len(), s.len() as int) =~= s.skip(k + p.len()));
}

/// A line and what follows it: a newline ends a line, and a carriage return
/// before it belongs to neither.
pub proof fn law_lines(line: Seq<char>, rest: Seq<char>)
    requires
        !line.contains('\n'),
        line.len() == 0 || line.last() != '\r',
    ensures
        slices::lines(line + seq!['\n'] + rest) == seq![line] + slices::lines(rest),
        slices::lines(line + seq!['\r', '\n'] + rest) == seq![line] + slices::lines(rest),
        line.len() > 0 ==> slices::lines(line) == seq![line],
        slices::lines(Seq::empty()) == Seq::<Seq<char>>::empty(),
{
    let a = line + seq!['\n'];
    assert forall|j: int| 0 <= j < line.len() implies a[j] != '\n' by {
        assert(line.contains(line[j]));
    }
    lemma_line_first(a, line.len() as int, rest);
    assert(slices::line_text(a + rest, 0, line.len() as int) =~= line);
    let b = line + seq!['\r', '\n'];
    assert forall|j: int| 0 <= j < line.len() + 1 implies b[j] != '\n' by {
        if j < line.len() {
            assert(line.contains(line[j]));
        }
    }
    lemma_line_first(b, (line.len() + 1) as int, rest);
    assert((b + rest)[line.len() as int] == '\r');
    assert(slices::line_text(b + rest, 0, (line.len() + 1) as int) =~= line);
    if line.len() > 0 {
        assert forall|j: int| 0 <= j < line.len() implies line[j] != '\n' by {
            assert(line.contains(line[j]));
        }
        law_first_place(line, '\n', 0, line.len() as int);
        assert(slices::line_text(line, 0, line.len() as int) =~= line);
        assert(slices::lines_from(line, (line.len() + 1) as int) =~= Seq::empty());
        assert(slices::lines(line) =~= seq![line]);
    }
}

proof fn lemma_line_first(a: Seq<char>, e: int, rest: Seq<char>)
    requires
        e == a.len() - 1,
        0 <= e,
        a[e] == '\n',
        forall|j: int| 0 <= j < e ==> a[j] != '\n',
    ensures
        slices::lines(a + rest) == seq![slices::line_text(a + rest, 0, e)] + slices::lines(rest),
{
    let s = a + rest;
    assert forall|j: int| 0 <= j < e implies s[j] != '\n' by {
        assert(s[j] == a[j]);
    }
    law_first_place(s, '\n', 0, e);
    lemma_lines_after(a, rest, 0);
}

proof fn lemma_lines_after(a: Seq<char>, b: Seq<char>, j: int)
    requires
        0 <= j,
    ensures
        slices::lines_from(a + b, a.len() + j) == slices::lines_from(b, j),
    decreases b.len() + 1 - j,
{
    if j < b.len() {
        slices::lemma_index_of(b, '\n', j);
        let e = slices::index_of(b, '\n', j);
        law_first_place(a + b, '\n', a.len() + j, a.len() + e);
        assert(slices::line_text(a + b, a.len() + j, a.len() + e) =~= slices::line_text(b, j, e));
        lemma_lines_after(a, b, e + 1);
    }
}

} // verus!
