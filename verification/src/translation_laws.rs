//! Which texts of a script are offered for translation.

use crate::slices;
use crate::text_laws;
use crate::translation;
use crate::translation::{Extraction, TranslatableKind, TranslatableLine};
use vstd::prelude::*;

verus! {

/// Whether a line is spoken by `who`: what stands before its first colon is the
/// name, maybe with a pose in brackets, and what stands behind is in quotes.
pub open spec fn is_spoken(line: Seq<char>, who: Seq<char>) -> bool {
    let t = slices::trim(line);
    exists|k: int|
        0 <= k < t.len() && #[trigger] t[k] == ':' && !t.take(k).contains(':') && t[0] != '#'
            && translation::quoted_whole(slices::trim(t.skip(k + 1))) is Some && who
            == translation::speaker_of(t.take(k))
}

/// Whether an entry of a list is the name of a character.
pub open spec fn names(e: TranslatableLine<Seq<char>>, who: Seq<char>) -> bool {
    e.kind == TranslatableKind::Character && e.original == who
}

/// Whether `who` speaks on line `j`, and on no line before.
pub open spec fn first_speaks(lines: Seq<Seq<char>>, who: Seq<char>, j: int) -> bool {
    0 <= j < lines.len() && is_spoken(lines[j], who) && forall|i: int|
        0 <= i < j ==> !is_spoken(#[trigger] lines[i], who)
}

/// A line gives the entries before it and at most two more, of which a first one
/// of two, and no other, is a new speaker.
proof fn lemma_line(e: Extraction, line: Seq<char>, n: int)
    ensures
        ({
            let r = translation::with_line(e, line, n);
            let k = e.entries.len() as int;
            &&& k <= r.entries.len()
            &&& forall|i: int| 0 <= i < k ==> r.entries[i] == #[trigger] e.entries[i]
            &&& forall|i: int|
                k <= i < r.entries.len() ==> (#[trigger] r.entries[i]).line_number == n as usize
            &&& forall|i: int|
                k < i < r.entries.len() ==> (#[trigger] r.entries[i]).kind
                    != TranslatableKind::Character
            &&& forall|who: Seq<char>|
                who.len() > 0 && #[trigger] is_spoken(line, who) && !e.speakers.contains(who)
                    ==> k < r.entries.len() && names(r.entries[k], who)
            &&& k < r.entries.len() && r.entries[k].kind == TranslatableKind::Character ==> {
                let who = r.entries[k].original;
                who.len() > 0 && is_spoken(line, who) && !e.speakers.contains(who)
            }
            &&& forall|who: Seq<char>| #[trigger]
                r.speakers.contains(who) <==> e.speakers.contains(who) || (who.len() > 0
                    && is_spoken(line, who))
        }),
{
    let t = slices::trim(line);
    let k = slices::index_of(t, ':', 0);
    slices::lemma_index_of(t, ':', 0);
    let r = translation::with_line(e, line, n);
    if k < t.len() {
        assert(t.subrange(0, k) =~= t.take(k));
        assert(t.subrange(k + 1, t.len() as int) =~= t.skip(k + 1));
        assert(!t.take(k).contains(':'));
    }
    assert forall|who: Seq<char>| #[trigger] is_spoken(line, who) implies k < t.len() && t[0]
        != '#' && translation::quoted_whole(slices::trim(t.subrange(k + 1, t.len() as int))) is Some
        && who == translation::speaker_of(t.subrange(0, k)) by {
        let c = choose|c: int|
            0 <= c < t.len() && #[trigger] t[c] == ':' && !t.take(c).contains(':') && t[0] != '#'
                && translation::quoted_whole(slices::trim(t.skip(c + 1))) is Some && who
                == translation::speaker_of(t.take(c));
        if c != k {
            if k < c {
                assert(t.take(c)[k] == ':');
                assert(t.take(c).contains(':'));
            }
        }
    }
    assert forall|who: Seq<char>| #[trigger]
        r.speakers.contains(who) <==> e.speakers.contains(who) || (who.len() > 0 && is_spoken(
            line,
            who,
        )) by {
        if r.speakers.len() > e.speakers.len() {
            let s = r.speakers.last();
            assert(r.speakers == e.speakers.push(s));
            assert(is_spoken(line, s));
            assert(r.speakers[e.speakers.len() as int] == s);
            if e.speakers.contains(who) {
                let i = choose|i: int| 0 <= i < e.speakers.len() && e.speakers[i] == who;
                assert(r.speakers[i] == who);
            }
        }
    }
}

/// Before line `n`: who spoke is listed, once, with the first line of speech.
spec fn listed_so_far(lines: Seq<Seq<char>>, n: int) -> bool {
    let e = translation::extraction(lines.take(n));
    &&& forall|who: Seq<char>| #[trigger]
        e.speakers.contains(who) <==> who.len() > 0 && exists|j: int|
            0 <= j < n && is_spoken(#[trigger] lines[j], who)
    &&& forall|who: Seq<char>, j: int|
        0 <= j < n && who.len() > 0 && #[trigger] first_speaks(lines, who, j) ==> exists|p: int|
            0 <= p < e.entries.len() && names(#[trigger] e.entries[p], who)
                && e.entries[p].line_number == (j + 1) as usize
    &&& forall|p: int|
        0 <= p < e.entries.len() && (#[trigger] e.entries[p]).kind == TranslatableKind::Character
            ==> e.entries[p].original.len() > 0 && e.speakers.contains(e.entries[p].original)
    &&& forall|p: int, q: int|
        0 <= p < q < e.entries.len() && (#[trigger] e.entries[p]).kind
            == TranslatableKind::Character && (#[trigger] e.entries[q]).kind
            == TranslatableKind::Character ==> e.entries[p].original != e.entries[q].original
}

proof fn lemma_listed(lines: Seq<Seq<char>>, n: int)
    requires
        0 <= n <= lines.len(),
    ensures
        listed_so_far(lines, n),
    decreases n,
{
    if n > 0 {
        lemma_listed(lines, n - 1);
        let part = lines.take(n);
        assert(part.drop_last() =~= lines.take(n - 1));
        let old_e = translation::extraction(lines.take(n - 1));
        let e = translation::extraction(part);
        let line = lines[n - 1];
        assert(part.last() == line);
        lemma_line(old_e, line, n);
        let k = old_e.entries.len() as int;
        assert forall|who: Seq<char>| #[trigger]
            e.speakers.contains(who) <==> who.len() > 0 && exists|j: int|
                0 <= j < n && is_spoken(#[trigger] lines[j], who) by {
            if old_e.speakers.contains(who) {
                let j = choose|j: int| 0 <= j < n - 1 && is_spoken(#[trigger] lines[j], who);
                assert(is_spoken(lines[j], who));
            }
            if who.len() > 0 && is_spoken(lines[n - 1], who) {
                assert(e.speakers.contains(who));
            }
        }
        assert forall|who: Seq<char>, j: int|
            0 <= j < n && who.len() > 0 && #[trigger] first_speaks(lines, who, j) implies exists|
            p: int,
        |
            0 <= p < e.entries.len() && names(#[trigger] e.entries[p], who)
                && e.entries[p].line_number == (j + 1) as usize by {
            if j < n - 1 {
                let p = choose|p: int|
                    0 <= p < old_e.entries.len() && names(#[trigger] old_e.entries[p], who)
                        && old_e.entries[p].line_number == (j + 1) as usize;
                assert(e.entries[p] == old_e.entries[p]);
            } else {
                assert(!old_e.speakers.contains(who));
                assert(names(e.entries[k], who));
                assert(e.entries[k].line_number == n as usize);
            }
        }
        assert forall|p: int|
            0 <= p < e.entries.len() && (#[trigger] e.entries[p]).kind
                == TranslatableKind::Character implies e.entries[p].original.len() > 0
            && e.speakers.contains(e.entries[p].original) by {
            if p < k {
                assert(e.entries[p] == old_e.entries[p]);
                assert(old_e.speakers.contains(e.entries[p].original));
            } else {
                assert(p == k);
            }
        }
        assert forall|p: int, q: int|
            0 <= p < q < e.entries.len() && (#[trigger] e.entries[p]).kind
                == TranslatableKind::Character && (#[trigger] e.entries[q]).kind
                == TranslatableKind::Character implies e.entries[p].original
            != e.entries[q].original by {
            if p < k {
                assert(e.entries[p] == old_e.entries[p]);
            }
            if q < k {
                assert(e.entries[q] == old_e.entries[q]);
            } else {
                assert(q == k);
            }
        }
    } else {
        assert(lines.take(0) =~= Seq::empty());
    }
}

/// Every speaker is offered for translation, once: for a character that speaks
/// first on line `j` there is exactly one entry with the name, and it stands on
/// that line.
pub proof fn law_speakers_are_offered(source: Seq<char>, who: Seq<char>, j: int)
    requires
        who.len() > 0,
        first_speaks(slices::lines(source), who, j),
    ensures
        ({
            let texts = translation::texts_of(source);
            exists|p: int|
                #![trigger texts[p]]
                0 <= p < texts.len() && names(texts[p], who) && texts[p].line_number == (j
                    + 1) as usize && forall|q: int|
                    0 <= q < texts.len() && names(#[trigger] texts[q], who) ==> q == p
        }),
{
    let lines = slices::lines(source);
    let n = lines.len() as int;
    lemma_listed(lines, n);
    assert(lines.take(n) =~= lines);
    let texts = translation::texts_of(source);
    let p = choose|p: int|
        0 <= p < texts.len() && names(#[trigger] texts[p], who) && texts[p].line_number == (j
            + 1) as usize;
    assert forall|q: int| 0 <= q < texts.len() && names(#[trigger] texts[q], who) implies q
        == p by {
        if q < p {
            assert(texts[q].kind == TranslatableKind::Character);
        }
    }
}

/// Nothing is offered as a character that does not speak.
pub proof fn law_characters_speak(source: Seq<char>, p: int)
    requires
        0 <= p < translation::texts_of(source).len(),
        translation::texts_of(source)[p].kind == TranslatableKind::Character,
    ensures
        exists|j: int|
            0 <= j < slices::lines(source).len() && is_spoken(
                #[trigger] slices::lines(source)[j],
                translation::texts_of(source)[p].original,
            ),
{
    let lines = slices::lines(source);
    let n = lines.len() as int;
    lemma_listed(lines, n);
    assert(lines.take(n) =~= lines);
}

/// Whether a text is offered with its kind and line.
pub open spec fn is_offered(
    source: Seq<char>,
    kind: TranslatableKind,
    words: Seq<char>,
    line: int,
) -> bool {
    exists|p: int|
        0 <= p < translation::texts_of(source).len() && #[trigger] translation::texts_of(source)[p]
            == (TranslatableLine { kind, original: words, line_number: line as usize })
}

/// What a line gives stays in the list.
proof fn lemma_grows(lines: Seq<Seq<char>>, n: int, p: int)
    requires
        0 <= n <= lines.len(),
        0 <= p < translation::extraction(lines.take(n)).entries.len(),
    ensures
        p < translation::extraction(lines).entries.len(),
        translation::extraction(lines).entries[p] == translation::extraction(
            lines.take(n),
        ).entries[p],
    decreases lines.len() - n,
{
    if n < lines.len() {
        let more = lines.take(n + 1);
        assert(more.drop_last() =~= lines.take(n));
        lemma_line(translation::extraction(lines.take(n)), more.last(), n + 1);
        lemma_grows(lines, n + 1, p);
    } else {
        assert(lines.take(n) =~= lines);
    }
}

/// The last text of a line is offered.
proof fn lemma_offered(source: Seq<char>, i: int, kind: TranslatableKind, words: Seq<char>)
    requires
        0 <= i < slices::lines(source).len(),
        ({
            let lines = slices::lines(source);
            let e = translation::with_line(
                translation::extraction(lines.take(i)),
                lines[i],
                i + 1,
            ).entries;
            e.len() > 0 && e.last() == (TranslatableLine {
                kind,
                original: words,
                line_number: (i + 1) as usize,
            })
        }),
    ensures
        is_offered(source, kind, words, i + 1),
{
    let lines = slices::lines(source);
    let more = lines.take(i + 1);
    assert(more.drop_last() =~= lines.take(i));
    let e = translation::extraction(more).entries;
    lemma_grows(lines, i + 1, e.len() - 1);
    assert(translation::texts_of(source)[e.len() - 1] == e.last());
}

proof fn lemma_quoted(words: Seq<char>)
    ensures
        ({
            let q = seq!['"'] + words + seq!['"'];
            &&& translation::quoted_whole(q) == Some(words)
            &&& slices::trim(q) == q
            &&& slices::trim(seq![' '] + q) == q
        }),
{
    let q = seq!['"'] + words + seq!['"'];
    assert(q.subrange(1, q.len() - 1) =~= words);
    let none = Seq::<char>::empty();
    text_laws::law_trim_keeps(seq![' '], q, none);
    assert(seq![' '] + q + none =~= seq![' '] + q);
}

/// The title of a section is offered, on its line.
pub proof fn law_title_is_offered(source: Seq<char>, i: int, title: Seq<char>)
    requires
        0 <= i < slices::lines(source).len(),
        slices::lines(source)[i] == "# "@ + title,
        text_laws::is_bare(title),
    ensures
        is_offered(source, TranslatableKind::Section, title, i + 1),
{
    reveal_strlit("# ");
    let t = "# "@ + title;
    let none = Seq::<char>::empty();
    text_laws::law_trim_keeps(none, t, none);
    text_laws::law_trim_keeps(seq![' '], title, none);
    assert(t.subrange(1, t.len() as int) =~= seq![' '] + title + none);
    lemma_offered(source, i, TranslatableKind::Section, title);
}

/// What a character says is offered, on its line.
pub proof fn law_speech_is_offered(source: Seq<char>, i: int, who: Seq<char>, words: Seq<char>)
    requires
        0 <= i < slices::lines(source).len(),
        slices::lines(source)[i] == who + ": \""@ + words + "\""@,
        text_laws::is_bare(who),
        who[0] != '#',
        !who.contains(':'),
    ensures
        is_offered(source, TranslatableKind::Dialogue, words, i + 1),
{
    reveal_strlit(": \"");
    reveal_strlit("\"");
    let t = who + ": \""@ + words + "\""@;
    let none = Seq::<char>::empty();
    text_laws::law_trim_keeps(none, t, none);
    assert forall|j: int| 0 <= j < who.len() implies t[j] != ':' by {
        assert(who.contains(who[j]));
    }
    text_laws::law_first_place(t, ':', 0, who.len() as int);
    let q = seq!['"'] + words + seq!['"'];
    assert(t.subrange((who.len() + 1) as int, t.len() as int) =~= seq![' '] + q);
    lemma_quoted(words);
    lemma_offered(source, i, TranslatableKind::Dialogue, words);
}

proof fn lemma_no_colon(t: Seq<char>)
    requires
        !t.contains(':'),
    ensures
        slices::index_of(t, ':', 0) == t.len(),
{
    assert forall|j: int| 0 <= j < t.len() implies t[j] != ':' by {
        assert(t.contains(t[j]));
    }
    text_laws::law_first_place(t, ':', 0, t.len() as int);
}

/// What is told is offered, on its line; and so is the prompt of a choice.
pub proof fn law_narration_and_prompt_are_offered(source: Seq<char>, i: int, words: Seq<char>)
    requires
        0 <= i < slices::lines(source).len(),
        !words.contains(':'),
    ensures
        slices::lines(source)[i] == "\""@ + words + "\""@ ==> is_offered(
            source,
            TranslatableKind::Narration,
            words,
            i + 1,
        ),
        slices::lines(source)[i] == "? \""@ + words + "\""@ ==> is_offered(
            source,
            TranslatableKind::ChoicePrompt,
            words,
            i + 1,
        ),
{
    reveal_strlit("\"");
    reveal_strlit("? \"");
    let q = seq!['"'] + words + seq!['"'];
    let none = Seq::<char>::empty();
    lemma_quoted(words);
    if slices::lines(source)[i] == "\""@ + words + "\""@ {
        assert("\""@ + words + "\""@ =~= q);
        assert(!q.contains(':')) by {
            if q.contains(':') {
                let j = choose|j: int| 0 <= j < q.len() && q[j] == ':';
                assert(words[j - 1] == ':');
            }
        }
        lemma_no_colon(q);
        lemma_offered(source, i, TranslatableKind::Narration, words);
    }
    if slices::lines(source)[i] == "? \""@ + words + "\""@ {
        let t = "? \""@ + words + "\""@;
        text_laws::law_trim_keeps(none, t, none);
        assert(t.subrange(1, t.len() as int) =~= seq![' '] + q);
        assert(!t.contains(':')) by {
            if t.contains(':') {
                let j = choose|j: int| 0 <= j < t.len() && t[j] == ':';
                assert(words[j - 3] == ':');
            }
        }
        lemma_no_colon(t);
        lemma_offered(source, i, TranslatableKind::ChoicePrompt, words);
    }
}

/// The text of an option is offered, on its line, whatever follows it.
pub proof fn law_option_is_offered(
    source: Seq<char>,
    i: int,
    words: Seq<char>,
    rest: Seq<char>,
)
    requires
        0 <= i < slices::lines(source).len(),
        slices::lines(source)[i] == "| \""@ + words + "\""@ + rest,
        !words.contains('"'),
        !words.contains(':'),
        !rest.contains(':'),
        rest.len() == 0 || !slices::is_space(rest.last()),
    ensures
        is_offered(source, TranslatableKind::Choice, words, i + 1),
{
    reveal_strlit("\"");
    reveal_strlit("| \"");
    let t = "| \""@ + words + "\""@ + rest;
    let q = seq!['"'] + words + seq!['"'] + rest;
    let none = Seq::<char>::empty();
    assert(rest.len() > 0 ==> t.last() == rest.last() && q.last() == rest.last());
    text_laws::law_trim_keeps(none, t, none);
    text_laws::law_trim_keeps(seq![' '], q, none);
    assert(t.subrange(1, t.len() as int) =~= seq![' '] + q + none);
    assert(!t.contains(':')) by {
        if t.contains(':') {
            let j = choose|j: int| 0 <= j < t.len() && t[j] == ':';
            if j < 3 + words.len() {
                assert(words[j - 3] == ':');
            } else {
                assert(rest[j - 4 - words.len()] == ':');
            }
        }
    }
    lemma_no_colon(t);
    assert forall|j: int| 1 <= j < 1 + words.len() implies q[j] != '"' by {
        assert(words.contains(words[j - 1]));
    }
    text_laws::law_first_place(q, '"', 1, (1 + words.len()) as int);
    assert(q.subrange(1, (1 + words.len()) as int) =~= words);
    lemma_offered(source, i, TranslatableKind::Choice, words);
}

/// The texts stand in the order of their lines.
pub proof fn law_texts_in_order(source: Seq<char>, p: int, q: int)
    requires
        slices::lines(source).len() < usize::MAX,
        0 <= p <= q < translation::texts_of(source).len(),
    ensures
        1 <= translation::texts_of(source)[p].line_number
            <= translation::texts_of(source)[q].line_number <= slices::lines(source).len(),
{
    lemma_in_order(slices::lines(source), p, q);
}

proof fn lemma_in_order(lines: Seq<Seq<char>>, p: int, q: int)
    requires
        lines.len() < usize::MAX,
        0 <= p <= q < translation::extraction(lines).entries.len(),
    ensures
        1 <= translation::extraction(lines).entries[p].line_number <= translation::extraction(
            lines,
        ).entries[q].line_number <= lines.len(),
    decreases lines.len(),
{
    if lines.len() > 0 {
        let front = lines.drop_last();
        let e = translation::extraction(front);
        lemma_line(e, lines.last(), lines.len() as int);
        let k = e.entries.len();
        let r = translation::extraction(lines).entries;
        if q < k {
            lemma_in_order(front, p, q);
            assert(r[p] == e.entries[p] && r[q] == e.entries[q]);
        } else {
            assert(r[q].line_number == lines.len());
            if p < k {
                lemma_in_order(front, p, p);
                assert(r[p] == e.entries[p]);
            } else {
                assert(r[p].line_number == lines.len());
            }
        }
    }
}

} // verus!
