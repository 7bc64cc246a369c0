//! The texts of a script that can be translated.

use crate::palette::{
    Color, COLOR_CHOICE, COLOR_DIRECTION, COLOR_SECTION, COLOR_STRING,
};
use crate::slices;
use crate::slices::{begins_with, find_char, lines_of, strip_end_of, strip_start_of, trim_of};
use crate::text;
use crate::text::{concat2, concat3, from_chars, has_string, to_chars};
use vstd::prelude::*;
use vstd::slice::slice_subrange;

verus! {

/// The kinds of texts.
#[derive(Debug, Clone, Copy, PartialEq, Eq, Structural)]
pub enum TranslatableKind {
    Section,
    Dialogue,
    Narration,
    Choice,
    ChoicePrompt,
    Character,
}

/// A text that can be translated, and the line it stands on.
#[derive(Debug, PartialEq, Eq)]
pub struct TranslatableLine<S = String> {
    pub kind: TranslatableKind,
    pub original: S,
    pub line_number: usize,
}

impl View for TranslatableLine<String> {
    type V = TranslatableLine<Seq<char>>;

    open spec fn view(&self) -> TranslatableLine<Seq<char>> {
        TranslatableLine {
            kind: self.kind,
            original: self.original@,
            line_number: self.line_number,
        }
    }
}

/// The contents of a sequence of texts.
pub open spec fn entry_views(v: Seq<TranslatableLine>) -> Seq<TranslatableLine<Seq<char>>> {
    Seq::new(v.len(), |i: int| v[i]@)
}

/// The text between quotes, where a text is quoted as a whole.
pub open spec fn quoted_whole(s: Seq<char>) -> Option<Seq<char>> {
    if s.len() >= 2 && s[0] == '"' && s.last() == '"' {
        Some(s.subrange(1, s.len() - 1))
    } else {
        None
    }
}

/// The speaker of a line: what stands before the colon, without a pose.
pub open spec fn speaker_of(part: Seq<char>) -> Seq<char> {
    slices::trim(slices::before_char(part, '('))
}

/// What a script holds so far: its texts, and the speakers among them.
pub struct Extraction {
    pub entries: Seq<TranslatableLine<Seq<char>>>,
    pub speakers: Seq<Seq<char>>,
}

/// The extraction with one more text.
pub open spec fn with_entry(
    e: Extraction,
    kind: TranslatableKind,
    original: Seq<char>,
    n: int,
) -> Extraction {
    Extraction {
        entries: e.entries.push(
            TranslatableLine { kind, original, line_number: n as usize },
        ),
        ..e
    }
}

/// The extraction with a line of dialogue. A speaker is a text of its own, once.
pub open spec fn with_speech(
    e: Extraction,
    speaker: Seq<char>,
    words: Seq<char>,
    n: int,
) -> Extraction {
    let named = if speaker.len() > 0 && !e.speakers.contains(speaker) {
        let more = with_entry(e, TranslatableKind::Character, speaker, n);
        Extraction { speakers: e.speakers.push(speaker), ..more }
    } else {
        e
    };
    with_entry(named, TranslatableKind::Dialogue, words, n)
}

/// The extraction after line `n`.
pub open spec fn with_line(e: Extraction, line: Seq<char>, n: int) -> Extraction {
    let t = slices::trim(line);
    let k = slices::index_of(t, ':', 0);
    if slices::begins(t, '#') {
        let title = slices::trim(t.subrange(1, t.len() as int));
        if title.len() > 0 {
            with_entry(e, TranslatableKind::Section, title, n)
        } else {
            e
        }
    } else if k < t.len() {
        match quoted_whole(slices::trim(t.subrange(k + 1, t.len() as int))) {
            Some(words) => with_speech(e, speaker_of(t.subrange(0, k)), words, n),
            None => e,
        }
    } else if quoted_whole(t) is Some {
        with_entry(e, TranslatableKind::Narration, quoted_whole(t)->0, n)
    } else if slices::begins(t, '?') {
        match quoted_whole(slices::trim(t.subrange(1, t.len() as int))) {
            Some(prompt) => with_entry(e, TranslatableKind::ChoicePrompt, prompt, n),
            None => e,
        }
    } else if slices::begins(t, '|') {
        let rest = slices::trim(t.subrange(1, t.len() as int));
        let q = slices::index_of(rest, '"', 1);
        if slices::begins(rest, '"') && q < rest.len() {
            with_entry(e, TranslatableKind::Choice, rest.subrange(1, q), n)
        } else {
            e
        }
    } else {
        e
    }
}

/// The extraction after the given lines, counted from 1.
pub open spec fn extraction(lines: Seq<Seq<char>>) -> Extraction
    decreases lines.len(),
{
    if lines.len() == 0 {
        Extraction { entries: Seq::empty(), speakers: Seq::empty() }
    } else {
        with_line(extraction(lines.drop_last()), lines.last(), lines.len() as int)
    }
}

/// The texts of a script.
pub open spec fn texts_of(source: Seq<char>) -> Seq<TranslatableLine<Seq<char>>> {
    extraction(slices::lines(source)).entries
}

fn push_entry(
    entries: &mut Vec<TranslatableLine>,
    kind: TranslatableKind,
    original: &[char],
    n: usize,
)
    ensures
        entry_views(final(entries)@) == entry_views(old(entries)@).push(
            TranslatableLine { kind, original: original@, line_number: n },
        ),
{
    let ghost before = entry_views(entries@);
    entries.push(TranslatableLine { kind, original: from_chars(original), line_number: n });
    assert(entry_views(entries@) =~= before.push(
        TranslatableLine { kind, original: original@, line_number: n },
    ));
}

fn is_quoted(s: &[char]) -> (r: bool)
    ensures
        r == (quoted_whole(s@) is Some),
{
    s.len() >= 2 && s[0] == '"' && s[s.len() - 1] == '"'
}

fn inner<'a>(s: &'a [char]) -> (r: &'a [char])
    requires
        quoted_whole(s@) is Some,
    ensures
        quoted_whole(s@) == Some(r@),
{
    slice_subrange(s, 1, s.len() - 1)
}

fn extract_line(
    line: &[char],
    n: usize,
    entries: &mut Vec<TranslatableLine>,
    speakers: &mut Vec<String>,
)
    ensures
        ({
            let e = Extraction {
                entries: entry_views(old(entries)@),
                speakers: text::views(old(speakers)@),
            };
            let r = with_line(e, line@, n as int);
            &&& entry_views(final(entries)@) == r.entries
            &&& text::views(final(speakers)@) == r.speakers
        }),
{
    let t: &[char] = trim_of(line);
    let len: usize = t.len();
    if begins_with(t, '#') {
        let title: &[char] = trim_of(slice_subrange(t, 1, len));
        if title.len() > 0 {
            push_entry(entries, TranslatableKind::Section, title, n);
        }
        return;
    }
    let k: usize = find_char(t, ':', 0);
    if k < len {
        let after: &[char] = trim_of(slice_subrange(t, k + 1, len));
        if is_quoted(after) {
            let part: &[char] = slice_subrange(t, 0, k);
            let p: usize = find_char(part, '(', 0);
            let speaker: &[char] = trim_of(slice_subrange(part, 0, p));
            let name: String = from_chars(speaker);
            if speaker.len() > 0 && !has_string(speakers, name.as_str()) {
                push_entry(entries, TranslatableKind::Character, speaker, n);
                let ghost before = text::views(speakers@);
                speakers.push(name);
                assert(text::views(speakers@) =~= before.push(speaker@));
            }
            push_entry(entries, TranslatableKind::Dialogue, inner(after), n);
        }
    } else if is_quoted(t) {
        push_entry(entries, TranslatableKind::Narration, inner(t), n);
    } else if begins_with(t, '?') {
        let rest: &[char] = trim_of(slice_subrange(t, 1, len));
        if is_quoted(rest) {
            push_entry(entries, TranslatableKind::ChoicePrompt, inner(rest), n);
        }
    } else if begins_with(t, '|') {
        let rest: &[char] = trim_of(slice_subrange(t, 1, len));
        if begins_with(rest, '"') {
            let q: usize = find_char(rest, '"', 1);
            if q < rest.len() {
                push_entry(entries, TranslatableKind::Choice, slice_subrange(rest, 1, q), n);
            }
        }
    }
}

/// The texts of a script that can be translated, in order.
pub fn extract_translatable_lines(source: &str) -> (r: Vec<TranslatableLine>)
    ensures
        entry_views(r@) == texts_of(source@),
{
    let cs: Vec<char> = to_chars(source);
    let lines: Vec<&[char]> = lines_of(cs.as_slice());
    let ghost all = slices::slice_views(lines@);
    let n: usize = lines.len();
    let mut entries: Vec<TranslatableLine> = Vec::new();
    let mut speakers: Vec<String> = Vec::new();
    let mut i: usize = 0;
    assert(entry_views(entries@) =~= extraction(all.take(0)).entries);
    assert(text::views(speakers@) =~= extraction(all.take(0)).speakers);
    while i < n
        invariant
            i <= n,
            n == lines@.len(),
            all == slices::slice_views(lines@),
            entry_views(entries@) == extraction(all.take(i as int)).entries,
            text::views(speakers@) == extraction(all.take(i as int)).speakers,
        decreases n - i,
    {
        proof {
            assert(all.take(i + 1).drop_last() =~= all.take(i as int));
            assert(all.take(i + 1).last() == lines@[i as int]@);
        }
        extract_line(lines[i], i + 1, &mut entries, &mut speakers);
        i = i + 1;
    }
    assert(all.take(n as int) =~= all);
    entries
}

// ---------------------------------------------------------------------------
// Showing and reading
// ---------------------------------------------------------------------------

/// The label of a kind.
pub open spec fn label(kind: TranslatableKind) -> Seq<char> {
    match kind {
        TranslatableKind::Section => "章节"@,
        TranslatableKind::Dialogue => "对话"@,
        TranslatableKind::Narration => "旁白"@,
        TranslatableKind::Choice => "选项"@,
        TranslatableKind::ChoicePrompt => "选项提示"@,
        TranslatableKind::Character => "角色"@,
    }
}

/// The label of a kind.
pub fn kind_label(kind: TranslatableKind) -> (r: &'static str)
    ensures
        r@ == label(kind),
{
    match kind {
        TranslatableKind::Section => "章节",
        TranslatableKind::Dialogue => "对话",
        TranslatableKind::Narration => "旁白",
        TranslatableKind::Choice => "选项",
        TranslatableKind::ChoicePrompt => "选项提示",
        TranslatableKind::Character => "角色",
    }
}

pub open spec fn color(kind: TranslatableKind) -> Color {
    match kind {
        TranslatableKind::Section => COLOR_SECTION,
        TranslatableKind::Dialogue => COLOR_STRING,
        TranslatableKind::Narration => COLOR_STRING,
        TranslatableKind::Choice => COLOR_CHOICE,
        TranslatableKind::ChoicePrompt => COLOR_CHOICE,
        TranslatableKind::Character => COLOR_DIRECTION,
    }
}

/// The colour of a kind.
pub fn kind_color(kind: TranslatableKind) -> (r: Color)
    ensures
        r == color(kind),
{
    match kind {
        TranslatableKind::Section => COLOR_SECTION,
        TranslatableKind::Dialogue => COLOR_STRING,
        TranslatableKind::Narration => COLOR_STRING,
        TranslatableKind::Choice => COLOR_CHOICE,
        TranslatableKind::ChoicePrompt => COLOR_CHOICE,
        TranslatableKind::Character => COLOR_DIRECTION,
    }
}

/// A text with the marks of its kind around it.
pub open spec fn shown(kind: TranslatableKind, s: Seq<char>) -> Seq<char> {
    match kind {
        TranslatableKind::Section => "# "@ + s,
        TranslatableKind::Dialogue => "\""@ + s + "\""@,
        TranslatableKind::Narration => "\""@ + s + "\""@,
        TranslatableKind::Choice => "| \""@ + s + "\""@,
        TranslatableKind::ChoicePrompt => "? \""@ + s + "\""@,
        TranslatableKind::Character => s,
    }
}

/// A text as it is shown, with the marks of its kind around it.
pub fn show_text(kind: TranslatableKind, s: &str) -> (r: String)
    ensures
        r@ == shown(kind, s@),
{
    match kind {
        TranslatableKind::Section => concat2("# ", s),
        TranslatableKind::Dialogue => concat3("\"", s, "\""),
        TranslatableKind::Narration => concat3("\"", s, "\""),
        TranslatableKind::Choice => concat3("| \"", s, "\""),
        TranslatableKind::ChoicePrompt => concat3("? \"", s, "\""),
        TranslatableKind::Character => s.to_owned(),
    }
}

/// A text without quotes at its ends.
pub open spec fn bare(s: Seq<char>) -> Seq<char> {
    slices::strip_end(slices::strip_start(s, '"'), '"')
}

/// What follows a mark, without blanks and quotes; all of it where the mark is
/// missing.
pub open spec fn behind_mark(s: Seq<char>, mark: char) -> Seq<char> {
    if slices::begins(s, mark) {
        bare(slices::trim(s.subrange(1, s.len() as int)))
    } else {
        s
    }
}

/// A text that was typed in, without the marks of its kind.
pub open spec fn typed(kind: TranslatableKind, s: Seq<char>) -> Seq<char> {
    match kind {
        TranslatableKind::Section => if slices::begins(s, '#') {
            slices::trim(s.subrange(1, s.len() as int))
        } else {
            s
        },
        TranslatableKind::Dialogue => bare(s),
        TranslatableKind::Narration => bare(s),
        TranslatableKind::Choice => behind_mark(s, '|'),
        TranslatableKind::ChoicePrompt => behind_mark(s, '?'),
        TranslatableKind::Character => s,
    }
}

fn behind_mark_of(cs: &[char], mark: char) -> (r: String)
    ensures
        r@ == behind_mark(cs@, mark),
{
    if begins_with(cs, mark) {
        let rest: &[char] = trim_of(slice_subrange(cs, 1, cs.len()));
        from_chars(strip_end_of(strip_start_of(rest, '"'), '"'))
    } else {
        from_chars(cs)
    }
}

/// The translation that was typed in, without the marks of its kind.
pub fn read_text(kind: TranslatableKind, s: &str) -> (r: String)
    ensures
        r@ == typed(kind, s@),
{
    let v: Vec<char> = to_chars(s);
    let cs: &[char] = v.as_slice();
    match kind {
        TranslatableKind::Section => {
            if begins_with(cs, '#') {
                from_chars(trim_of(slice_subrange(cs, 1, cs.len())))
            } else {
                s.to_owned()
            }
        },
        TranslatableKind::Dialogue => from_chars(strip_end_of(strip_start_of(cs, '"'), '"')),
        TranslatableKind::Narration => from_chars(strip_end_of(strip_start_of(cs, '"'), '"')),
        TranslatableKind::Choice => behind_mark_of(cs, '|'),
        TranslatableKind::ChoicePrompt => behind_mark_of(cs, '?'),
        TranslatableKind::Character => s.to_owned(),
    }
}

/// Whether reading a text gives it back: the title of a section has no blanks at
/// its ends, and what is shown in quotes no quotes.
pub open spec fn reads_back(kind: TranslatableKind, s: Seq<char>) -> bool {
    match kind {
        TranslatableKind::Section => slices::trim(s) == s,
        TranslatableKind::Character => true,
        _ => !slices::begins(s, '"') && !slices::finishes(s, '"'),
    }
}

proof fn lemma_bare(s: Seq<char>)
    requires
        !slices::begins(s, '"'),
        !slices::finishes(s, '"'),
    ensures
        bare("\""@ + s + "\""@) == s,
{
    reveal_strlit("\"");
    let q = "\""@ + s + "\""@;
    let tail = q.subrange(1, q.len() as int);
    assert(tail =~= s + "\""@);
    if s.len() == 0 {
        let none = tail.subrange(1, tail.len() as int);
        assert(none =~= s);
        assert(slices::strip_start(none, '"') == none);
        assert(slices::strip_start(tail, '"') == none);
        assert(slices::strip_start(q, '"') == none);
    } else {
        assert(slices::strip_start(tail, '"') == tail);
        assert(slices::strip_start(q, '"') == tail);
        assert(tail.drop_last() =~= s);
        assert(slices::strip_end(s, '"') == s);
        assert(slices::strip_end(tail, '"') == s);
    }
}

proof fn lemma_trim_blank(s: Seq<char>)
    ensures
        slices::trim(seq![' '] + s) == slices::trim(s),
{
    let t = seq![' '] + s;
    assert(t.subrange(1, t.len() as int) =~= s);
    assert(slices::trim_start(t) == slices::trim_start(s));
}

/// A text that is shown and read again is the same, where it reads back.
pub proof fn law_shown_text_reads_back(kind: TranslatableKind, s: Seq<char>)
    requires
        reads_back(kind, s),
    ensures
        typed(kind, shown(kind, s)) == s,
{
    reveal_strlit("# ");
    reveal_strlit("\"");
    reveal_strlit("| \"");
    reveal_strlit("? \"");
    let all = shown(kind, s);
    match kind {
        TranslatableKind::Section => {
            assert(all.subrange(1, all.len() as int) =~= seq![' '] + s);
            lemma_trim_blank(s);
        },
        TranslatableKind::Choice | TranslatableKind::ChoicePrompt => {
            let q = "\""@ + s + "\""@;
            lemma_bare(s);
            assert(all.subrange(1, all.len() as int) =~= seq![' '] + q);
            lemma_trim_blank(q);
            assert(slices::trim_start(q) == q);
            assert(slices::trim_end(q) == q);
        },
        TranslatableKind::Dialogue | TranslatableKind::Narration => {
            lemma_bare(s);
        },
        TranslatableKind::Character => {},
    }
}

// ---------------------------------------------------------------------------
// Languages and counts
// ---------------------------------------------------------------------------

/// The name of a language in that language; its code where it is not known.
pub open spec fn language_name(code: Seq<char>) -> Seq<char> {
    if code == "zh-CN"@ {
        "简体中文"@
    } else if code == "zh-TW"@ {
        "繁體中文"@
    } else if code == "en-US"@ {
        "English"@
    } else if code == "ja-JP"@ {
        "日本語"@
    } else {
        code
    }
}

/// The name of a language in that language; its code where it is not known.
pub fn display_name(code: &str) -> (r: String)
    ensures
        r@ == language_name(code@),
{
    if text::str_eq(code, "zh-CN") {
        "简体中文".to_owned()
    } else if text::str_eq(code, "zh-TW") {
        "繁體中文".to_owned()
    } else if text::str_eq(code, "en-US") {
        "English".to_owned()
    } else if text::str_eq(code, "ja-JP") {
        "日本語".to_owned()
    } else {
        code.to_owned()
    }
}

/// The number of texts of a kind.
pub open spec fn count_of(
    entries: Seq<TranslatableLine<Seq<char>>>,
    kind: TranslatableKind,
) -> nat
    decreases entries.len(),
{
    if entries.len() == 0 {
        0
    } else {
        count_of(entries.drop_last(), kind) + if entries.last().kind == kind {
            1nat
        } else {
            0nat
        }
    }
}

/// The number of texts of a kind.
pub fn count_kind(entries: &Vec<TranslatableLine>, kind: TranslatableKind) -> (r: usize)
    ensures
        r == count_of(entry_views(entries@), kind),
{
    let ghost all = entry_views(entries@);
    let n: usize = entries.len();
    let mut r: usize = 0;
    let mut i: usize = 0;
    assert(all.take(0) =~= Seq::empty());
    while i < n
        invariant
            i <= n,
            n == entries@.len(),
            r <= i,
            all == entry_views(entries@),
            r == count_of(all.take(i as int), kind),
        decreases n - i,
    {
        proof {
            assert(all.take(i + 1).drop_last() =~= all.take(i as int));
            assert(all.take(i + 1).last() == entries@[i as int]@);
        }
        if entries[i].kind == kind {
            r = r + 1;
        }
        i = i + 1;
    }
    assert(all.take(n as int) =~= all);
    r
}

} // verus!
