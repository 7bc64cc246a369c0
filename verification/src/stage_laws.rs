//! Laws of sprite lines, of commands and of what the preview of the stage shows.

use crate::ast::{Number, Position};
use crate::compile::{CompileError, ErrSeverity};
use crate::parse;
use crate::parse::{EnginePhase, SpriteHead, SpritePlace};
use crate::previews;
use crate::scene;
use crate::scene::{StageChoices, StageDialogue};
use crate::slices;
use crate::text;
use crate::text_laws;
use vstd::prelude::*;

verus! {

// ---------------------------------------------------------------------------
// Sprite lines
// ---------------------------------------------------------------------------

/// The words for the left, the middle and the right stand for a quarter, a half and three
/// quarters of the width.
pub proof fn law_named_places(w: Seq<char>)
    ensures
        parse::named_place("left"@) == Some(0x3e80_0000u32),
        parse::named_place("居左"@) == Some(0x3e80_0000u32),
        parse::named_place("左"@) == Some(0x3e80_0000u32),
        parse::named_place("center"@) == Some(0x3f00_0000u32),
        parse::named_place("centre"@) == Some(0x3f00_0000u32),
        parse::named_place("居中"@) == Some(0x3f00_0000u32),
        parse::named_place("中"@) == Some(0x3f00_0000u32),
        parse::named_place("right"@) == Some(0x3f40_0000u32),
        parse::named_place("居右"@) == Some(0x3f40_0000u32),
        parse::named_place("右"@) == Some(0x3f40_0000u32),
        w.len() > 6 ==> parse::named_place(w) is None,
{
    reveal_strlit("left");
    reveal_strlit("居左");
    reveal_strlit("左");
    reveal_strlit("center");
    reveal_strlit("centre");
    reveal_strlit("居中");
    reveal_strlit("中");
    reveal_strlit("right");
    reveal_strlit("居右");
    reveal_strlit("右");
    assert("left"@.len() == 4 && "center"@.len() == 6 && "centre"@.len() == 6);
    assert("right"@.len() == 5);
    assert("居左"@.len() == 2 && "居中"@.len() == 2 && "居右"@.len() == 2);
    assert("居左"@[1] == '左' && "居中"@[1] == '中' && "居右"@[1] == '右');
    assert("左"@.len() == 1 && "中"@.len() == 1 && "右"@.len() == 1);
    assert("左"@[0] == '左' && "中"@[0] == '中' && "右"@[0] == '右');
}

/// One number behind `at` is a place from the left, two are a place from the left and
/// from above; the numbers are taken in their order.
pub proof fn law_placing(
    words: Seq<Seq<char>>,
    i: int,
    numbers: Seq<Option<u32>>,
    k: int,
    p: SpritePlace,
    x: u32,
    y: u32,
)
    requires
        0 <= i,
        i + 1 < words.len(),
        0 <= k,
        k + 1 < numbers.len(),
        numbers[k] == Some(x),
        numbers[k + 1] == Some(y),
    ensures
        words[i] == "at"@ && words[i + 1].contains(',') ==> parse::placed_from(
            words,
            i,
            numbers,
            k,
            p,
        ) == parse::placed_from(words, i + 2, numbers, k + 2, SpritePlace { x, y, ..p }),
        words[i] == "at"@ && !words[i + 1].contains(',') ==> parse::placed_from(
            words,
            i,
            numbers,
            k,
            p,
        ) == parse::placed_from(words, i + 2, numbers, k + 1, SpritePlace { x, ..p }),
        words[i] == "size"@ && 0 < x <= 0x7f80_0000 ==> parse::placed_from(
            words,
            i,
            numbers,
            k,
            p,
        ) == parse::placed_from(words, i + 2, numbers, k + 1, SpritePlace { scale: x, ..p }),
        words[i] == "size"@ && (x == 0 || x > 0x7f80_0000) ==> parse::placed_from(
            words,
            i,
            numbers,
            k,
            p,
        ) == parse::placed_from(words, i + 2, numbers, k + 1, p),
{
    reveal_strlit("at");
    reveal_strlit("size");
    assert("at"@.len() == 2 && "size"@.len() == 4);
    let v = words[i + 1];
    slices::lemma_index_of(v, ',', 0);
    let c = slices::index_of(v, ',', 0);
    if c < v.len() {
        assert(v.contains(v[c]));
    } else if v.contains(',') {
        let j = choose|j: int| 0 <= j < v.len() && v[j] == ',';
        assert(false);
    }
}

/// A line that ends behind `at` or `size`, or whose value is no number, shows nothing.
pub proof fn law_missing_values(
    words: Seq<Seq<char>>,
    i: int,
    numbers: Seq<Option<u32>>,
    k: int,
    p: SpritePlace,
)
    requires
        0 <= i < words.len(),
        0 <= k,
        words[i] == "at"@ || words[i] == "size"@,
        i + 1 == words.len() || k >= numbers.len() || numbers[k] is None,
    ensures
        parse::placed_from(words, i, numbers, k, p) is None,
{
}

/// A sprite line names a character, and a pose in brackets where it has one.
pub proof fn law_sprite_head(name: Seq<char>, pose: Seq<char>)
    requires
        text_laws::is_one_word(name),
        !name.contains('('),
        text_laws::is_bare(pose),
        !pose.contains(')'),
    ensures
        parse::sprite_head(seq!['+', ' '] + name) == Some(
            SpriteHead { name, pose: None, words: Seq::empty() },
        ),
        parse::sprite_head(seq!['+', ' '] + name + seq!['('] + pose + seq![')']) == Some(
            SpriteHead { name, pose: Some(pose), words: Seq::empty() },
        ),
{
    let none = Seq::<char>::empty();
    lemma_head(name, none);
    assert(name + none =~= name);
    assert(slices::trim_start(none) == none);
    assert(slices::words(none) =~= Seq::empty()) by {
        text_laws::law_words(none, name, none);
    }
    assert(seq!['+', ' '] + (name + none) =~= seq!['+', ' '] + name);
    let tail = seq!['('] + pose + seq![')'];
    lemma_head(name, tail);
    assert(seq!['+', ' '] + (name + tail) =~= seq!['+', ' '] + name + seq!['('] + pose + seq![')']);
    assert(slices::trim_start(tail) == tail);
    let c = 1 + pose.len() as int;
    assert forall|j: int| 0 <= j < c implies tail[j] != ')' by {
        if j > 0 {
            assert(tail[j] == pose[j - 1]);
            assert(pose.contains(pose[j - 1]));
        }
    }
    text_laws::law_first_place(tail, ')', 0, c);
    assert(tail.subrange(1, c) =~= pose);
    text_laws::law_trim_keeps(none, pose, none);
    assert(tail.subrange(c + 1, tail.len() as int) =~= none);
}

proof fn lemma_head(name: Seq<char>, tail: Seq<char>)
    requires
        text_laws::is_one_word(name),
        !name.contains('('),
        tail.len() == 0 || tail[0] == '(',
    ensures
        ({
            let line = seq!['+', ' '] + (name + tail);
            let rest = name + tail;
            &&& slices::trim_start(line) == line
            &&& slices::trim_start(line.subrange(1, line.len() as int)) == rest
            &&& parse::name_len(rest, 0) == name.len()
            &&& rest.subrange(0, name.len() as int) == name
            &&& rest.subrange(name.len() as int, rest.len() as int) == tail
        }),
{
    let line = seq!['+', ' '] + (name + tail);
    let rest = name + tail;
    let after = line.subrange(1, line.len() as int);
    assert(after =~= seq![' '] + rest);
    assert(after.subrange(1, after.len() as int) =~= rest);
    assert(rest[0] == name[0]);
    assert(slices::trim_start(rest) == rest);
    assert forall|j: int| 0 <= j < name.len() implies #[trigger] rest[j] == name[j] by {}
    lemma_name_len(rest, 0, name.len() as int, name);
    assert(rest.subrange(0, name.len() as int) =~= name);
    assert(rest.subrange(name.len() as int, rest.len() as int) =~= tail);
}

proof fn lemma_name_len(s: Seq<char>, i: int, k: int, name: Seq<char>)
    requires
        0 <= i <= k <= s.len(),
        k == name.len(),
        text_laws::is_one_word(name),
        !name.contains('('),
        forall|j: int| 0 <= j < k ==> #[trigger] s[j] == name[j],
        k == s.len() || s[k] == '(',
    ensures
        parse::name_len(s, i) == k,
    decreases k - i,
{
    if i < k {
        assert(s[i] == name[i]);
        assert(name.contains(name[i]));
        lemma_name_len(s, i + 1, k, name);
    }
}

// ---------------------------------------------------------------------------
// Commands
// ---------------------------------------------------------------------------

/// The argument of a command is a word, or a quoted text; a quote that is not closed is
/// no argument.
pub proof fn law_first_argument(w: Seq<char>, t: Seq<char>, more: Seq<char>)
    requires
        text_laws::is_one_word(w),
        w[0] != '"',
        more.len() == 0 || slices::is_space(more[0]),
        !t.contains('"'),
    ensures
        parse::first_argument(w + more) == Some(w),
        parse::first_argument(seq!['"'] + t + seq!['"'] + more) == Some(t),
        parse::first_argument(seq!['"'] + t) is None,
{
    let a = w + more;
    assert(a[0] == w[0]);
    text_laws::law_words(Seq::empty(), w, more);
    lemma_word_len(a, w.len() as int);
    assert(a.subrange(0, w.len() as int) =~= w);
    let q = seq!['"'] + t + seq!['"'] + more;
    let k = 1 + t.len() as int;
    assert(q[0] == '"' && q[k] == '"');
    assert forall|j: int| 1 <= j < k implies q[j] != '"' by {
        assert(q[j] == t[j - 1]);
        assert(t.contains(t[j - 1]));
    }
    text_laws::law_first_place(q, '"', 1, k);
    assert(q.subrange(1, k) =~= t);
    let o = seq!['"'] + t;
    assert forall|j: int| 1 <= j < k implies o[j] != '"' by {
        assert(o[j] == t[j - 1]);
        assert(t.contains(t[j - 1]));
    }
    text_laws::law_first_place(o, '"', 1, k);
}

proof fn lemma_word_len(s: Seq<char>, k: int)
    requires
        0 <= k <= s.len(),
        forall|i: int| 0 <= i < k ==> !slices::is_space(#[trigger] s[i]),
        k == s.len() || slices::is_space(s[k]),
    ensures
        slices::word_len(s) == k,
    decreases k,
{
    if k > 0 {
        let t = s.subrange(1, s.len() as int);
        assert forall|i: int| 0 <= i < k - 1 implies !slices::is_space(#[trigger] t[i]) by {
            assert(t[i] == s[i + 1]);
        }
        lemma_word_len(t, k - 1);
    }
}

// ---------------------------------------------------------------------------
// What is shown
// ---------------------------------------------------------------------------

/// What places, phases and severities are called.
pub proof fn law_names_of_states(n: Number<Seq<char>>, fraction: Seq<char>)
    ensures
        parse::position_text(Position::Left, fraction) == "左"@,
        parse::position_text(Position::Center, fraction) == "中"@,
        parse::position_text(Position::Right, fraction) == "右"@,
        parse::position_text(Position::Custom(n), fraction) == "自定义("@ + fraction + ")"@,
        scene::place_text(Position::Left, fraction) == "左侧"@,
        scene::place_text(Position::Center, fraction) == "中央"@,
        scene::place_text(Position::Right, fraction) == "右侧"@,
        scene::place_text(Position::Custom(n), fraction) == "自定义("@ + fraction + ")"@,
        parse::phase_text(EnginePhase::Title) == "标题"@,
        parse::phase_text(EnginePhase::Running) == "运行中"@,
        parse::phase_text(EnginePhase::Transitioning) == "过渡中"@,
        parse::phase_text(EnginePhase::Waiting) == "等待"@,
        parse::phase_text(EnginePhase::ChoicePending) == "等待选择"@,
        parse::phase_text(EnginePhase::StoryEnded) == "故事结束"@,
        parse::severity_text(ErrSeverity::Error) == "错误"@,
        parse::severity_text(ErrSeverity::Warning) == "警告"@,
        parse::severity_text(ErrSeverity::Note) == "提示"@,
{
}

/// A finding is shown with its severity, its message, its line and column, and its hint.
pub proof fn law_findings_are_shown(errors: Seq<CompileError<Seq<char>>>, i: int)
    requires
        0 <= i < errors.len(),
    ensures
        parse::findings_text(errors).len() == errors.len(),
        ({
            let e = errors[i];
            let at = e.span.start_linecol;
            let head = "["@ + parse::severity_text(e.severity) + "] "@ + e.message + " - 位于 "@
                + text::nat_text(at.line as nat) + ":"@ + text::nat_text(at.col as nat);
            parse::findings_text(errors)[i] == (match e.hint {
                Some(hint) => head + "（提示："@ + hint + "）"@,
                None => head,
            })
        }),
{
    let e = errors[i];
    let at = e.span.start_linecol;
    let head = "["@ + parse::severity_text(e.severity) + "] "@ + e.message + " - 位于 "@
        + text::nat_text(at.line as nat) + ":"@ + text::nat_text(at.col as nat);
    assert(parse::finding_text(e) =~= (match e.hint {
        Some(hint) => head + "（提示："@ + hint + "）"@,
        None => head,
    }));
}

/// What is being said is shown as far as it has come, with its speaker.
pub proof fn law_dialogue_is_shown(d: StageDialogue)
    ensures
        ({
            let l = scene::dialogue_lines(Some(d));
            &&& l.len() == 3
            &&& d.speaker@.len() > 0 ==> l[0] == d.speaker@
            &&& d.speaker@.len() == 0 ==> l[0] == "（旁白）"@
            &&& d.displayed_chars <= d.full_text@.len() ==> l[1] == d.full_text@.take(
                d.displayed_chars as int,
            )
            &&& d.displayed_chars > d.full_text@.len() ==> l[1] == d.full_text@
        }),
        scene::dialogue_lines(None) == seq!["（无）"@],
{
    if d.displayed_chars == d.full_text@.len() {
        assert(d.full_text@.take(d.displayed_chars as int) =~= d.full_text@);
    }
}

/// An option is shown with its number, counted from one; one that cannot be taken is
/// marked.
pub proof fn law_options_are_shown(c: StageChoices, i: int)
    requires
        0 <= i < c.options@.len(),
    ensures
        ({
            let l = scene::choices_lines(Some(c));
            let first = if c.prompt is Some {
                1int
            } else {
                0
            };
            let o = c.options@[i]@;
            let label = text::nat_text((i + 1) as nat) + ". "@ + o.text;
            &&& l.len() == first + c.options@.len()
            &&& c.prompt matches Some(p) ==> l[0] == "提示："@ + p@
            &&& o.available ==> l[first + i] == label
            &&& !o.available ==> l[first + i] == label + "（禁用）"@
        }),
{
    reveal_strlit("");
    let o = c.options@[i]@;
    let label = text::nat_text((i + 1) as nat) + ". "@ + o.text;
    assert(label + ""@ =~= label);
}

/// The findings have the colours of their severities.
pub proof fn law_colours_of_findings(x: Seq<char>)
    ensures
        scene::finding_color("[错误]"@ + x) == 0xff_7878,
        scene::finding_color("[警告]"@ + x) == 0xdc_c878,
        scene::finding_color("[提示]"@ + x) == 0x96_aac8,
{
    reveal_strlit("[错误]");
    reveal_strlit("[警告]");
    reveal_strlit("[提示]");
    let e = "[错误]"@ + x;
    let w = "[警告]"@ + x;
    let n = "[提示]"@ + x;
    assert(e.subrange(0, 4) =~= "[错误]"@);
    assert(w.subrange(0, 4) =~= "[警告]"@);
    assert("[错误]"@[1] == '错' && "[警告]"@[1] == '警' && "[提示]"@[1] == '提');
    assert(w.subrange(0, 4)[1] == w[1]);
    assert(n.subrange(0, 4)[1] == n[1]);
}

/// A line that does not fit is cut and ends in an ellipsis; one that fits stays.
pub proof fn law_lines_fit(line: Seq<char>, width: int)
    ensures
        line.len() <= width ==> scene::fitted(line, width) == line,
        0 < width < line.len() ==> scene::fitted(line, width) == line.take(width - 1) + "…"@,
        0 < width ==> scene::fitted(line, width).len() <= width,
{
    reveal_strlit("…");
}

proof fn lemma_within(s: Seq<char>, n: nat)
    ensures
        scene::within_bytes(s, n).len() <= s.len(),
        scene::within_bytes(s, n) == s.take(scene::within_bytes(s, n).len() as int),
        slices::byte_count(scene::within_bytes(s, n)) <= n,
    decreases s.len(),
{
    if slices::byte_count(s) <= n || s.len() == 0 {
        assert(s.take(s.len() as int) =~= s);
        assert(s.len() == 0 ==> slices::byte_count(s) == 0);
    } else {
        let f = s.drop_last();
        lemma_within(f, n);
        let k = scene::within_bytes(f, n).len() as int;
        assert(f.take(k) =~= s.take(k));
    }
}

/// A node shows the beginning of its lines: of the first six as many characters as fit,
/// or of the first four as many as take at most forty-eight bytes.
pub proof fn law_nodes_are_shown(t: Seq<char>, width: int, i: int)
    ensures
        ({
            let lines = slices::lines(t);
            let n = scene::body_lines(t, width).len();
            &&& n == (if lines.len() > 6 {
                6
            } else {
                lines.len()
            })
            &&& 0 <= i < n ==> scene::body_lines(t, width)[i] == scene::fitted(lines[i], width)
        }),
        ({
            let lines = slices::lines(t);
            let n = scene::card_lines(t).len();
            &&& n == (if lines.len() > 4 {
                4
            } else {
                lines.len()
            })
            &&& 0 <= i < n ==> {
                let shown = scene::card_lines(t)[i];
                slices::byte_count(shown) <= 48 && shown == lines[i].take(shown.len() as int) && (
                slices::byte_count(lines[i]) <= 48 ==> shown == lines[i])
            }
        }),
{
    let lines = slices::lines(t);
    if 0 <= i < lines.len() {
        lemma_within(lines[i], 48);
    }
}

// ---------------------------------------------------------------------------
// Lines that the panels make
// ---------------------------------------------------------------------------

/// The lines that the panels make, and what is shown where nothing is chosen.
pub proof fn law_panel_lines(
    name: Seq<char>,
    x: Seq<char>,
    y: Seq<char>,
    scale: Seq<char>,
    transition: Seq<char>,
)
    requires
        name.len() > 0,
    ensures
        previews::sprite_syntax_of(name, x, y, scale) == "+ "@ + name + " at "@ + x + ","@ + y
            + " size "@ + scale,
        previews::bg_syntax_of(name, transition) == "@bg "@ + name + " with "@ + transition,
        previews::music_syntax_of(name) == "@music "@ + name,
        previews::bg_syntax_of(Seq::empty(), transition) == "（未选择背景）"@,
        previews::music_syntax_of(Seq::empty()) == "（未选择音乐）"@,
        slices::trim(name).len() > 0 ==> previews::sprite_name(name, x) == name,
        previews::sprite_name(Seq::empty(), x) == x,
{
    assert(slices::trim(Seq::empty()) =~= Seq::<char>::empty());
}

/// A file whose extension is asked for is listed under its name without it, whatever the
/// case of its letters.
pub proof fn law_asset_name(name: Seq<char>, ext: Seq<char>, exts: Seq<Seq<char>>, e: int)
    requires
        name.len() > 0,
        !ext.contains('.'),
        0 <= e < exts.len(),
        previews::same_letters(ext, exts[e]),
    ensures
        previews::asset_name(name + seq!['.'] + ext, exts) == Some(name),
{
    let f = name + seq!['.'] + ext;
    let k = name.len() as int;
    lemma_last_dot(f, k);
    assert(f.subrange(k + 1, f.len() as int) =~= ext);
    assert(f.subrange(0, k) =~= name);
}

proof fn lemma_last_dot(s: Seq<char>, k: int)
    requires
        0 <= k < s.len(),
        s[k] == '.',
        forall|i: int| k < i < s.len() ==> #[trigger] s[i] != '.',
    ensures
        previews::last_dot(s) == k,
    decreases s.len(),
{
    if s.len() - 1 > k {
        assert(s[s.len() - 1] != '.');
        lemma_last_dot(s.drop_last(), k);
    }
}

} // verus!
