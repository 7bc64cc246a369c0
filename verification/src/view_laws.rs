//! Laws of what the editor reads off the lines of a script.

use crate::blueprint;
use crate::blueprint::NodeKind;
use crate::colour_laws;
use crate::flow;
use crate::flow::{FlowKind, MarkView};
use crate::fs_util;
use crate::fs_util::{BinScan, Folder};
use crate::outline;
use crate::outline::OutlineRow;
use crate::palette::{COLOR_CHOICE, COLOR_FLOW, COLOR_SECTION};
use crate::slices;
use crate::text;
use crate::text_laws;
use vstd::prelude::*;

verus! {

// ---------------------------------------------------------------------------
// Kinds of nodes
// ---------------------------------------------------------------------------

proof fn lemma_no_word(t: Seq<char>, w: Seq<char>)
    requires
        w.len() > 0,
        t.len() == 0 || t[0] != w[0],
    ensures
        !text::starts_with(t, w),
{
    if text::starts_with(t, w) {
        assert(t.subrange(0, w.len() as int)[0] == t[0]);
    }
}

proof fn lemma_no_words(t: Seq<char>)
    ensures
        t.len() == 0 || (t[0] != 'e' && t[0] != 'u') ==> !text::starts_with(t, "ending"@)
            && !text::starts_with(t, "end"@) && !text::starts_with(t, "unlock"@),
{
    reveal_strlit("ending");
    reveal_strlit("end");
    reveal_strlit("unlock");
    assert("ending"@[0] == 'e' && "end"@[0] == 'e' && "unlock"@[0] == 'u');
    if t.len() == 0 || (t[0] != 'e' && t[0] != 'u') {
        lemma_no_word(t, "ending"@);
        lemma_no_word(t, "end"@);
        lemma_no_word(t, "unlock"@);
    }
}

proof fn lemma_kind(mark: Seq<char>, x: Seq<char>)
    requires
        mark.len() > 0,
        !slices::is_space(mark[0]),
        mark[0] != 'e',
        mark[0] != 'u',
    ensures
        slices::trim_start(mark + x) == mark + x,
        !text::starts_with(mark + x, "ending"@),
        !text::starts_with(mark + x, "end"@),
        !text::starts_with(mark + x, "unlock"@),
{
    let t = mark + x;
    assert(t[0] == mark[0]);
    lemma_no_words(t);
    colour_laws::lemma_pairs(t);
}

/// Every mark makes its own kind of node.
pub proof fn law_kinds(x: Seq<char>)
    ensures
        blueprint::kind_of(seq!['/', '/'] + x) == NodeKind::Comment,
        blueprint::kind_of(seq!['#'] + x) == NodeKind::Section,
        blueprint::kind_of(seq!['+'] + x) == NodeKind::Direction,
        blueprint::kind_of(seq!['-', '>'] + x) == NodeKind::Flow,
        blueprint::kind_of(seq!['-', ' '] + x) == NodeKind::Direction,
        blueprint::kind_of(seq!['@'] + x) == NodeKind::Command,
        blueprint::kind_of(seq!['?'] + x) == NodeKind::Choice,
        blueprint::kind_of(seq!['|'] + x) == NodeKind::ChoiceOption,
        blueprint::kind_of(seq!['=', '>'] + x) == NodeKind::Visit,
        blueprint::kind_of(seq!['<', '='] + x) == NodeKind::Return,
        blueprint::kind_of(seq!['~', '~'] + x) == NodeKind::Wait,
        blueprint::kind_of(seq!['$'] + x) == NodeKind::VarOp,
        blueprint::kind_of(seq!['"'] + x) == NodeKind::Narration,
{
    lemma_marks(seq!['/', '/'], x);
    lemma_marks(seq!['#'], x);
    lemma_marks(seq!['+'], x);
    lemma_marks(seq!['-', '>'], x);
    lemma_marks(seq!['-', ' '], x);
    lemma_marks(seq!['@'], x);
    lemma_marks(seq!['?'], x);
    lemma_marks(seq!['|'], x);
    lemma_marks(seq!['=', '>'], x);
    lemma_marks(seq!['<', '='], x);
    lemma_marks(seq!['~', '~'], x);
    lemma_marks(seq!['$'], x);
    lemma_marks(seq!['"'], x);
}

proof fn lemma_marks(mark: Seq<char>, x: Seq<char>)
    requires
        1 <= mark.len() <= 2,
        !slices::is_space(mark[0]),
        mark[0] != 'e',
        mark[0] != 'u',
    ensures
        slices::trim_start(mark + x) == mark + x,
        !text::starts_with(mark + x, "ending"@),
        !text::starts_with(mark + x, "end"@),
        !text::starts_with(mark + x, "unlock"@),
        (mark + x)[0] == mark[0],
        mark.len() == 2 ==> (mark + x)[1] == mark[1],
        text::starts_with(mark + x, "//"@) <==> (mark + x).len() >= 2 && (mark + x)[0] == '/' && (
        mark + x)[1] == '/',
        text::starts_with(mark + x, "->"@) <==> (mark + x).len() >= 2 && (mark + x)[0] == '-' && (
        mark + x)[1] == '>',
        text::starts_with(mark + x, "=>"@) <==> (mark + x).len() >= 2 && (mark + x)[0] == '=' && (
        mark + x)[1] == '>',
        text::starts_with(mark + x, "<="@) <==> (mark + x).len() >= 2 && (mark + x)[0] == '<' && (
        mark + x)[1] == '=',
        text::starts_with(mark + x, "~~"@) <==> (mark + x).len() >= 2 && (mark + x)[0] == '~' && (
        mark + x)[1] == '~',
{
    lemma_kind(mark, x);
    colour_laws::lemma_pairs(mark + x);
}

/// The words for endings, the end and what is unlocked make their own kinds of nodes.
pub proof fn law_word_kinds(x: Seq<char>)
    ensures
        blueprint::kind_of("ending"@ + x) == NodeKind::Ending,
        blueprint::kind_of("unlock"@ + x) == NodeKind::Unlock,
        !text::starts_with("end"@ + x, "ending"@) ==> blueprint::kind_of("end"@ + x)
            == NodeKind::StoryEnd,
{
    reveal_strlit("ending");
    reveal_strlit("end");
    reveal_strlit("unlock");
    let a = "ending"@ + x;
    let b = "unlock"@ + x;
    let c = "end"@ + x;
    assert(a[0] == 'e' && b[0] == 'u' && c[0] == 'e');
    colour_laws::lemma_pairs(a);
    colour_laws::lemma_pairs(b);
    colour_laws::lemma_pairs(c);
    assert(a.subrange(0, 6) =~= "ending"@);
    assert(b.subrange(0, 6) =~= "unlock"@);
    assert(c.subrange(0, 3) =~= "end"@);
    assert("ending"@[0] == 'e' && "end"@[0] == 'e');
    lemma_no_word(b, "ending"@);
    lemma_no_word(b, "end"@);
}

/// A name, a colon and a quoted text are a line of dialogue.
pub proof fn law_dialogue_kind(who: Seq<char>, x: Seq<char>)
    requires
        who.len() > 0,
        'A' <= who[0] && who[0] <= 'Z',
    ensures
        blueprint::kind_of(who + seq![':', ' ', '"'] + x) == NodeKind::Dialogue,
{
    let t = who + seq![':', ' ', '"'] + x;
    let n = who.len() as int;
    assert(t[0] == who[0]);
    assert(t[n] == ':' && t[n + 2] == '"');
    lemma_no_words(t);
    colour_laws::lemma_pairs(t);
    slices::lemma_index_of(t, ':', 0);
    slices::lemma_index_of(t, '"', 0);
}

/// What each kind of node is called; a command is called by its name, where it has no
/// label of its own, and a character enters or leaves.
pub proof fn law_labels(name: Seq<char>, x: Seq<char>)
    requires
        text_laws::is_one_word(name),
        x.len() == 0 || slices::is_space(x[0]),
    ensures
        blueprint::command_of(seq!['@'] + name + x) == name,
        blueprint::label_of(seq!['@'] + name + x, NodeKind::Command) == (if name == "bg"@ {
            "背景"@
        } else if name == "music"@ {
            "音乐"@
        } else if name == "stop_music"@ {
            "停止音乐"@
        } else {
            name
        }),
        blueprint::label_of(seq!['+'] + x, NodeKind::Direction) == "立绘上场"@,
        blueprint::label_of(seq!['-'] + x, NodeKind::Direction) == "立绘下场"@,
        blueprint::label_of(x, NodeKind::Section) == "章节"@,
        blueprint::label_of(x, NodeKind::Dialogue) == "对话"@,
        blueprint::label_of(x, NodeKind::Narration) == "旁白"@,
        blueprint::label_of(x, NodeKind::Choice) == "选择"@,
        blueprint::label_of(x, NodeKind::ChoiceOption) == "选项"@,
        blueprint::label_of(x, NodeKind::Flow) == "跳转"@,
        blueprint::label_of(x, NodeKind::Visit) == "访问"@,
        blueprint::label_of(x, NodeKind::Return) == "返回"@,
        blueprint::label_of(x, NodeKind::Wait) == "等待"@,
        blueprint::label_of(x, NodeKind::StoryEnd) == "结局"@,
        blueprint::label_of(x, NodeKind::Ending) == "结局声明"@,
        blueprint::label_of(x, NodeKind::Unlock) == "解锁"@,
        blueprint::label_of(x, NodeKind::VarOp) == "变量"@,
        blueprint::label_of(x, NodeKind::Comment) == "注释"@,
        blueprint::label_of(x, NodeKind::Other) == "其他"@,
{
    let t = seq!['@'] + name + x;
    let rest = name + x;
    assert(slices::trim_start(t) == t);
    assert(t.subrange(1, t.len() as int) =~= rest);
    assert(rest[0] == name[0]);
    assert(slices::trim_start(rest) == rest);
    lemma_word_len(rest, name.len() as int);
    assert(rest.subrange(0, name.len() as int) =~= name);
    let p = seq!['+'] + x;
    let m = seq!['-'] + x;
    assert(p[0] == '+' && m[0] == '-');
    assert(slices::trim_start(p) == p);
    assert(slices::trim_start(m) == m);
}

proof fn lemma_word_len(s: Seq<char>, k: int)
    requires
        0 <= k <= s.len(),
        forall|i: int| 0 <= i < k ==> !slices::is_space(#[trigger] s[i]),
        k == s.len() || slices::is_space(s[k]),
    ensures
        slices::word_len(s) == k,
    decreases k,
{
    if k > 0 {
        let t = s.subrange(1, s.len() as int);
        assert forall|i: int| 0 <= i < k - 1 implies !slices::is_space(#[trigger] t[i]) by {
            assert(t[i] == s[i + 1]);
        }
        lemma_word_len(t, k - 1);
    }
}

// ---------------------------------------------------------------------------
// Marks of the flow
// ---------------------------------------------------------------------------

/// A visit is marked where it stands, with its target, and a return likewise; other lines
/// have no mark.
pub proof fn law_marks(blank: Seq<char>, target: Seq<char>, other: Seq<char>, at: int, line: int)
    requires
        text_laws::all_blank(blank),
        text_laws::is_bare(target),
        text_laws::is_bare(other),
        other[0] != '=',
        other[0] != '<',
    ensures
        flow::mark_of(blank + (seq!['=', '>', ' '] + target), at, line) == Some(
            MarkView {
                kind: FlowKind::Visit,
                start: at + blank.len(),
                end: at + blank.len() + 2,
                line,
                target: Some(target),
            },
        ),
        flow::mark_of(blank + seq!['<', '='], at, line) == Some(
            MarkView {
                kind: FlowKind::Return,
                start: at + blank.len(),
                end: at + blank.len() + 2,
                line,
                target: None,
            },
        ),
        flow::mark_of(blank + other, at, line) is None,
{
    let none = Seq::<char>::empty();
    let v = seq!['=', '>', ' '] + target;
    assert(v[0] == '=' && v[1] == '>' && v.last() == target.last());
    text_laws::law_trim_keeps(blank, v, none);
    assert(blank + v + none =~= blank + v);
    assert(v + none =~= v);
    colour_laws::lemma_pairs(v);
    assert(v.subrange(2, v.len() as int) =~= seq![' '] + target + none);
    text_laws::law_trim_keeps(seq![' '], target, none);
    let r = seq!['<', '='];
    text_laws::law_trim_keeps(blank, r, none);
    assert(blank + r + none =~= blank + r);
    assert(r + none =~= r);
    colour_laws::lemma_pairs(r);
    text_laws::law_trim_keeps(blank, other, none);
    assert(blank + other + none =~= blank + other);
    assert(other + none =~= other);
    colour_laws::lemma_pairs(other);
}

/// What is told about a mark under the cursor.
pub proof fn law_hints(s: Seq<char>, at: int, i: int)
    requires
        0 <= i < flow::marks_in(s).len() <= usize::MAX,
        flow::touches(flow::marks_in(s)[i], at),
        forall|k: int| 0 <= k < i ==> !flow::touches(#[trigger] flow::marks_in(s)[k], at),
    ensures
        ({
            let marks = flow::marks_in(s);
            let m = marks[i];
            let head = "跳转到目标："@ + (match m.target {
                Some(t) => t,
                None => "(未指定)"@,
            });
            flow::hint_at(s, at) == Some(
                match (m.kind, flow::partner_in(s, i)) {
                    (FlowKind::Return, _) => "返回到上一个拜访点"@,
                    (FlowKind::Visit, Some(j)) => head + "\n返回点在第 "@ + text::nat_text(
                        (marks[j].line + 1) as nat,
                    ) + " 行"@,
                    (FlowKind::Visit, None) => head + "\n返回点未找到"@,
                },
            )
        }),
{
    lemma_touched(flow::marks_in(s), at, 0, i);
}

proof fn lemma_touched(marks: Seq<MarkView>, at: int, k: int, i: int)
    requires
        0 <= k <= i < marks.len() <= usize::MAX,
        flow::touches(marks[i], at),
        forall|h: int| k <= h < i ==> !flow::touches(#[trigger] marks[h], at),
    ensures
        flow::first_touched(marks, at, k) == Some(i as usize),
    decreases i - k,
{
    if k < i {
        lemma_touched(marks, at, k + 1, i);
    }
}

// ---------------------------------------------------------------------------
// The outline
// ---------------------------------------------------------------------------

/// A section, a prompt and an option have a row of their own, with their text, as deep as
/// the visits that are open; a visit stands there too, and a return as deep as what it
/// goes back to.
pub proof fn law_rows(x: Seq<char>, before: nat, after: nat, m: MarkView)
    requires
        text_laws::is_bare(x),
        before <= usize::MAX,
        after <= usize::MAX,
    ensures
        outline::row_of(seq!['#', ' '] + x, None, before, after) == Some(
            OutlineRow {
                indent: before as usize,
                text: "# "@ + x,
                color: COLOR_SECTION,
                description: "章节"@,
            },
        ),
        outline::row_of(seq!['?', ' '] + x, None, before, after) == Some(
            OutlineRow {
                indent: before as usize,
                text: "? "@ + x,
                color: COLOR_CHOICE,
                description: "选项提示"@,
            },
        ),
        outline::row_of(seq!['|', ' '] + x, None, before, after) == Some(
            OutlineRow {
                indent: before as usize,
                text: "| "@ + x,
                color: COLOR_CHOICE,
                description: "选项"@,
            },
        ),
        outline::row_of(seq!['?'], None, before, after) is None,
        x[0] != '#' && x[0] != '?' && x[0] != '|' ==> outline::row_of(
            x,
            None,
            before,
            after,
        ) is None,
        m.kind == FlowKind::Visit && m.target == Some(x) ==> outline::row_of(
            x,
            Some(m),
            before,
            after,
        ) == Some(
            OutlineRow {
                indent: before as usize,
                text: "=> "@ + x,
                color: COLOR_FLOW,
                description: "访问子章节"@,
            },
        ),
        m.kind == FlowKind::Return ==> outline::row_of(x, Some(m), before, after) == Some(
            OutlineRow {
                indent: after as usize,
                text: "<="@,
                color: COLOR_FLOW,
                description: "返回"@,
            },
        ),
{
    lemma_row('#', x);
    lemma_row('?', x);
    lemma_row('|', x);
    let q = seq!['?'];
    assert(slices::trim_start(q) == q);
    assert(q.subrange(1, 1) =~= Seq::empty());
    assert(slices::trim(Seq::empty()) =~= Seq::<char>::empty());
    assert(slices::trim_start(x) == x);
}

proof fn lemma_row(mark: char, x: Seq<char>)
    requires
        text_laws::is_bare(x),
        !slices::is_space(mark),
    ensures
        ({
            let t = seq![mark, ' '] + x;
            &&& slices::trim_start(t) == t
            &&& t[0] == mark
            &&& slices::trim(t.subrange(1, t.len() as int)) == x
        }),
{
    let t = seq![mark, ' '] + x;
    assert(t.subrange(1, t.len() as int) =~= seq![' '] + x + Seq::empty());
    text_laws::law_trim_keeps(seq![' '], x, Seq::empty());
}

// ---------------------------------------------------------------------------
// Files
// ---------------------------------------------------------------------------

/// A script belongs to the nearest folder where a project begins, and else to its own.
pub proof fn law_project_root(parents: Seq<Folder>, i: int)
    ensures
        parents.len() == 0 ==> fs_util::project_root(parents) == "."@,
        0 <= i < parents.len() && parents[i].is_root() && (forall|k: int|
            0 <= k < i ==> !(#[trigger] parents[k]).is_root()) ==> fs_util::project_root(parents)
            == parents[i].path@,
        parents.len() > 0 && (forall|k: int|
            0 <= k < parents.len() ==> !(#[trigger] parents[k]).is_root())
            ==> fs_util::project_root(parents) == parents[0].path@,
{
    if 0 <= i < parents.len() && parents[i].is_root() && (forall|k: int|
        0 <= k < i ==> !(#[trigger] parents[k]).is_root()) {
        lemma_root(parents, 0, i);
    }
    if forall|k: int| 0 <= k < parents.len() ==> !(#[trigger] parents[k]).is_root() {
        lemma_root(parents, 0, parents.len() as int);
    }
}

proof fn lemma_root(parents: Seq<Folder>, k: int, i: int)
    requires
        0 <= k <= i <= parents.len(),
        forall|h: int| k <= h < i ==> !(#[trigger] parents[h]).is_root(),
        i < parents.len() ==> parents[i].is_root(),
    ensures
        fs_util::root_index(parents, k) == i,
    decreases i - k,
{
    if k < i {
        lemma_root(parents, k + 1, i);
    }
}

/// A name between quotes names a program, in a section of a program and nowhere else.
pub proof fn law_program_name(st: BinScan, name: Seq<char>)
    requires
        name.len() > 0,
        !name.contains('"'),
    ensures
        ({
            let line = "name = \""@ + name + "\""@;
            &&& st.in_bin && !st.names.contains(name) ==> fs_util::bin_line(st, line) == (BinScan {
                names: st.names.push(name),
                ..st
            })
            &&& st.in_bin && st.names.contains(name) ==> fs_util::bin_line(st, line) == st
            &&& !st.in_bin ==> fs_util::bin_line(st, line) == st
        }),
{
    reveal_strlit("name = \"");
    reveal_strlit("\"");
    reveal_strlit("name");
    reveal_strlit("[[");
    let line = "name = \""@ + name + "\""@;
    assert(line[0] == 'n');
    assert(line.last() == '"');
    text_laws::law_trim_keeps(Seq::empty(), line, Seq::empty());
    assert("[["@[0] == '[');
    lemma_no_word(line, "[["@);
    text_laws::law_first_place(line, '=', 0, 5);
    let n4 = "name"@;
    assert(line.subrange(0, 5) =~= Seq::empty() + n4 + seq![' ']);
    text_laws::law_trim_keeps(Seq::empty(), n4, seq![' ']);
    let q = seq!['"'] + name + seq!['"'];
    assert(line.subrange(6, line.len() as int) =~= seq![' '] + q + Seq::empty());
    text_laws::law_trim_keeps(seq![' '], q, Seq::empty());
    let rest = q.subrange(1, q.len() as int);
    let k = name.len() as int;
    assert forall|j: int| 0 <= j < k implies rest[j] != '"' by {
        assert(rest[j] == name[j]);
        assert(name.contains(name[j]));
    }
    assert(rest[k] == '"');
    text_laws::law_first_place(rest, '"', 0, k);
    assert(rest.subrange(0, k) =~= name);
}

/// A section of a program begins with its head and ends with the next head; comments and
/// blank lines change nothing.
pub proof fn law_program_sections(st: BinScan, x: Seq<char>)
    requires
        x.len() == 0 || !slices::is_space(x.last()),
        x.len() == 0 || x[0] != '[',
    ensures
        fs_util::bin_line(st, "[[bin]]"@) == (BinScan { in_bin: true, ..st }),
        fs_util::bin_line(st, seq!['['] + x) == (BinScan { in_bin: false, ..st }),
        fs_util::bin_line(st, seq!['#'] + x) == st,
        fs_util::bin_line(st, Seq::empty()) == st,
{
    reveal_strlit("[[bin]]");
    reveal_strlit("[[");
    let none = Seq::<char>::empty();
    let b = "[[bin]]"@;
    text_laws::law_trim_keeps(none, b, none);
    assert(b.subrange(0, 2) =~= "[["@);
    let h = seq!['['] + x;
    assert(h.last() == (if x.len() == 0 {
        '['
    } else {
        x.last()
    }));
    text_laws::law_trim_keeps(none, h, none);
    assert(!text::starts_with(h, "[["@)) by {
        assert("[["@[1] == '[');
        if text::starts_with(h, "[["@) {
            assert(h.subrange(0, 2)[1] == h[1]);
        }
    }
    let c = seq!['#'] + x;
    assert(c.last() == (if x.len() == 0 {
        '#'
    } else {
        x.last()
    }));
    text_laws::law_trim_keeps(none, c, none);
    assert(slices::trim(none) =~= none);
}

/// Where no manifest names a program, it is named after its folder, or is the game.
pub proof fn law_fallback_name(folder: Seq<char>)
    ensures
        fs_util::program_names(Seq::empty(), Some(folder)) == seq![folder],
        fs_util::program_names(Seq::empty(), None) == seq!["akrs-game"@],
{
}

} // verus!
