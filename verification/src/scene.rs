//! What the editor shows of a running story, of its findings and of a node.

use crate::ast::Position;
use crate::diagnostic;
use crate::diagnostic::join_strings;
use crate::palette::Color;
use crate::parse;
use crate::parse::{phase_label, EnginePhase};
use crate::slices;
use crate::slices::{bytes_of, lines_of, starts_with_str};
use crate::text;
use crate::text::{
    concat2, concat3, concat4, concat5, format_usize, from_chars, push_string, to_chars,
};
use crate::vm::ChoiceInfo;
use vstd::prelude::*;
use vstd::slice::slice_subrange;

verus! {

// ---------------------------------------------------------------------------
// A running story
// ---------------------------------------------------------------------------

/// The label of a place on the stage.
pub open spec fn place_text(p: Position<Seq<char>>, fraction: Seq<char>) -> Seq<char> {
    match p {
        Position::Left => "左侧"@,
        Position::Center => "中央"@,
        Position::Right => "右侧"@,
        Position::Custom(_) => "自定义("@ + fraction + ")"@,
    }
}

/// The label of a place on the stage. `fraction` is the text of a place that has
/// no name, with two decimals.
pub fn position_label(p: &Position, fraction: &str) -> (r: String)
    ensures
        r@ == place_text(p@, fraction@),
{
    match p {
        Position::Left => "左侧".to_owned(),
        Position::Center => "中央".to_owned(),
        Position::Right => "右侧".to_owned(),
        Position::Custom(_) => concat3("自定义(", fraction, ")"),
    }
}

/// A character on the stage. `fraction` is the text of a place without a name.
#[derive(Debug)]
pub struct StageCharacter {
    pub name: String,
    pub position: Position,
    pub fraction: String,
}

/// What is being said.
#[derive(Debug)]
pub struct StageDialogue {
    pub speaker: String,
    pub full_text: String,
    pub displayed_chars: usize,
    pub complete: bool,
}

/// What is offered.
#[derive(Debug)]
pub struct StageChoices {
    pub prompt: Option<String>,
    pub options: Vec<ChoiceInfo>,
}

/// What the stage shows.
#[derive(Debug)]
pub struct Stage {
    pub background: Option<String>,
    pub characters: Vec<StageCharacter>,
    pub dialogue: Option<StageDialogue>,
    pub choices: Option<StageChoices>,
    pub story_ended: bool,
}

/// The line of a character.
pub open spec fn character_line(c: StageCharacter) -> Seq<char> {
    "- "@ + c.name@ + " ["@ + place_text(c.position@, c.fraction@) + "]"@
}

/// The lines of the characters.
pub open spec fn character_lines(cs: Seq<StageCharacter>) -> Seq<Seq<char>> {
    if cs.len() == 0 {
        seq!["（舞台上无角色）"@]
    } else {
        Seq::new(cs.len(), |i: int| character_line(cs[i]))
    }
}

/// The first characters of a text.
pub open spec fn begin_of(s: Seq<char>, n: int) -> Seq<char> {
    if n < s.len() {
        s.take(n)
    } else {
        s
    }
}

/// The lines of what is being said.
pub open spec fn dialogue_lines(d: Option<StageDialogue>) -> Seq<Seq<char>> {
    match d {
        Some(d) => seq![
            if d.speaker@.len() == 0 {
                "（旁白）"@
            } else {
                d.speaker@
            },
            begin_of(d.full_text@, d.displayed_chars as int),
            "（"@ + text::nat_text(d.displayed_chars as nat) + "/"@ + text::nat_text(
                d.full_text@.len(),
            ) + " 字，完成="@ + (if d.complete {
                "true"@
            } else {
                "false"@
            }) + "）"@,
        ],
        None => seq!["（无）"@],
    }
}

/// The label of an option; the numbers begin with one.
pub open spec fn option_label(i: int, option: ChoiceInfo<Seq<char>>) -> Seq<char> {
    text::nat_text((i + 1) as nat) + ". "@ + option.text + if option.available {
        ""@
    } else {
        "（禁用）"@
    }
}

/// The lines of what is offered.
pub open spec fn choices_lines(c: Option<StageChoices>) -> Seq<Seq<char>> {
    match c {
        Some(c) => (match c.prompt {
            Some(p) => seq!["提示："@ + p@],
            None => Seq::empty(),
        }) + if c.options@.len() == 0 {
            seq!["（无选项）"@]
        } else {
            Seq::new(c.options@.len(), |i: int| option_label(i, c.options@[i]@))
        },
        None => seq!["（无）"@],
    }
}

/// The lines of the preview.
pub open spec fn stage_lines(phase: EnginePhase, s: Stage) -> Seq<Seq<char>> {
    seq![
        "状态："@ + parse::phase_text(phase),
        "背景"@,
        match s.background {
            Some(name) => "名称 = "@ + name@,
            None => "（无）"@,
        },
        "角色"@,
    ] + character_lines(s.characters@) + seq!["对话"@] + dialogue_lines(s.dialogue) + seq![
        "选项"@,
    ] + choices_lines(s.choices) + if s.story_ended {
        seq!["故事已结束。"@]
    } else {
        Seq::empty()
    }
}

fn push_characters(v: &mut Vec<String>, cs: &Vec<StageCharacter>)
    ensures
        text::views(final(v)@) == text::views(old(v)@) + character_lines(cs@),
{
    let ghost before = text::views(v@);
    let ghost lines = character_lines(cs@);
    let n: usize = cs.len();
    if n == 0 {
        push_string(v, "（舞台上无角色）".to_owned());
        assert(text::views(v@) =~= before + lines);
        return;
    }
    let mut i: usize = 0;
    assert(text::views(v@) =~= before + lines.take(0));
    while i < n
        invariant
            i <= n,
            0 < n == cs@.len(),
            lines == character_lines(cs@),
            text::views(v@) == before + lines.take(i as int),
        decreases n - i,
    {
        let c: &StageCharacter = &cs[i];
        let place: String = position_label(&c.position, c.fraction.as_str());
        let line: String = concat5("- ", c.name.as_str(), " [", place.as_str(), "]");
        assert(line@ == lines[i as int]);
        push_string(v, line);
        assert(text::views(v@) =~= before + lines.take(i + 1));
        i = i + 1;
    }
    assert(lines.take(n as int) =~= lines);
}

fn push_dialogue(v: &mut Vec<String>, dialogue: &Option<StageDialogue>)
    ensures
        text::views(final(v)@) == text::views(old(v)@) + dialogue_lines(*dialogue),
{
    let ghost before = text::views(v@);
    match dialogue {
        Some(d) => {
            let speaker: Vec<char> = to_chars(d.speaker.as_str());
            if speaker.len() == 0 {
                push_string(v, "（旁白）".to_owned());
            } else {
                push_string(v, d.speaker.clone());
            }
            let cs: Vec<char> = to_chars(d.full_text.as_str());
            let n: usize = cs.len();
            if d.displayed_chars < n {
                push_string(v, from_chars(slice_subrange(cs.as_slice(), 0, d.displayed_chars)));
                assert(cs@.subrange(0, d.displayed_chars as int) =~= cs@.take(
                    d.displayed_chars as int,
                ));
            } else {
                push_string(v, d.full_text.clone());
            }
            let shown: String = format_usize(d.displayed_chars);
            let all: String = format_usize(n);
            let mut line: String = concat5(
                "（",
                shown.as_str(),
                "/",
                all.as_str(),
                " 字，完成=",
            );
            if d.complete {
                line.append("true");
            } else {
                line.append("false");
            }
            line.append("）");
            push_string(v, line);
        },
        None => push_string(v, "（无）".to_owned()),
    }
    assert(text::views(v@) =~= before + dialogue_lines(*dialogue));
}

fn push_options(v: &mut Vec<String>, options: &Vec<ChoiceInfo>)
    ensures
        text::views(final(v)@) == text::views(old(v)@) + Seq::new(
            options@.len(),
            |i: int| option_label(i, options@[i]@),
        ),
{
    let ghost before = text::views(v@);
    let ghost lines = Seq::new(options@.len(), |i: int| option_label(i, options@[i]@));
    let n: usize = options.len();
    let mut i: usize = 0;
    assert(text::views(v@) =~= before + lines.take(0));
    while i < n
        invariant
            i <= n,
            n == options@.len(),
            lines == Seq::new(options@.len(), |i: int| option_label(i, options@[i]@)),
            text::views(v@) == before + lines.take(i as int),
        decreases n - i,
    {
        let number: String = format_usize(i + 1);
        let tail: &str = if options[i].available {
            ""
        } else {
            "（禁用）"
        };
        let line: String = concat4(number.as_str(), ". ", options[i].text.as_str(), tail);
        assert(line@ == lines[i as int]);
        push_string(v, line);
        assert(text::views(v@) =~= before + lines.take(i + 1));
        i = i + 1;
    }
    assert(lines.take(n as int) =~= lines);
}

fn push_choices(v: &mut Vec<String>, choices: &Option<StageChoices>)
    ensures
        text::views(final(v)@) == text::views(old(v)@) + choices_lines(*choices),
{
    let ghost before = text::views(v@);
    match choices {
        Some(c) => {
            match &c.prompt {
                Some(p) => push_string(v, concat2("提示：", p.as_str())),
                None => {},
            }
            if c.options.len() == 0 {
                push_string(v, "（无选项）".to_owned());
            } else {
                push_options(v, &c.options);
            }
        },
        None => push_string(v, "（无）".to_owned()),
    }
    assert(text::views(v@) =~= before + choices_lines(*choices));
}

/// The lines of the preview of a running story.
pub fn show_preview(phase: EnginePhase, stage: &Stage) -> (r: Vec<String>)
    ensures
        text::views(r@) == stage_lines(phase, *stage),
{
    let mut r: Vec<String> = Vec::new();
    assert(text::views(r@) =~= Seq::empty());
    push_string(&mut r, concat2("状态：", phase_label(phase)));
    push_string(&mut r, "背景".to_owned());
    match &stage.background {
        Some(name) => push_string(&mut r, concat2("名称 = ", name.as_str())),
        None => push_string(&mut r, "（无）".to_owned()),
    }
    push_string(&mut r, "角色".to_owned());
    push_characters(&mut r, &stage.characters);
    push_string(&mut r, "对话".to_owned());
    push_dialogue(&mut r, &stage.dialogue);
    push_string(&mut r, "选项".to_owned());
    push_choices(&mut r, &stage.choices);
    if stage.story_ended {
        push_string(&mut r, "故事已结束。".to_owned());
    }
    assert(text::views(r@) =~= stage_lines(phase, *stage));
    r
}

// ---------------------------------------------------------------------------
// Findings
// ---------------------------------------------------------------------------

/// How many findings the status bar shows.
pub const SHOWN_FINDINGS: usize = 8;

/// The colour of a finding, by its severity.
pub open spec fn finding_color(line: Seq<char>) -> Color {
    if text::starts_with(line, "[错误]"@) {
        0xff_7878
    } else if text::starts_with(line, "[警告]"@) {
        0xdc_c878
    } else {
        0x96_aac8
    }
}

/// The colour of a finding, by its severity.
pub fn line_color(line: &str) -> (r: Color)
    ensures
        r == finding_color(line@),
{
    let cs: Vec<char> = to_chars(line);
    if starts_with_str(cs.as_slice(), "[错误]") {
        0xff_7878
    } else if starts_with_str(cs.as_slice(), "[警告]") {
        0xdc_c878
    } else {
        0x96_aac8
    }
}

/// How many of the findings are shown, and the line for the others.
pub fn findings_shown(diagnostics: &Vec<String>) -> (r: (usize, Option<String>))
    ensures
        r.0 == (if diagnostics@.len() < 8 {
            diagnostics@.len()
        } else {
            8
        }),
        text::opt_view(r.1) == (if diagnostics@.len() > 8 {
            Some("……还有 "@ + text::nat_text((diagnostics@.len() - 8) as nat) + " 条"@)
        } else {
            None
        }),
{
    let n: usize = diagnostics.len();
    if n > SHOWN_FINDINGS {
        let more: String = format_usize(n - SHOWN_FINDINGS);
        (SHOWN_FINDINGS, Some(concat3("……还有 ", more.as_str(), " 条")))
    } else {
        (n, None)
    }
}

// ---------------------------------------------------------------------------
// A node
// ---------------------------------------------------------------------------

/// A line that fits a width in characters; one that does not ends in an
/// ellipsis.
pub open spec fn fitted(line: Seq<char>, width: int) -> Seq<char> {
    if line.len() > width {
        line.take(if width > 0 {
            width - 1
        } else {
            0
        }) + "…"@
    } else {
        line
    }
}

/// The lines of a node that are shown.
pub open spec fn body_lines(text: Seq<char>, width: int) -> Seq<Seq<char>> {
    let lines = slices::lines(text);
    let first = if lines.len() > 6 {
        lines.take(6)
    } else {
        lines
    };
    Seq::new(first.len(), |i: int| fitted(first[i], width))
}

/// The text of a node as it is shown: its first six lines, each cut to a width.
pub fn node_preview(text: &str, width: usize) -> (r: String)
    ensures
        r@ == diagnostic::joined(body_lines(text@, width as int), "\n"@),
{
    let cs: Vec<char> = to_chars(text);
    let lines: Vec<&[char]> = lines_of(cs.as_slice());
    let ghost body = body_lines(text@, width as int);
    let ghost all = slices::slice_views(lines@);
    let n: usize = if lines.len() > 6 {
        6
    } else {
        lines.len()
    };
    let mut out: Vec<String> = Vec::new();
    let mut i: usize = 0;
    assert(text::views(out@) =~= body.take(0));
    while i < n
        invariant
            i <= n,
            n == body.len(),
            n <= lines@.len(),
            n <= 6,
            all == slices::slice_views(lines@),
            all == slices::lines(text@),
            body == body_lines(text@, width as int),
            text::views(out@) == body.take(i as int),
        decreases n - i,
    {
        let line: &[char] = lines[i];
        assert(line@ == all[i as int]);
        let fitted: String = if line.len() > width {
            let k: usize = if width > 0 {
                width - 1
            } else {
                0
            };
            let front: String = from_chars(slice_subrange(line, 0, k));
            assert(line@.subrange(0, k as int) =~= line@.take(k as int));
            concat2(front.as_str(), "…")
        } else {
            from_chars(line)
        };
        assert(fitted@ == body[i as int]);
        push_string(&mut out, fitted);
        assert(text::views(out@) =~= body.take(i + 1));
        i = i + 1;
    }
    assert(body.take(n as int) =~= body);
    join_strings(&out, "\n")
}

/// The longest beginning of a text that takes at most `n` bytes.
pub open spec fn within_bytes(s: Seq<char>, n: nat) -> Seq<char>
    decreases s.len(),
{
    if slices::byte_count(s) <= n || s.len() == 0 {
        s
    } else {
        within_bytes(s.drop_last(), n)
    }
}

/// The lines of a node on the canvas: the first four, each of at most
/// forty-eight bytes.
pub open spec fn card_lines(text: Seq<char>) -> Seq<Seq<char>> {
    let lines = slices::lines(text);
    let first = if lines.len() > 4 {
        lines.take(4)
    } else {
        lines
    };
    Seq::new(first.len(), |i: int| within_bytes(first[i], 48))
}

proof fn lemma_within(s: Seq<char>, k: int, n: nat)
    requires
        0 <= k <= s.len(),
        slices::byte_count(s.take(k)) <= n,
        k < s.len() ==> slices::byte_count(s.take(k + 1)) > n,
    ensures
        within_bytes(s, n) == s.take(k),
    decreases s.len() - k,
{
    if k == s.len() {
        assert(s.take(k) =~= s);
    } else {
        lemma_more_bytes(s, k + 1);
        let front = s.drop_last();
        assert(front.take(k) =~= s.take(k));
        if k < front.len() {
            assert(front.take(k + 1) =~= s.take(k + 1));
        }
        lemma_within(front, k, n);
    }
}

proof fn lemma_more_bytes(s: Seq<char>, k: int)
    requires
        0 <= k <= s.len(),
    ensures
        slices::byte_count(s.take(k)) <= slices::byte_count(s),
    decreases s.len() - k,
{
    if k == s.len() {
        assert(s.take(k) =~= s);
    } else {
        lemma_more_bytes(s.drop_last(), k);
        assert(s.drop_last().take(k) =~= s.take(k));
    }
}

fn cut_to_bytes(line: &[char], n: u32) -> (r: String)
    ensures
        r@ == within_bytes(line@, n as nat),
{
    let len: usize = line.len();
    let mut used: u64 = 0;
    let mut k: usize = 0;
    assert(line@.take(0) =~= Seq::empty());
    while k < len
        invariant
            k <= len,
            len == line@.len(),
            used == slices::byte_count(line@.take(k as int)),
            used <= n,
        decreases len - k,
    {
        let more: u64 = used + bytes_of(line[k]) as u64;
        proof {
            assert(line@.take(k + 1).drop_last() =~= line@.take(k as int));
            assert(line@.take(k + 1).last() == line@[k as int]);
        }
        if more > n as u64 {
            proof {
                lemma_within(line@, k as int, n as nat);
                assert(line@.subrange(0, k as int) =~= line@.take(k as int));
            }
            return from_chars(slice_subrange(line, 0, k));
        }
        used = more;
        k = k + 1;
    }
    proof {
        lemma_within(line@, k as int, n as nat);
        assert(line@.take(k as int) =~= line@);
    }
    from_chars(line)
}

/// The lines of a node on the canvas.
pub fn node_card(text: &str) -> (r: Vec<String>)
    ensures
        text::views(r@) == card_lines(text@),
{
    let cs: Vec<char> = to_chars(text);
    let lines: Vec<&[char]> = lines_of(cs.as_slice());
    let ghost body = card_lines(text@);
    let ghost all = slices::slice_views(lines@);
    let n: usize = if lines.len() > 4 {
        4
    } else {
        lines.len()
    };
    let mut out: Vec<String> = Vec::new();
    let mut i: usize = 0;
    assert(text::views(out@) =~= body.take(0));
    while i < n
        invariant
            i <= n,
            n == body.len(),
            n <= lines@.len(),
            n <= 4,
            all == slices::slice_views(lines@),
            all == slices::lines(text@),
            body == card_lines(text@),
            text::views(out@) == body.take(i as int),
        decreases n - i,
    {
        assert(lines@[i as int]@ == all[i as int]);
        let line: String = cut_to_bytes(lines[i], 48);
        push_string(&mut out, line);
        assert(text::views(out@) =~= body.take(i + 1));
        i = i + 1;
    }
    assert(body.take(n as int) =~= body);
    out
}

} // verus!
