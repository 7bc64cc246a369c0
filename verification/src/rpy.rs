//! A quick conversion of Ren'Py scripts, line by line.
//!
//! Only what has a direct counterpart is converted; the rest gives a warning.

use crate::diagnostic;
use crate::diagnostic::join_strings;
use crate::slices;
use crate::slices::{
    begins_with, contains_of, finishes_with, first_word_of, lines_of, split_at_first,
    starts_with_str, strip_end_of, strip_start_of, trim_of, wrapped,
};
use crate::text;
use crate::text::{contains_str, from_chars, to_chars};
use vstd::prelude::*;
use vstd::slice::slice_subrange;

verus! {

/// What becomes of a line: lines of the new script, and warnings.
pub struct Converted {
    pub lines: Seq<Seq<char>>,
    pub warnings: Seq<Seq<char>>,
}

pub open spec fn nothing() -> Converted {
    Converted { lines: Seq::empty(), warnings: Seq::empty() }
}

pub open spec fn one_line(line: Seq<char>) -> Converted {
    Converted { lines: seq![line], warnings: Seq::empty() }
}

pub open spec fn warning(w: Seq<char>) -> Converted {
    Converted { lines: Seq::empty(), warnings: seq![w] }
}

/// What follows a prefix of `n` characters.
pub open spec fn rest(t: Seq<char>, n: int) -> Seq<char> {
    t.subrange(n, t.len() as int)
}

/// A text without quotes at its ends.
pub open spec fn unquoted(s: Seq<char>) -> Seq<char> {
    slices::strip_end(slices::strip_start(s, '"'), '"')
}

/// A background, with the transition that the line names.
pub open spec fn scene_line(t: Seq<char>) -> Seq<char> {
    let head = "@bg "@ + slices::first_word(rest(t, 6));
    if text::contains(t, "with fade"@) {
        head + " with fade"@
    } else if text::contains(t, "with dissolve"@) {
        head + " with dissolve"@
    } else {
        head
    }
}

/// The entrance of a character, with the place that the line names.
pub open spec fn show_line(t: Seq<char>) -> Seq<char> {
    let head = "+ "@ + slices::first_word(rest(t, 5));
    if text::contains(t, "at left"@) {
        head + " at left"@
    } else if text::contains(t, "at right"@) {
        head + " at right"@
    } else {
        head
    }
}

/// A speaker and what is said, both in quotes.
pub open spec fn speech_line(t: Seq<char>) -> Seq<char> {
    slices::trim(slices::strip_start(slices::before(t, "\" \""@), '"')) + ": \""@ + slices::trim(
        slices::strip_end(slices::behind(t, "\" \""@), '"'),
    ) + "\""@
}

/// An option of a menu, and the jump behind it.
pub open spec fn option_lines(t: Seq<char>) -> Converted {
    let line = "| \""@ + slices::trim(unquoted(slices::before(t, ":"@))) + "\""@;
    let tail = slices::trim(slices::behind(t, ":"@));
    if text::starts_with(tail, "jump "@) {
        Converted {
            lines: seq![line, "    -> "@ + slices::trim(rest(tail, 5))],
            warnings: Seq::empty(),
        }
    } else {
        one_line(line)
    }
}

/// The warning about a statement that is not converted, if it is one.
pub open spec fn unsupported(t: Seq<char>) -> Option<Seq<char>> {
    if text::starts_with(t, "play music"@) || text::starts_with(t, "play sound"@)
        || text::starts_with(t, "stop music"@) || text::starts_with(t, "stop sound"@) {
        Some("音频播放指令未转换："@ + t)
    } else if text::starts_with(t, "with "@) {
        Some("独立过渡指令未转换："@ + t)
    } else if text::starts_with(t, "call "@) || text::starts_with(t, "if "@) || text::starts_with(
        t,
        "while "@,
    ) || text::starts_with(t, "for "@) {
        Some("复杂流程控制未转换："@ + t)
    } else if text::starts_with(t, "define "@) || text::starts_with(t, "default "@)
        || text::starts_with(t, "init "@) {
        Some("定义/初始化块未转换："@ + t)
    } else if text::starts_with(t, "image "@) || text::starts_with(t, "transform "@)
        || text::starts_with(t, "animation "@) {
        Some("图像/动画定义未转换："@ + t)
    } else if text::contains(t, "renpy."@) || text::contains(t, "Ren'Py"@) {
        Some("Ren'Py 内置函数/变量未转换："@ + t)
    } else {
        None
    }
}

/// What becomes of a line.
pub open spec fn converted(line: Seq<char>) -> Converted {
    let t = slices::trim(line);
    if t.len() == 0 || text::starts_with(t, "python:"@) || text::starts_with(t, "$ "@) {
        nothing()
    } else if text::starts_with(t, "label "@) {
        one_line("# "@ + slices::strip_end(rest(t, 6), ':'))
    } else if text::starts_with(t, "scene "@) {
        one_line(scene_line(t))
    } else if text::starts_with(t, "show "@) {
        one_line(show_line(t))
    } else if text::starts_with(t, "hide "@) {
        one_line("- "@ + slices::first_word(rest(t, 5)))
    } else if slices::begins(t, '"') && text::contains(t, "\" \""@) {
        one_line(speech_line(t))
    } else if slices::begins(t, '"') && slices::finishes(t, '"') {
        one_line("\""@ + unquoted(t) + "\""@)
    } else if text::starts_with(t, "menu:"@) {
        one_line("? \"\""@)
    } else if slices::begins(t, '"') && text::contains(t, ":"@) {
        option_lines(t)
    } else if text::starts_with(t, "return"@) {
        one_line("~~"@)
    } else if text::starts_with(t, "jump "@) {
        one_line("-> "@ + slices::trim(rest(t, 5)))
    } else {
        match unsupported(t) {
            Some(w) => warning(w),
            None => if slices::begins(t, '#') {
                one_line("// "@ + slices::trim(slices::strip_start(t, '#')))
            } else {
                Converted {
                    lines: seq!["// 未转换: "@ + t],
                    warnings: seq!["未识别的行："@ + t],
                }
            },
        }
    }
}

/// What becomes of the given lines, after what is there already.
pub open spec fn converted_lines(lines: Seq<Seq<char>>, start: Converted) -> Converted
    decreases lines.len(),
{
    if lines.len() == 0 {
        start
    } else {
        let front = converted_lines(lines.drop_last(), start);
        let c = converted(lines.last());
        Converted { lines: front.lines + c.lines, warnings: front.warnings + c.warnings }
    }
}

/// The whole conversion: a script without a beginning is warned about first.
pub open spec fn conversion(content: Seq<char>) -> Converted {
    let start = if text::contains(content, "label start:"@) {
        nothing()
    } else {
        warning("未检测到 'label start:'，可能不是标准的 Ren'Py 剧本文件"@)
    };
    converted_lines(slices::lines(content), start)
}

/// The warnings of an import; there is always something to show.
pub open spec fn shown_warnings(warnings: Seq<Seq<char>>) -> Seq<Seq<char>> {
    if warnings.len() == 0 {
        seq!["转换完成，无警告"@]
    } else {
        warnings
    }
}

// ---------------------------------------------------------------------------
// Code
// ---------------------------------------------------------------------------

fn rest_of<'a>(t: &'a [char], n: usize) -> (r: &'a [char])
    requires
        n <= t@.len(),
    ensures
        r@ == rest(t@, n as int),
{
    slice_subrange(t, n, t.len())
}

fn text_of(head: &str, s: &[char], tail: &str) -> (r: String)
    ensures
        r@ == head@ + s@ + tail@,
{
    let cs: Vec<char> = wrapped(head, s, tail);
    from_chars(cs.as_slice())
}

fn prefixed(head: &str, s: &[char]) -> (r: String)
    ensures
        r@ == head@ + s@,
{
    let r: String = text_of(head, s, "");
    proof {
        reveal_strlit("");
        assert(head@ + s@ + ""@ =~= head@ + s@);
    }
    r
}

fn put(out: &mut Vec<String>, line: String)
    ensures
        text::views(final(out)@) == text::views(old(out)@) + seq![line@],
{
    let ghost before = text::views(out@);
    let ghost added = line@;
    out.push(line);
    assert(text::views(out@) =~= before + seq![added]);
}

fn scene_text(t: &[char]) -> (r: String)
    requires
        t@.len() >= 6,
    ensures
        r@ == scene_line(t@),
{
    let mut r: String = prefixed("@bg ", first_word_of(rest_of(t, 6)));
    if contains_of(t, "with fade") {
        r.append(" with fade");
    } else if contains_of(t, "with dissolve") {
        r.append(" with dissolve");
    }
    r
}

fn show_text(t: &[char]) -> (r: String)
    requires
        t@.len() >= 5,
    ensures
        r@ == show_line(t@),
{
    let mut r: String = prefixed("+ ", first_word_of(rest_of(t, 5)));
    if contains_of(t, "at left") {
        r.append(" at left");
    } else if contains_of(t, "at right") {
        r.append(" at right");
    }
    r
}

fn speech_text(t: &[char]) -> (r: String)
    ensures
        r@ == speech_line(t@),
{
    let (head, tail) = split_at_first(t, "\" \"");
    let mut r: String = from_chars(trim_of(strip_start_of(head, '"')));
    r.append(": \"");
    r.append(from_chars(trim_of(strip_end_of(tail, '"'))).as_str());
    r.append("\"");
    r
}

fn unquote<'a>(s: &'a [char]) -> (r: &'a [char])
    ensures
        r@ == unquoted(s@),
{
    strip_end_of(strip_start_of(s, '"'), '"')
}

fn warning_of(t: &[char]) -> (r: Option<String>)
    ensures
        text::opt_view(r) == unsupported(t@),
{
    if starts_with_str(t, "play music") || starts_with_str(t, "play sound") || starts_with_str(
        t,
        "stop music",
    ) || starts_with_str(t, "stop sound") {
        Some(prefixed("音频播放指令未转换：", t))
    } else if starts_with_str(t, "with ") {
        Some(prefixed("独立过渡指令未转换：", t))
    } else if starts_with_str(t, "call ") || starts_with_str(t, "if ") || starts_with_str(
        t,
        "while ",
    ) || starts_with_str(t, "for ") {
        Some(prefixed("复杂流程控制未转换：", t))
    } else if starts_with_str(t, "define ") || starts_with_str(t, "default ") || starts_with_str(
        t,
        "init ",
    ) {
        Some(prefixed("定义/初始化块未转换：", t))
    } else if starts_with_str(t, "image ") || starts_with_str(t, "transform ") || starts_with_str(
        t,
        "animation ",
    ) {
        Some(prefixed("图像/动画定义未转换：", t))
    } else if contains_of(t, "renpy.") || contains_of(t, "Ren'Py") {
        Some(prefixed("Ren'Py 内置函数/变量未转换：", t))
    } else {
        None
    }
}

/// Converts one line.
fn convert_line(line: &[char], lines: &mut Vec<String>, warnings: &mut Vec<String>)
    ensures
        text::views(final(lines)@) == text::views(old(lines)@) + converted(line@).lines,
        text::views(final(warnings)@) == text::views(old(warnings)@) + converted(line@).warnings,
{
    let ghost l0 = text::views(lines@);
    let ghost w0 = text::views(warnings@);
    proof {
        assert(l0 + Seq::empty() =~= l0);
        assert(w0 + Seq::empty() =~= w0);
        reveal_strlit("label ");
        reveal_strlit("scene ");
        reveal_strlit("show ");
        reveal_strlit("hide ");
        reveal_strlit("jump ");
    }
    let t: &[char] = trim_of(line);
    if t.len() == 0 || starts_with_str(t, "python:") || starts_with_str(t, "$ ") {
    } else if starts_with_str(t, "label ") {
        put(lines, prefixed("# ", strip_end_of(rest_of(t, 6), ':')));
    } else if starts_with_str(t, "scene ") {
        put(lines, scene_text(t));
    } else if starts_with_str(t, "show ") {
        put(lines, show_text(t));
    } else if starts_with_str(t, "hide ") {
        put(lines, prefixed("- ", first_word_of(rest_of(t, 5))));
    } else if begins_with(t, '"') && contains_of(t, "\" \"") {
        put(lines, speech_text(t));
    } else if begins_with(t, '"') && finishes_with(t, '"') {
        put(lines, text_of("\"", unquote(t), "\""));
    } else if starts_with_str(t, "menu:") {
        put(lines, "? \"\"".to_owned());
    } else if begins_with(t, '"') && contains_of(t, ":") {
        let (head, tail) = split_at_first(t, ":");
        put(lines, text_of("| \"", trim_of(unquote(head)), "\""));
        let ghost l1 = text::views(lines@);
        let target: &[char] = trim_of(tail);
        if starts_with_str(target, "jump ") {
            put(lines, prefixed("    -> ", trim_of(rest_of(target, 5))));
            assert(text::views(lines@) =~= l0 + option_lines(t@).lines);
        }
    } else if starts_with_str(t, "return") {
        put(lines, "~~".to_owned());
    } else if starts_with_str(t, "jump ") {
        put(lines, prefixed("-> ", trim_of(rest_of(t, 5))));
    } else {
        match warning_of(t) {
            Some(w) => {
                put(warnings, w);
            },
            None => {
                if begins_with(t, '#') {
                    put(lines, prefixed("// ", trim_of(strip_start_of(t, '#'))));
                } else {
                    put(lines, prefixed("// 未转换: ", t));
                    put(warnings, prefixed("未识别的行：", t));
                }
            },
        }
    }
}

/// The warnings of an import; there is always something to show.
pub fn import_notes(warnings: Vec<String>) -> (r: Vec<String>)
    ensures
        text::views(r@) == shown_warnings(text::views(warnings@)),
{
    let mut r: Vec<String> = warnings;
    assert(text::views(r@).len() == r@.len());
    if r.len() == 0 {
        r.push("转换完成，无警告".to_owned());
        assert(text::views(r@) =~= seq!["转换完成，无警告"@]);
    }
    r
}

/// Converts a Ren'Py script: the new script, and the warnings to be shown.
pub fn convert_rpy_to_akrs(content: &str) -> (r: (String, Vec<String>))
    ensures
        r.0@ == diagnostic::joined(conversion(content@).lines, "\n"@),
        text::views(r.1@) == shown_warnings(conversion(content@).warnings),
{
    let cs: Vec<char> = to_chars(content);
    let all: Vec<&[char]> = lines_of(cs.as_slice());
    let ghost views = slices::slice_views(all@);
    let mut lines: Vec<String> = Vec::new();
    let mut warnings: Vec<String> = Vec::new();
    if !contains_str(content, "label start:") {
        warnings.push("未检测到 'label start:'，可能不是标准的 Ren'Py 剧本文件".to_owned());
    }
    let ghost start = if text::contains(content@, "label start:"@) {
        nothing()
    } else {
        warning("未检测到 'label start:'，可能不是标准的 Ren'Py 剧本文件"@)
    };
    assert(text::views(lines@) =~= start.lines);
    assert(text::views(warnings@) =~= start.warnings);
    let n: usize = all.len();
    let mut i: usize = 0;
    assert(views.take(0) =~= Seq::empty());
    while i < n
        invariant
            i <= n,
            n == all@.len(),
            views == slices::slice_views(all@),
            text::views(lines@) == converted_lines(views.take(i as int), start).lines,
            text::views(warnings@) == converted_lines(views.take(i as int), start).warnings,
        decreases n - i,
    {
        proof {
            assert(views.take(i + 1).drop_last() =~= views.take(i as int));
            assert(views.take(i + 1).last() == all@[i as int]@);
        }
        convert_line(all[i], &mut lines, &mut warnings);
        i = i + 1;
    }
    assert(views.take(n as int) =~= views);
    (join_strings(&lines, "\n"), import_notes(warnings))
}

} // verus!
