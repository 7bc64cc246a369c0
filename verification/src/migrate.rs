//! Conversion of Ren'Py scripts.
//!
//! Statements that have a counterpart are rewritten, character and image
//! definitions are collected, and what cannot be converted is reported.

use crate::ast;
use crate::slices;
use crate::slices::{
    after_char_of, before_char_of, begins_with, contains_of, copy_chars, count_bytes, find_char, finishes_with, first_word_of,
    is_text, lines_of, push_chars, push_str, split_at_first, starts_with_str, strip_all_of,
    strip_end_of, strip_start_of, trim_of, trim_start_of, words_of, wrapped,
};
use crate::text;
use crate::text::{format_usize, from_chars, to_chars};
use vstd::prelude::*;
use vstd::slice::slice_subrange;

verus! {

/// The result of a conversion.
pub struct MigrationResult {
    /// The converted script.
    pub akrs_script: String,
    /// What could not be converted.
    pub warnings: Vec<String>,
    /// Short names of characters and their full names.
    pub character_map: Vec<(String, String)>,
    /// Names of images and their files.
    pub image_map: Vec<(String, String)>,
}

// ---------------------------------------------------------------------------
// Source lines
// ---------------------------------------------------------------------------

/// A line that is not blank: its indentation in bytes, its text without
/// surrounding white space, and its number.
pub struct SourceLine {
    pub indent: nat,
    pub content: Seq<char>,
    pub number: nat,
}

/// The indentation of a line.
pub open spec fn indent_of(line: Seq<char>) -> nat {
    slices::byte_count(line.subrange(0, line.len() - slices::trim_start(line).len()))
}

/// The lines that are not blank.
pub open spec fn source_lines(all: Seq<Seq<char>>) -> Seq<SourceLine>
    decreases all.len(),
{
    if all.len() == 0 {
        Seq::empty()
    } else {
        let front = source_lines(all.drop_last());
        let line = all.last();
        if slices::trim(line).len() == 0 {
            front
        } else {
            front.push(
                SourceLine {
                    indent: indent_of(line),
                    content: slices::trim(line),
                    number: all.len(),
                },
            )
        }
    }
}

// ---------------------------------------------------------------------------
// Parts of statements
// ---------------------------------------------------------------------------

/// A list of names and what they stand for.
pub type Pairs = Seq<(Seq<char>, Seq<char>)>;

/// The index of a name from `i` on, or the length of the list.
pub open spec fn key_index(pairs: Pairs, key: Seq<char>, i: int) -> int
    decreases pairs.len() - i,
{
    if 0 <= i < pairs.len() && pairs[i].0 != key {
        key_index(pairs, key, i + 1)
    } else {
        i
    }
}

/// The list with a name set; a new name comes last.
pub open spec fn put(pairs: Pairs, key: Seq<char>, value: Seq<char>) -> Pairs {
    let i = key_index(pairs, key, 0);
    if i < pairs.len() {
        pairs.update(i, (key, value))
    } else {
        pairs.push((key, value))
    }
}

/// What a name stands for; itself where it is not listed.
pub open spec fn resolve(pairs: Pairs, key: Seq<char>) -> Seq<char> {
    let i = key_index(pairs, key, 0);
    if i < pairs.len() {
        pairs[i].1
    } else {
        key
    }
}

/// Whether a line is a statement of a keyword: the keyword alone, or followed
/// by a blank, a bracket or a colon.
pub open spec fn is_statement(line: Seq<char>, keyword: Seq<char>) -> bool {
    let t = slices::trim_start(line);
    ||| t == keyword
    ||| text::starts_with(t, keyword + " "@)
    ||| text::starts_with(t, keyword + "("@)
    ||| text::starts_with(t, keyword + ":"@)
}

pub open spec fn is_comment(line: Seq<char>) -> bool {
    slices::begins(slices::trim_start(line), '#')
}

/// The text in quotes at the start, and what follows it.
pub open spec fn quoted(s: Seq<char>) -> Option<(Seq<char>, Seq<char>)> {
    let t = slices::trim_start(s);
    if slices::begins(t, '"') || slices::begins(t, '\'') {
        let rest = t.subrange(1, t.len() as int);
        let k = slices::index_of(rest, t[0], 0);
        if k < rest.len() {
            Some((rest.subrange(0, k), rest.subrange(k + 1, rest.len() as int)))
        } else {
            None
        }
    } else {
        None
    }
}

/// What follows a keyword.
pub open spec fn operand(line: Seq<char>, keyword: Seq<char>) -> Seq<char> {
    slices::trim(slices::strip_all(line, keyword))
}

/// An expression without its closing colon.
pub open spec fn expression(s: Seq<char>) -> Seq<char> {
    let t = slices::trim(s);
    slices::trim(
        if slices::finishes(t, ':') {
            t.drop_last()
        } else {
            t
        },
    )
}

/// The name of a transition; an unknown one becomes a fade.
pub open spec fn transition_name(s: Seq<char>) -> Seq<char> {
    let t = slices::trim(s);
    if t == "dissolve"@ {
        "dissolve"@
    } else if t == "fadeblack"@ || t == "fade_black"@ {
        "fade_black"@
    } else if t == "fadewhite"@ || t == "fade_white"@ {
        "fade_white"@
    } else if t == "slideleft"@ || t == "slide_left"@ {
        "slide_left"@
    } else if t == "slideright"@ || t == "slide_right"@ {
        "slide_right"@
    } else if t == "slideup"@ || t == "slide_up"@ {
        "slide_up"@
    } else if t == "slidedown"@ || t == "slide_down"@ {
        "slide_down"@
    } else if t == "wipeleft"@ || t == "wipe_left"@ {
        "wipe_left"@
    } else if t == "wiperight"@ || t == "wipe_right"@ {
        "wipe_right"@
    } else if t == "blur"@ {
        "blur"@
    } else if t == "none"@ || t == "instant"@ || t == "cut"@ {
        "instant"@
    } else {
        "fade"@
    }
}

/// Every transition that a conversion names is known to the language.
pub proof fn law_transitions_known(s: Seq<char>)
    ensures
        ast::transition_named(transition_name(s)) is Some,
{
}

/// ` with ` and a transition, where there is one.
pub open spec fn with_clause(transition: Seq<char>) -> Seq<char> {
    if transition.len() == 0 {
        Seq::empty()
    } else {
        " with "@ + transition_name(transition)
    }
}

/// ` with ` and a transition; a dissolve where there is none.
pub open spec fn with_or_dissolve(transition: Seq<char>) -> Seq<char> {
    if transition.len() == 0 {
        " with dissolve"@
    } else {
        " with "@ + transition_name(transition)
    }
}

// ---------------------------------------------------------------------------
// Single statements
// ---------------------------------------------------------------------------

pub open spec fn comment_text(c: Seq<char>) -> Seq<char> {
    "-- "@ + slices::trim(slices::strip_start(c, '#')) + "\n"@
}

pub open spec fn jump_text(c: Seq<char>) -> Seq<char> {
    "-> "@ + slices::strip_end(operand(c, "jump"@), ':') + "\n"@
}

pub open spec fn call_text(c: Seq<char>) -> Seq<char> {
    "=> "@ + slices::strip_end(slices::first_word(operand(c, "call"@)), ':') + "\n"@
}

pub open spec fn scene_text(c: Seq<char>) -> Seq<char> {
    let rest = operand(c, "scene"@);
    let name = slices::trim(
        slices::strip_all(slices::trim(slices::before(rest, " with "@)), "bg "@),
    );
    "@bg "@ + name + with_clause(slices::behind(rest, " with "@)) + "\n"@
}

/// The entrance of a character, as it stands in a block.
pub open spec fn brief_show_text(c: Seq<char>, chars: Pairs) -> Seq<char> {
    let rest = operand(c, "show"@);
    let tokens = slices::words(slices::trim(slices::before(rest, " with "@)));
    if tokens.len() == 0 {
        Seq::empty()
    } else {
        "+ "@ + resolve(chars, tokens[0]) + " enters"@ + with_or_dissolve(
            slices::behind(rest, " with "@),
        ) + "\n"@
    }
}

/// The index of the first word `at` from `i` on, or the number of words.
pub open spec fn at_index(tokens: Seq<Seq<char>>, i: int) -> int
    decreases tokens.len() - i,
{
    if 0 <= i < tokens.len() && tokens[i] != "at"@ {
        at_index(tokens, i + 1)
    } else {
        i
    }
}

/// The entrance of a character, with its expression and its position.
pub open spec fn show_text(c: Seq<char>, chars: Pairs) -> Seq<char> {
    let rest = operand(c, "show"@);
    let tokens = slices::words(slices::trim(slices::before(rest, " with "@)));
    if tokens.len() == 0 {
        Seq::empty()
    } else {
        let face = if tokens.len() > 1 && tokens[1] != "at"@ && tokens[1] != "with"@ && tokens[1]
            != "as"@ {
            " "@ + tokens[1]
        } else {
            Seq::empty()
        };
        let k = at_index(tokens, 0);
        let place = if k + 1 < tokens.len() {
            " from "@ + tokens[k + 1]
        } else {
            Seq::empty()
        };
        "+ "@ + resolve(chars, tokens[0]) + face + " enters"@ + place + with_or_dissolve(
            slices::behind(rest, " with "@),
        ) + "\n"@
    }
}

/// The exit of a character, as it stands in a block.
pub open spec fn brief_hide_text(c: Seq<char>, chars: Pairs) -> Seq<char> {
    "- "@ + resolve(chars, slices::first_word(operand(c, "hide"@))) + "\n"@
}

/// The exit of a character, with its transition.
pub open spec fn hide_text(c: Seq<char>, chars: Pairs) -> Seq<char> {
    let rest = operand(c, "hide"@);
    let name = slices::first_word(slices::trim(slices::before(rest, " with "@)));
    "- "@ + resolve(chars, name) + with_clause(slices::behind(rest, " with "@)) + "\n"@
}

pub open spec fn is_quote(s: Seq<char>) -> bool {
    slices::begins(s, '"') || slices::begins(s, '\'')
}

pub open spec fn narration_text(c: Seq<char>) -> Seq<char> {
    match quoted(c) {
        Some((t, _)) => "\""@ + t + "\"\n"@,
        None => Seq::empty(),
    }
}

/// A line of a character: a word and a quoted text.
pub open spec fn speech_text(c: Seq<char>, chars: Pairs) -> Option<Seq<char>> {
    let k = slices::index_of(c, ' ', 0);
    if k >= c.len() {
        None
    } else {
        let who = c.subrange(0, k);
        let rest = slices::trim(c.subrange(k, c.len() as int));
        if is_quote(rest) && slices::index_of(who, '(', 0) >= who.len() {
            match quoted(rest) {
                Some((t, _)) => Some(resolve(chars, who) + ": \""@ + t + "\"\n"@),
                None => None,
            }
        } else {
            None
        }
    }
}

pub open spec fn variable_text(c: Seq<char>) -> Seq<char> {
    "$"@ + expression(slices::trim(slices::strip_start(c, '$'))) + "\n"@
}

/// A quoted name behind a keyword, after a command.
pub open spec fn sound_text(rest: Seq<char>, keyword: Seq<char>, command: Seq<char>) -> Seq<char> {
    match quoted(operand(rest, keyword)) {
        Some((name, _)) => command + name + "\n"@,
        None => Seq::empty(),
    }
}

pub open spec fn play_text(c: Seq<char>) -> Seq<char> {
    let rest = operand(c, "play"@);
    if text::starts_with(rest, "music"@) {
        sound_text(rest, "music"@, "@music "@)
    } else if text::starts_with(rest, "sound"@) {
        sound_text(rest, "sound"@, "@sound "@)
    } else {
        Seq::empty()
    }
}

pub open spec fn stop_text(c: Seq<char>) -> Seq<char> {
    if text::starts_with(operand(c, "stop"@), "music"@) {
        "@stop_music\n"@
    } else {
        Seq::empty()
    }
}

/// A statement that is not known.
pub open spec fn unknown_text(c: Seq<char>) -> Seq<char> {
    "-- TODO: "@ + c + "\n"@
}

/// What becomes of a line within a block.
pub open spec fn block_line(line: Seq<char>, chars: Pairs) -> Seq<char> {
    let c = slices::trim(line);
    if c.len() == 0 || c == "pass"@ {
        Seq::empty()
    } else if is_comment(c) {
        comment_text(c)
    } else if is_statement(c, "jump"@) {
        jump_text(c)
    } else if is_statement(c, "call"@) {
        call_text(c)
    } else if is_statement(c, "return"@) {
        "<=\n"@
    } else if is_statement(c, "scene"@) {
        scene_text(c)
    } else if is_statement(c, "show"@) {
        brief_show_text(c, chars)
    } else if is_statement(c, "hide"@) {
        brief_hide_text(c, chars)
    } else if is_quote(c) {
        narration_text(c)
    } else if speech_text(c, chars) is Some {
        speech_text(c, chars)->0
    } else if slices::begins(c, '$') {
        variable_text(c)
    } else if is_statement(c, "play"@) {
        play_text(c)
    } else if is_statement(c, "stop"@) {
        stop_text(c)
    } else if is_statement(c, "with"@) {
        Seq::empty()
    } else {
        unknown_text(c)
    }
}

// ---------------------------------------------------------------------------
// Blocks
// ---------------------------------------------------------------------------

/// The end of the lines from `i` on that are indented deeper than `indent`.
pub open spec fn block_end(lines: Seq<SourceLine>, i: int, indent: nat) -> int
    decreases lines.len() - i,
{
    if 0 <= i < lines.len() && lines[i].indent > indent {
        block_end(lines, i + 1, indent)
    } else {
        i
    }
}

/// The lines of a block from `i` on, after `out`; where `to_else`, an `elif` or
/// `else` ends it too.
pub open spec fn block(
    lines: Seq<SourceLine>,
    i: int,
    indent: nat,
    to_else: bool,
    chars: Pairs,
    out: Seq<char>,
) -> (Seq<char>, int)
    decreases lines.len() - i,
{
    if 0 <= i < lines.len() && lines[i].indent > indent && !(to_else && (is_statement(
        lines[i].content,
        "elif"@,
    ) || is_statement(lines[i].content, "else"@))) {
        block(lines, i + 1, indent, to_else, chars, out + block_line(lines[i].content, chars))
    } else {
        (out, i)
    }
}

/// The option that a line offers, where it is one.
pub open spec fn option_text(c: Seq<char>) -> Option<Seq<char>> {
    match quoted(c) {
        Some((t, after)) => {
            let rest = slices::trim(after);
            Some(
                if text::starts_with(rest, "if"@) {
                    "| \""@ + t + "\" if "@ + expression(operand(rest, "if"@)) + "\n"@
                } else {
                    "| \""@ + t + "\"\n"@
                },
            )
        },
        None => None,
    }
}

/// The options of a menu from `i` on, after `out`.
pub open spec fn menu_options(
    lines: Seq<SourceLine>,
    i: int,
    indent: nat,
    chars: Pairs,
    out: Seq<char>,
) -> (Seq<char>, int)
    decreases lines.len() - i,
{
    if 0 <= i < lines.len() && lines[i].indent > indent {
        match option_text(lines[i].content) {
            Some(t) => {
                let (next, j) = block(lines, i + 1, lines[i].indent, false, chars, out + t);
                if i < j <= lines.len() {
                    menu_options(lines, j, indent, chars, next)
                } else {
                    (next, j)
                }
            },
            None => menu_options(
                lines,
                i + 1,
                indent,
                chars,
                out + block_line(lines[i].content, chars),
            ),
        }
    } else {
        (out, i)
    }
}

/// The prompt on the line of a menu.
pub open spec fn menu_prompt(c: Seq<char>) -> Option<Seq<char>> {
    let rest = slices::trim(slices::strip_end(operand(c, "menu"@), ':'));
    if is_quote(rest) {
        match quoted(rest) {
            Some((t, _)) => Some(t),
            None => None,
        }
    } else if rest.len() > 0 {
        Some(rest)
    } else {
        None
    }
}

/// The prompt on the first line of a menu's block: a quoted text that is no
/// option.
pub open spec fn block_prompt(lines: Seq<SourceLine>, i: int, indent: nat) -> Option<Seq<char>> {
    if 0 <= i < lines.len() && lines[i].indent > indent {
        match quoted(lines[i].content) {
            Some((t, after)) => {
                let rest = slices::trim(after);
                if slices::begins(rest, ':') || text::starts_with(rest, "if"@) {
                    None
                } else {
                    Some(t)
                }
            },
            None => None,
        }
    } else {
        None
    }
}

/// A menu whose line is `i`.
pub open spec fn menu(lines: Seq<SourceLine>, i: int, chars: Pairs, out: Seq<char>) -> (
    Seq<char>,
    int,
) {
    let indent = lines[i].indent;
    let (prompt, start) = match menu_prompt(lines[i].content) {
        Some(p) => (p, i + 1),
        None => match block_prompt(lines, i + 1, indent) {
            Some(p) => (p, i + 2),
            None => (Seq::empty(), i + 1),
        },
    };
    let (body, end) = menu_options(
        lines,
        start,
        indent,
        chars,
        out + "? \""@ + prompt + "\"\n"@,
    );
    (body + "?\n"@, end)
}

/// The head of a branch.
pub open spec fn branch_head(c: Seq<char>) -> Seq<char> {
    if is_statement(c, "if"@) {
        "if "@ + expression(operand(c, "if"@)) + "\n"@
    } else if is_statement(c, "elif"@) {
        "else if "@ + expression(operand(c, "elif"@)) + "\n"@
    } else {
        "else\n"@
    }
}

/// The further branches of a conditional from `i` on, after `out`.
pub open spec fn branches(
    lines: Seq<SourceLine>,
    i: int,
    indent: nat,
    chars: Pairs,
    out: Seq<char>,
) -> (Seq<char>, int)
    decreases lines.len() - i,
{
    if 0 <= i < lines.len() && lines[i].indent == indent && (is_statement(
        lines[i].content,
        "elif"@,
    ) || is_statement(lines[i].content, "else"@)) {
        let head = if is_statement(lines[i].content, "elif"@) {
            "else if "@ + expression(operand(lines[i].content, "elif"@)) + "\n"@
        } else {
            "else\n"@
        };
        let (next, j) = block(lines, i + 1, indent, false, chars, out + head);
        if i < j <= lines.len() {
            branches(lines, j, indent, chars, next)
        } else {
            (next, j)
        }
    } else {
        (out, i)
    }
}

/// A conditional whose first line is `i`.
pub open spec fn conditional(lines: Seq<SourceLine>, i: int, chars: Pairs, out: Seq<char>) -> (
    Seq<char>,
    int,
) {
    let indent = lines[i].indent;
    let (first, j) = block(
        lines,
        i + 1,
        indent,
        true,
        chars,
        out + branch_head(lines[i].content),
    );
    let (all, end) = branches(lines, j, indent, chars, first);
    (all + "end\n"@, end)
}

/// The section that a loop jumps back to.
pub open spec fn loop_label(number: nat) -> Seq<char> {
    "__loop_"@ + text::nat_text(number)
}

/// A loop whose first line is `i`: a section that starts with a test and
/// jumps back to itself.
pub open spec fn while_loop(lines: Seq<SourceLine>, i: int, chars: Pairs, out: Seq<char>) -> (
    Seq<char>,
    int,
) {
    let label = loop_label(lines[i].number);
    let (body, end) = block(
        lines,
        i + 1,
        lines[i].indent,
        false,
        chars,
        out + "# "@ + label + "\n"@ + "if "@ + expression(operand(lines[i].content, "while"@))
            + "\n"@,
    );
    (body + "-> "@ + label + "\n"@ + "end\n"@, end)
}

// ---------------------------------------------------------------------------
// The whole script
// ---------------------------------------------------------------------------

/// What has been converted so far.
pub struct Migration {
    pub out: Seq<char>,
    pub warnings: Seq<Seq<char>>,
    pub chars: Pairs,
    pub images: Pairs,
    pub defaults: Seq<Seq<char>>,
}

/// A name and a value on both sides of the first `=`.
pub open spec fn assignment(s: Seq<char>) -> Option<(Seq<char>, Seq<char>)> {
    match slices::after_char(s, '=') {
        Some(value) => Some((slices::trim(slices::before_char(s, '=')), slices::trim(value))),
        None => None,
    }
}

/// The characters with what a `define` adds.
pub open spec fn with_definition(chars: Pairs, c: Seq<char>) -> Pairs {
    match assignment(operand(c, "define"@)) {
        Some((name, value)) => if text::starts_with(value, "Character"@) {
            match quoted(
                slices::trim(slices::strip_start(operand(value, "Character"@), '(')),
            ) {
                Some((full, _)) => put(chars, name, full),
                None => chars,
            }
        } else {
            chars
        },
        None => chars,
    }
}

/// The images with what an `image` adds.
pub open spec fn with_image(images: Pairs, c: Seq<char>) -> Pairs {
    match assignment(operand(c, "image"@)) {
        Some((name, value)) => match quoted(value) {
            Some((file, _)) => put(images, name, file),
            None => images,
        },
        None => images,
    }
}

/// The default values with what a `default` adds.
pub open spec fn with_default(defaults: Seq<Seq<char>>, c: Seq<char>) -> Seq<Seq<char>> {
    match assignment(operand(c, "default"@)) {
        Some((name, value)) => defaults.push(
            "$"@ + name + " = "@ + slices::strip_end(value, ':'),
        ),
        None => defaults,
    }
}

/// The head of a section.
pub open spec fn label_text(c: Seq<char>) -> Seq<char> {
    let name = slices::trim(slices::strip_end(operand(c, "label"@), ':'));
    "# "@ + slices::trim(slices::before_char(name, '(')) + "\n"@
}

pub open spec fn at_line(number: nat) -> Seq<char> {
    "line "@ + text::nat_text(number)
}

/// More output.
pub open spec fn written(m: Migration, t: Seq<char>) -> Migration {
    Migration { out: m.out + t, ..m }
}

/// One more warning.
pub open spec fn warned(m: Migration, w: Seq<char>) -> Migration {
    Migration { warnings: m.warnings.push(w), ..m }
}

/// What a block makes of the output.
pub open spec fn replaced(m: Migration, b: (Seq<char>, int)) -> (Migration, int) {
    (Migration { out: b.0, ..m }, b.1)
}

/// What becomes of line `i`, and the line to go on with.
pub open spec fn convert_line(lines: Seq<SourceLine>, i: int, m: Migration) -> (Migration, int) {
    let c = lines[i].content;
    let number = lines[i].number;
    let next = i + 1;
    if c == "pass"@ {
        (m, next)
    } else if is_comment(c) {
        (written(m, comment_text(c)), next)
    } else if is_statement(c, "define"@) {
        (Migration { chars: with_definition(m.chars, c), ..m }, next)
    } else if is_statement(c, "image"@) {
        (Migration { images: with_image(m.images, c), ..m }, next)
    } else if is_statement(c, "default"@) {
        (Migration { defaults: with_default(m.defaults, c), ..m }, next)
    } else if is_statement(c, "init"@) || (text::starts_with(c, "init"@) && text::contains(
        c,
        "python"@,
    )) {
        (
            warned(m, at_line(number) + ": init python block skipped"@),
            block_end(lines, next, lines[i].indent),
        )
    } else if is_statement(c, "screen"@) {
        (
            warned(m, at_line(number) + ": screen definition skipped: "@ + c),
            block_end(lines, next, lines[i].indent),
        )
    } else if is_statement(c, "transform"@) {
        (
            warned(m, at_line(number) + ": transform definition skipped: "@ + c),
            block_end(lines, next, lines[i].indent),
        )
    } else if text::contains(c, "renpy."@) {
        (
            warned(m, at_line(number) + ": renpy API call skipped: "@ + slices::trim(c)),
            next,
        )
    } else if is_statement(c, "label"@) {
        (written(m, label_text(c)), next)
    } else if is_statement(c, "jump"@) {
        (written(m, jump_text(c)), next)
    } else if is_statement(c, "call"@) {
        (written(m, call_text(c)), next)
    } else if is_statement(c, "return"@) {
        (written(m, "<=\n"@), next)
    } else if is_statement(c, "scene"@) {
        (written(m, scene_text(c)), next)
    } else if is_statement(c, "show"@) {
        (written(m, show_text(c, m.chars)), next)
    } else if is_statement(c, "hide"@) {
        (written(m, hide_text(c, m.chars)), next)
    } else if is_statement(c, "menu"@) {
        replaced(m, menu(lines, i, m.chars, m.out))
    } else if is_statement(c, "if"@) || is_statement(c, "elif"@) || is_statement(c, "else"@) {
        replaced(m, conditional(lines, i, m.chars, m.out))
    } else if is_statement(c, "while"@) {
        replaced(m, while_loop(lines, i, m.chars, m.out))
    } else if is_quote(c) {
        (written(m, narration_text(c)), next)
    } else if speech_text(c, m.chars) is Some {
        (written(m, speech_text(c, m.chars)->0), next)
    } else if slices::begins(c, '$') {
        (written(m, variable_text(c)), next)
    } else if is_statement(c, "play"@) {
        (written(m, play_text(c)), next)
    } else if is_statement(c, "stop"@) {
        (written(m, stop_text(c)), next)
    } else if is_statement(c, "with"@) || c == "end"@ || c == "$end"@ {
        (m, next)
    } else {
        (
            written(
                warned(
                    m,
                    at_line(number) + ": unrecognized syntax, emitted as comment: "@ + c,
                ),
                unknown_text(c),
            ),
            next,
        )
    }
}

/// What becomes of the lines from `i` on.
pub open spec fn convert_from(lines: Seq<SourceLine>, i: int, m: Migration) -> Migration
    decreases lines.len() - i,
{
    if i < 0 || i >= lines.len() {
        m
    } else {
        let (next, j) = convert_line(lines, i, m);
        if i < j <= lines.len() {
            convert_from(lines, j, next)
        } else {
            next
        }
    }
}

/// Lines of text, each with its newline.
pub open spec fn lined(parts: Seq<Seq<char>>) -> Seq<char>
    decreases parts.len(),
{
    if parts.len() == 0 {
        Seq::empty()
    } else {
        lined(parts.drop_last()) + parts.last() + "\n"@
    }
}

/// The conversion of a source.
pub open spec fn migrated(source: Seq<char>) -> Migration {
    convert_from(
        source_lines(slices::lines(source)),
        0,
        Migration {
            out: Seq::empty(),
            warnings: Seq::empty(),
            chars: Seq::empty(),
            images: Seq::empty(),
            defaults: Seq::empty(),
        },
    )
}

/// The converted script: the default values, where there are any, and the rest.
pub open spec fn script_of(m: Migration) -> Seq<char> {
    if m.defaults.len() == 0 {
        m.out
    } else {
        "-- Default variables (from Ren'Py 'default' declarations)\n"@ + lined(m.defaults) + "\n"@
            + m.out
    }
}

// ---------------------------------------------------------------------------
// Code
// ---------------------------------------------------------------------------

/// A line of the source, in code.
struct IndentedLine<'a> {
    indent: u128,
    content: &'a [char],
    line_num: usize,
}

impl<'a> IndentedLine<'a> {
    spec fn view(&self) -> SourceLine {
        SourceLine {
            indent: self.indent as nat,
            content: self.content@,
            number: self.line_num as nat,
        }
    }
}

spec fn line_views(s: Seq<IndentedLine<'_>>) -> Seq<SourceLine> {
    Seq::new(s.len(), |i: int| s[i]@)
}

type Entries = Vec<(Vec<char>, Vec<char>)>;

spec fn entry_views(s: Seq<(Vec<char>, Vec<char>)>) -> Pairs {
    Seq::new(s.len(), |i: int| (s[i].0@, s[i].1@))
}

spec fn char_views(s: Seq<Vec<char>>) -> Seq<Seq<char>> {
    Seq::new(s.len(), |i: int| s[i]@)
}

fn parse_lines<'a>(source: &'a [char]) -> (r: Vec<IndentedLine<'a>>)
    ensures
        line_views(r@) == source_lines(slices::lines(source@)),
{
    let all: Vec<&'a [char]> = lines_of(source);
    let ghost whole = slices::slice_views(all@);
    let mut r: Vec<IndentedLine<'a>> = Vec::new();
    let mut i: usize = 0;
    assert(whole.take(0) =~= Seq::empty());
    assert(line_views(r@) =~= Seq::empty());
    while i < all.len()
        invariant
            i <= all@.len(),
            whole == slices::slice_views(all@),
            line_views(r@) == source_lines(whole.take(i as int)),
        decreases all@.len() - i,
    {
        proof {
            assert(whole.take(i + 1).drop_last() =~= whole.take(i as int));
            assert(whole.take(i + 1).last() == whole[i as int]);
        }
        let line: &'a [char] = all[i];
        let content: &'a [char] = trim_of(line);
        if content.len() > 0 {
            let rest: usize = trim_start_of(line).len();
            let indent: u128 = count_bytes(slice_subrange(line, 0, line.len() - rest));
            let entry: IndentedLine<'a> = IndentedLine { indent, content, line_num: i + 1 };
            let ghost before = r@;
            r.push(entry);
            assert(line_views(r@) =~= line_views(before).push(entry@));
        }
        i = i + 1;
    }
    assert(whole.take(i as int) =~= whole);
    r
}

fn find_key(entries: &Entries, key: &[char]) -> (i: usize)
    ensures
        i == key_index(entry_views(entries@), key@, 0),
        i <= entries@.len(),
{
    let ghost all = entry_views(entries@);
    let mut i: usize = 0;
    while i < entries.len()
        invariant
            i <= entries@.len(),
            all == entry_views(entries@),
            key_index(all, key@, 0) == key_index(all, key@, i as int),
        decreases entries@.len() - i,
    {
        let k: &Vec<char> = &entries[i].0;
        let same: bool = k.len() == key.len() && text::occurs(k.as_slice(), key, 0);
        proof {
            if k@.len() == key@.len() {
                assert(k@.subrange(0, key@.len() as int) =~= k@);
            }
        }
        if same {
            return i;
        }
        i = i + 1;
    }
    i
}

fn put_entry(entries: &mut Entries, key: &[char], value: &[char])
    ensures
        entry_views(final(entries)@) == put(entry_views(old(entries)@), key@, value@),
{
    let i: usize = find_key(entries, key);
    let entry: (Vec<char>, Vec<char>) = (copy_chars(key), copy_chars(value));
    if i < entries.len() {
        entries.set(i, entry);
    } else {
        entries.push(entry);
    }
    assert(entry_views(entries@) =~= put(entry_views(old(entries)@), key@, value@));
}

/// Appends what a name stands for.
fn push_resolved(out: &mut Vec<char>, entries: &Entries, key: &[char])
    ensures
        final(out)@ == old(out)@ + resolve(entry_views(entries@), key@),
{
    let i: usize = find_key(entries, key);
    if i < entries.len() {
        push_chars(out, entries[i].1.as_slice());
    } else {
        push_chars(out, key);
    }
}

fn statement(line: &[char], keyword: &str) -> (r: bool)
    ensures
        r == is_statement(line@, keyword@),
{
    let t: &[char] = trim_start_of(line);
    if is_text(t, keyword) {
        return true;
    }
    let blank: String = text::concat2(keyword, " ");
    let bracket: String = text::concat2(keyword, "(");
    let colon: String = text::concat2(keyword, ":");
    starts_with_str(t, blank.as_str()) || starts_with_str(t, bracket.as_str()) || starts_with_str(
        t,
        colon.as_str(),
    )
}

fn comment(line: &[char]) -> (r: bool)
    ensures
        r == is_comment(line@),
{
    begins_with(trim_start_of(line), '#')
}

fn extract_quoted<'a>(s: &'a [char]) -> (r: Option<(&'a [char], &'a [char])>)
    ensures
        match quoted(s@) {
            Some((a, b)) => r matches Some((x, y)) && x@ == a && y@ == b,
            None => r is None,
        },
{
    let t: &'a [char] = trim_start_of(s);
    if begins_with(t, '"') || begins_with(t, '\'') {
        let q: char = t[0];
        let rest: &'a [char] = slice_subrange(t, 1, t.len());
        let k: usize = find_char(rest, q, 0);
        if k < rest.len() {
            return Some((slice_subrange(rest, 0, k), slice_subrange(rest, k + 1, rest.len())));
        }
    }
    None
}

fn operand_of<'a>(line: &'a [char], keyword: &str) -> (r: &'a [char])
    ensures
        r@ == operand(line@, keyword@),
{
    trim_of(strip_all_of(line, keyword))
}

fn expression_of<'a>(s: &'a [char]) -> (r: &'a [char])
    ensures
        r@ == expression(s@),
{
    let t: &'a [char] = trim_of(s);
    if finishes_with(t, ':') {
        let front: &'a [char] = slice_subrange(t, 0, t.len() - 1);
        assert(front@ =~= t@.drop_last());
        trim_of(front)
    } else {
        trim_of(t)
    }
}

fn transition_of(s: &[char]) -> (r: &'static str)
    ensures
        r@ == transition_name(s@),
{
    let t: &[char] = trim_of(s);
    if is_text(t, "dissolve") {
        "dissolve"
    } else if is_text(t, "fadeblack") || is_text(t, "fade_black") {
        "fade_black"
    } else if is_text(t, "fadewhite") || is_text(t, "fade_white") {
        "fade_white"
    } else if is_text(t, "slideleft") || is_text(t, "slide_left") {
        "slide_left"
    } else if is_text(t, "slideright") || is_text(t, "slide_right") {
        "slide_right"
    } else if is_text(t, "slideup") || is_text(t, "slide_up") {
        "slide_up"
    } else if is_text(t, "slidedown") || is_text(t, "slide_down") {
        "slide_down"
    } else if is_text(t, "wipeleft") || is_text(t, "wipe_left") {
        "wipe_left"
    } else if is_text(t, "wiperight") || is_text(t, "wipe_right") {
        "wipe_right"
    } else if is_text(t, "blur") {
        "blur"
    } else if is_text(t, "none") || is_text(t, "instant") || is_text(t, "cut") {
        "instant"
    } else {
        "fade"
    }
}

fn push_with(out: &mut Vec<char>, transition: &[char])
    ensures
        final(out)@ == old(out)@ + with_clause(transition@),
{
    if transition.len() > 0 {
        push_str(out, " with ");
        push_str(out, transition_of(transition));
    }
    assert(out@ =~= old(out)@ + with_clause(transition@));
}

fn push_with_or_dissolve(out: &mut Vec<char>, transition: &[char])
    ensures
        final(out)@ == old(out)@ + with_or_dissolve(transition@),
{
    if transition.len() > 0 {
        push_str(out, " with ");
        push_str(out, transition_of(transition));
    } else {
        push_str(out, " with dissolve");
    }
    assert(out@ =~= old(out)@ + with_or_dissolve(transition@));
}

// -- single statements ------------------------------------------------------

fn convert_comment(c: &[char]) -> (r: Vec<char>)
    ensures
        r@ == comment_text(c@),
{
    wrapped("-- ", trim_of(strip_start_of(c, '#')), "\n")
}

fn convert_jump(c: &[char]) -> (r: Vec<char>)
    ensures
        r@ == jump_text(c@),
{
    wrapped("-> ", strip_end_of(operand_of(c, "jump"), ':'), "\n")
}

fn convert_call(c: &[char]) -> (r: Vec<char>)
    ensures
        r@ == call_text(c@),
{
    wrapped("=> ", strip_end_of(first_word_of(operand_of(c, "call")), ':'), "\n")
}

fn convert_scene(c: &[char]) -> (r: Vec<char>)
    ensures
        r@ == scene_text(c@),
{
    let (head, transition) = split_at_first(operand_of(c, "scene"), " with ");
    let name: &[char] = trim_of(strip_all_of(trim_of(head), "bg "));
    let mut r: Vec<char> = to_chars("@bg ");
    push_chars(&mut r, name);
    push_with(&mut r, transition);
    push_str(&mut r, "\n");
    r
}

fn convert_brief_show(c: &[char], chars: &Entries) -> (r: Vec<char>)
    ensures
        r@ == brief_show_text(c@, entry_views(chars@)),
{
    let (head, transition) = split_at_first(operand_of(c, "show"), " with ");
    let tokens: Vec<&[char]> = words_of(trim_of(head));
    if tokens.len() == 0 {
        return Vec::new();
    }
    assert(slices::slice_views(tokens@)[0] == tokens@[0]@);
    let mut r: Vec<char> = to_chars("+ ");
    push_resolved(&mut r, chars, tokens[0]);
    push_str(&mut r, " enters");
    push_with_or_dissolve(&mut r, transition);
    push_str(&mut r, "\n");
    r
}

fn find_at(tokens: &Vec<&[char]>) -> (k: usize)
    ensures
        k == at_index(slices::slice_views(tokens@), 0),
        k <= tokens@.len(),
{
    let ghost all = slices::slice_views(tokens@);
    let mut k: usize = 0;
    while k < tokens.len()
        invariant
            k <= tokens@.len(),
            all == slices::slice_views(tokens@),
            at_index(all, 0) == at_index(all, k as int),
        decreases tokens@.len() - k,
    {
        if is_text(tokens[k], "at") {
            return k;
        }
        k = k + 1;
    }
    k
}

fn convert_show(c: &[char], chars: &Entries) -> (r: Vec<char>)
    ensures
        r@ == show_text(c@, entry_views(chars@)),
{
    let (head, transition) = split_at_first(operand_of(c, "show"), " with ");
    let tokens: Vec<&[char]> = words_of(trim_of(head));
    let ghost all = slices::slice_views(tokens@);
    let count: usize = tokens.len();
    if count == 0 {
        return Vec::new();
    }
    assert(all[0] == tokens@[0]@);
    let mut r: Vec<char> = to_chars("+ ");
    push_resolved(&mut r, chars, tokens[0]);
    let ghost named = r@;
    if count > 1 && !is_text(tokens[1], "at") && !is_text(tokens[1], "with") && !is_text(
        tokens[1],
        "as",
    ) {
        push_str(&mut r, " ");
        push_chars(&mut r, tokens[1]);
    }
    proof {
        assert(count > 1 ==> all[1] == tokens@[1]@);
        assert(named + Seq::empty() =~= named);
        if count > 1 {
            assert(named + " "@ + all[1] =~= named + (" "@ + all[1]));
        }
    }
    push_str(&mut r, " enters");
    let k: usize = find_at(&tokens);
    let ghost entered = r@;
    if k < count && count - k > 1 {
        push_str(&mut r, " from ");
        push_chars(&mut r, tokens[k + 1]);
        assert(all[k + 1] == tokens@[k + 1]@);
    }
    proof {
        assert(entered + Seq::empty() =~= entered);
        if k + 1 < count {
            assert(entered + " from "@ + all[k + 1] =~= entered + (" from "@ + all[k + 1]));
        }
    }
    push_with_or_dissolve(&mut r, transition);
    push_str(&mut r, "\n");
    r
}

fn convert_brief_hide(c: &[char], chars: &Entries) -> (r: Vec<char>)
    ensures
        r@ == brief_hide_text(c@, entry_views(chars@)),
{
    let mut r: Vec<char> = to_chars("- ");
    push_resolved(&mut r, chars, first_word_of(operand_of(c, "hide")));
    push_str(&mut r, "\n");
    r
}

fn convert_hide(c: &[char], chars: &Entries) -> (r: Vec<char>)
    ensures
        r@ == hide_text(c@, entry_views(chars@)),
{
    let (head, transition) = split_at_first(operand_of(c, "hide"), " with ");
    let mut r: Vec<char> = to_chars("- ");
    push_resolved(&mut r, chars, first_word_of(trim_of(head)));
    push_with(&mut r, transition);
    push_str(&mut r, "\n");
    r
}

fn quote_first(s: &[char]) -> (r: bool)
    ensures
        r == is_quote(s@),
{
    begins_with(s, '"') || begins_with(s, '\'')
}

fn convert_narration(c: &[char]) -> (r: Vec<char>)
    ensures
        r@ == narration_text(c@),
{
    match extract_quoted(c) {
        Some((t, _)) => wrapped("\"", t, "\"\n"),
        None => Vec::new(),
    }
}

fn convert_speech(c: &[char], chars: &Entries) -> (r: Option<Vec<char>>)
    ensures
        match speech_text(c@, entry_views(chars@)) {
            Some(t) => r is Some && (r->0)@ == t,
            None => r is None,
        },
{
    let k: usize = find_char(c, ' ', 0);
    if k >= c.len() {
        return None;
    }
    let who: &[char] = slice_subrange(c, 0, k);
    let rest: &[char] = trim_of(slice_subrange(c, k, c.len()));
    if quote_first(rest) && find_char(who, '(', 0) >= who.len() {
        if let Some((t, _)) = extract_quoted(rest) {
            let mut r: Vec<char> = Vec::new();
            push_resolved(&mut r, chars, who);
            assert(Seq::<char>::empty() + resolve(entry_views(chars@), who@) =~= resolve(
                entry_views(chars@),
                who@,
            ));
            push_str(&mut r, ": \"");
            push_chars(&mut r, t);
            push_str(&mut r, "\"\n");
            return Some(r);
        }
    }
    None
}

fn convert_variable(c: &[char]) -> (r: Vec<char>)
    ensures
        r@ == variable_text(c@),
{
    wrapped("$", expression_of(trim_of(strip_start_of(c, '$'))), "\n")
}

fn convert_play(c: &[char]) -> (r: Vec<char>)
    ensures
        r@ == play_text(c@),
{
    let rest: &[char] = operand_of(c, "play");
    if starts_with_str(rest, "music") {
        if let Some((name, _)) = extract_quoted(operand_of(rest, "music")) {
            return wrapped("@music ", name, "\n");
        }
    } else if starts_with_str(rest, "sound") {
        if let Some((name, _)) = extract_quoted(operand_of(rest, "sound")) {
            return wrapped("@sound ", name, "\n");
        }
    }
    Vec::new()
}

fn convert_stop(c: &[char]) -> (r: Vec<char>)
    ensures
        r@ == stop_text(c@),
{
    if starts_with_str(operand_of(c, "stop"), "music") {
        to_chars("@stop_music\n")
    } else {
        Vec::new()
    }
}

/// What becomes of a line within a block.
fn convert_simple_line(line: &[char], chars: &Entries) -> (r: Vec<char>)
    ensures
        r@ == block_line(line@, entry_views(chars@)),
{
    let c: &[char] = trim_of(line);
    if c.len() == 0 || is_text(c, "pass") {
        return Vec::new();
    }
    if comment(c) {
        return convert_comment(c);
    }
    if statement(c, "jump") {
        return convert_jump(c);
    }
    if statement(c, "call") {
        return convert_call(c);
    }
    if statement(c, "return") {
        return to_chars("<=\n");
    }
    if statement(c, "scene") {
        return convert_scene(c);
    }
    if statement(c, "show") {
        return convert_brief_show(c, chars);
    }
    if statement(c, "hide") {
        return convert_brief_hide(c, chars);
    }
    if quote_first(c) {
        return convert_narration(c);
    }
    if let Some(t) = convert_speech(c, chars) {
        return t;
    }
    if begins_with(c, '$') {
        return convert_variable(c);
    }
    if statement(c, "play") {
        return convert_play(c);
    }
    if statement(c, "stop") {
        return convert_stop(c);
    }
    if statement(c, "with") {
        return Vec::new();
    }
    wrapped("-- TODO: ", c, "\n")
}

// -- blocks -----------------------------------------------------------------

fn skip_block(lines: &Vec<IndentedLine<'_>>, start: usize) -> (i: usize)
    requires
        start < lines@.len(),
    ensures
        i == block_end(line_views(lines@), start + 1, line_views(lines@)[start as int].indent),
        start < i <= lines@.len(),
{
    let count: usize = lines.len();
    let indent: u128 = lines[start].indent;
    let mut i: usize = start + 1;
    while i < count && lines[i].indent > indent
        invariant
            start < i <= count,
            count == lines@.len(),
            indent == lines@[start as int].indent,
            block_end(line_views(lines@), start + 1, indent as nat) == block_end(
                line_views(lines@),
                i as int,
                indent as nat,
            ),
        decreases lines@.len() - i,
    {
        i = i + 1;
    }
    i
}

fn convert_block(
    lines: &Vec<IndentedLine<'_>>,
    start: usize,
    indent: u128,
    to_else: bool,
    chars: &Entries,
    out: &mut Vec<char>,
) -> (i: usize)
    requires
        start <= lines@.len(),
    ensures
        (final(out)@, i as int) == block(
            line_views(lines@),
            start as int,
            indent as nat,
            to_else,
            entry_views(chars@),
            old(out)@,
        ),
        start <= i <= lines@.len(),
{
    let mut i: usize = start;
    while i < lines.len() && lines[i].indent > indent
        invariant
            start <= i <= lines@.len(),
            block(
                line_views(lines@),
                start as int,
                indent as nat,
                to_else,
                entry_views(chars@),
                old(out)@,
            ) == block(
                line_views(lines@),
                i as int,
                indent as nat,
                to_else,
                entry_views(chars@),
                out@,
            ),
        ensures
            start <= i <= lines@.len(),
            (out@, i as int) == block(
                line_views(lines@),
                start as int,
                indent as nat,
                to_else,
                entry_views(chars@),
                old(out)@,
            ),
        decreases lines@.len() - i,
    {
        let c: &[char] = lines[i].content;
        if to_else && (statement(c, "elif") || statement(c, "else")) {
            break;
        }
        let t: Vec<char> = convert_simple_line(c, chars);
        push_chars(out, t.as_slice());
        i = i + 1;
    }
    i
}

fn convert_option(c: &[char]) -> (r: Option<Vec<char>>)
    ensures
        match option_text(c@) {
            Some(t) => r is Some && (r->0)@ == t,
            None => r is None,
        },
{
    match extract_quoted(c) {
        Some((t, after)) => {
            let rest: &[char] = trim_of(after);
            let mut r: Vec<char> = to_chars("| \"");
            push_chars(&mut r, t);
            if starts_with_str(rest, "if") {
                push_str(&mut r, "\" if ");
                push_chars(&mut r, expression_of(operand_of(rest, "if")));
                push_str(&mut r, "\n");
            } else {
                push_str(&mut r, "\"\n");
            }
            Some(r)
        },
        None => None,
    }
}

fn convert_menu_options(
    lines: &Vec<IndentedLine<'_>>,
    start: usize,
    indent: u128,
    chars: &Entries,
    out: &mut Vec<char>,
) -> (i: usize)
    requires
        start <= lines@.len(),
    ensures
        (final(out)@, i as int) == menu_options(
            line_views(lines@),
            start as int,
            indent as nat,
            entry_views(chars@),
            old(out)@,
        ),
        start <= i <= lines@.len(),
{
    let mut i: usize = start;
    while i < lines.len() && lines[i].indent > indent
        invariant
            start <= i <= lines@.len(),
            menu_options(
                line_views(lines@),
                start as int,
                indent as nat,
                entry_views(chars@),
                old(out)@,
            ) == menu_options(
                line_views(lines@),
                i as int,
                indent as nat,
                entry_views(chars@),
                out@,
            ),
        decreases lines@.len() - i,
    {
        let c: &[char] = lines[i].content;
        match convert_option(c) {
            Some(t) => {
                push_chars(out, t.as_slice());
                i = convert_block(lines, i + 1, lines[i].indent, false, chars, out);
            },
            None => {
                let t: Vec<char> = convert_simple_line(c, chars);
                push_chars(out, t.as_slice());
                i = i + 1;
            },
        }
    }
    i
}

fn read_menu_prompt<'a>(c: &'a [char]) -> (r: Option<&'a [char]>)
    ensures
        match menu_prompt(c@) {
            Some(p) => r is Some && (r->0)@ == p,
            None => r is None,
        },
{
    let rest: &'a [char] = trim_of(strip_end_of(operand_of(c, "menu"), ':'));
    if quote_first(rest) {
        match extract_quoted(rest) {
            Some((t, _)) => Some(t),
            None => None,
        }
    } else if rest.len() > 0 {
        Some(rest)
    } else {
        None
    }
}

fn read_block_prompt<'a>(lines: &Vec<IndentedLine<'a>>, i: usize, indent: u128) -> (r: Option<
    &'a [char],
>)
    ensures
        match block_prompt(line_views(lines@), i as int, indent as nat) {
            Some(p) => r is Some && (r->0)@ == p,
            None => r is None,
        },
        r is Some ==> i < lines@.len(),
{
    if i < lines.len() && lines[i].indent > indent {
        if let Some((t, after)) = extract_quoted(lines[i].content) {
            let rest: &[char] = trim_of(after);
            if !begins_with(rest, ':') && !starts_with_str(rest, "if") {
                return Some(t);
            }
        }
    }
    None
}

fn convert_menu(
    lines: &Vec<IndentedLine<'_>>,
    i: usize,
    chars: &Entries,
    out: &mut Vec<char>,
) -> (end: usize)
    requires
        i < lines@.len(),
    ensures
        (final(out)@, end as int) == menu(
            line_views(lines@),
            i as int,
            entry_views(chars@),
            old(out)@,
        ),
        i < end <= lines@.len(),
{
    let count: usize = lines.len();
    let indent: u128 = lines[i].indent;
    push_str(out, "? \"");
    assert(i < count);
    let mut start: usize = i + 1;
    match read_menu_prompt(lines[i].content) {
        Some(p) => push_chars(out, p),
        None => {
            match read_block_prompt(lines, i + 1, indent) {
                Some(p) => {
                    push_chars(out, p);
                    start = i + 2;
                },
                None => {
                    assert(out@ + Seq::empty() =~= out@);
                },
            }
        },
    }
    push_str(out, "\"\n");
    let end: usize = convert_menu_options(lines, start, indent, chars, out);
    push_str(out, "?\n");
    end
}

fn convert_branch_head(c: &[char]) -> (r: Vec<char>)
    ensures
        r@ == branch_head(c@),
{
    if statement(c, "if") {
        wrapped("if ", expression_of(operand_of(c, "if")), "\n")
    } else if statement(c, "elif") {
        wrapped("else if ", expression_of(operand_of(c, "elif")), "\n")
    } else {
        to_chars("else\n")
    }
}

fn convert_branches(
    lines: &Vec<IndentedLine<'_>>,
    start: usize,
    indent: u128,
    chars: &Entries,
    out: &mut Vec<char>,
) -> (i: usize)
    requires
        start <= lines@.len(),
    ensures
        (final(out)@, i as int) == branches(
            line_views(lines@),
            start as int,
            indent as nat,
            entry_views(chars@),
            old(out)@,
        ),
        start <= i <= lines@.len(),
{
    let mut i: usize = start;
    while i < lines.len() && lines[i].indent == indent
        invariant
            start <= i <= lines@.len(),
            branches(
                line_views(lines@),
                start as int,
                indent as nat,
                entry_views(chars@),
                old(out)@,
            ) == branches(
                line_views(lines@),
                i as int,
                indent as nat,
                entry_views(chars@),
                out@,
            ),
        ensures
            start <= i <= lines@.len(),
            (out@, i as int) == branches(
                line_views(lines@),
                start as int,
                indent as nat,
                entry_views(chars@),
                old(out)@,
            ),
        decreases lines@.len() - i,
    {
        let c: &[char] = lines[i].content;
        let head: Vec<char> = if statement(c, "elif") {
            wrapped("else if ", expression_of(operand_of(c, "elif")), "\n")
        } else if statement(c, "else") {
            to_chars("else\n")
        } else {
            break;
        };
        push_chars(out, head.as_slice());
        i = convert_block(lines, i + 1, indent, false, chars, out);
    }
    i
}

fn convert_conditional(
    lines: &Vec<IndentedLine<'_>>,
    i: usize,
    chars: &Entries,
    out: &mut Vec<char>,
) -> (end: usize)
    requires
        i < lines@.len(),
    ensures
        (final(out)@, end as int) == conditional(
            line_views(lines@),
            i as int,
            entry_views(chars@),
            old(out)@,
        ),
        i < end <= lines@.len(),
{
    let count: usize = lines.len();
    assert(i < count);
    let indent: u128 = lines[i].indent;
    let head: Vec<char> = convert_branch_head(lines[i].content);
    push_chars(out, head.as_slice());
    let j: usize = convert_block(lines, i + 1, indent, true, chars, out);
    let end: usize = convert_branches(lines, j, indent, chars, out);
    push_str(out, "end\n");
    end
}

fn convert_while(
    lines: &Vec<IndentedLine<'_>>,
    i: usize,
    chars: &Entries,
    out: &mut Vec<char>,
) -> (end: usize)
    requires
        i < lines@.len(),
    ensures
        (final(out)@, end as int) == while_loop(
            line_views(lines@),
            i as int,
            entry_views(chars@),
            old(out)@,
        ),
        i < end <= lines@.len(),
{
    let count: usize = lines.len();
    assert(i < count);
    let number: String = format_usize(lines[i].line_num);
    let label: String = text::concat2("__loop_", number.as_str());
    push_str(out, "# ");
    push_str(out, label.as_str());
    push_str(out, "\n");
    push_str(out, "if ");
    push_chars(out, expression_of(operand_of(lines[i].content, "while")));
    push_str(out, "\n");
    let end: usize = convert_block(lines, i + 1, lines[i].indent, false, chars, out);
    push_str(out, "-> ");
    push_str(out, label.as_str());
    push_str(out, "\n");
    push_str(out, "end\n");
    end
}

// -- the whole script -------------------------------------------------------

/// A conversion that is under way.
struct Work {
    out: Vec<char>,
    warnings: Vec<Vec<char>>,
    chars: Entries,
    images: Entries,
    defaults: Vec<Vec<char>>,
}

impl Work {
    spec fn view(&self) -> Migration {
        Migration {
            out: self.out@,
            warnings: char_views(self.warnings@),
            chars: entry_views(self.chars@),
            images: entry_views(self.images@),
            defaults: char_views(self.defaults@),
        }
    }

    fn write(&mut self, t: Vec<char>)
        ensures
            final(self)@ == written(old(self)@, t@),
    {
        push_chars(&mut self.out, t.as_slice());
    }

    /// Adds a warning about a line.
    fn warn(&mut self, number: usize, what: &str, c: &[char])
        ensures
            final(self)@ == warned(old(self)@, at_line(number as nat) + what@ + c@),
    {
        let digits: String = format_usize(number);
        let mut w: Vec<char> = to_chars("line ");
        push_str(&mut w, digits.as_str());
        push_str(&mut w, what);
        push_chars(&mut w, c);
        let ghost before = self.warnings@;
        self.warnings.push(w);
        assert(char_views(self.warnings@) =~= char_views(before).push(w@));
    }

    fn define(&mut self, c: &[char])
        ensures
            final(self)@ == (Migration {
                chars: with_definition(old(self)@.chars, c@),
                ..old(self)@
            }),
    {
        if let Some((name, value)) = split_assignment(operand_of(c, "define")) {
            if starts_with_str(value, "Character") {
                let inner: &[char] = trim_of(strip_start_of(operand_of(value, "Character"), '('));
                if let Some((full, _)) = extract_quoted(inner) {
                    put_entry(&mut self.chars, name, full);
                }
            }
        }
    }

    fn image(&mut self, c: &[char])
        ensures
            final(self)@ == (Migration {
                images: with_image(old(self)@.images, c@),
                ..old(self)@
            }),
    {
        if let Some((name, value)) = split_assignment(operand_of(c, "image")) {
            if let Some((file, _)) = extract_quoted(value) {
                put_entry(&mut self.images, name, file);
            }
        }
    }

    fn default_value(&mut self, c: &[char])
        ensures
            final(self)@ == (Migration {
                defaults: with_default(old(self)@.defaults, c@),
                ..old(self)@
            }),
    {
        if let Some((name, value)) = split_assignment(operand_of(c, "default")) {
            let mut line: Vec<char> = wrapped("$", name, " = ");
            push_chars(&mut line, strip_end_of(value, ':'));
            let ghost before = self.defaults@;
            self.defaults.push(line);
            assert(char_views(self.defaults@) =~= char_views(before).push(line@));
        }
    }

    /// Converts line `i`.
    fn convert(&mut self, lines: &Vec<IndentedLine<'_>>, i: usize) -> (next: usize)
        requires
            i < lines@.len(),
        ensures
            (final(self)@, next as int) == convert_line(
                line_views(lines@),
                i as int,
                old(self)@,
            ),
            i < next <= lines@.len(),
    {
        let count: usize = lines.len();
        assert(i < count);
        let c: &[char] = lines[i].content;
        let number: usize = lines[i].line_num;
        let nothing: &[char] = slice_subrange(c, 0, 0);
        proof {
            let w = at_line(number as nat) + ": init python block skipped"@;
            assert(w + nothing@ =~= w);
        }
        if is_text(c, "pass") {
            return i + 1;
        }
        if comment(c) {
            self.write(convert_comment(c));
            return i + 1;
        }
        if statement(c, "define") {
            self.define(c);
            return i + 1;
        }
        if statement(c, "image") {
            self.image(c);
            return i + 1;
        }
        if statement(c, "default") {
            self.default_value(c);
            return i + 1;
        }
        if statement(c, "init") || (starts_with_str(c, "init") && contains_of(c, "python")) {
            self.warn(number, ": init python block skipped", nothing);
            return skip_block(lines, i);
        }
        if statement(c, "screen") {
            self.warn(number, ": screen definition skipped: ", c);
            return skip_block(lines, i);
        }
        if statement(c, "transform") {
            self.warn(number, ": transform definition skipped: ", c);
            return skip_block(lines, i);
        }
        if contains_of(c, "renpy.") {
            self.warn(number, ": renpy API call skipped: ", trim_of(c));
            return i + 1;
        }
        if statement(c, "label") {
            self.write(convert_label(c));
            return i + 1;
        }
        self.convert_statement(lines, i)
    }

    /// Converts line `i`, which is a statement of the story.
    fn convert_statement(&mut self, lines: &Vec<IndentedLine<'_>>, i: usize) -> (next: usize)
        requires
            i < lines@.len(),
            ({
                let c = line_views(lines@)[i as int].content;
                &&& c != "pass"@
                &&& !is_comment(c)
                &&& !is_statement(c, "define"@)
                &&& !is_statement(c, "image"@)
                &&& !is_statement(c, "default"@)
                &&& !is_statement(c, "init"@)
                &&& !(text::starts_with(c, "init"@) && text::contains(c, "python"@))
                &&& !is_statement(c, "screen"@)
                &&& !is_statement(c, "transform"@)
                &&& !text::contains(c, "renpy."@)
                &&& !is_statement(c, "label"@)
            }),
        ensures
            (final(self)@, next as int) == convert_line(
                line_views(lines@),
                i as int,
                old(self)@,
            ),
            i < next <= lines@.len(),
    {
        let count: usize = lines.len();
        assert(i < count);
        let c: &[char] = lines[i].content;
        if statement(c, "jump") {
            self.write(convert_jump(c));
            return i + 1;
        }
        if statement(c, "call") {
            self.write(convert_call(c));
            return i + 1;
        }
        if statement(c, "return") {
            self.write(to_chars("<=\n"));
            return i + 1;
        }
        if statement(c, "scene") {
            self.write(convert_scene(c));
            return i + 1;
        }
        if statement(c, "show") {
            let t: Vec<char> = convert_show(c, &self.chars);
            self.write(t);
            return i + 1;
        }
        if statement(c, "hide") {
            let t: Vec<char> = convert_hide(c, &self.chars);
            self.write(t);
            return i + 1;
        }
        if statement(c, "menu") {
            return convert_menu(lines, i, &self.chars, &mut self.out);
        }
        if statement(c, "if") || statement(c, "elif") || statement(c, "else") {
            return convert_conditional(lines, i, &self.chars, &mut self.out);
        }
        if statement(c, "while") {
            return convert_while(lines, i, &self.chars, &mut self.out);
        }
        if quote_first(c) {
            self.write(convert_narration(c));
            return i + 1;
        }
        if let Some(t) = convert_speech(c, &self.chars) {
            self.write(t);
            return i + 1;
        }
        if begins_with(c, '$') {
            self.write(convert_variable(c));
            return i + 1;
        }
        if statement(c, "play") {
            self.write(convert_play(c));
            return i + 1;
        }
        if statement(c, "stop") {
            self.write(convert_stop(c));
            return i + 1;
        }
        if statement(c, "with") || is_text(c, "end") || is_text(c, "$end") {
            return i + 1;
        }
        self.warn(lines[i].line_num, ": unrecognized syntax, emitted as comment: ", c);
        self.write(wrapped("-- TODO: ", c, "\n"));
        i + 1
    }
}

fn split_assignment<'a>(s: &'a [char]) -> (r: Option<(&'a [char], &'a [char])>)
    ensures
        match assignment(s@) {
            Some((a, b)) => r matches Some((x, y)) && x@ == a && y@ == b,
            None => r is None,
        },
{
    match after_char_of(s, '=') {
        Some(value) => Some((trim_of(before_char_of(s, '=')), trim_of(value))),
        None => None,
    }
}

fn convert_label(c: &[char]) -> (r: Vec<char>)
    ensures
        r@ == label_text(c@),
{
    let name: &[char] = trim_of(strip_end_of(operand_of(c, "label"), ':'));
    wrapped("# ", trim_of(before_char_of(name, '(')), "\n")
}

fn to_strings(v: &Vec<Vec<char>>) -> (r: Vec<String>)
    ensures
        text::views(r@) == char_views(v@),
{
    let mut r: Vec<String> = Vec::new();
    let mut i: usize = 0;
    while i < v.len()
        invariant
            i <= v@.len(),
            r@.len() == i,
            forall|k: int| 0 <= k < i ==> (#[trigger] r@[k])@ == v@[k]@,
        decreases v@.len() - i,
    {
        r.push(from_chars(v[i].as_slice()));
        i = i + 1;
    }
    assert(text::views(r@) =~= char_views(v@));
    r
}

/// The views of a list of string pairs.
pub open spec fn string_pairs(s: Seq<(String, String)>) -> Pairs {
    Seq::new(s.len(), |i: int| (s[i].0@, s[i].1@))
}

fn to_string_pairs(v: &Entries) -> (r: Vec<(String, String)>)
    ensures
        string_pairs(r@) == entry_views(v@),
{
    let mut r: Vec<(String, String)> = Vec::new();
    let mut i: usize = 0;
    while i < v.len()
        invariant
            i <= v@.len(),
            r@.len() == i,
            forall|k: int|
                0 <= k < i ==> (#[trigger] r@[k]).0@ == v@[k].0@ && r@[k].1@ == v@[k].1@,
        decreases v@.len() - i,
    {
        r.push((from_chars(v[i].0.as_slice()), from_chars(v[i].1.as_slice())));
        i = i + 1;
    }
    assert(string_pairs(r@) =~= entry_views(v@));
    r
}

/// Converts a Ren'Py script. The maps list names in the order of their first
/// definition.
pub fn convert_rpy_to_akrs(rpy_source: &str) -> (r: MigrationResult)
    ensures
        r.akrs_script@ == script_of(migrated(rpy_source@)),
        text::views(r.warnings@) == migrated(rpy_source@).warnings,
        string_pairs(r.character_map@) == migrated(rpy_source@).chars,
        string_pairs(r.image_map@) == migrated(rpy_source@).images,
{
    let source: Vec<char> = to_chars(rpy_source);
    let lines: Vec<IndentedLine<'_>> = parse_lines(source.as_slice());
    let mut work: Work = Work {
        out: Vec::new(),
        warnings: Vec::new(),
        chars: Vec::new(),
        images: Vec::new(),
        defaults: Vec::new(),
    };
    let ghost first = Migration {
        out: Seq::empty(),
        warnings: Seq::empty(),
        chars: Seq::empty(),
        images: Seq::empty(),
        defaults: Seq::empty(),
    };
    proof {
        assert(work@.out =~= first.out);
        assert(work@.warnings =~= first.warnings);
        assert(work@.chars =~= first.chars);
        assert(work@.images =~= first.images);
        assert(work@.defaults =~= first.defaults);
    }
    let mut i: usize = 0;
    while i < lines.len()
        invariant
            i <= lines@.len(),
            convert_from(line_views(lines@), 0, first) == convert_from(
                line_views(lines@),
                i as int,
                work@,
            ),
        decreases lines@.len() - i,
    {
        i = work.convert(&lines, i);
    }
    let mut script: Vec<char> = Vec::new();
    if work.defaults.len() > 0 {
        push_str(&mut script, "-- Default variables (from Ren'Py 'default' declarations)\n");
        let ghost head = script@;
        let ghost all = char_views(work.defaults@);
        let mut k: usize = 0;
        assert(all.take(0) =~= Seq::empty());
        assert(head + lined(Seq::empty()) =~= head);
        while k < work.defaults.len()
            invariant
                k <= work.defaults@.len(),
                all == char_views(work.defaults@),
                script@ == head + lined(all.take(k as int)),
            decreases work.defaults@.len() - k,
        {
            proof {
                assert(all.take(k + 1).drop_last() =~= all.take(k as int));
                assert(all.take(k + 1).last() == all[k as int]);
            }
            push_chars(&mut script, work.defaults[k].as_slice());
            push_str(&mut script, "\n");
            assert(script@ =~= head + lined(all.take(k + 1)));
            k = k + 1;
        }
        assert(all.take(k as int) =~= all);
        push_str(&mut script, "\n");
    }
    push_chars(&mut script, work.out.as_slice());
    proof {
        assert(script@ =~= script_of(work@));
    }
    MigrationResult {
        akrs_script: from_chars(script.as_slice()),
        warnings: to_strings(&work.warnings),
        character_map: to_string_pairs(&work.chars),
        image_map: to_string_pairs(&work.images),
    }
}

} // verus!
