//! Single lines of a script as the editor reads them, and labels.
//!
//! Fractions are held as the bits of single-precision numbers. Reading a number
//! is the host's: `sprite_numbers` lists the texts of a line that are numbers,
//! and `parse_sprite_line` takes what they come to.

use crate::ast::Position;
use crate::compile;
use crate::compile::{CompileError, ErrSeverity};
use crate::diagnostic;
use crate::diagnostic::format_location;
use crate::slices;
use crate::slices::{
    begins_with, copy_chars, find_char, is_text, is_white, trim_of, trim_start_of, word_len_of,
    words_of,
};
use crate::text;
use crate::text::{concat3, from_chars, to_chars};
use vstd::prelude::*;
use vstd::slice::slice_subrange;

verus! {

// ---------------------------------------------------------------------------
// Sprites
// ---------------------------------------------------------------------------

/// What a `+` line shows.
#[derive(Debug, PartialEq, Eq)]
pub struct ParsedSpriteLine<S = String> {
    pub character_name: S,
    /// The picture: the pose where there is one, or else the character.
    pub selected: S,
    /// The place across and down, and the size, as bits of fractions.
    pub x: u32,
    pub y: u32,
    pub scale: u32,
}

impl View for ParsedSpriteLine<String> {
    type V = ParsedSpriteLine<Seq<char>>;

    open spec fn view(&self) -> ParsedSpriteLine<Seq<char>> {
        ParsedSpriteLine {
            character_name: self.character_name@,
            selected: self.selected@,
            x: self.x,
            y: self.y,
            scale: self.scale,
        }
    }
}

/// One quarter, one half, three quarters and one, in single precision.
pub const QUARTER: u32 = 0x3e80_0000;

pub const HALF: u32 = 0x3f00_0000;

pub const THREE_QUARTERS: u32 = 0x3f40_0000;

pub const ONE: u32 = 0x3f80_0000;

/// Whether bits are those of a number above zero.
pub open spec fn is_positive(bits: u32) -> bool {
    0 < bits <= 0x7f80_0000
}

/// The number of characters before white space or a bracket.
pub open spec fn name_len(s: Seq<char>, i: int) -> int
    decreases s.len() - i,
{
    if 0 <= i < s.len() && !slices::is_space(s[i]) && s[i] != '(' {
        name_len(s, i + 1)
    } else {
        i
    }
}

/// The beginning of a `+` line: the character, the pose, and the words behind
/// them.
pub struct SpriteHead {
    pub name: Seq<char>,
    pub pose: Option<Seq<char>>,
    pub words: Seq<Seq<char>>,
}

/// The beginning of a `+` line, if it is one.
pub open spec fn sprite_head(line: Seq<char>) -> Option<SpriteHead> {
    let t = slices::trim_start(line);
    if !slices::begins(t, '+') {
        None
    } else {
        let rest = slices::trim_start(t.subrange(1, t.len() as int));
        let k = name_len(rest, 0);
        let name = rest.subrange(0, k);
        let tail = slices::trim_start(rest.subrange(k, rest.len() as int));
        if name.len() == 0 {
            None
        } else if slices::begins(tail, '(') {
            let c = slices::index_of(tail, ')', 0);
            if c >= tail.len() {
                None
            } else {
                let pose = slices::trim(tail.subrange(1, c));
                Some(
                    SpriteHead {
                        name,
                        pose: if pose.len() == 0 {
                            None
                        } else {
                            Some(pose)
                        },
                        words: slices::words(
                            slices::trim_start(tail.subrange(c + 1, tail.len() as int)),
                        ),
                    },
                )
            }
        } else {
            Some(SpriteHead { name, pose: None, words: slices::words(tail) })
        }
    }
}

/// The numbers in the value of `at`: one, or two with a comma between them.
pub open spec fn at_numbers(value: Seq<char>) -> Seq<Seq<char>> {
    let k = slices::index_of(value, ',', 0);
    if k < value.len() {
        seq![
            slices::trim(value.subrange(0, k)),
            slices::trim(value.subrange(k + 1, value.len() as int)),
        ]
    } else {
        seq![value]
    }
}

/// The numbers among the words from `i` on.
pub open spec fn numbers_from(words: Seq<Seq<char>>, i: int) -> Seq<Seq<char>>
    decreases words.len() - i,
{
    if i < 0 || i >= words.len() {
        Seq::empty()
    } else if words[i] == "at"@ && i + 1 < words.len() {
        at_numbers(words[i + 1]) + numbers_from(words, i + 2)
    } else if words[i] == "size"@ && i + 1 < words.len() {
        seq![words[i + 1]] + numbers_from(words, i + 2)
    } else {
        numbers_from(words, i + 1)
    }
}

/// The texts of a line that have to be read as numbers.
pub open spec fn numbers_of(line: Seq<char>) -> Seq<Seq<char>> {
    match sprite_head(line) {
        Some(head) => numbers_from(head.words, 0),
        None => Seq::empty(),
    }
}

/// The place and size so far.
pub struct SpritePlace {
    pub x: u32,
    pub y: u32,
    pub scale: u32,
}

/// What the host made of number `k`; nothing where it gave none.
pub open spec fn number_at(numbers: Seq<Option<u32>>, k: int) -> Option<u32> {
    if 0 <= k < numbers.len() {
        numbers[k]
    } else {
        None
    }
}

/// The fraction of a word that names a place.
pub open spec fn named_place(word: Seq<char>) -> Option<u32> {
    if word == "left"@ || word == "居左"@ || word == "左"@ {
        Some(QUARTER)
    } else if word == "center"@ || word == "centre"@ || word == "居中"@ || word == "中"@ {
        Some(HALF)
    } else if word == "right"@ || word == "居右"@ || word == "右"@ {
        Some(THREE_QUARTERS)
    } else {
        None
    }
}

/// The place and size after the words from `i` on, with the numbers from `k`
/// on. Nothing where a value is missing or is no number.
pub open spec fn placed_from(
    words: Seq<Seq<char>>,
    i: int,
    numbers: Seq<Option<u32>>,
    k: int,
    p: SpritePlace,
) -> Option<SpritePlace>
    decreases words.len() - i,
{
    if i < 0 || i >= words.len() {
        Some(p)
    } else if words[i] == "at"@ {
        if i + 1 >= words.len() {
            None
        } else if at_numbers(words[i + 1]).len() == 2 {
            match (number_at(numbers, k), number_at(numbers, k + 1)) {
                (Some(x), Some(y)) => placed_from(
                    words,
                    i + 2,
                    numbers,
                    k + 2,
                    SpritePlace { x, y, ..p },
                ),
                _ => None,
            }
        } else {
            match number_at(numbers, k) {
                Some(x) => placed_from(words, i + 2, numbers, k + 1, SpritePlace { x, ..p }),
                None => None,
            }
        }
    } else if words[i] == "size"@ {
        if i + 1 >= words.len() {
            None
        } else {
            match number_at(numbers, k) {
                Some(s) => placed_from(
                    words,
                    i + 2,
                    numbers,
                    k + 1,
                    if is_positive(s) {
                        SpritePlace { scale: s, ..p }
                    } else {
                        p
                    },
                ),
                None => None,
            }
        }
    } else {
        placed_from(
            words,
            i + 1,
            numbers,
            k,
            match named_place(words[i]) {
                Some(x) => SpritePlace { x, ..p },
                None => p,
            },
        )
    }
}

/// What a `+` line shows, with the numbers of the host.
pub open spec fn sprite_line(line: Seq<char>, numbers: Seq<Option<u32>>) -> Option<
    ParsedSpriteLine<Seq<char>>,
> {
    match sprite_head(line) {
        None => None,
        Some(head) => match placed_from(
            head.words,
            0,
            numbers,
            0,
            SpritePlace { x: HALF, y: ONE, scale: ONE },
        ) {
            None => None,
            Some(p) => Some(
                ParsedSpriteLine {
                    character_name: head.name,
                    selected: match head.pose {
                        Some(pose) => pose,
                        None => head.name,
                    },
                    x: p.x,
                    y: p.y,
                    scale: p.scale,
                },
            ),
        },
    }
}

/// The beginning of a `+` line, in code: its name, its pose, and the words.
struct Head {
    name: Vec<char>,
    pose: Option<Vec<char>>,
    words: Vec<Vec<char>>,
}

spec fn char_views(v: Seq<Vec<char>>) -> Seq<Seq<char>> {
    Seq::new(v.len(), |i: int| v[i]@)
}

spec fn head_view(h: Head) -> SpriteHead {
    SpriteHead {
        name: h.name@,
        pose: match h.pose {
            Some(p) => Some(p@),
            None => None,
        },
        words: char_views(h.words@),
    }
}

fn name_len_of(s: &[char]) -> (k: usize)
    ensures
        k == name_len(s@, 0),
        k <= s@.len(),
{
    let mut k: usize = 0;
    while k < s.len() && !is_white(s[k]) && s[k] != '('
        invariant
            k <= s@.len(),
            name_len(s@, 0) == name_len(s@, k as int),
        decreases s@.len() - k,
    {
        k = k + 1;
    }
    k
}

fn copied_words(s: &[char]) -> (r: Vec<Vec<char>>)
    ensures
        char_views(r@) == slices::words(s@),
{
    let all: Vec<&[char]> = words_of(s);
    let mut r: Vec<Vec<char>> = Vec::new();
    let mut i: usize = 0;
    while i < all.len()
        invariant
            i <= all@.len(),
            r@.len() == i,
            forall|k: int| 0 <= k < i ==> (#[trigger] r@[k])@ == all@[k]@,
        decreases all@.len() - i,
    {
        r.push(copy_chars(all[i]));
        i = i + 1;
    }
    assert(char_views(r@) =~= slices::slice_views(all@));
    r
}

fn head_of(line: &[char]) -> (r: Option<Head>)
    ensures
        match sprite_head(line@) {
            Some(h) => r is Some && head_view(r->0) == h,
            None => r is None,
        },
{
    let t: &[char] = trim_start_of(line);
    if !begins_with(t, '+') {
        return None;
    }
    let rest: &[char] = trim_start_of(slice_subrange(t, 1, t.len()));
    let k: usize = name_len_of(rest);
    if k == 0 {
        return None;
    }
    let name: Vec<char> = copy_chars(slice_subrange(rest, 0, k));
    let tail: &[char] = trim_start_of(slice_subrange(rest, k, rest.len()));
    if begins_with(tail, '(') {
        let c: usize = find_char(tail, ')', 0);
        if c >= tail.len() {
            return None;
        }
        assert(c >= 1);
        let pose: &[char] = trim_of(slice_subrange(tail, 1, c));
        let words: Vec<Vec<char>> = copied_words(
            trim_start_of(slice_subrange(tail, c + 1, tail.len())),
        );
        Some(
            Head {
                name,
                pose: if pose.len() == 0 {
                    None
                } else {
                    Some(copy_chars(pose))
                },
                words,
            },
        )
    } else {
        Some(Head { name, pose: None, words: copied_words(tail) })
    }
}

/// The texts of a `+` line that have to be read as numbers, in order.
pub fn sprite_numbers(line: &str) -> (r: Vec<String>)
    ensures
        text::views(r@) == numbers_of(line@),
{
    let cs: Vec<char> = to_chars(line);
    let mut out: Vec<String> = Vec::new();
    let head: Head = match head_of(cs.as_slice()) {
        Some(h) => h,
        None => {
            assert(text::views(out@) =~= Seq::empty());
            return out;
        },
    };
    let ghost words = char_views(head.words@);
    let n: usize = head.words.len();
    let mut i: usize = 0;
    assert(text::views(out@) + numbers_from(words, 0) =~= numbers_from(words, 0));
    while i < n
        invariant
            i <= n,
            n == head.words@.len(),
            words == char_views(head.words@),
            text::views(out@) + numbers_from(words, i as int) == numbers_from(words, 0),
        decreases n - i,
    {
        let word: &[char] = head.words[i].as_slice();
        assert(word@ == words[i as int]);
        let ghost before = text::views(out@);
        if is_text(word, "at") && i + 1 < n {
            let value: &[char] = head.words[i + 1].as_slice();
            assert(value@ == words[i + 1]);
            let k: usize = find_char(value, ',', 0);
            let ghost rest = numbers_from(words, i + 2);
            if k < value.len() {
                let first: &[char] = trim_of(slice_subrange(value, 0, k));
                let second: &[char] = trim_of(slice_subrange(value, k + 1, value.len()));
                out.push(from_chars(first));
                out.push(from_chars(second));
                assert(text::views(out@) =~= before + seq![first@, second@]);
                assert(before + (seq![first@, second@] + rest) =~= text::views(out@) + rest);
            } else {
                out.push(from_chars(value));
                assert(text::views(out@) =~= before + seq![value@]);
                assert(before + (seq![value@] + rest) =~= text::views(out@) + rest);
            }
            i = i + 2;
        } else if is_text(word, "size") && i + 1 < n {
            let value: &[char] = head.words[i + 1].as_slice();
            assert(value@ == words[i + 1]);
            let ghost rest = numbers_from(words, i + 2);
            out.push(from_chars(value));
            assert(text::views(out@) =~= before + seq![value@]);
            assert(before + (seq![value@] + rest) =~= text::views(out@) + rest);
            i = i + 2;
        } else {
            i = i + 1;
        }
    }
    assert(text::views(out@) + Seq::empty() =~= text::views(out@));
    out
}

fn take_number(numbers: &Vec<Option<u32>>, k: usize) -> (r: Option<u32>)
    ensures
        r == number_at(numbers@, k as int),
{
    if k < numbers.len() {
        numbers[k]
    } else {
        None
    }
}

fn place_named(word: &[char]) -> (r: Option<u32>)
    ensures
        r == named_place(word@),
{
    if is_text(word, "left") || is_text(word, "居左") || is_text(word, "左") {
        Some(QUARTER)
    } else if is_text(word, "center") || is_text(word, "centre") || is_text(word, "居中")
        || is_text(word, "中") {
        Some(HALF)
    } else if is_text(word, "right") || is_text(word, "居右") || is_text(word, "右") {
        Some(THREE_QUARTERS)
    } else {
        None
    }
}

/// What a `+` line shows: its character, the picture, the place and the size.
/// `numbers` holds the bits of each number that `sprite_numbers` lists, or
/// nothing for a text that is none. Another line, a bracket that is not closed,
/// and a missing or wrong number give nothing.
pub fn parse_sprite_line(line: &str, numbers: &Vec<Option<u32>>) -> (r: Option<ParsedSpriteLine>)
    ensures
        match sprite_line(line@, numbers@) {
            Some(p) => r is Some && (r->0)@ == p,
            None => r is None,
        },
{
    let cs: Vec<char> = to_chars(line);
    let head: Head = match head_of(cs.as_slice()) {
        Some(h) => h,
        None => {
            return None;
        },
    };
    let ghost words = char_views(head.words@);
    let n: usize = head.words.len();
    let mut x: u32 = HALF;
    let mut y: u32 = ONE;
    let mut scale: u32 = ONE;
    let mut i: usize = 0;
    let mut k: usize = 0;
    let ghost whole = placed_from(
        words,
        0,
        numbers@,
        0,
        SpritePlace { x: HALF, y: ONE, scale: ONE },
    );
    while i < n
        invariant
            i <= n,
            k <= i,
            n == head.words@.len(),
            words == char_views(head.words@),
            head_view(head) == sprite_head(line@)->0,
            sprite_head(line@) is Some,
            whole == placed_from(
                words,
                0,
                numbers@,
                0,
                SpritePlace { x: HALF, y: ONE, scale: ONE },
            ),
            whole == placed_from(
                words,
                i as int,
                numbers@,
                k as int,
                SpritePlace { x, y, scale },
            ),
        decreases n - i,
    {
        let word: &[char] = head.words[i].as_slice();
        assert(word@ == words[i as int]);
        if is_text(word, "at") {
            if i + 1 >= n {
                return None;
            }
            let value: &[char] = head.words[i + 1].as_slice();
            assert(value@ == words[i + 1]);
            let two: bool = find_char(value, ',', 0) < value.len();
            match take_number(numbers, k) {
                Some(a) => {
                    if two {
                        match take_number(numbers, k + 1) {
                            Some(b) => {
                                x = a;
                                y = b;
                                k = k + 2;
                            },
                            None => {
                                return None;
                            },
                        }
                    } else {
                        x = a;
                        k = k + 1;
                    }
                },
                None => {
                    return None;
                },
            }
            i = i + 2;
        } else if is_text(word, "size") {
            if i + 1 >= n {
                return None;
            }
            match take_number(numbers, k) {
                Some(s) => {
                    if 0 < s && s <= 0x7f80_0000 {
                        scale = s;
                    }
                    k = k + 1;
                },
                None => {
                    return None;
                },
            }
            i = i + 2;
        } else {
            match place_named(word) {
                Some(v) => {
                    x = v;
                },
                None => {},
            }
            i = i + 1;
        }
    }
    let character_name: String = from_chars(head.name.as_slice());
    let selected: String = match &head.pose {
        Some(p) => from_chars(p.as_slice()),
        None => from_chars(head.name.as_slice()),
    };
    Some(ParsedSpriteLine { character_name, selected, x, y, scale })
}

// ---------------------------------------------------------------------------
// Commands
// ---------------------------------------------------------------------------

/// What an `@` line asks for.
#[derive(Debug, PartialEq, Eq)]
pub struct ParsedCommandLine<S = String> {
    pub command: S,
    /// The first argument.
    pub resource: S,
}

impl View for ParsedCommandLine<String> {
    type V = ParsedCommandLine<Seq<char>>;

    open spec fn view(&self) -> ParsedCommandLine<Seq<char>> {
        ParsedCommandLine { command: self.command@, resource: self.resource@ }
    }
}

/// The first argument: a quoted text, or a word. Nothing where a quote is not
/// closed.
pub open spec fn first_argument(args: Seq<char>) -> Option<Seq<char>> {
    if slices::begins(args, '"') {
        let k = slices::index_of(args, '"', 1);
        if k < args.len() {
            Some(args.subrange(1, k))
        } else {
            None
        }
    } else {
        Some(args.subrange(0, slices::word_len(args)))
    }
}

/// What an `@` line asks for, if it is one with an argument.
pub open spec fn command_line(line: Seq<char>) -> Option<ParsedCommandLine<Seq<char>>> {
    let t = slices::trim_start(line);
    if !slices::begins(t, '@') {
        None
    } else {
        let rest = slices::trim_start(t.subrange(1, t.len() as int));
        let k = slices::word_len(rest);
        match first_argument(slices::trim_start(rest.subrange(k, rest.len() as int))) {
            Some(resource) => if resource.len() == 0 {
                None
            } else {
                Some(ParsedCommandLine { command: rest.subrange(0, k), resource })
            },
            None => None,
        }
    }
}

/// The command of an `@` line and its first argument. Another line, and one
/// without an argument, give nothing.
pub fn parse_command_line(line: &str) -> (r: Option<ParsedCommandLine>)
    ensures
        match command_line(line@) {
            Some(c) => r is Some && (r->0)@ == c,
            None => r is None,
        },
{
    let cs: Vec<char> = to_chars(line);
    let t: &[char] = trim_start_of(cs.as_slice());
    if !begins_with(t, '@') {
        return None;
    }
    let rest: &[char] = trim_start_of(slice_subrange(t, 1, t.len()));
    let k: usize = word_len_of(rest);
    let args: &[char] = trim_start_of(slice_subrange(rest, k, rest.len()));
    let resource: &[char] = if begins_with(args, '"') {
        let e: usize = find_char(args, '"', 1);
        if e >= args.len() {
            return None;
        }
        slice_subrange(args, 1, e)
    } else {
        slice_subrange(args, 0, word_len_of(args))
    };
    if resource.len() == 0 {
        return None;
    }
    Some(
        ParsedCommandLine {
            command: from_chars(slice_subrange(rest, 0, k)),
            resource: from_chars(resource),
        },
    )
}

// ---------------------------------------------------------------------------
// Labels
// ---------------------------------------------------------------------------

/// The label of a place: left, centre, right, or a fraction, which is given as
/// text.
pub open spec fn position_text(p: Position<Seq<char>>, fraction: Seq<char>) -> Seq<char> {
    match p {
        Position::Left => "左"@,
        Position::Center => "中"@,
        Position::Right => "右"@,
        Position::Custom(_) => "自定义("@ + fraction + ")"@,
    }
}

/// The label of a place. `fraction` is the text of a place that has no name,
/// with two decimals.
pub fn position_label(p: &Position, fraction: &str) -> (r: String)
    ensures
        r@ == position_text(p@, fraction@),
{
    match p {
        Position::Left => "左".to_owned(),
        Position::Center => "中".to_owned(),
        Position::Right => "右".to_owned(),
        Position::Custom(_) => concat3("自定义(", fraction, ")"),
    }
}

/// The phases of a running story.
#[derive(Debug, Clone, Copy, PartialEq, Eq, Structural)]
pub enum EnginePhase {
    Title,
    Running,
    Transitioning,
    Waiting,
    ChoicePending,
    StoryEnded,
}

pub open spec fn phase_text(phase: EnginePhase) -> Seq<char> {
    match phase {
        EnginePhase::Title => "标题"@,
        EnginePhase::Running => "运行中"@,
        EnginePhase::Transitioning => "过渡中"@,
        EnginePhase::Waiting => "等待"@,
        EnginePhase::ChoicePending => "等待选择"@,
        EnginePhase::StoryEnded => "故事结束"@,
    }
}

/// The label of a phase.
pub fn phase_label(phase: EnginePhase) -> (r: &'static str)
    ensures
        r@ == phase_text(phase),
{
    match phase {
        EnginePhase::Title => "标题",
        EnginePhase::Running => "运行中",
        EnginePhase::Transitioning => "过渡中",
        EnginePhase::Waiting => "等待",
        EnginePhase::ChoicePending => "等待选择",
        EnginePhase::StoryEnded => "故事结束",
    }
}

/// The label of a severity.
pub open spec fn severity_text(s: ErrSeverity) -> Seq<char> {
    match s {
        ErrSeverity::Error => "错误"@,
        ErrSeverity::Warning => "警告"@,
        ErrSeverity::Note => "提示"@,
    }
}

/// A finding as one line: `[severity] message - 位于 place`, and the hint where
/// there is one.
pub open spec fn finding_text(e: CompileError<Seq<char>>) -> Seq<char> {
    let head = "["@ + severity_text(e.severity) + "] "@ + e.message + " - 位于 "@
        + diagnostic::location_text(e.span);
    match e.hint {
        Some(hint) => head + "（提示："@ + hint + "）"@,
        None => head,
    }
}

/// The findings, each as one line.
pub open spec fn findings_text(errors: Seq<CompileError<Seq<char>>>) -> Seq<Seq<char>> {
    Seq::new(errors.len(), |i: int| finding_text(errors[i]))
}

fn format_finding(e: &CompileError) -> (r: String)
    ensures
        r@ == finding_text(e@),
{
    let severity: &str = match e.severity {
        ErrSeverity::Error => "错误",
        ErrSeverity::Warning => "警告",
        ErrSeverity::Note => "提示",
    };
    let mut r: String = "[".to_owned();
    r.append(severity);
    r.append("] ");
    r.append(e.message.as_str());
    r.append(" - 位于 ");
    r.append(format_location(&e.span).as_str());
    match &e.hint {
        Some(hint) => {
            r.append("（提示：");
            r.append(hint.as_str());
            r.append("）");
        },
        None => {},
    }
    r
}

/// The findings, each as one line with its severity.
pub fn format_errors(errors: &[CompileError]) -> (r: Vec<String>)
    ensures
        text::views(r@) == findings_text(compile::compile_error_views(errors@)),
{
    let mut r: Vec<String> = Vec::new();
    let mut i: usize = 0;
    while i < errors.len()
        invariant
            i <= errors@.len(),
            r@.len() == i,
            forall|k: int| 0 <= k < i ==> (#[trigger] r@[k])@ == finding_text(errors@[k]@),
        decreases errors@.len() - i,
    {
        r.push(format_finding(&errors[i]));
        i = i + 1;
    }
    assert(text::views(r@) =~= findings_text(compile::compile_error_views(errors@)));
    r
}

} // verus!
