//! What the blocks of a Ren'Py script are converted to, and what is not converted.

use crate::migrate;
use crate::migrate::{Migration, Pairs, SourceLine};
use crate::slices;
use crate::statement_laws;
use crate::text;
use crate::text_laws;
use vstd::prelude::*;

verus! {

// ---------------------------------------------------------------------------
// Heads of blocks
// ---------------------------------------------------------------------------

proof fn lemma_other_head(c: Seq<char>, word: Seq<char>, other: Seq<char>)
    requires
        statement_laws::is_keyword(word),
        statement_laws::is_keyword(other),
        word != other,
        c == word + seq![':'],
        slices::trim_start(c) == c,
    ensures
        !migrate::is_statement(c, other),
{
    reveal_strlit(" ");
    reveal_strlit("(");
    reveal_strlit(":");
    let n = word.len() as int;
    let k = other.len() as int;
    assert(c[n] == ':');
    assert forall|i: int| 0 <= i < n implies c[i] == word[i] by {}
    if c == other {
        assert(other[n] == ':');
    }
    assert forall|mark: Seq<char>| mark.len() == 1 && (mark[0] == ' ' || mark[0] == '(' || mark[0]
        == ':') implies !text::starts_with(c, #[trigger] (other + mark)) by {
        let p = other + mark;
        if text::starts_with(c, p) {
            assert forall|i: int| 0 <= i < p.len() implies c[i] == #[trigger] p[i] by {
                assert(c.subrange(0, p.len() as int)[i] == c[i]);
            }
            assert(p[k] == mark[0]);
            assert forall|i: int| 0 <= i < k implies other[i] == #[trigger] c[i] by {
                assert(p[i] == other[i]);
            }
            if k < n {
                assert(c[k] == word[k]);
            } else if k > n {
                assert(other[n] == c[n]);
            } else {
                assert(other =~= word);
            }
        }
    }
}

/// A keyword with a colon is a statement of that keyword and of no other.
proof fn lemma_head(c: Seq<char>, word: Seq<char>)
    requires
        statement_laws::is_keyword(word),
        c == word + seq![':'],
    ensures
        slices::trim(c) == c,
        slices::trim_start(c) == c,
        c != "pass"@,
        !migrate::is_comment(c),
        !migrate::is_quote(c),
        !slices::begins(c, '$'),
        migrate::is_statement(c, word),
        word != "jump"@ ==> !migrate::is_statement(c, "jump"@),
        word != "call"@ ==> !migrate::is_statement(c, "call"@),
        word != "return"@ ==> !migrate::is_statement(c, "return"@),
        word != "scene"@ ==> !migrate::is_statement(c, "scene"@),
        word != "show"@ ==> !migrate::is_statement(c, "show"@),
        word != "hide"@ ==> !migrate::is_statement(c, "hide"@),
        word != "play"@ ==> !migrate::is_statement(c, "play"@),
        word != "stop"@ ==> !migrate::is_statement(c, "stop"@),
        word != "with"@ ==> !migrate::is_statement(c, "with"@),
        word != "define"@ ==> !migrate::is_statement(c, "define"@),
        word != "image"@ ==> !migrate::is_statement(c, "image"@),
        word != "default"@ ==> !migrate::is_statement(c, "default"@),
        word != "init"@ ==> !migrate::is_statement(c, "init"@),
        word != "screen"@ ==> !migrate::is_statement(c, "screen"@),
        word != "transform"@ ==> !migrate::is_statement(c, "transform"@),
        word != "label"@ ==> !migrate::is_statement(c, "label"@),
        word != "menu"@ ==> !migrate::is_statement(c, "menu"@),
        word != "if"@ ==> !migrate::is_statement(c, "if"@),
        word != "elif"@ ==> !migrate::is_statement(c, "elif"@),
        word != "else"@ ==> !migrate::is_statement(c, "else"@),
        word != "while"@ ==> !migrate::is_statement(c, "while"@),
{
    let n = word.len() as int;
    assert(c[0] == word[0]);
    assert(c[n] == ':');
    text_laws::law_trim_keeps(Seq::empty(), c, Seq::empty());
    reveal_strlit(":");
    assert(c.subrange(0, n + 1) =~= word + ":"@);
    reveal_strlit("pass");
    assert("pass"@[0] == 'p' && "pass"@[1] == 'a' && "pass"@[2] == 's' && "pass"@[3] == 's');
    if c == "pass"@ {
        assert(c[n] == "pass"@[n]);
    }
    statement_laws::lemma_keywords();
    if word != "jump"@ {
        lemma_other_head(c, word, "jump"@);
    }
    if word != "call"@ {
        lemma_other_head(c, word, "call"@);
    }
    if word != "return"@ {
        lemma_other_head(c, word, "return"@);
    }
    if word != "scene"@ {
        lemma_other_head(c, word, "scene"@);
    }
    if word != "show"@ {
        lemma_other_head(c, word, "show"@);
    }
    if word != "hide"@ {
        lemma_other_head(c, word, "hide"@);
    }
    if word != "play"@ {
        lemma_other_head(c, word, "play"@);
    }
    if word != "stop"@ {
        lemma_other_head(c, word, "stop"@);
    }
    if word != "with"@ {
        lemma_other_head(c, word, "with"@);
    }
    if word != "define"@ {
        lemma_other_head(c, word, "define"@);
    }
    if word != "image"@ {
        lemma_other_head(c, word, "image"@);
    }
    if word != "default"@ {
        lemma_other_head(c, word, "default"@);
    }
    if word != "init"@ {
        lemma_other_head(c, word, "init"@);
    }
    if word != "screen"@ {
        lemma_other_head(c, word, "screen"@);
    }
    if word != "transform"@ {
        lemma_other_head(c, word, "transform"@);
    }
    if word != "label"@ {
        lemma_other_head(c, word, "label"@);
    }
    if word != "menu"@ {
        lemma_other_head(c, word, "menu"@);
    }
    if word != "if"@ {
        lemma_other_head(c, word, "if"@);
    }
    if word != "elif"@ {
        lemma_other_head(c, word, "elif"@);
    }
    if word != "else"@ {
        lemma_other_head(c, word, "else"@);
    }
    if word != "while"@ {
        lemma_other_head(c, word, "while"@);
    }
}

/// The condition behind a keyword, without the colon.
proof fn lemma_condition(word: Seq<char>, cond: Seq<char>)
    requires
        statement_laws::is_keyword(word),
        text_laws::is_bare(cond),
        cond.last() != ':',
    ensures
        text_laws::is_bare(cond + seq![':']),
        migrate::expression(
            migrate::operand(statement_laws::stated(word, cond + seq![':']), word),
        ) == cond,
        migrate::expression(cond + seq![':']) == cond,
{
    let r = cond + seq![':'];
    assert(r[0] == cond[0]);
    statement_laws::lemma_operand(word, r);
    text_laws::law_trim_keeps(Seq::empty(), r, Seq::empty());
    text_laws::law_trim_keeps(Seq::empty(), cond, Seq::empty());
    assert(r.drop_last() =~= cond);
}

// ---------------------------------------------------------------------------
// Bodies
// ---------------------------------------------------------------------------

/// What the lines from `i` up to `e` become within a block.
pub open spec fn texts(lines: Seq<SourceLine>, i: int, e: int, chars: Pairs) -> Seq<char>
    decreases e - i,
{
    if e <= i {
        Seq::empty()
    } else {
        texts(lines, i, e - 1, chars) + migrate::block_line(lines[e - 1].content, chars)
    }
}

/// Whether the lines from `i` up to `e` are a block: they are indented deeper, and the
/// line behind them, where there is one, is not.
pub open spec fn is_block(lines: Seq<SourceLine>, i: int, e: int, indent: nat) -> bool {
    &&& 0 <= i <= e <= lines.len()
    &&& forall|k: int| i <= k < e ==> (#[trigger] lines[k]).indent > indent
    &&& e < lines.len() ==> lines[e].indent <= indent
}

/// Whether none of the lines from `i` up to `e` begins another branch.
pub open spec fn is_one_branch(lines: Seq<SourceLine>, i: int, e: int) -> bool {
    forall|k: int|
        i <= k < e ==> !migrate::is_statement((#[trigger] lines[k]).content, "elif"@)
            && !migrate::is_statement(lines[k].content, "else"@)
}

proof fn lemma_block(
    lines: Seq<SourceLine>,
    i: int,
    j: int,
    e: int,
    indent: nat,
    to_else: bool,
    chars: Pairs,
    out: Seq<char>,
)
    requires
        i <= j,
        is_block(lines, j, e, indent),
        to_else ==> is_one_branch(lines, j, e),
    ensures
        migrate::block(lines, j, indent, to_else, chars, out + texts(lines, i, j, chars)) == (
            out + texts(lines, i, e, chars),
            e,
        ),
    decreases e - j,
{
    if j < e {
        assert(out + texts(lines, i, j + 1, chars) =~= out + texts(lines, i, j, chars)
            + migrate::block_line(lines[j].content, chars));
        lemma_block(lines, i, j + 1, e, indent, to_else, chars, out);
    }
}

proof fn lemma_whole_block(
    lines: Seq<SourceLine>,
    i: int,
    e: int,
    indent: nat,
    to_else: bool,
    chars: Pairs,
    out: Seq<char>,
)
    requires
        is_block(lines, i, e, indent),
        to_else ==> is_one_branch(lines, i, e),
    ensures
        migrate::block(lines, i, indent, to_else, chars, out) == (
            out + texts(lines, i, e, chars),
            e,
        ),
{
    lemma_block(lines, i, i, e, indent, to_else, chars, out);
    assert(out + texts(lines, i, i, chars) =~= out);
}

// ---------------------------------------------------------------------------
// Conditionals
// ---------------------------------------------------------------------------

/// Whether the line `i` goes on with a conditional.
pub open spec fn goes_on(lines: Seq<SourceLine>, i: int, indent: nat) -> bool {
    0 <= i < lines.len() && lines[i].indent == indent && (migrate::is_statement(
        lines[i].content,
        "elif"@,
    ) || migrate::is_statement(lines[i].content, "else"@))
}

proof fn lemma_else(
    lines: Seq<SourceLine>,
    i: int,
    e: int,
    indent: nat,
    chars: Pairs,
    out: Seq<char>,
)
    requires
        0 <= i < lines.len(),
        lines[i].indent == indent,
        lines[i].content == "else:"@,
        is_block(lines, i + 1, e, indent),
        !goes_on(lines, e, indent),
    ensures
        migrate::branches(lines, i, indent, chars, out) == (
            out + "else\n"@ + texts(lines, i + 1, e, chars),
            e,
        ),
{
    statement_laws::lemma_keywords();
    reveal_strlit("else:");
    reveal_strlit("else");
    assert("else:"@ =~= "else"@ + seq![':']);
    lemma_head("else:"@, "else"@);
    lemma_whole_block(lines, i + 1, e, indent, false, chars, out + "else\n"@);
    let next = out + "else\n"@ + texts(lines, i + 1, e, chars);
    assert(migrate::branches(lines, e, indent, chars, next) == (next, e));
}

/// Where a branch with a condition begins: the line and the condition.
pub open spec fn is_branch(line: SourceLine, word: Seq<char>, cond: Seq<char>) -> bool {
    &&& text_laws::is_bare(cond)
    &&& cond.last() != ':'
    &&& statement_laws::is_usual(line.content)
    &&& line.content == statement_laws::stated(word, cond + seq![':'])
}

/// A conditional keeps its conditions and the order of its branches: `if x:`, `elif y:`
/// and `else:` become `if x`, `else if y` and `else`, each with the lines of its block,
/// and `end` closes them. The lines of the conditional are the first of `lines`; the
/// branches end before `a`, `b` and `e`.
pub proof fn law_conditional(
    lines: Seq<SourceLine>,
    m: Migration,
    cond: Seq<char>,
    other: Seq<char>,
    a: int,
    b: int,
    e: int,
)
    requires
        1 <= a < b < e,
        is_branch(lines[0], "if"@, cond),
        is_block(lines, 1, a, lines[0].indent),
        is_one_branch(lines, 1, a),
        is_branch(lines[a], "elif"@, other),
        lines[a].indent == lines[0].indent,
        is_block(lines, a + 1, b, lines[0].indent),
        lines[b].content == "else:"@,
        lines[b].indent == lines[0].indent,
        is_block(lines, b + 1, e, lines[0].indent),
        !goes_on(lines, e, lines[0].indent),
    ensures
        migrate::convert_line(lines, 0, m) == (
            migrate::written(
                m,
                "if "@ + cond + "\n"@ + texts(lines, 1, a, m.chars) + "else if "@ + other + "\n"@
                    + texts(lines, a + 1, b, m.chars) + "else\n"@ + texts(lines, b + 1, e, m.chars)
                    + "end\n"@,
            ),
            e,
        ),
{
    let indent = lines[0].indent;
    lemma_if_head(lines[0].content, cond);
    lemma_elif_head(lines[a].content, other);
    let first = m.out + ("if "@ + cond + "\n"@);
    lemma_whole_block(lines, 1, a, indent, true, m.chars, first);
    let second = first + texts(lines, 1, a, m.chars);
    let head = "else if "@ + other + "\n"@;
    lemma_whole_block(lines, a + 1, b, indent, false, m.chars, second + head);
    let third = second + head + texts(lines, a + 1, b, m.chars);
    lemma_else(lines, b, e, indent, m.chars, third);
    assert(migrate::branches(lines, a, indent, m.chars, second) == migrate::branches(
        lines,
        b,
        indent,
        m.chars,
        third,
    ));
    let r = migrate::conditional(lines, 0, m.chars, m.out);
    assert(r.0 =~= m.out + ("if "@ + cond + "\n"@ + texts(lines, 1, a, m.chars) + "else if "@
        + other + "\n"@ + texts(lines, a + 1, b, m.chars) + "else\n"@ + texts(
        lines,
        b + 1,
        e,
        m.chars,
    ) + "end\n"@));
}

/// A conditional of one branch.
pub proof fn law_one_branch(lines: Seq<SourceLine>, m: Migration, cond: Seq<char>, e: int)
    requires
        1 <= e,
        lines.len() > 0,
        is_branch(lines[0], "if"@, cond),
        is_block(lines, 1, e, lines[0].indent),
        is_one_branch(lines, 1, e),
        !goes_on(lines, e, lines[0].indent),
    ensures
        migrate::convert_line(lines, 0, m) == (
            migrate::written(
                m,
                "if "@ + cond + "\n"@ + texts(lines, 1, e, m.chars) + "end\n"@,
            ),
            e,
        ),
{
    let indent = lines[0].indent;
    lemma_if_head(lines[0].content, cond);
    let first = m.out + ("if "@ + cond + "\n"@);
    lemma_whole_block(lines, 1, e, indent, true, m.chars, first);
    let second = first + texts(lines, 1, e, m.chars);
    assert(migrate::branches(lines, e, indent, m.chars, second) == (second, e));
    let r = migrate::conditional(lines, 0, m.chars, m.out);
    assert(r.0 =~= m.out + ("if "@ + cond + "\n"@ + texts(lines, 1, e, m.chars) + "end\n"@));
}

proof fn lemma_if_head(c: Seq<char>, cond: Seq<char>)
    requires
        text_laws::is_bare(cond),
        cond.last() != ':',
        statement_laws::is_usual(c),
        c == statement_laws::stated("if"@, cond + seq![':']),
    ensures
        migrate::branch_head(c) == "if "@ + cond + "\n"@,
        forall|lines: Seq<SourceLine>, m: Migration|
            lines.len() > 0 && lines[0].content == c ==> #[trigger] migrate::convert_line(
                lines,
                0,
                m,
            ) == migrate::replaced(m, migrate::conditional(lines, 0, m.chars, m.out)),
{
    statement_laws::lemma_keywords();
    lemma_condition("if"@, cond);
    statement_laws::lemma_usual("if"@, cond + seq![':']);
    statement_laws::lemma_statement(c, "if"@, cond + seq![':']);
    reveal_strlit("init");
    assert(!text::starts_with(c, "init"@)) by {
        if text::starts_with(c, "init"@) {
            assert(c.subrange(0, 4)[1] == c[1]);
            assert("init"@[1] == 'n');
            assert(c[1] == "if"@[1]);
        }
    }
}

proof fn lemma_elif_head(c: Seq<char>, cond: Seq<char>)
    requires
        text_laws::is_bare(cond),
        cond.last() != ':',
        statement_laws::is_usual(c),
        c == statement_laws::stated("elif"@, cond + seq![':']),
    ensures
        migrate::is_statement(c, "elif"@),
        migrate::expression(migrate::operand(c, "elif"@)) == cond,
{
    statement_laws::lemma_keywords();
    lemma_condition("elif"@, cond);
    statement_laws::lemma_usual("elif"@, cond + seq![':']);
    statement_laws::lemma_statement(c, "elif"@, cond + seq![':']);
}

/// A loop becomes a section of its own that tests the condition, does the lines of the
/// block and jumps back to itself; it is named after its line.
pub proof fn law_loop(lines: Seq<SourceLine>, m: Migration, cond: Seq<char>, e: int)
    requires
        1 <= e,
        lines.len() > 0,
        is_branch(lines[0], "while"@, cond),
        is_block(lines, 1, e, lines[0].indent),
    ensures
        migrate::convert_line(lines, 0, m) == (
            migrate::written(
                m,
                "# __loop_"@ + text::nat_text(lines[0].number) + "\n"@ + "if "@ + cond + "\n"@
                    + texts(lines, 1, e, m.chars) + "-> __loop_"@ + text::nat_text(
                    lines[0].number,
                ) + "\n"@ + "end\n"@,
            ),
            e,
        ),
{
    let c = lines[0].content;
    statement_laws::lemma_keywords();
    lemma_condition("while"@, cond);
    statement_laws::lemma_usual("while"@, cond + seq![':']);
    statement_laws::lemma_statement(c, "while"@, cond + seq![':']);
    statement_laws::lemma_not_init(c);
    reveal_strlit("# __loop_");
    reveal_strlit("# ");
    reveal_strlit("__loop_");
    reveal_strlit("-> __loop_");
    reveal_strlit("-> ");
    assert("# __loop_"@ =~= "# "@ + "__loop_"@);
    assert("-> __loop_"@ =~= "-> "@ + "__loop_"@);
    let label = migrate::loop_label(lines[0].number);
    let head = m.out + "# "@ + label + "\n"@ + "if "@ + cond + "\n"@;
    lemma_whole_block(lines, 1, e, lines[0].indent, false, m.chars, head);
    let r = migrate::while_loop(lines, 0, m.chars, m.out);
    assert(r.0 =~= m.out + ("# __loop_"@ + text::nat_text(lines[0].number) + "\n"@ + "if "@ + cond
        + "\n"@ + texts(lines, 1, e, m.chars) + "-> __loop_"@ + text::nat_text(lines[0].number)
        + "\n"@ + "end\n"@));
}

// ---------------------------------------------------------------------------
// Menus
// ---------------------------------------------------------------------------

/// An option of a menu: its text, its condition, its line and the end of its block.
pub struct MenuOption {
    pub text: Seq<char>,
    pub condition: Option<Seq<char>>,
    pub line: int,
    pub end: int,
}

/// The line of an option: `"text":`, or `"text" if condition:`.
pub open spec fn option_line(o: MenuOption) -> Seq<char> {
    seq!['"'] + o.text + seq!['"'] + (match o.condition {
        Some(cond) => seq![' ', 'i', 'f', ' '] + cond + seq![':'],
        None => seq![':'],
    })
}

/// Whether an option stands in the lines.
pub open spec fn is_option(lines: Seq<SourceLine>, o: MenuOption, indent: nat) -> bool {
    &&& 0 <= o.line < o.end <= lines.len()
    &&& lines[o.line].indent > indent
    &&& lines[o.line].content == option_line(o)
    &&& !o.text.contains('"')
    &&& o.condition matches Some(cond) ==> text_laws::is_bare(cond) && cond.last() != ':'
    &&& is_block(lines, o.line + 1, o.end, lines[o.line].indent)
}

/// What options become: `| "text"` or `| "text" if condition`, and the lines of their
/// blocks.
pub open spec fn options_text(
    lines: Seq<SourceLine>,
    options: Seq<MenuOption>,
    n: int,
    chars: Pairs,
) -> Seq<char>
    decreases n,
{
    if n <= 0 {
        Seq::empty()
    } else {
        let o = options[n - 1];
        options_text(lines, options, n - 1, chars) + "| \""@ + o.text + (match o.condition {
            Some(cond) => "\" if "@ + cond + "\n"@,
            None => "\"\n"@,
        }) + texts(lines, o.line + 1, o.end, chars)
    }
}

proof fn lemma_option_text(o: MenuOption)
    requires
        !o.text.contains('"'),
        o.condition matches Some(cond) ==> text_laws::is_bare(cond) && cond.last() != ':',
    ensures
        migrate::option_text(option_line(o)) == Some(
            "| \""@ + o.text + (match o.condition {
                Some(cond) => "\" if "@ + cond + "\n"@,
                None => "\"\n"@,
            }),
        ),
        migrate::quoted(option_line(o)) matches Some((t, after)) && (slices::begins(
            slices::trim(after),
            ':',
        ) || text::starts_with(slices::trim(after), "if"@)),
{
    reveal_strlit("if");
    match o.condition {
        Some(cond) => {
            let rest = statement_laws::stated("if"@, cond + seq![':']);
            let after = seq![' '] + rest + Seq::empty();
            statement_laws::lemma_keywords();
            statement_laws::lemma_quoted(o.text, '"', after);
            assert(option_line(o) =~= seq!['"'] + o.text + seq!['"'] + after);
            lemma_condition("if"@, cond);
            statement_laws::lemma_operand("if"@, cond + seq![':']);
            assert(rest[0] == 'i');
            assert(rest.last() == ':');
            text_laws::law_trim_keeps(seq![' '], rest, Seq::empty());
            assert(rest.subrange(0, 2) =~= "if"@);
            assert("| \""@ + o.text + ("\" if "@ + cond + "\n"@) =~= "| \""@ + o.text + "\" if "@
                + cond + "\n"@);
        },
        None => {
            let after = seq![':'];
            statement_laws::lemma_quoted(o.text, '"', after);
            text_laws::law_trim_keeps(Seq::empty(), after, Seq::empty());
            assert(!text::starts_with(after, "if"@));
        },
    }
}

/// Whether the option `i` stands in the lines, right behind the one before it.
pub open spec fn is_placed(
    lines: Seq<SourceLine>,
    options: Seq<MenuOption>,
    i: int,
    start: int,
    indent: nat,
) -> bool {
    is_option(lines, options[i], indent) && options[i].line == (if i == 0 {
        start
    } else {
        options[i - 1].end
    })
}

proof fn lemma_menu_options(
    lines: Seq<SourceLine>,
    options: Seq<MenuOption>,
    n: int,
    start: int,
    e: int,
    indent: nat,
    chars: Pairs,
    out: Seq<char>,
)
    requires
        0 <= n <= options.len(),
        0 <= start,
        0 <= e <= lines.len(),
        forall|i: int|
            0 <= i < options.len() ==> #[trigger] is_placed(lines, options, i, start, indent),
        e == (if options.len() == 0 {
            start
        } else {
            options.last().end
        }),
        e < lines.len() ==> lines[e].indent <= indent,
    ensures
        migrate::menu_options(
            lines,
            if n == 0 {
                start
            } else {
                options[n - 1].end
            },
            indent,
            chars,
            out + options_text(lines, options, n, chars),
        ) == (out + options_text(lines, options, options.len() as int, chars), e),
    decreases options.len() - n,
{
    let so_far = out + options_text(lines, options, n, chars);
    if n < options.len() {
        let o = options[n];
        assert(is_placed(lines, options, n, start, indent));
        lemma_option_text(o);
        let t = migrate::option_text(option_line(o))->0;
        lemma_whole_block(
            lines,
            o.line + 1,
            o.end,
            lines[o.line].indent,
            false,
            chars,
            so_far + t,
        );
        let next = so_far + t + texts(lines, o.line + 1, o.end, chars);
        assert(next =~= out + options_text(lines, options, n + 1, chars));
        lemma_menu_options(lines, options, n + 1, start, e, indent, chars, out);
    }
}

/// The line of the first option.
pub open spec fn menu_start(prompt: Option<Seq<char>>) -> int {
    if prompt is Some {
        2
    } else {
        1
    }
}

proof fn lemma_menu_head()
    ensures
        migrate::menu_prompt("menu:"@) is None,
        forall|lines: Seq<SourceLine>, m: Migration|
            lines.len() > 0 && lines[0].content == "menu:"@ ==> #[trigger] migrate::convert_line(
                lines,
                0,
                m,
            ) == migrate::replaced(m, migrate::menu(lines, 0, m.chars, m.out)),
{
    let c = "menu:"@;
    statement_laws::lemma_keywords();
    reveal_strlit("menu:");
    reveal_strlit("menu");
    reveal_strlit("renpy.");
    assert(c =~= "menu"@ + seq![':']);
    lemma_head(c, "menu"@);
    statement_laws::lemma_not_init(c);
    assert(!text::contains(c, "renpy."@)) by {
        assert forall|i: int| !text::occurs_at(c, "renpy."@, i) by {}
        text_laws::lemma_not_found(c, "renpy."@);
    }
    let colon = seq![':'];
    assert(c.subrange(4, 5) =~= colon);
    assert(c.subrange(0, 4) =~= "menu"@);
    assert(slices::strip_all(colon, "menu"@) == colon);
    assert(slices::strip_all(c, "menu"@) == colon);
    text_laws::law_trim_keeps(Seq::empty(), colon, Seq::empty());
    assert(colon.drop_last() =~= Seq::empty());
    assert(slices::strip_end(Seq::empty(), ':') =~= Seq::empty());
    assert(slices::strip_end(colon, ':') =~= Seq::empty());
    assert(slices::trim(Seq::empty()) =~= Seq::<char>::empty());
    assert(migrate::menu_prompt(c) is None);
}

/// A menu becomes a choice with the same prompt and the same options in the same order,
/// each with its condition and the lines of its block.
pub proof fn law_menu(
    lines: Seq<SourceLine>,
    m: Migration,
    prompt: Option<Seq<char>>,
    options: Seq<MenuOption>,
    e: int,
)
    requires
        lines.len() > 0,
        lines[0].content == "menu:"@,
        prompt matches Some(p) ==> lines.len() > 1 && lines[1].indent > lines[0].indent
            && !p.contains('"') && lines[1].content == seq!['"'] + p + seq!['"'],
        options.len() > 0,
        forall|i: int|
            0 <= i < options.len() ==> #[trigger] is_placed(
                lines,
                options,
                i,
                menu_start(prompt),
                lines[0].indent,
            ),
        e == options.last().end,
        e < lines.len() ==> lines[e].indent <= lines[0].indent,
    ensures
        migrate::convert_line(lines, 0, m) == (
            migrate::written(
                m,
                "? \""@ + (match prompt {
                    Some(p) => p,
                    None => Seq::empty(),
                }) + "\"\n"@ + options_text(lines, options, options.len() as int, m.chars)
                    + "?\n"@,
            ),
            e,
        ),
{
    lemma_menu_head();
    let start = menu_start(prompt);
    let indent = lines[0].indent;
    let p = match prompt {
        Some(p) => p,
        None => Seq::empty(),
    };
    match prompt {
        Some(p) => {
            statement_laws::lemma_quoted(p, '"', Seq::empty());
            let q = seq!['"'] + p + seq!['"'];
            assert(q + Seq::empty() =~= q);
            reveal_strlit("if");
            assert(slices::trim(Seq::empty()) =~= Seq::<char>::empty());
            assert(migrate::block_prompt(lines, 1, indent) == Some(p));
        },
        None => {
            assert(is_placed(lines, options, 0, start, indent));
            lemma_option_text(options[0]);
            assert(migrate::block_prompt(lines, 1, indent) is None);
        },
    }
    let head = m.out + "? \""@ + p + "\"\n"@;
    assert(is_placed(lines, options, options.len() - 1, start, indent));
    lemma_menu_options(lines, options, 0, start, e, indent, m.chars, head);
    assert(head + options_text(lines, options, 0, m.chars) =~= head);
    let r = migrate::menu(lines, 0, m.chars, m.out);
    assert(r.0 =~= m.out + ("? \""@ + p + "\"\n"@ + options_text(
        lines,
        options,
        options.len() as int,
        m.chars,
    ) + "?\n"@));
}

// ---------------------------------------------------------------------------
// What is not converted
// ---------------------------------------------------------------------------

/// Whether a word begins no statement that is known.
pub open spec fn is_unknown(w: Seq<char>) -> bool {
    &&& statement_laws::is_keyword(w)
    &&& w != "jump"@
    &&& w != "call"@
    &&& w != "return"@
    &&& w != "scene"@
    &&& w != "show"@
    &&& w != "hide"@
    &&& w != "play"@
    &&& w != "stop"@
    &&& w != "with"@
    &&& w != "define"@
    &&& w != "image"@
    &&& w != "default"@
    &&& w != "init"@
    &&& w != "screen"@
    &&& w != "transform"@
    &&& w != "label"@
    &&& w != "menu"@
    &&& w != "if"@
    &&& w != "elif"@
    &&& w != "else"@
    &&& w != "while"@
    &&& !text::starts_with(w, "init"@)
}

/// A statement that is not known becomes a comment, and is reported with its line.
pub proof fn law_unknown(word: Seq<char>, rest: Seq<char>)
    requires
        is_unknown(word),
        text_laws::is_bare(rest),
        !migrate::is_quote(rest),
        statement_laws::is_usual(statement_laws::stated(word, rest)),
    ensures
        ({
            let c = statement_laws::stated(word, rest);
            migrate::migrated(c) == Migration {
                out: "-- TODO: "@ + c + "\n"@,
                warnings: seq!["line 1: unrecognized syntax, emitted as comment: "@ + c],
                ..statement_laws::nothing()
            }
        }),
{
    let c = statement_laws::stated(word, rest);
    statement_laws::lemma_usual(word, rest);
    statement_laws::lemma_statement(c, word, rest);
    lemma_not_init(word, rest);
    lemma_line_one(": unrecognized syntax, emitted as comment: "@);
    reveal_strlit("line 1: unrecognized syntax, emitted as comment: ");
    reveal_strlit(": unrecognized syntax, emitted as comment: ");
    let w = "line 1: unrecognized syntax, emitted as comment: "@ + c;
    assert(migrate::at_line(1) + ": unrecognized syntax, emitted as comment: "@ + c =~= w);
    assert(Seq::<Seq<char>>::empty().push(w) =~= seq![w]);
    let done = Migration {
        out: "-- TODO: "@ + c + "\n"@,
        warnings: seq![w],
        ..statement_laws::nothing()
    };
    assert(Seq::empty() + migrate::unknown_text(c) =~= done.out);
    statement_laws::lemma_converted(c, done);
}

proof fn lemma_not_init(word: Seq<char>, rest: Seq<char>)
    requires
        statement_laws::is_keyword(word),
        !text::starts_with(word, "init"@),
    ensures
        !text::starts_with(statement_laws::stated(word, rest), "init"@),
{
    let c = statement_laws::stated(word, rest);
    reveal_strlit("init");
    if text::starts_with(c, "init"@) {
        assert("init"@[0] == 'i' && "init"@[1] == 'n' && "init"@[2] == 'i' && "init"@[3] == 't');
        if word.len() < 4 {
            assert(c.subrange(0, 4)[word.len() as int] == c[word.len() as int]);
        } else {
            assert(word.subrange(0, 4) =~= c.subrange(0, 4));
        }
    }
}

proof fn lemma_line_one(t: Seq<char>)
    ensures
        migrate::at_line(1) + t == "line 1"@ + t,
        "line 1"@ == seq!['l', 'i', 'n', 'e', ' ', '1'],
{
    reveal_strlit("line ");
    reveal_strlit("line 1");
    assert(text::nat_text(1) =~= seq!['1']);
    assert(migrate::at_line(1) =~= "line 1"@);
}

/// A screen is passed over and reported with its line.
pub proof fn law_screen(rest: Seq<char>)
    requires
        text_laws::is_bare(rest),
        !rest.contains('\n'),
    ensures
        migrate::migrated("screen "@ + rest) == (Migration {
            warnings: seq!["line 1: screen definition skipped: screen "@ + rest],
            ..statement_laws::nothing()
        }),
{
    statement_laws::lemma_keywords();
    reveal_strlit("screen ");
    reveal_strlit("screen");
    reveal_strlit("line 1: screen definition skipped: screen ");
    reveal_strlit(": screen definition skipped: ");
    lemma_line_one(Seq::empty());
    assert(migrate::at_line(1) =~= "line 1"@) by {
        assert(migrate::at_line(1) + Seq::empty() =~= migrate::at_line(1));
        assert("line 1"@ + Seq::empty() =~= "line 1"@);
    }
    let c = "screen "@ + rest;
    assert(c =~= statement_laws::stated("screen"@, rest));
    statement_laws::lemma_statement(c, "screen"@, rest);
    statement_laws::lemma_not_init(c);
    let w = "line 1: screen definition skipped: screen "@ + rest;
    assert(migrate::at_line(1) + ": screen definition skipped: "@ + c =~= w);
    assert(Seq::<Seq<char>>::empty().push(w) =~= seq![w]);
    statement_laws::lemma_converted(
        c,
        Migration { warnings: seq![w], ..statement_laws::nothing() },
    );
}

/// A transform is passed over and reported with its line.
pub proof fn law_transform(rest: Seq<char>)
    requires
        text_laws::is_bare(rest),
        !rest.contains('\n'),
    ensures
        migrate::migrated("transform "@ + rest) == (Migration {
            warnings: seq!["line 1: transform definition skipped: transform "@ + rest],
            ..statement_laws::nothing()
        }),
{
    statement_laws::lemma_keywords();
    reveal_strlit("transform ");
    reveal_strlit("transform");
    reveal_strlit("line 1: transform definition skipped: transform ");
    reveal_strlit(": transform definition skipped: ");
    lemma_line_one(Seq::empty());
    assert(migrate::at_line(1) =~= "line 1"@) by {
        assert(migrate::at_line(1) + Seq::empty() =~= migrate::at_line(1));
        assert("line 1"@ + Seq::empty() =~= "line 1"@);
    }
    let c = "transform "@ + rest;
    assert(c =~= statement_laws::stated("transform"@, rest));
    statement_laws::lemma_statement(c, "transform"@, rest);
    statement_laws::lemma_not_init(c);
    let w = "line 1: transform definition skipped: transform "@ + rest;
    assert(migrate::at_line(1) + ": transform definition skipped: "@ + c =~= w);
    assert(Seq::<Seq<char>>::empty().push(w) =~= seq![w]);
    statement_laws::lemma_converted(
        c,
        Migration { warnings: seq![w], ..statement_laws::nothing() },
    );
}

/// Code of the start is passed over and reported with its line.
pub proof fn law_init(rest: Seq<char>)
    requires
        text_laws::is_bare(rest),
        !rest.contains('\n'),
    ensures
        migrate::migrated("init "@ + rest) == (Migration {
            warnings: seq!["line 1: init python block skipped"@],
            ..statement_laws::nothing()
        }),
{
    statement_laws::lemma_keywords();
    reveal_strlit("init ");
    reveal_strlit("init");
    reveal_strlit("line 1: init python block skipped");
    reveal_strlit(": init python block skipped");
    lemma_line_one(Seq::empty());
    assert(migrate::at_line(1) =~= "line 1"@) by {
        assert(migrate::at_line(1) + Seq::empty() =~= migrate::at_line(1));
        assert("line 1"@ + Seq::empty() =~= "line 1"@);
    }
    let c = "init "@ + rest;
    assert(c =~= statement_laws::stated("init"@, rest));
    statement_laws::lemma_statement(c, "init"@, rest);
    let w = "line 1: init python block skipped"@;
    assert(migrate::at_line(1) + ": init python block skipped"@ =~= w);
    assert(Seq::<Seq<char>>::empty().push(w) =~= seq![w]);
    statement_laws::lemma_converted(
        c,
        Migration { warnings: seq![w], ..statement_laws::nothing() },
    );
}

/// The lines of a block that is passed over are passed over with it.
pub proof fn law_skipped_block(lines: Seq<SourceLine>, m: Migration, e: int)
    requires
        1 <= e,
        lines.len() > 0,
        is_block(lines, 1, e, lines[0].indent),
        lines[0].content == "init python:"@,
    ensures
        migrate::convert_line(lines, 0, m).1 == e,
        migrate::convert_line(lines, 0, m).0.out == m.out,
{
    statement_laws::lemma_keywords();
    reveal_strlit("init python:");
    reveal_strlit("init");
    let c = "init python:"@;
    let rest = seq!['p', 'y', 't', 'h', 'o', 'n', ':'];
    assert(c =~= statement_laws::stated("init"@, rest));
    statement_laws::lemma_statement(c, "init"@, rest);
    lemma_block_end(lines, 1, e, lines[0].indent);
}

proof fn lemma_block_end(lines: Seq<SourceLine>, i: int, e: int, indent: nat)
    requires
        is_block(lines, i, e, indent),
    ensures
        migrate::block_end(lines, i, indent) == e,
    decreases e - i,
{
    if i < e {
        lemma_block_end(lines, i + 1, e, indent);
    }
}

} // verus!
