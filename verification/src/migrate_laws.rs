//! Laws of the conversion of Ren'Py scripts.

use crate::ast;
use crate::migrate;
use crate::migrate::{Migration, Pairs, SourceLine};
use crate::slices;
use crate::text;
use vstd::prelude::*;

verus! {

// ---------------------------------------------------------------------------
// Transitions
// ---------------------------------------------------------------------------

proof fn lemma_trimmed(s: Seq<char>)
    requires
        s.len() > 0,
        !slices::is_space(s[0]),
        !slices::is_space(s.last()),
    ensures
        slices::trim(s) == s,
{
    assert(slices::trim_start(s) == s);
}

/// Converting the name of a transition twice changes nothing more, and a name
/// that the language knows keeps its meaning.
pub proof fn law_transitions_keep(s: Seq<char>)
    ensures
        migrate::transition_name(migrate::transition_name(s)) == migrate::transition_name(s),
        ast::transition_named(slices::trim(s)) matches Some(t) ==> ast::transition_named(
            migrate::transition_name(s),
        ) == Some(t),
{
    reveal_strlit("fade");
    reveal_strlit("fade_black");
    reveal_strlit("fade_white");
    reveal_strlit("slide_left");
    reveal_strlit("slide_right");
    reveal_strlit("slide_up");
    reveal_strlit("slide_down");
    reveal_strlit("dissolve");
    reveal_strlit("wipe_left");
    reveal_strlit("wipe_right");
    reveal_strlit("blur");
    reveal_strlit("instant");
    reveal_strlit("cut");
    reveal_strlit("none");
    reveal_strlit("fadeblack");
    reveal_strlit("fadewhite");
    reveal_strlit("slideleft");
    reveal_strlit("slideright");
    reveal_strlit("slideup");
    reveal_strlit("slidedown");
    reveal_strlit("wipeleft");
    reveal_strlit("wiperight");
    assert("fade"@[0] == 'f');
    assert("fade_black"@[0] == 'f' && "fade_black"@[4] == '_');
    assert("fade_black"@[5] == 'b' && "fade_black"@[6] == 'l');
    assert("fade_white"@[0] == 'f' && "fade_white"@[4] == '_');
    assert("fade_white"@[5] == 'w' && "fade_white"@[6] == 'h');
    assert("slide_left"@[0] == 's' && "slide_left"@[4] == 'e');
    assert("slide_left"@[5] == '_' && "slide_left"@[6] == 'l');
    assert("slide_right"@[0] == 's' && "slide_right"@[4] == 'e');
    assert("slide_right"@[5] == '_' && "slide_right"@[6] == 'r');
    assert("slide_up"@[0] == 's' && "slide_up"@[4] == 'e');
    assert("slide_up"@[5] == '_' && "slide_up"@[6] == 'u');
    assert("slide_down"@[0] == 's' && "slide_down"@[4] == 'e');
    assert("slide_down"@[5] == '_' && "slide_down"@[6] == 'd');
    assert("dissolve"@[0] == 'd' && "dissolve"@[4] == 'o');
    assert("dissolve"@[5] == 'l' && "dissolve"@[6] == 'v');
    assert("wipe_left"@[0] == 'w' && "wipe_left"@[4] == '_');
    assert("wipe_left"@[5] == 'l' && "wipe_left"@[6] == 'e');
    assert("wipe_right"@[0] == 'w' && "wipe_right"@[4] == '_');
    assert("wipe_right"@[5] == 'r' && "wipe_right"@[6] == 'i');
    assert("blur"@[0] == 'b');
    assert("instant"@[0] == 'i' && "instant"@[4] == 'a');
    assert("instant"@[5] == 'n' && "instant"@[6] == 't');
    assert("cut"@[0] == 'c');
    assert("none"@[0] == 'n');
    assert("fadeblack"@[0] == 'f' && "fadeblack"@[4] == 'b');
    assert("fadeblack"@[5] == 'l' && "fadeblack"@[6] == 'a');
    assert("fadewhite"@[0] == 'f' && "fadewhite"@[4] == 'w');
    assert("fadewhite"@[5] == 'h' && "fadewhite"@[6] == 'i');
    assert("slideleft"@[0] == 's' && "slideleft"@[4] == 'e');
    assert("slideleft"@[5] == 'l' && "slideleft"@[6] == 'e');
    assert("slideright"@[0] == 's' && "slideright"@[4] == 'e');
    assert("slideright"@[5] == 'r' && "slideright"@[6] == 'i');
    assert("slideup"@[0] == 's' && "slideup"@[4] == 'e');
    assert("slideup"@[5] == 'u' && "slideup"@[6] == 'p');
    assert("slidedown"@[0] == 's' && "slidedown"@[4] == 'e');
    assert("slidedown"@[5] == 'd' && "slidedown"@[6] == 'o');
    assert("wipeleft"@[0] == 'w' && "wipeleft"@[4] == 'l');
    assert("wipeleft"@[5] == 'e' && "wipeleft"@[6] == 'f');
    assert("wiperight"@[0] == 'w' && "wiperight"@[4] == 'r');
    assert("wiperight"@[5] == 'i' && "wiperight"@[6] == 'g');
    lemma_trimmed(migrate::transition_name(s));
    let t = slices::trim(s);
    if t == "fade"@ {
        assert(migrate::transition_name(s) == "fade"@);
    }
    if t == "fade_black"@ {
        assert(migrate::transition_name(s) == "fade_black"@);
    }
    if t == "fade_white"@ {
        assert(migrate::transition_name(s) == "fade_white"@);
    }
    if t == "slide_left"@ {
        assert(migrate::transition_name(s) == "slide_left"@);
    }
    if t == "slide_right"@ {
        assert(migrate::transition_name(s) == "slide_right"@);
    }
    if t == "slide_up"@ {
        assert(migrate::transition_name(s) == "slide_up"@);
    }
    if t == "slide_down"@ {
        assert(migrate::transition_name(s) == "slide_down"@);
    }
    if t == "dissolve"@ {
        assert(migrate::transition_name(s) == "dissolve"@);
    }
    if t == "wipe_left"@ {
        assert(migrate::transition_name(s) == "wipe_left"@);
    }
    if t == "wipe_right"@ {
        assert(migrate::transition_name(s) == "wipe_right"@);
    }
    if t == "blur"@ {
        assert(migrate::transition_name(s) == "blur"@);
    }
    if t == "instant"@ {
        assert(migrate::transition_name(s) == "instant"@);
    }
}

// ---------------------------------------------------------------------------
// Lines
// ---------------------------------------------------------------------------

proof fn lemma_index_in_first(a: Seq<char>, b: Seq<char>, c: char, i: int)
    requires
        0 <= i <= a.len(),
        slices::index_of(a, c, i) < a.len(),
    ensures
        slices::index_of(a + b, c, i) == slices::index_of(a, c, i),
    decreases a.len() - i,
{
    if i < a.len() && a[i] != c {
        lemma_index_in_first(a, b, c, i + 1);
    }
}

proof fn lemma_index_in_second(a: Seq<char>, b: Seq<char>, c: char, j: int)
    requires
        0 <= j <= b.len(),
    ensures
        slices::index_of(a + b, c, a.len() + j) == a.len() + slices::index_of(b, c, j),
    decreases b.len() - j,
{
    if j < b.len() {
        assert((a + b)[a.len() + j] == b[j]);
        if b[j] != c {
            lemma_index_in_second(a, b, c, j + 1);
        }
    }
}

proof fn lemma_lines_of_second(a: Seq<char>, b: Seq<char>, j: int)
    requires
        0 <= j,
    ensures
        slices::lines_from(a + b, a.len() + j) == slices::lines_from(b, j),
    decreases b.len() + 1 - j,
{
    if j < b.len() {
        lemma_index_in_second(a, b, '\n', j);
        slices::lemma_index_of(b, '\n', j);
        let e = slices::index_of(b, '\n', j);
        assert(slices::line_text(a + b, a.len() + j, a.len() + e) =~= slices::line_text(b, j, e));
        lemma_lines_of_second(a, b, e + 1);
    }
}

proof fn lemma_lines_joined(a: Seq<char>, b: Seq<char>, i: int)
    requires
        0 <= i <= a.len(),
        a.len() > 0 ==> a.last() == '\n',
    ensures
        slices::lines_from(a + b, i) == slices::lines_from(a, i) + slices::lines(b),
    decreases a.len() - i,
{
    if i == a.len() {
        lemma_lines_of_second(a, b, 0);
        assert(slices::lines_from(a, i) + slices::lines(b) =~= slices::lines(b));
    } else {
        slices::lemma_index_of(a, '\n', i);
        let e = slices::index_of(a, '\n', i);
        assert(e < a.len()) by {
            if e == a.len() {
                assert(a[a.len() - 1] == '\n');
            }
        }
        lemma_index_in_first(a, b, '\n', i);
        assert(slices::line_text(a + b, i, e) =~= slices::line_text(a, i, e));
        lemma_lines_joined(a, b, e + 1);
        let head = seq![slices::line_text(a, i, e)];
        assert(head + (slices::lines_from(a, e + 1) + slices::lines(b)) =~= (head
            + slices::lines_from(a, e + 1)) + slices::lines(b));
    }
}

/// Whether the lines from `k` on say what other lines say; their numbers may
/// differ.
spec fn goes_on(whole: Seq<SourceLine>, k: int, rest: Seq<SourceLine>) -> bool {
    &&& 0 <= k
    &&& whole.len() == k + rest.len()
    &&& forall|j: int|
        0 <= j < rest.len() ==> (#[trigger] rest[j]).indent == whole[k + j].indent
            && rest[j].content == whole[k + j].content
}

proof fn lemma_source_joined(x: Seq<Seq<char>>, y: Seq<Seq<char>>)
    ensures
        ({
            let all = migrate::source_lines(x + y);
            let first = migrate::source_lines(x);
            &&& goes_on(all, first.len() as int, migrate::source_lines(y))
            &&& all.take(first.len() as int) == first
        }),
    decreases y.len(),
{
    let all = migrate::source_lines(x + y);
    let first = migrate::source_lines(x);
    if y.len() == 0 {
        assert(x + y =~= x);
        assert(all.take(first.len() as int) =~= first);
    } else {
        lemma_source_joined(x, y.drop_last());
        assert((x + y).drop_last() =~= x + y.drop_last());
        let front = migrate::source_lines(x + y.drop_last());
        let rest = migrate::source_lines(y.drop_last());
        let k = first.len() as int;
        assert(all.take(k) =~= front.take(k));
        assert forall|j: int| 0 <= j < migrate::source_lines(y).len() implies (
        #[trigger] migrate::source_lines(y)[j]).indent == all[k + j].indent
            && migrate::source_lines(y)[j].content == all[k + j].content by {
            if j < rest.len() {
                assert(rest[j].indent == front[k + j].indent);
                assert(all[k + j] == front[k + j]);
            }
        }
    }
}

// ---------------------------------------------------------------------------
// What comes first
// ---------------------------------------------------------------------------

/// Whether nothing of what comes before line `k` reaches over it.
spec fn parted(whole: Seq<SourceLine>, k: int) -> bool {
    &&& 0 <= k <= whole.len()
    &&& k < whole.len() ==> whole[k].indent == 0 && !migrate::is_statement(
        whole[k].content,
        "elif"@,
    ) && !migrate::is_statement(whole[k].content, "else"@)
}

proof fn lemma_first_block_end(whole: Seq<SourceLine>, k: int, i: int, indent: nat)
    requires
        parted(whole, k),
        0 <= i <= k,
    ensures
        migrate::block_end(whole, i, indent) == migrate::block_end(whole.take(k), i, indent),
        i <= migrate::block_end(whole, i, indent) <= k,
    decreases k - i,
{
    if i < k && whole[i].indent > indent {
        lemma_first_block_end(whole, k, i + 1, indent);
    }
}

proof fn lemma_first_block(
    whole: Seq<SourceLine>,
    k: int,
    i: int,
    indent: nat,
    to_else: bool,
    chars: Pairs,
    out: Seq<char>,
)
    requires
        parted(whole, k),
        0 <= i <= k,
    ensures
        migrate::block(whole, i, indent, to_else, chars, out) == migrate::block(
            whole.take(k),
            i,
            indent,
            to_else,
            chars,
            out,
        ),
        i <= migrate::block(whole, i, indent, to_else, chars, out).1 <= k,
    decreases k - i,
{
    if i < k {
        assert(whole.take(k)[i] == whole[i]);
        lemma_first_block(
            whole,
            k,
            i + 1,
            indent,
            to_else,
            chars,
            out + migrate::block_line(whole[i].content, chars),
        );
    }
}

proof fn lemma_first_menu_options(
    whole: Seq<SourceLine>,
    k: int,
    i: int,
    indent: nat,
    chars: Pairs,
    out: Seq<char>,
)
    requires
        parted(whole, k),
        0 <= i <= k,
    ensures
        migrate::menu_options(whole, i, indent, chars, out) == migrate::menu_options(
            whole.take(k),
            i,
            indent,
            chars,
            out,
        ),
        i <= migrate::menu_options(whole, i, indent, chars, out).1 <= k,
    decreases k - i,
{
    if i < k && whole[i].indent > indent {
        assert(whole.take(k)[i] == whole[i]);
        match migrate::option_text(whole[i].content) {
            Some(t) => {
                lemma_first_block(whole, k, i + 1, whole[i].indent, false, chars, out + t);
                let (next, j) = migrate::block(
                    whole,
                    i + 1,
                    whole[i].indent,
                    false,
                    chars,
                    out + t,
                );
                lemma_first_menu_options(whole, k, j, indent, chars, next);
            },
            None => {
                lemma_first_menu_options(
                    whole,
                    k,
                    i + 1,
                    indent,
                    chars,
                    out + migrate::block_line(whole[i].content, chars),
                );
            },
        }
    }
}

proof fn lemma_first_branches(
    whole: Seq<SourceLine>,
    k: int,
    i: int,
    indent: nat,
    chars: Pairs,
    out: Seq<char>,
)
    requires
        parted(whole, k),
        0 <= i <= k,
    ensures
        migrate::branches(whole, i, indent, chars, out) == migrate::branches(
            whole.take(k),
            i,
            indent,
            chars,
            out,
        ),
        i <= migrate::branches(whole, i, indent, chars, out).1 <= k,
    decreases k - i,
{
    if i < k {
        assert(whole.take(k)[i] == whole[i]);
        let c = whole[i].content;
        if whole[i].indent == indent && (migrate::is_statement(c, "elif"@)
            || migrate::is_statement(c, "else"@)) {
            let head = if migrate::is_statement(c, "elif"@) {
                "else if "@ + migrate::expression(migrate::operand(c, "elif"@)) + "\n"@
            } else {
                "else\n"@
            };
            lemma_first_block(whole, k, i + 1, indent, false, chars, out + head);
            let (next, j) = migrate::block(whole, i + 1, indent, false, chars, out + head);
            lemma_first_branches(whole, k, j, indent, chars, next);
        }
    }
}

/// A line is converted as if nothing came behind the part that it stands in.
proof fn lemma_first_line(whole: Seq<SourceLine>, k: int, i: int, m: Migration)
    requires
        parted(whole, k),
        0 <= i < k,
    ensures
        migrate::convert_line(whole, i, m) == migrate::convert_line(whole.take(k), i, m),
        i < migrate::convert_line(whole, i, m).1 <= k,
{
    let a = whole.take(k);
    let line = whole[i];
    let c = line.content;
    assert(a[i] == line);
    lemma_first_block_end(whole, k, i + 1, line.indent);
    lemma_first_block(
        whole,
        k,
        i + 1,
        line.indent,
        true,
        m.chars,
        m.out + migrate::branch_head(c),
    );
    let (first, j) = migrate::block(
        whole,
        i + 1,
        line.indent,
        true,
        m.chars,
        m.out + migrate::branch_head(c),
    );
    lemma_first_branches(whole, k, j, line.indent, m.chars, first);
    let label = migrate::loop_label(line.number);
    lemma_first_block(
        whole,
        k,
        i + 1,
        line.indent,
        false,
        m.chars,
        m.out + "# "@ + label + "\n"@ + "if "@ + migrate::expression(
            migrate::operand(c, "while"@),
        ) + "\n"@,
    );
    assert(migrate::block_prompt(whole, i + 1, line.indent) == migrate::block_prompt(
        a,
        i + 1,
        line.indent,
    )) by {
        if i + 1 < k {
            assert(a[i + 1] == whole[i + 1]);
        }
    }
    assert(migrate::block_prompt(whole, i + 1, line.indent) is Some ==> i + 2 <= k);
    let (prompt, start) = match migrate::menu_prompt(c) {
        Some(p) => (p, i + 1),
        None => match migrate::block_prompt(whole, i + 1, line.indent) {
            Some(p) => (p, i + 2),
            None => (Seq::empty(), i + 1),
        },
    };
    lemma_first_menu_options(
        whole,
        k,
        start,
        line.indent,
        m.chars,
        m.out + "? \""@ + prompt + "\"\n"@,
    );
}

proof fn lemma_first_lines(whole: Seq<SourceLine>, k: int, i: int, m: Migration)
    requires
        parted(whole, k),
        0 <= i <= k,
    ensures
        migrate::convert_from(whole, i, m) == migrate::convert_from(
            whole,
            k,
            migrate::convert_from(whole.take(k), i, m),
        ),
    decreases k - i,
{
    if i < k {
        lemma_first_line(whole, k, i, m);
        let (next, j) = migrate::convert_line(whole, i, m);
        lemma_first_lines(whole, k, j, next);
    }
}

// ---------------------------------------------------------------------------
// What comes behind
// ---------------------------------------------------------------------------

proof fn lemma_rest_block_end(
    whole: Seq<SourceLine>,
    k: int,
    rest: Seq<SourceLine>,
    i: int,
    indent: nat,
)
    requires
        goes_on(whole, k, rest),
        0 <= i <= rest.len(),
    ensures
        migrate::block_end(whole, k + i, indent) == k + migrate::block_end(rest, i, indent),
        i <= migrate::block_end(rest, i, indent) <= rest.len(),
    decreases rest.len() - i,
{
    if i < rest.len() {
        assert(rest[i].indent == whole[k + i].indent);
        if rest[i].indent > indent {
            lemma_rest_block_end(whole, k, rest, i + 1, indent);
        }
    }
}

proof fn lemma_rest_block(
    whole: Seq<SourceLine>,
    k: int,
    rest: Seq<SourceLine>,
    i: int,
    indent: nat,
    to_else: bool,
    chars: Pairs,
    pre: Seq<char>,
    out: Seq<char>,
)
    requires
        goes_on(whole, k, rest),
        0 <= i <= rest.len(),
    ensures
        ({
            let (t, j) = migrate::block(rest, i, indent, to_else, chars, out);
            &&& migrate::block(whole, k + i, indent, to_else, chars, pre + out) == (
                pre + t,
                k + j,
            )
            &&& i <= j <= rest.len()
        }),
    decreases rest.len() - i,
{
    if i < rest.len() {
        assert(rest[i].indent == whole[k + i].indent);
        let more = migrate::block_line(rest[i].content, chars);
        assert(pre + out + more =~= pre + (out + more));
        lemma_rest_block(whole, k, rest, i + 1, indent, to_else, chars, pre, out + more);
    }
}

proof fn lemma_rest_menu_options(
    whole: Seq<SourceLine>,
    k: int,
    rest: Seq<SourceLine>,
    i: int,
    indent: nat,
    chars: Pairs,
    pre: Seq<char>,
    out: Seq<char>,
)
    requires
        goes_on(whole, k, rest),
        0 <= i <= rest.len(),
    ensures
        ({
            let (t, j) = migrate::menu_options(rest, i, indent, chars, out);
            &&& migrate::menu_options(whole, k + i, indent, chars, pre + out) == (pre + t, k + j)
            &&& i <= j <= rest.len()
        }),
    decreases rest.len() - i,
{
    if i < rest.len() {
        assert(rest[i].indent == whole[k + i].indent);
        if rest[i].indent > indent {
            match migrate::option_text(rest[i].content) {
                Some(t) => {
                    assert(pre + out + t =~= pre + (out + t));
                    lemma_rest_block(
                        whole,
                        k,
                        rest,
                        i + 1,
                        rest[i].indent,
                        false,
                        chars,
                        pre,
                        out + t,
                    );
                    let (next, j) = migrate::block(
                        rest,
                        i + 1,
                        rest[i].indent,
                        false,
                        chars,
                        out + t,
                    );
                    lemma_rest_menu_options(whole, k, rest, j, indent, chars, pre, next);
                },
                None => {
                    let more = migrate::block_line(rest[i].content, chars);
                    assert(pre + out + more =~= pre + (out + more));
                    lemma_rest_menu_options(
                        whole,
                        k,
                        rest,
                        i + 1,
                        indent,
                        chars,
                        pre,
                        out + more,
                    );
                },
            }
        }
    }
}

proof fn lemma_rest_branches(
    whole: Seq<SourceLine>,
    k: int,
    rest: Seq<SourceLine>,
    i: int,
    indent: nat,
    chars: Pairs,
    pre: Seq<char>,
    out: Seq<char>,
)
    requires
        goes_on(whole, k, rest),
        0 <= i <= rest.len(),
    ensures
        ({
            let (t, j) = migrate::branches(rest, i, indent, chars, out);
            &&& migrate::branches(whole, k + i, indent, chars, pre + out) == (pre + t, k + j)
            &&& i <= j <= rest.len()
        }),
    decreases rest.len() - i,
{
    if i < rest.len() {
        assert(rest[i].indent == whole[k + i].indent);
        let c = rest[i].content;
        if rest[i].indent == indent && (migrate::is_statement(c, "elif"@)
            || migrate::is_statement(c, "else"@)) {
            let head = if migrate::is_statement(c, "elif"@) {
                "else if "@ + migrate::expression(migrate::operand(c, "elif"@)) + "\n"@
            } else {
                "else\n"@
            };
            assert(pre + out + head =~= pre + (out + head));
            lemma_rest_block(whole, k, rest, i + 1, indent, false, chars, pre, out + head);
            let (next, j) = migrate::block(rest, i + 1, indent, false, chars, out + head);
            lemma_rest_branches(whole, k, rest, j, indent, chars, pre, next);
        }
    }
}

/// Whether a line declares nothing and begins no loop.
pub open spec fn is_plain(line: SourceLine) -> bool {
    &&& !migrate::is_statement(line.content, "define"@)
    &&& !migrate::is_statement(line.content, "default"@)
    &&& !migrate::is_statement(line.content, "while"@)
}

/// Whether `n` is `m` behind `pre` and `w` more warnings; the images and what
/// the warnings say may differ.
spec fn behind(n: Migration, m: Migration, pre: Seq<char>, w: nat) -> bool {
    &&& n.out == pre + m.out
    &&& n.warnings.len() == w + m.warnings.len()
    &&& n.chars == m.chars
    &&& n.defaults == m.defaults
}

proof fn lemma_written(n: Migration, m: Migration, pre: Seq<char>, w: nat, t: Seq<char>)
    requires
        behind(n, m, pre, w),
    ensures
        behind(migrate::written(n, t), migrate::written(m, t), pre, w),
{
    assert(pre + m.out + t =~= pre + (m.out + t));
}

#[verifier::rlimit(40)]
proof fn lemma_rest_line(
    whole: Seq<SourceLine>,
    k: int,
    rest: Seq<SourceLine>,
    i: int,
    n: Migration,
    m: Migration,
    pre: Seq<char>,
    w: nat,
)
    requires
        goes_on(whole, k, rest),
        0 <= i < rest.len(),
        is_plain(rest[i]),
        behind(n, m, pre, w),
    ensures
        ({
            let (n1, j1) = migrate::convert_line(whole, k + i, n);
            let (m1, j) = migrate::convert_line(rest, i, m);
            j1 == k + j && i < j <= rest.len() && behind(n1, m1, pre, w)
        }),
{
    let line = rest[i];
    let c = line.content;
    let chars = m.chars;
    assert(line.indent == whole[k + i].indent);
    lemma_rest_block_end(whole, k, rest, i + 1, line.indent);
    lemma_written(n, m, pre, w, migrate::comment_text(c));
    lemma_written(n, m, pre, w, migrate::label_text(c));
    lemma_written(n, m, pre, w, migrate::jump_text(c));
    lemma_written(n, m, pre, w, migrate::call_text(c));
    lemma_written(n, m, pre, w, "<=\n"@);
    lemma_written(n, m, pre, w, migrate::scene_text(c));
    lemma_written(n, m, pre, w, migrate::show_text(c, chars));
    lemma_written(n, m, pre, w, migrate::hide_text(c, chars));
    lemma_written(n, m, pre, w, migrate::narration_text(c));
    if let Some(t) = migrate::speech_text(c, chars) {
        lemma_written(n, m, pre, w, t);
    }
    lemma_written(n, m, pre, w, migrate::variable_text(c));
    lemma_written(n, m, pre, w, migrate::play_text(c));
    lemma_written(n, m, pre, w, migrate::stop_text(c));
    lemma_written(n, m, pre, w, migrate::unknown_text(c));
    lemma_rest_menu(whole, k, rest, i, chars, pre, m.out);
    lemma_rest_conditional(whole, k, rest, i, chars, pre, m.out);
}

proof fn lemma_rest_menu(
    whole: Seq<SourceLine>,
    k: int,
    rest: Seq<SourceLine>,
    i: int,
    chars: Pairs,
    pre: Seq<char>,
    out: Seq<char>,
)
    requires
        goes_on(whole, k, rest),
        0 <= i < rest.len(),
    ensures
        ({
            let (t, j) = migrate::menu(rest, i, chars, out);
            &&& migrate::menu(whole, k + i, chars, pre + out) == (pre + t, k + j)
            &&& i < j <= rest.len()
        }),
{
    let line = rest[i];
    assert(line.indent == whole[k + i].indent);
    if i + 1 < rest.len() {
        assert(rest[i + 1].indent == whole[k + i + 1].indent);
        assert(whole[k + (i + 1)] == whole[k + i + 1]);
    }
    let (prompt, start) = match migrate::menu_prompt(line.content) {
        Some(p) => (p, i + 1),
        None => match migrate::block_prompt(rest, i + 1, line.indent) {
            Some(p) => (p, i + 2),
            None => (Seq::empty(), i + 1),
        },
    };
    let head = "? \""@ + prompt + "\"\n"@;
    assert(pre + out + "? \""@ + prompt + "\"\n"@ =~= pre + (out + "? \""@ + prompt + "\"\n"@));
    lemma_rest_menu_options(
        whole,
        k,
        rest,
        start,
        line.indent,
        chars,
        pre,
        out + "? \""@ + prompt + "\"\n"@,
    );
    let (body, _) = migrate::menu_options(
        rest,
        start,
        line.indent,
        chars,
        out + "? \""@ + prompt + "\"\n"@,
    );
    assert(pre + body + "?\n"@ =~= pre + (body + "?\n"@));
}

proof fn lemma_rest_conditional(
    whole: Seq<SourceLine>,
    k: int,
    rest: Seq<SourceLine>,
    i: int,
    chars: Pairs,
    pre: Seq<char>,
    out: Seq<char>,
)
    requires
        goes_on(whole, k, rest),
        0 <= i < rest.len(),
    ensures
        ({
            let (t, j) = migrate::conditional(rest, i, chars, out);
            &&& migrate::conditional(whole, k + i, chars, pre + out) == (pre + t, k + j)
            &&& i < j <= rest.len()
        }),
{
    let line = rest[i];
    assert(line.indent == whole[k + i].indent);
    let head = migrate::branch_head(line.content);
    assert(pre + out + head =~= pre + (out + head));
    lemma_rest_block(whole, k, rest, i + 1, line.indent, true, chars, pre, out + head);
    let (first, j) = migrate::block(rest, i + 1, line.indent, true, chars, out + head);
    lemma_rest_branches(whole, k, rest, j, line.indent, chars, pre, first);
    let (all, _) = migrate::branches(rest, j, line.indent, chars, first);
    assert(pre + all + "end\n"@ =~= pre + (all + "end\n"@));
}

proof fn lemma_rest_lines(
    whole: Seq<SourceLine>,
    k: int,
    rest: Seq<SourceLine>,
    i: int,
    n: Migration,
    m: Migration,
    pre: Seq<char>,
    w: nat,
)
    requires
        goes_on(whole, k, rest),
        0 <= i <= rest.len(),
        forall|j: int| 0 <= j < rest.len() ==> is_plain(#[trigger] rest[j]),
        behind(n, m, pre, w),
    ensures
        behind(
            migrate::convert_from(whole, k + i, n),
            migrate::convert_from(rest, i, m),
            pre,
            w,
        ),
    decreases rest.len() - i,
{
    if i < rest.len() {
        lemma_rest_line(whole, k, rest, i, n, m, pre, w);
        let (n1, _) = migrate::convert_line(whole, k + i, n);
        let (m1, j) = migrate::convert_line(rest, i, m);
        lemma_rest_lines(whole, k, rest, j, n1, m1, pre, w);
    }
}

/// Lines that declare nothing leave the declarations as they are.
proof fn lemma_plain_lines(lines: Seq<SourceLine>, i: int, m: Migration)
    requires
        0 <= i,
        forall|j: int| 0 <= j < lines.len() ==> is_plain(#[trigger] lines[j]),
    ensures
        migrate::convert_from(lines, i, m).chars == m.chars,
        migrate::convert_from(lines, i, m).defaults == m.defaults,
    decreases lines.len() - i,
{
    if i < lines.len() {
        assert(is_plain(lines[i]));
        let (next, j) = migrate::convert_line(lines, i, m);
        assert(next.chars == m.chars && next.defaults == m.defaults);
        if i < j <= lines.len() {
            lemma_plain_lines(lines, j, next);
        }
    }
}

/// The lines of a source that are not blank.
pub open spec fn lines_of(source: Seq<char>) -> Seq<SourceLine> {
    migrate::source_lines(slices::lines(source))
}

/// Two sources, one behind the other, give the two scripts, one behind the
/// other, and as many warnings as both: where the first ends with a line, the
/// second begins with one that belongs to no block or branch before it, and
/// neither declares characters or default values or has a loop.
pub proof fn law_joined_sources(a: Seq<char>, b: Seq<char>)
    requires
        a.len() > 0,
        a.last() == '\n',
        forall|j: int| 0 <= j < lines_of(a).len() ==> is_plain(#[trigger] lines_of(a)[j]),
        forall|j: int| 0 <= j < lines_of(b).len() ==> is_plain(#[trigger] lines_of(b)[j]),
        lines_of(b).len() > 0 ==> lines_of(b)[0].indent == 0 && !migrate::is_statement(
            lines_of(b)[0].content,
            "elif"@,
        ) && !migrate::is_statement(lines_of(b)[0].content, "else"@),
    ensures
        migrate::script_of(migrate::migrated(a + b)) == migrate::script_of(migrate::migrated(a))
            + migrate::script_of(migrate::migrated(b)),
        migrate::migrated(a + b).warnings.len() == migrate::migrated(a).warnings.len()
            + migrate::migrated(b).warnings.len(),
{
    let first = lines_of(a);
    let rest = lines_of(b);
    let whole = lines_of(a + b);
    let k = first.len() as int;
    let none = Migration {
        out: Seq::empty(),
        warnings: Seq::empty(),
        chars: Seq::empty(),
        images: Seq::empty(),
        defaults: Seq::empty(),
    };
    lemma_lines_joined(a, b, 0);
    lemma_source_joined(slices::lines(a), slices::lines(b));
    if rest.len() > 0 {
        assert(rest[0].indent == whole[k + 0].indent);
    }
    assert(parted(whole, k));
    lemma_first_lines(whole, k, 0, none);
    let n = migrate::migrated(a);
    lemma_plain_lines(first, 0, none);
    lemma_plain_lines(rest, 0, none);
    assert(n.out + none.out =~= n.out);
    lemma_rest_lines(whole, k, rest, 0, n, none, n.out, n.warnings.len());
}

// ---------------------------------------------------------------------------
// Lines of a block
// ---------------------------------------------------------------------------

/// Whether a line is one of the statements that a block takes over as they are.
pub open spec fn is_common(c: Seq<char>) -> bool {
    ||| migrate::is_statement(c, "jump"@)
    ||| migrate::is_statement(c, "call"@)
    ||| migrate::is_statement(c, "return"@)
    ||| migrate::is_statement(c, "scene"@)
    ||| migrate::is_statement(c, "play"@)
    ||| migrate::is_statement(c, "stop"@)
}

pub proof fn lemma_statement_head(c: Seq<char>, keyword: Seq<char>)
    requires
        slices::trim_start(c) == c,
        migrate::is_statement(c, keyword),
    ensures
        c.len() >= keyword.len(),
        forall|i: int| 0 <= i < keyword.len() ==> c[i] == #[trigger] keyword[i],
{
    reveal_strlit(" ");
    reveal_strlit("(");
    reveal_strlit(":");
    assert forall|i: int| 0 <= i < keyword.len() implies c[i] == #[trigger] keyword[i] by {
        if c != keyword {
            if text::starts_with(c, keyword + " "@) {
                assert((keyword + " "@)[i] == keyword[i]);
            } else if text::starts_with(c, keyword + "("@) {
                assert((keyword + "("@)[i] == keyword[i]);
            } else {
                assert((keyword + ":"@)[i] == keyword[i]);
            }
        }
    }
}

proof fn lemma_starts(c: Seq<char>)
    requires
        slices::trim(c) == c,
        c.len() > 0,
    ensures
        slices::trim_start(c) == c,
{
    slices::lemma_trim_start_tail(c);
    lemma_trim_end_shorter(slices::trim_start(c));
    assert(slices::trim_start(c) =~= c);
}

proof fn lemma_trim_end_shorter(s: Seq<char>)
    ensures
        slices::trim_end(s).len() <= s.len(),
    decreases s.len(),
{
    if s.len() > 0 && slices::is_space(s.last()) {
        lemma_trim_end_shorter(s.drop_last());
    }
}

/// One line without a newline is the only line of its source.
pub proof fn lemma_one_line(c: Seq<char>)
    requires
        slices::trim(c) == c,
        c.len() > 0,
        !c.contains('\n'),
    ensures
        lines_of(c).len() == 1,
        lines_of(c)[0].content == c,
        lines_of(c)[0].number == 1,
{
    slices::lemma_index_of(c, '\n', 0);
    let e = slices::index_of(c, '\n', 0);
    assert(e == c.len()) by {
        if e < c.len() {
            assert(c.contains(c[e]));
        }
    }
    assert(slices::line_text(c, 0, e) =~= c);
    assert(slices::lines_from(c, e + 1) =~= Seq::empty());
    assert(slices::lines(c) =~= seq![c]);
    assert(seq![c].drop_last() =~= Seq::empty());
    assert(migrate::source_lines(Seq::<Seq<char>>::empty()) =~= Seq::empty());
}

/// A statement of that kind is one line, and no statement of another kind.
pub proof fn lemma_is_common(c: Seq<char>)
    requires
        slices::trim(c) == c,
        !c.contains('\n'),
        is_common(c),
    ensures
        c.len() > 0,
        slices::trim_start(c) == c,
        lines_of(c).len() == 1,
        lines_of(c)[0].content == c,
        c != "pass"@,
        !migrate::is_comment(c),
        !text::starts_with(c, "init"@),
        !migrate::is_quote(c),
        !migrate::is_statement(c, "define"@),
        !migrate::is_statement(c, "image"@),
        !migrate::is_statement(c, "default"@),
        !migrate::is_statement(c, "init"@),
        !migrate::is_statement(c, "screen"@),
        !migrate::is_statement(c, "transform"@),
        !migrate::is_statement(c, "label"@),
        !migrate::is_statement(c, "show"@),
        !migrate::is_statement(c, "hide"@),
        !migrate::is_statement(c, "menu"@),
        !migrate::is_statement(c, "if"@),
        !migrate::is_statement(c, "elif"@),
        !migrate::is_statement(c, "else"@),
        !migrate::is_statement(c, "while"@),
{
    reveal_strlit("jump");
    reveal_strlit("call");
    reveal_strlit("return");
    reveal_strlit("scene");
    reveal_strlit("play");
    reveal_strlit("stop");
    reveal_strlit("define");
    reveal_strlit("image");
    reveal_strlit("default");
    reveal_strlit("init");
    reveal_strlit("screen");
    reveal_strlit("transform");
    reveal_strlit("label");
    reveal_strlit("show");
    reveal_strlit("hide");
    reveal_strlit("menu");
    reveal_strlit("if");
    reveal_strlit("elif");
    reveal_strlit("else");
    reveal_strlit("while");
    reveal_strlit("pass");
    reveal_strlit(" ");
    reveal_strlit("(");
    reveal_strlit(":");
    slices::lemma_trim_start_tail(c);
    assert(c.len() > 0);
    lemma_starts(c);
    lemma_one_line(c);
    if migrate::is_statement(c, "jump"@) {
        lemma_statement_head(c, "jump"@);
        assert("jump"@[0] == 'j' && "jump"@[1] == 'u' && "jump"@[2] == 'm');
    }
    if migrate::is_statement(c, "call"@) {
        lemma_statement_head(c, "call"@);
        assert("call"@[0] == 'c' && "call"@[1] == 'a' && "call"@[2] == 'l');
    }
    if migrate::is_statement(c, "return"@) {
        lemma_statement_head(c, "return"@);
        assert("return"@[0] == 'r' && "return"@[1] == 'e' && "return"@[2] == 't');
    }
    if migrate::is_statement(c, "scene"@) {
        lemma_statement_head(c, "scene"@);
        assert("scene"@[0] == 's' && "scene"@[1] == 'c' && "scene"@[2] == 'e');
    }
    if migrate::is_statement(c, "play"@) {
        lemma_statement_head(c, "play"@);
        assert("play"@[0] == 'p' && "play"@[1] == 'l' && "play"@[2] == 'a');
    }
    if migrate::is_statement(c, "stop"@) {
        lemma_statement_head(c, "stop"@);
        assert("stop"@[0] == 's' && "stop"@[1] == 't' && "stop"@[2] == 'o');
    }
    if migrate::is_statement(c, "define"@) {
        lemma_statement_head(c, "define"@);
        assert("define"@[0] == 'd' && "define"@[1] == 'e' && "define"@[2] == 'f');
    }
    if migrate::is_statement(c, "image"@) {
        lemma_statement_head(c, "image"@);
        assert("image"@[0] == 'i' && "image"@[1] == 'm' && "image"@[2] == 'a');
    }
    if migrate::is_statement(c, "default"@) {
        lemma_statement_head(c, "default"@);
        assert("default"@[0] == 'd' && "default"@[1] == 'e' && "default"@[2] == 'f');
    }
    if migrate::is_statement(c, "init"@) {
        lemma_statement_head(c, "init"@);
        assert("init"@[0] == 'i' && "init"@[1] == 'n' && "init"@[2] == 'i');
    }
    if migrate::is_statement(c, "screen"@) {
        lemma_statement_head(c, "screen"@);
        assert("screen"@[0] == 's' && "screen"@[1] == 'c' && "screen"@[2] == 'r');
    }
    if migrate::is_statement(c, "transform"@) {
        lemma_statement_head(c, "transform"@);
        assert("transform"@[0] == 't' && "transform"@[1] == 'r' && "transform"@[2] == 'a');
    }
    if migrate::is_statement(c, "label"@) {
        lemma_statement_head(c, "label"@);
        assert("label"@[0] == 'l' && "label"@[1] == 'a' && "label"@[2] == 'b');
    }
    if migrate::is_statement(c, "show"@) {
        lemma_statement_head(c, "show"@);
        assert("show"@[0] == 's' && "show"@[1] == 'h' && "show"@[2] == 'o');
    }
    if migrate::is_statement(c, "hide"@) {
        lemma_statement_head(c, "hide"@);
        assert("hide"@[0] == 'h' && "hide"@[1] == 'i' && "hide"@[2] == 'd');
    }
    if migrate::is_statement(c, "menu"@) {
        lemma_statement_head(c, "menu"@);
        assert("menu"@[0] == 'm' && "menu"@[1] == 'e' && "menu"@[2] == 'n');
    }
    if migrate::is_statement(c, "if"@) {
        lemma_statement_head(c, "if"@);
        assert("if"@[0] == 'i' && "if"@[1] == 'f');
    }
    if migrate::is_statement(c, "elif"@) {
        lemma_statement_head(c, "elif"@);
        assert("elif"@[0] == 'e' && "elif"@[1] == 'l' && "elif"@[2] == 'i');
    }
    if migrate::is_statement(c, "else"@) {
        lemma_statement_head(c, "else"@);
        assert("else"@[0] == 'e' && "else"@[1] == 'l' && "else"@[2] == 's');
    }
    if migrate::is_statement(c, "while"@) {
        lemma_statement_head(c, "while"@);
        assert("while"@[0] == 'w' && "while"@[1] == 'h' && "while"@[2] == 'i');
    }
    assert("pass"@[0] == 'p' && "pass"@[1] == 'a');
    assert("init"@[0] == 'i');
}

/// A jump, a call, a return, a scene, or a line that plays or stops something is
/// converted within a block as it is converted by itself.
pub proof fn law_block_line_alike(c: Seq<char>)
    requires
        slices::trim(c) == c,
        !c.contains('\n'),
        !text::contains(c, "renpy."@),
        is_common(c),
    ensures
        migrate::script_of(migrate::migrated(c)) == migrate::block_line(c, Seq::empty()),
{
    lemma_is_common(c);
    let none = Migration {
        out: Seq::empty(),
        warnings: Seq::empty(),
        chars: Seq::empty(),
        images: Seq::empty(),
        defaults: Seq::empty(),
    };
    let lines = lines_of(c);
    assert(migrate::convert_line(lines, 0, none) == (
        migrate::written(none, migrate::block_line(c, Seq::empty())),
        1int,
    ));
    let done = migrate::written(none, migrate::block_line(c, Seq::empty()));
    assert(migrate::convert_from(lines, 1, done) == done);
    assert(done.out =~= migrate::block_line(c, Seq::empty()));
}

} // verus!
