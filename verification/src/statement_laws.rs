//! What each statement of a Ren'Py script is converted to.

use crate::ast::Transition;
use crate::migrate;
use crate::migrate::{Migration, Pairs};
use crate::migrate_laws;
use crate::reading_laws;
use crate::slices;
use crate::text;
use crate::text_laws;
use vstd::prelude::*;

verus! {

// ---------------------------------------------------------------------------
// Keywords
// ---------------------------------------------------------------------------

/// Whether a text is a word that a statement can start with.
pub open spec fn is_keyword(w: Seq<char>) -> bool {
    &&& w.len() > 0
    &&& forall|i: int|
        0 <= i < w.len() ==> {
            &&& !slices::is_space(#[trigger] w[i])
            &&& w[i] != '('
            &&& w[i] != ':'
            &&& w[i] != '#'
            &&& w[i] != '$'
            &&& w[i] != '"'
            &&& w[i] != '\''
        }
}

/// A keyword, a blank and what follows.
pub open spec fn stated(word: Seq<char>, rest: Seq<char>) -> Seq<char> {
    word + seq![' '] + rest
}

pub proof fn lemma_keywords()
    ensures
        "jump"@.len() == 4,
        "jump"@[0] == 'j',
        "jump"@[1] == 'u',
        "jump"@[2] == 'm',
        "call"@.len() == 4,
        "call"@[0] == 'c',
        "call"@[1] == 'a',
        "call"@[2] == 'l',
        "return"@.len() == 6,
        "return"@[0] == 'r',
        "return"@[1] == 'e',
        "return"@[2] == 't',
        "scene"@.len() == 5,
        "scene"@[0] == 's',
        "scene"@[1] == 'c',
        "scene"@[2] == 'e',
        "show"@.len() == 4,
        "show"@[0] == 's',
        "show"@[1] == 'h',
        "show"@[2] == 'o',
        "hide"@.len() == 4,
        "hide"@[0] == 'h',
        "hide"@[1] == 'i',
        "hide"@[2] == 'd',
        "play"@.len() == 4,
        "play"@[0] == 'p',
        "play"@[1] == 'l',
        "play"@[2] == 'a',
        "stop"@.len() == 4,
        "stop"@[0] == 's',
        "stop"@[1] == 't',
        "stop"@[2] == 'o',
        "with"@.len() == 4,
        "with"@[0] == 'w',
        "with"@[1] == 'i',
        "with"@[2] == 't',
        "define"@.len() == 6,
        "define"@[0] == 'd',
        "define"@[1] == 'e',
        "define"@[2] == 'f',
        "image"@.len() == 5,
        "image"@[0] == 'i',
        "image"@[1] == 'm',
        "image"@[2] == 'a',
        "default"@.len() == 7,
        "default"@[0] == 'd',
        "default"@[1] == 'e',
        "default"@[2] == 'f',
        "init"@.len() == 4,
        "init"@[0] == 'i',
        "init"@[1] == 'n',
        "init"@[2] == 'i',
        "screen"@.len() == 6,
        "screen"@[0] == 's',
        "screen"@[1] == 'c',
        "screen"@[2] == 'r',
        "transform"@.len() == 9,
        "transform"@[0] == 't',
        "transform"@[1] == 'r',
        "transform"@[2] == 'a',
        "label"@.len() == 5,
        "label"@[0] == 'l',
        "label"@[1] == 'a',
        "label"@[2] == 'b',
        "menu"@.len() == 4,
        "menu"@[0] == 'm',
        "menu"@[1] == 'e',
        "menu"@[2] == 'n',
        "if"@.len() == 2,
        "if"@[0] == 'i',
        "if"@[1] == 'f',
        "elif"@.len() == 4,
        "elif"@[0] == 'e',
        "elif"@[1] == 'l',
        "elif"@[2] == 'i',
        "else"@.len() == 4,
        "else"@[0] == 'e',
        "else"@[1] == 'l',
        "else"@[2] == 's',
        "while"@.len() == 5,
        "while"@[0] == 'w',
        "while"@[1] == 'h',
        "while"@[2] == 'i',
        is_keyword("jump"@),
        is_keyword("call"@),
        is_keyword("return"@),
        is_keyword("scene"@),
        is_keyword("show"@),
        is_keyword("hide"@),
        is_keyword("play"@),
        is_keyword("stop"@),
        is_keyword("with"@),
        is_keyword("define"@),
        is_keyword("image"@),
        is_keyword("default"@),
        is_keyword("init"@),
        is_keyword("screen"@),
        is_keyword("transform"@),
        is_keyword("label"@),
        is_keyword("menu"@),
        is_keyword("if"@),
        is_keyword("elif"@),
        is_keyword("else"@),
        is_keyword("while"@),
{
    reveal_strlit("jump");
    reveal_strlit("call");
    reveal_strlit("return");
    reveal_strlit("scene");
    reveal_strlit("show");
    reveal_strlit("hide");
    reveal_strlit("play");
    reveal_strlit("stop");
    reveal_strlit("with");
    reveal_strlit("define");
    reveal_strlit("image");
    reveal_strlit("default");
    reveal_strlit("init");
    reveal_strlit("screen");
    reveal_strlit("transform");
    reveal_strlit("label");
    reveal_strlit("menu");
    reveal_strlit("if");
    reveal_strlit("elif");
    reveal_strlit("else");
    reveal_strlit("while");
    assert("jump"@ =~= seq!['j', 'u', 'm', 'p']);
    assert("call"@ =~= seq!['c', 'a', 'l', 'l']);
    assert("return"@ =~= seq!['r', 'e', 't', 'u', 'r', 'n']);
    assert("scene"@ =~= seq!['s', 'c', 'e', 'n', 'e']);
    assert("show"@ =~= seq!['s', 'h', 'o', 'w']);
    assert("hide"@ =~= seq!['h', 'i', 'd', 'e']);
    assert("play"@ =~= seq!['p', 'l', 'a', 'y']);
    assert("stop"@ =~= seq!['s', 't', 'o', 'p']);
    assert("with"@ =~= seq!['w', 'i', 't', 'h']);
    assert("define"@ =~= seq!['d', 'e', 'f', 'i', 'n', 'e']);
    assert("image"@ =~= seq!['i', 'm', 'a', 'g', 'e']);
    assert("default"@ =~= seq!['d', 'e', 'f', 'a', 'u', 'l', 't']);
    assert("init"@ =~= seq!['i', 'n', 'i', 't']);
    assert("screen"@ =~= seq!['s', 'c', 'r', 'e', 'e', 'n']);
    assert("transform"@ =~= seq!['t', 'r', 'a', 'n', 's', 'f', 'o', 'r', 'm']);
    assert("label"@ =~= seq!['l', 'a', 'b', 'e', 'l']);
    assert("menu"@ =~= seq!['m', 'e', 'n', 'u']);
    assert("if"@ =~= seq!['i', 'f']);
    assert("elif"@ =~= seq!['e', 'l', 'i', 'f']);
    assert("else"@ =~= seq!['e', 'l', 's', 'e']);
    assert("while"@ =~= seq!['w', 'h', 'i', 'l', 'e']);
}

proof fn lemma_other_keyword(c: Seq<char>, word: Seq<char>, rest: Seq<char>, other: Seq<char>)
    requires
        is_keyword(word),
        is_keyword(other),
        word != other,
        c == stated(word, rest),
        slices::trim_start(c) == c,
    ensures
        !migrate::is_statement(c, other),
{
    reveal_strlit(" ");
    reveal_strlit("(");
    reveal_strlit(":");
    let n = word.len() as int;
    let k = other.len() as int;
    assert(c[n] == ' ');
    assert forall|i: int| 0 <= i < n implies c[i] == word[i] by {}
    if c == other {
        assert(other[n] == ' ');
    }
    assert forall|mark: Seq<char>| mark.len() == 1 && (mark[0] == ' ' || mark[0] == '(' || mark[0]
        == ':') implies !text::starts_with(c, #[trigger] (other + mark)) by {
        let p = other + mark;
        if text::starts_with(c, p) {
            assert forall|i: int| 0 <= i < p.len() implies c[i] == #[trigger] p[i] by {
                assert(c.subrange(0, p.len() as int)[i] == c[i]);
            }
            assert(p[k] == mark[0]);
            assert forall|i: int| 0 <= i < k implies other[i] == #[trigger] c[i] by {
                assert(p[i] == other[i]);
            }
            if k < n {
                assert(c[k] == word[k]);
            } else if k > n {
                assert(other[n] == c[n]);
            } else {
                assert(other =~= word);
            }
        }
    }
}

/// A line of a keyword, a blank and more is a statement of that keyword and of no
/// other.
pub proof fn lemma_statement(c: Seq<char>, word: Seq<char>, rest: Seq<char>)
    requires
        is_keyword(word),
        text_laws::is_bare(rest),
        c == stated(word, rest),
        !rest.contains('\n'),
    ensures
        slices::trim(c) == c,
        slices::trim_start(c) == c,
        c.len() == word.len() + 1 + rest.len(),
        c != "pass"@,
        c != "end"@,
        !migrate::is_comment(c),
        !migrate::is_quote(c),
        !slices::begins(c, '$'),
        c != "$end"@,
        migrate::is_statement(c, word),
        migrate_laws::lines_of(c).len() == 1,
        migrate_laws::lines_of(c)[0].content == c,
        migrate_laws::lines_of(c)[0].number == 1,
        slices::index_of(c, ' ', 0) == word.len(),
        c.subrange(0, word.len() as int) == word,
        slices::trim(c.subrange(word.len() as int, c.len() as int)) == rest,
        word != "jump"@ ==> !migrate::is_statement(c, "jump"@),
        word != "call"@ ==> !migrate::is_statement(c, "call"@),
        word != "return"@ ==> !migrate::is_statement(c, "return"@),
        word != "scene"@ ==> !migrate::is_statement(c, "scene"@),
        word != "show"@ ==> !migrate::is_statement(c, "show"@),
        word != "hide"@ ==> !migrate::is_statement(c, "hide"@),
        word != "play"@ ==> !migrate::is_statement(c, "play"@),
        word != "stop"@ ==> !migrate::is_statement(c, "stop"@),
        word != "with"@ ==> !migrate::is_statement(c, "with"@),
        word != "define"@ ==> !migrate::is_statement(c, "define"@),
        word != "image"@ ==> !migrate::is_statement(c, "image"@),
        word != "default"@ ==> !migrate::is_statement(c, "default"@),
        word != "init"@ ==> !migrate::is_statement(c, "init"@),
        word != "screen"@ ==> !migrate::is_statement(c, "screen"@),
        word != "transform"@ ==> !migrate::is_statement(c, "transform"@),
        word != "label"@ ==> !migrate::is_statement(c, "label"@),
        word != "menu"@ ==> !migrate::is_statement(c, "menu"@),
        word != "if"@ ==> !migrate::is_statement(c, "if"@),
        word != "elif"@ ==> !migrate::is_statement(c, "elif"@),
        word != "else"@ ==> !migrate::is_statement(c, "else"@),
        word != "while"@ ==> !migrate::is_statement(c, "while"@),
{
    let n = word.len() as int;
    assert(c[0] == word[0]);
    assert(c[n] == ' ');
    assert(c.last() == rest.last());
    assert forall|i: int| 0 <= i < n implies c[i] == word[i] by {}
    text_laws::law_trim_keeps(Seq::empty(), c, Seq::empty());
    assert(Seq::empty() + c + Seq::empty() =~= c);
    text_laws::law_first_place(c, ' ', 0, n);
    assert(c.subrange(0, n) =~= word);
    text_laws::law_trim_keeps(seq![' '], rest, Seq::empty());
    assert(c.subrange(n, c.len() as int) =~= seq![' '] + rest + Seq::empty());
    reveal_strlit(" ");
    assert(c.subrange(0, n + 1) =~= word + " "@);
    reveal_strlit("pass");
    reveal_strlit("end");
    reveal_strlit("$end");
    assert forall|i: int| 0 <= i < c.len() implies c[i] != '\n' by {
        if i > n {
            assert(rest.contains(rest[i - n - 1]));
            assert(c[i] == rest[i - n - 1]);
        }
    }
    migrate_laws::lemma_one_line(c);
    lemma_keywords();
    if word != "jump"@ {
        lemma_other_keyword(c, word, rest, "jump"@);
    }
    if word != "call"@ {
        lemma_other_keyword(c, word, rest, "call"@);
    }
    if word != "return"@ {
        lemma_other_keyword(c, word, rest, "return"@);
    }
    if word != "scene"@ {
        lemma_other_keyword(c, word, rest, "scene"@);
    }
    if word != "show"@ {
        lemma_other_keyword(c, word, rest, "show"@);
    }
    if word != "hide"@ {
        lemma_other_keyword(c, word, rest, "hide"@);
    }
    if word != "play"@ {
        lemma_other_keyword(c, word, rest, "play"@);
    }
    if word != "stop"@ {
        lemma_other_keyword(c, word, rest, "stop"@);
    }
    if word != "with"@ {
        lemma_other_keyword(c, word, rest, "with"@);
    }
    if word != "define"@ {
        lemma_other_keyword(c, word, rest, "define"@);
    }
    if word != "image"@ {
        lemma_other_keyword(c, word, rest, "image"@);
    }
    if word != "default"@ {
        lemma_other_keyword(c, word, rest, "default"@);
    }
    if word != "init"@ {
        lemma_other_keyword(c, word, rest, "init"@);
    }
    if word != "screen"@ {
        lemma_other_keyword(c, word, rest, "screen"@);
    }
    if word != "transform"@ {
        lemma_other_keyword(c, word, rest, "transform"@);
    }
    if word != "label"@ {
        lemma_other_keyword(c, word, rest, "label"@);
    }
    if word != "menu"@ {
        lemma_other_keyword(c, word, rest, "menu"@);
    }
    if word != "if"@ {
        lemma_other_keyword(c, word, rest, "if"@);
    }
    if word != "elif"@ {
        lemma_other_keyword(c, word, rest, "elif"@);
    }
    if word != "else"@ {
        lemma_other_keyword(c, word, rest, "else"@);
    }
    if word != "while"@ {
        lemma_other_keyword(c, word, rest, "while"@);
    }
    assert("pass"@[0] == 'p' && "pass"@[1] == 'a' && "pass"@[2] == 's' && "pass"@[3] == 's');
    assert("end"@[0] == 'e' && "end"@[1] == 'n' && "end"@[2] == 'd');
    assert("$end"@[0] == '$');
    if c == "pass"@ {
        assert(c.contains(' '));
        assert(c[n] == "pass"@[n]);
    }
    if c == "end"@ {
        assert(c[n] == "end"@[n]);
    }
}

/// What a keyword is followed by.
pub proof fn lemma_operand(word: Seq<char>, rest: Seq<char>)
    requires
        is_keyword(word),
        text_laws::is_bare(rest),
    ensures
        migrate::operand(stated(word, rest), word) == rest,
{
    let c = stated(word, rest);
    let n = word.len() as int;
    let t = c.subrange(n, c.len() as int);
    assert(c.subrange(0, n) =~= word);
    assert(t =~= seq![' '] + rest + Seq::empty());
    assert(!text::starts_with(t, word)) by {
        if text::starts_with(t, word) {
            assert(t.subrange(0, n)[0] == t[0]);
        }
    }
    assert(slices::strip_all(t, word) == t);
    text_laws::law_trim_keeps(seq![' '], rest, Seq::empty());
}

/// A text in quotes is found between them.
pub proof fn lemma_quoted(name: Seq<char>, mark: char, rest: Seq<char>)
    requires
        mark == '"' || mark == '\'',
        !name.contains(mark),
    ensures
        migrate::quoted(seq![mark] + name + seq![mark] + rest) == Some((name, rest)),
{
    let s = seq![mark] + name + seq![mark] + rest;
    let t = s.subrange(1, s.len() as int);
    let k = name.len() as int;
    assert(slices::trim_start(s) == s);
    assert forall|j: int| 0 <= j < k implies t[j] != mark by {
        assert(t[j] == name[j]);
        assert(name.contains(name[j]));
    }
    assert(t[k] == mark);
    text_laws::law_first_place(t, mark, 0, k);
    assert(t.subrange(0, k) =~= name);
    assert(t.subrange(k + 1, t.len() as int) =~= rest);
}

/// Nothing converted yet.
pub open spec fn nothing() -> Migration {
    Migration {
        out: Seq::empty(),
        warnings: Seq::empty(),
        chars: Seq::empty(),
        images: Seq::empty(),
        defaults: Seq::empty(),
    }
}

/// What becomes of a source of one line.
pub proof fn lemma_converted(c: Seq<char>, m: Migration)
    requires
        migrate_laws::lines_of(c).len() == 1,
        migrate::convert_line(migrate_laws::lines_of(c), 0, nothing()) == (m, 1int),
    ensures
        migrate::migrated(c) == m,
{
    assert(migrate::convert_from(migrate_laws::lines_of(c), 1, m) == m);
}

/// Whether a source is converted to a script, with nothing to warn of.
pub open spec fn becomes(source: Seq<char>, script: Seq<char>) -> bool {
    &&& migrate::script_of(migrate::migrated(source)) == script
    &&& migrate::migrated(source).warnings.len() == 0
}

// ---------------------------------------------------------------------------
// Music and sound
// ---------------------------------------------------------------------------

proof fn lemma_play(kind: Seq<char>, name: Seq<char>, c: Seq<char>)
    requires
        kind == "sound"@ || kind == "music"@,
        !name.contains('"'),
        !name.contains('\n'),
        c == "play "@ + kind + " \""@ + name + "\""@,
        !text::contains(c, "renpy."@),
    ensures
        kind == "sound"@ ==> migrate::play_text(c) == "@sound "@ + name + "\n"@,
        kind == "music"@ ==> migrate::play_text(c) == "@music "@ + name + "\n"@,
        becomes(c, migrate::play_text(c)),
        forall|chars: Pairs| #[trigger] migrate::block_line(c, chars) == migrate::play_text(c),
{
    reveal_strlit("sound");
    reveal_strlit("music");
    reveal_strlit("play ");
    reveal_strlit(" \"");
    reveal_strlit("\"");
    reveal_strlit("init");
    lemma_keywords();
    assert(is_keyword("sound"@)) by {
        assert("sound"@ =~= seq!['s', 'o', 'u', 'n', 'd']);
    }
    assert(is_keyword("music"@)) by {
        assert("music"@ =~= seq!['m', 'u', 's', 'i', 'c']);
    }
    let q = seq!['"'] + name + seq!['"'] + Seq::empty();
    let rest = stated(kind, q);
    assert(c =~= stated("play"@, rest)) by {
        assert("play "@ =~= "play"@ + seq![' ']) by {
            reveal_strlit("play");
        }
    }
    assert(!rest.contains('\n')) by {
        assert forall|i: int| 0 <= i < rest.len() implies rest[i] != '\n' by {
            if kind.len() + 1 < i < rest.len() - 1 {
                assert(rest[i] == name[i - kind.len() - 2]);
                assert(name.contains(name[i - kind.len() - 2]));
            }
        }
    }
    assert(text_laws::is_bare(q));
    assert(text_laws::is_bare(rest));
    lemma_statement(c, "play"@, rest);
    lemma_operand("play"@, rest);
    lemma_operand(kind, q);
    lemma_quoted(name, '"', Seq::empty());
    assert(rest.subrange(0, 5) =~= kind);
    assert(!migrate::is_quote(rest));
    assert(!text::starts_with(c, "init"@)) by {
        assert("init"@[0] == 'i');
        if text::starts_with(c, "init"@) {
            assert(c.subrange(0, 4)[0] == c[0]);
        }
    }
    assert("sound"@[0] == 's' && "music"@[0] == 'm');
    assert(migrate::operand(c, "play"@) == rest);
    assert(kind == "sound"@ ==> !text::starts_with(rest, "music"@)) by {
        assert(rest.subrange(0, 5)[0] == rest[0]);
    }
    let done = migrate::written(nothing(), migrate::play_text(c));
    lemma_converted(c, done);
    assert(done.out =~= migrate::play_text(c));
}

/// A sound that is played becomes the order for that sound, and its name is kept:
/// `play sound "x"` becomes `@sound x`.
pub proof fn law_play_sound(name: Seq<char>)
    requires
        !name.contains('"'),
        !name.contains('\n'),
        !text::contains("play sound \""@ + name + "\""@, "renpy."@),
    ensures
        becomes("play sound \""@ + name + "\""@, "@sound "@ + name + "\n"@),
        forall|chars: Pairs| #[trigger]
            migrate::block_line("play sound \""@ + name + "\""@, chars) == "@sound "@ + name
                + "\n"@,
{
    reveal_strlit("play sound \"");
    reveal_strlit("play ");
    reveal_strlit("sound");
    reveal_strlit(" \"");
    let c = "play sound \""@ + name + "\""@;
    assert("play sound \""@ =~= "play "@ + "sound"@ + " \""@);
    lemma_play("sound"@, name, c);
}

/// Music that is played becomes the order for that music, and its name is kept:
/// `play music "x"` becomes `@music x`.
pub proof fn law_play_music(name: Seq<char>)
    requires
        !name.contains('"'),
        !name.contains('\n'),
        !text::contains("play music \""@ + name + "\""@, "renpy."@),
    ensures
        becomes("play music \""@ + name + "\""@, "@music "@ + name + "\n"@),
        forall|chars: Pairs| #[trigger]
            migrate::block_line("play music \""@ + name + "\""@, chars) == "@music "@ + name
                + "\n"@,
{
    reveal_strlit("play music \"");
    reveal_strlit("play ");
    reveal_strlit("music");
    reveal_strlit(" \"");
    let c = "play music \""@ + name + "\""@;
    assert("play music \""@ =~= "play "@ + "music"@ + " \""@);
    lemma_play("music"@, name, c);
}

// ---------------------------------------------------------------------------
// Jumps and sections
// ---------------------------------------------------------------------------

/// Whether a line can stand by itself: it is one line, and calls nothing of the engine.
pub open spec fn is_usual(c: Seq<char>) -> bool {
    !c.contains('\n') && !text::contains(c, "renpy."@)
}

pub proof fn lemma_usual(word: Seq<char>, rest: Seq<char>)
    requires
        is_usual(stated(word, rest)),
    ensures
        !rest.contains('\n'),
{
    let c = stated(word, rest);
    assert forall|i: int| 0 <= i < rest.len() implies rest[i] != '\n' by {
        assert(c[word.len() + 1 + i] == rest[i]);
        assert(c.contains(c[word.len() + 1 + i]));
    }
}

pub proof fn lemma_not_init(c: Seq<char>)
    requires
        c.len() > 0,
        c[0] != 'i',
    ensures
        !text::starts_with(c, "init"@),
{
    reveal_strlit("init");
    assert("init"@[0] == 'i');
    if text::starts_with(c, "init"@) {
        assert(c.subrange(0, 4)[0] == c[0]);
    }
}

/// A statement that is written out as it stands.
proof fn lemma_written(c: Seq<char>, t: Seq<char>)
    requires
        migrate_laws::lines_of(c).len() == 1,
        migrate::convert_line(migrate_laws::lines_of(c), 0, nothing()) == (
            migrate::written(nothing(), t),
            1int,
        ),
    ensures
        becomes(c, t),
{
    lemma_converted(c, migrate::written(nothing(), t));
    assert(migrate::written(nothing(), t).out =~= t);
}

proof fn lemma_no_end_mark(s: Seq<char>, c: char)
    requires
        s.len() > 0,
        s.last() != c,
    ensures
        slices::strip_end(s, c) == s,
        slices::strip_end(s.push(c), c) == s,
{
    assert(s.push(c).drop_last() =~= s);
}

/// A jump goes to the same place: `jump x` becomes `-> x`.
pub proof fn law_jump(target: Seq<char>)
    requires
        text_laws::is_bare(target),
        target.last() != ':',
        is_usual("jump "@ + target),
    ensures
        becomes("jump "@ + target, "-> "@ + target + "\n"@),
        forall|chars: Pairs| #[trigger]
            migrate::block_line("jump "@ + target, chars) == "-> "@ + target + "\n"@,
{
    lemma_keywords();
    reveal_strlit("jump ");
    reveal_strlit("jump");
    let c = "jump "@ + target;
    assert(c =~= stated("jump"@, target));
    lemma_usual("jump"@, target);
    lemma_statement(c, "jump"@, target);
    lemma_operand("jump"@, target);
    lemma_no_end_mark(target, ':');
    lemma_not_init(c);
    lemma_written(c, "-> "@ + target + "\n"@);
}

/// A call goes to the same place: `call x` becomes `=> x`, whatever follows the name.
pub proof fn law_call(target: Seq<char>, more: Seq<char>)
    requires
        text_laws::is_one_word(target),
        target.last() != ':',
        more.len() == 0 || (more[0] == ' ' && !slices::is_space(more.last())),
        is_usual("call "@ + target + more),
    ensures
        becomes("call "@ + target + more, "=> "@ + target + "\n"@),
        forall|chars: Pairs| #[trigger]
            migrate::block_line("call "@ + target + more, chars) == "=> "@ + target + "\n"@,
{
    lemma_keywords();
    reveal_strlit("call ");
    reveal_strlit("call");
    let c = "call "@ + target + more;
    let rest = target + more;
    assert(c =~= stated("call"@, rest));
    assert(text_laws::is_bare(rest)) by {
        assert(rest[0] == target[0]);
        if more.len() == 0 {
            assert(rest.last() == target[target.len() - 1]);
        } else {
            assert(rest.last() == more.last());
        }
    }
    lemma_usual("call"@, rest);
    lemma_statement(c, "call"@, rest);
    lemma_operand("call"@, rest);
    text_laws::law_words(Seq::empty(), target, more);
    assert(Seq::empty() + target + more =~= rest);
    assert(slices::first_word(rest) == target);
    lemma_no_end_mark(target, ':');
    lemma_not_init(c);
    lemma_written(c, "=> "@ + target + "\n"@);
}

/// A return is a return, with or without a value.
pub proof fn law_return(value: Seq<char>)
    requires
        text_laws::is_bare(value),
        is_usual("return "@ + value),
    ensures
        becomes("return"@, "<=\n"@),
        becomes("return "@ + value, "<=\n"@),
        forall|chars: Pairs| #[trigger] migrate::block_line("return"@, chars) == "<=\n"@,
        forall|chars: Pairs| #[trigger]
            migrate::block_line("return "@ + value, chars) == "<=\n"@,
{
    lemma_keywords();
    reveal_strlit("return ");
    reveal_strlit("return");
    let c = "return "@ + value;
    assert(c =~= stated("return"@, value));
    lemma_usual("return"@, value);
    lemma_statement(c, "return"@, value);
    lemma_not_init(c);
    lemma_written(c, "<=\n"@);
    lemma_return_alone();
}

proof fn lemma_return_alone()
    ensures
        becomes("return"@, "<=\n"@),
        forall|chars: Pairs| #[trigger] migrate::block_line("return"@, chars) == "<=\n"@,
{
    reveal_strlit("return");
    reveal_strlit("renpy.");
    let c = "return"@;
    assert(slices::trim_start(c) == c);
    assert(slices::trim(c) == c);
    assert(migrate::is_statement(c, "return"@));
    assert(!c.contains('\n'));
    assert(!text::contains(c, "renpy."@)) by {
        text_laws::law_trim_keeps(Seq::empty(), c, Seq::empty());
        assert forall|i: int| !text::occurs_at(c, "renpy."@, i) by {
            if text::occurs_at(c, "renpy."@, i) {
                assert(c.subrange(i, i + 6)[2] == c[i + 2]);
                assert("renpy."@[2] == 'n');
                assert(c[2] == 't');
            }
        }
        text_laws::lemma_not_found(c, "renpy."@);
    }
    migrate_laws::law_block_line_alike(c);
    migrate_laws::lemma_is_common(c);
    lemma_keywords();
    let lines = migrate_laws::lines_of(c);
    if migrate::is_statement(c, "jump"@) {
        migrate_laws::lemma_statement_head(c, "jump"@);
    }
    if migrate::is_statement(c, "call"@) {
        migrate_laws::lemma_statement_head(c, "call"@);
    }
    assert("return"@[0] == 'r' && "jump"@[0] == 'j' && "call"@[0] == 'c');
    lemma_written(c, "<=\n"@);
}

/// A label becomes the head of a section of that name, without its parameters:
/// `label x:` and `label x(y):` become `# x`.
pub proof fn law_label(name: Seq<char>, params: Seq<char>)
    requires
        text_laws::is_bare(name),
        name.last() != ':',
        !name.contains('('),
        params.len() == 0 || (params[0] == '(' && params.last() == ')'),
        is_usual("label "@ + name + params + ":"@),
    ensures
        becomes("label "@ + name + params + ":"@, "# "@ + name + "\n"@),
{
    lemma_keywords();
    reveal_strlit("label ");
    reveal_strlit("label");
    reveal_strlit(":");
    let c = "label "@ + name + params + ":"@;
    let full = name + params;
    let rest = full.push(':');
    assert(c =~= stated("label"@, rest));
    assert(rest[0] == name[0]);
    lemma_usual("label"@, rest);
    lemma_statement(c, "label"@, rest);
    lemma_operand("label"@, rest);
    assert(full.last() == (if params.len() == 0 {
        name.last()
    } else {
        params.last()
    }));
    assert(full[0] == name[0]);
    lemma_no_end_mark(full, ':');
    text_laws::law_trim_keeps(Seq::empty(), full, Seq::empty());
    text_laws::law_trim_keeps(Seq::empty(), name, Seq::empty());
    assert forall|j: int| 0 <= j < name.len() implies full[j] != '(' by {
        assert(full[j] == name[j]);
        assert(name.contains(name[j]));
    }
    if params.len() > 0 {
        assert(full[name.len() as int] == params[0]);
    }
    text_laws::law_first_place(full, '(', 0, name.len() as int);
    assert(full.subrange(0, name.len() as int) =~= name);
    lemma_not_init(c);
    lemma_written(c, "# "@ + name + "\n"@);
}

// ---------------------------------------------------------------------------
// Text
// ---------------------------------------------------------------------------

/// A text that a quote opens is no statement.
proof fn lemma_not_statement(c: Seq<char>, keyword: Seq<char>)
    requires
        c.len() > 0,
        keyword.len() > 0,
        slices::trim_start(c) == c,
        c[0] != keyword[0],
    ensures
        !migrate::is_statement(c, keyword),
{
    if migrate::is_statement(c, keyword) {
        migrate_laws::lemma_statement_head(c, keyword);
        assert(c[0] == keyword[0]);
    }
}

/// A line that begins with no letter is none of the statements.
proof fn lemma_no_keyword(c: Seq<char>)
    requires
        text_laws::is_bare(c),
        !('a' <= c[0] && c[0] <= 'z'),
        !c.contains('\n'),
    ensures
        slices::trim(c) == c,
        slices::trim_start(c) == c,
        c != "pass"@,
        c != "end"@,
        !text::starts_with(c, "init"@),
        migrate_laws::lines_of(c).len() == 1,
        migrate_laws::lines_of(c)[0].content == c,
        !migrate::is_statement(c, "jump"@),
        !migrate::is_statement(c, "call"@),
        !migrate::is_statement(c, "return"@),
        !migrate::is_statement(c, "scene"@),
        !migrate::is_statement(c, "show"@),
        !migrate::is_statement(c, "hide"@),
        !migrate::is_statement(c, "play"@),
        !migrate::is_statement(c, "stop"@),
        !migrate::is_statement(c, "with"@),
        !migrate::is_statement(c, "define"@),
        !migrate::is_statement(c, "image"@),
        !migrate::is_statement(c, "default"@),
        !migrate::is_statement(c, "init"@),
        !migrate::is_statement(c, "screen"@),
        !migrate::is_statement(c, "transform"@),
        !migrate::is_statement(c, "label"@),
        !migrate::is_statement(c, "menu"@),
        !migrate::is_statement(c, "if"@),
        !migrate::is_statement(c, "elif"@),
        !migrate::is_statement(c, "else"@),
        !migrate::is_statement(c, "while"@),
{
    text_laws::law_trim_keeps(Seq::empty(), c, Seq::empty());
    migrate_laws::lemma_one_line(c);
    lemma_keywords();
    lemma_not_init(c);
    reveal_strlit("pass");
    reveal_strlit("end");
    assert("pass"@[0] == 'p' && "end"@[0] == 'e');
    lemma_not_statement(c, "jump"@);
    lemma_not_statement(c, "call"@);
    lemma_not_statement(c, "return"@);
    lemma_not_statement(c, "scene"@);
    lemma_not_statement(c, "show"@);
    lemma_not_statement(c, "hide"@);
    lemma_not_statement(c, "play"@);
    lemma_not_statement(c, "stop"@);
    lemma_not_statement(c, "with"@);
    lemma_not_statement(c, "define"@);
    lemma_not_statement(c, "image"@);
    lemma_not_statement(c, "default"@);
    lemma_not_statement(c, "init"@);
    lemma_not_statement(c, "screen"@);
    lemma_not_statement(c, "transform"@);
    lemma_not_statement(c, "label"@);
    lemma_not_statement(c, "menu"@);
    lemma_not_statement(c, "if"@);
    lemma_not_statement(c, "elif"@);
    lemma_not_statement(c, "else"@);
    lemma_not_statement(c, "while"@);
}

/// A narrated text keeps its words, whichever quotes it stands in.
pub proof fn law_narration(mark: char, t: Seq<char>)
    requires
        mark == '"' || mark == '\'',
        !t.contains(mark),
        is_usual(seq![mark] + t + seq![mark]),
    ensures
        becomes(seq![mark] + t + seq![mark], "\""@ + t + "\"\n"@),
        forall|chars: Pairs| #[trigger]
            migrate::block_line(seq![mark] + t + seq![mark], chars) == "\""@ + t + "\"\n"@,
{
    let c = seq![mark] + t + seq![mark];
    lemma_no_keyword(c);
    lemma_quoted(t, mark, Seq::empty());
    assert(c + Seq::empty() =~= c);
    lemma_written(c, "\""@ + t + "\"\n"@);
}

/// Whether a word may name a speaker: it is none of the keywords.
pub open spec fn is_speaker(who: Seq<char>) -> bool {
    &&& is_keyword(who)
    &&& who != "jump"@
    &&& who != "call"@
    &&& who != "return"@
    &&& who != "scene"@
    &&& who != "show"@
    &&& who != "hide"@
    &&& who != "play"@
    &&& who != "stop"@
    &&& who != "with"@
    &&& who != "define"@
    &&& who != "image"@
    &&& who != "default"@
    &&& who != "init"@
    &&& who != "screen"@
    &&& who != "transform"@
    &&& who != "label"@
    &&& who != "menu"@
    &&& who != "if"@
    &&& who != "elif"@
    &&& who != "else"@
    &&& who != "while"@
    &&& !text::starts_with(who, "init"@)
}

/// What a character says is said by the same character, with the full name where one
/// was given: `x "y"` becomes `x: "y"`.
pub proof fn law_speech(chars: Pairs, who: Seq<char>, mark: char, t: Seq<char>)
    requires
        mark == '"' || mark == '\'',
        is_speaker(who),
        !t.contains(mark),
        is_usual(stated(who, seq![mark] + t + seq![mark])),
    ensures
        becomes(
            stated(who, seq![mark] + t + seq![mark]),
            who + ": \""@ + t + "\"\n"@,
        ),
        migrate::block_line(stated(who, seq![mark] + t + seq![mark]), chars) == migrate::resolve(
            chars,
            who,
        ) + ": \""@ + t + "\"\n"@,
{
    let q = seq![mark] + t + seq![mark];
    let c = stated(who, q);
    lemma_usual(who, q);
    lemma_statement(c, who, q);
    lemma_quoted(t, mark, Seq::empty());
    assert(q + Seq::empty() =~= q);
    reveal_strlit("init");
    assert(!text::starts_with(c, "init"@)) by {
        if text::starts_with(c, "init"@) {
            assert(c.subrange(0, 4) == "init"@);
            assert("init"@[0] == 'i' && "init"@[1] == 'n' && "init"@[2] == 'i' && "init"@[3]
                == 't');
            if who.len() < 4 {
                assert(c.subrange(0, 4)[who.len() as int] == c[who.len() as int]);
            } else {
                assert(who.subrange(0, 4) =~= c.subrange(0, 4));
            }
        }
    }
    assert forall|j: int| 0 <= j < who.len() implies who[j] != '(' by {}
    text_laws::law_first_place(who, '(', 0, who.len() as int);
    assert(migrate::resolve(Seq::empty(), who) == who);
    assert(migrate::speech_text(c, chars) == Some(
        migrate::resolve(chars, who) + ": \""@ + t + "\"\n"@,
    ));
    lemma_written(c, who + ": \""@ + t + "\"\n"@);
}

/// A name that is set stands for what it was set to, and the others for what they
/// stood for.
pub proof fn law_names(pairs: Pairs, key: Seq<char>, value: Seq<char>, other: Seq<char>)
    ensures
        migrate::resolve(migrate::put(pairs, key, value), key) == value,
        other != key ==> migrate::resolve(migrate::put(pairs, key, value), other)
            == migrate::resolve(pairs, other),
        migrate::resolve(Seq::empty(), key) == key,
{
    let set = migrate::put(pairs, key, value);
    lemma_key_index(pairs, key, 0);
    lemma_key_index(pairs, other, 0);
    lemma_key_index(set, key, 0);
    lemma_key_index(set, other, 0);
    let i = migrate::key_index(pairs, key, 0);
    let j = migrate::key_index(set, key, 0);
    assert(set[i].0 == key);
    assert(j == i) by {
        if j < i {
            assert(set[j] == pairs[j]);
        }
    }
    if other != key {
        let a = migrate::key_index(pairs, other, 0);
        let b = migrate::key_index(set, other, 0);
        if b < set.len() {
            assert(b != i);
            assert(set[b] == pairs[b]);
            if a < b {
                assert(set[a].0 == pairs[a].0 || a == i);
            }
        }
        if a < pairs.len() {
            assert(a != i);
            assert(set[a] == pairs[a]);
        }
    }
}

proof fn lemma_key_index(pairs: Pairs, key: Seq<char>, i: int)
    requires
        0 <= i <= pairs.len(),
    ensures
        i <= migrate::key_index(pairs, key, i) <= pairs.len(),
        forall|j: int|
            i <= j < migrate::key_index(pairs, key, i) ==> (#[trigger] pairs[j]).0 != key,
        migrate::key_index(pairs, key, i) < pairs.len() ==> pairs[migrate::key_index(
            pairs,
            key,
            i,
        )].0 == key,
    decreases pairs.len() - i,
{
    if i < pairs.len() && pairs[i].0 != key {
        lemma_key_index(pairs, key, i + 1);
    }
}

/// A comment stays a comment: `# x` becomes `-- x`.
pub proof fn law_comment(t: Seq<char>)
    requires
        text_laws::is_bare(t),
        t[0] != '#',
        is_usual("# "@ + t),
    ensures
        becomes("# "@ + t, "-- "@ + t + "\n"@),
        forall|chars: Pairs| #[trigger]
            migrate::block_line("# "@ + t, chars) == "-- "@ + t + "\n"@,
{
    reveal_strlit("# ");
    let c = "# "@ + t;
    assert(c[0] == '#');
    assert(c.last() == t.last());
    lemma_no_keyword(c);
    let tail = c.subrange(1, c.len() as int);
    assert(tail =~= seq![' '] + t + Seq::empty());
    assert(slices::strip_start(tail, '#') == tail);
    assert(slices::strip_start(c, '#') == tail);
    text_laws::law_trim_keeps(seq![' '], t, Seq::empty());
    lemma_written(c, "-- "@ + t + "\n"@);
}

/// An operation on a variable stays the same operation: `$ x` becomes `$x`.
pub proof fn law_operation(t: Seq<char>)
    requires
        text_laws::is_bare(t),
        t[0] != '$',
        t.last() != ':',
        is_usual("$ "@ + t),
        "$ "@ + t != "$end"@,
        !migrate::is_quote(t),
    ensures
        becomes("$ "@ + t, "$"@ + t + "\n"@),
        forall|chars: Pairs| #[trigger]
            migrate::block_line("$ "@ + t, chars) == "$"@ + t + "\n"@,
{
    reveal_strlit("$ ");
    let c = "$ "@ + t;
    assert(c[0] == '$');
    assert(c.last() == t.last());
    lemma_no_keyword(c);
    let tail = c.subrange(1, c.len() as int);
    assert(tail =~= seq![' '] + t + Seq::empty());
    assert(slices::strip_start(tail, '$') == tail);
    assert(slices::strip_start(c, '$') == tail);
    text_laws::law_trim_keeps(seq![' '], t, Seq::empty());
    text_laws::law_trim_keeps(Seq::empty(), t, Seq::empty());
    assert(slices::index_of(c, ' ', 0) == 1) by {
        text_laws::law_first_place(c, ' ', 0, 1);
    }
    assert(c.subrange(1, c.len() as int) == tail);
    lemma_written(c, "$"@ + t + "\n"@);
}

// ---------------------------------------------------------------------------
// Definitions
// ---------------------------------------------------------------------------

/// A name, an equals sign and a value.
proof fn lemma_assignment(name: Seq<char>, value: Seq<char>)
    requires
        text_laws::is_bare(name),
        text_laws::is_bare(value),
        !name.contains('='),
    ensures
        text_laws::is_bare(name + " = "@ + value),
        migrate::assignment(name + " = "@ + value) == Some((name, value)),
{
    reveal_strlit(" = ");
    let s = name + " = "@ + value;
    let n = name.len() as int;
    assert(s[0] == name[0]);
    assert(s.last() == value.last());
    assert(s[n] == ' ' && s[n + 1] == '=' && s[n + 2] == ' ');
    assert forall|j: int| 0 <= j < n + 1 implies s[j] != '=' by {
        if j < n {
            assert(s[j] == name[j]);
            assert(name.contains(name[j]));
        }
    }
    text_laws::law_first_place(s, '=', 0, n + 1);
    assert(s.subrange(0, n + 1) =~= Seq::empty() + name + seq![' ']);
    assert(s.subrange(n + 2, s.len() as int) =~= seq![' '] + value + Seq::empty());
    text_laws::law_trim_keeps(Seq::empty(), name, seq![' ']);
    text_laws::law_trim_keeps(seq![' '], value, Seq::empty());
}

/// A character that is defined is listed under its short name, and nothing is written.
pub proof fn law_definition(short: Seq<char>, full: Seq<char>)
    requires
        text_laws::is_bare(short),
        !short.contains('='),
        !full.contains('"'),
        is_usual("define "@ + short + " = "@ + "Character(\""@ + full + "\")"@),
    ensures
        migrate::migrated("define "@ + short + " = "@ + "Character(\""@ + full + "\")"@) == (
        Migration { chars: seq![(short, full)], ..nothing() }),
{
    lemma_keywords();
    reveal_strlit("define ");
    reveal_strlit("define");
    reveal_strlit("Character(\"");
    reveal_strlit("Character");
    reveal_strlit("\")");
    let value = "Character(\""@ + full + "\")"@;
    let rest = short + " = "@ + value;
    let c = "define "@ + short + " = "@ + "Character(\""@ + full + "\")"@;
    lemma_assignment(short, value);
    assert(c =~= stated("define"@, rest));
    lemma_usual("define"@, rest);
    lemma_statement(c, "define"@, rest);
    lemma_operand("define"@, rest);
    assert(value.subrange(0, 9) =~= "Character"@);
    let q = seq!['"'] + full + seq!['"'] + seq![')'];
    let t = value.subrange(9, value.len() as int);
    assert(t =~= seq!['('] + q);
    assert(!text::starts_with(t, "Character"@)) by {
        if text::starts_with(t, "Character"@) {
            assert(t.subrange(0, 9)[0] == t[0]);
            assert("Character"@[0] == 'C');
        }
    }
    assert(slices::strip_all(t, "Character"@) == t);
    assert(slices::strip_all(value, "Character"@) == t);
    text_laws::law_trim_keeps(Seq::empty(), t, Seq::empty());
    assert(t.subrange(1, t.len() as int) =~= q);
    assert(slices::strip_start(q, '(') == q);
    assert(slices::strip_start(t, '(') == q);
    text_laws::law_trim_keeps(Seq::empty(), q, Seq::empty());
    lemma_quoted(full, '"', seq![')']);
    let done = Migration { chars: seq![(short, full)], ..nothing() };
    assert(migrate::put(Seq::empty(), short, full) =~= seq![(short, full)]);
    lemma_converted(c, done);
}

/// An image that is defined is listed with its file, and nothing is written.
pub proof fn law_image(name: Seq<char>, file: Seq<char>)
    requires
        text_laws::is_bare(name),
        !name.contains('='),
        !file.contains('"'),
        is_usual("image "@ + name + " = "@ + "\""@ + file + "\""@),
    ensures
        migrate::migrated("image "@ + name + " = "@ + "\""@ + file + "\""@) == (Migration {
            images: seq![(name, file)],
            ..nothing()
        }),
{
    lemma_keywords();
    reveal_strlit("image ");
    reveal_strlit("image");
    reveal_strlit("\"");
    let q = seq!['"'] + file + seq!['"'] + Seq::empty();
    let rest = name + " = "@ + q;
    let c = "image "@ + name + " = "@ + "\""@ + file + "\""@;
    lemma_assignment(name, q);
    assert(c =~= stated("image"@, rest));
    lemma_usual("image"@, rest);
    lemma_statement(c, "image"@, rest);
    lemma_operand("image"@, rest);
    lemma_quoted(file, '"', Seq::empty());
    let done = Migration { images: seq![(name, file)], ..nothing() };
    assert(migrate::put(Seq::empty(), name, file) =~= seq![(name, file)]);
    lemma_converted(c, done);
}

/// A default value becomes an assignment at the start of the script.
pub proof fn law_default(name: Seq<char>, value: Seq<char>)
    requires
        text_laws::is_bare(name),
        text_laws::is_bare(value),
        !name.contains('='),
        value.last() != ':',
        is_usual("default "@ + name + " = "@ + value),
    ensures
        becomes(
            "default "@ + name + " = "@ + value,
            "-- Default variables (from Ren'Py 'default' declarations)\n"@ + "$"@ + name + " = "@
                + value + "\n"@ + "\n"@,
        ),
{
    lemma_keywords();
    reveal_strlit("default ");
    reveal_strlit("default");
    let rest = name + " = "@ + value;
    let c = "default "@ + name + " = "@ + value;
    lemma_assignment(name, value);
    assert(c =~= stated("default"@, rest));
    lemma_usual("default"@, rest);
    lemma_statement(c, "default"@, rest);
    lemma_operand("default"@, rest);
    lemma_no_end_mark(value, ':');
    let line = "$"@ + name + " = "@ + value;
    let done = Migration { defaults: seq![line], ..nothing() };
    assert(Seq::<Seq<char>>::empty().push(line) =~= seq![line]);
    lemma_converted(c, done);
    assert(seq![line].drop_last() =~= Seq::empty());
    assert(migrate::lined(Seq::empty()) =~= Seq::<char>::empty());
    assert(migrate::lined(seq![line]) =~= line + "\n"@);
    assert(migrate::script_of(done)
        =~= "-- Default variables (from Ren'Py 'default' declarations)\n"@ + "$"@ + name + " = "@
        + value + "\n"@ + "\n"@);
}

// ---------------------------------------------------------------------------
// Transitions
// ---------------------------------------------------------------------------

/// The other spelling of a transition, where there is one.
pub open spec fn other_word(t: Transition) -> Option<Seq<char>> {
    match t {
        Transition::FadeBlack => Some("fadeblack"@),
        Transition::FadeWhite => Some("fadewhite"@),
        Transition::SlideLeft => Some("slideleft"@),
        Transition::SlideRight => Some("slideright"@),
        Transition::SlideUp => Some("slideup"@),
        Transition::SlideDown => Some("slidedown"@),
        Transition::WipeLeft => Some("wipeleft"@),
        Transition::WipeRight => Some("wiperight"@),
        Transition::Instant => Some("none"@),
        _ => None,
    }
}

#[verifier::rlimit(40)]
proof fn lemma_transition_letters()
    ensures
        "fade"@ == seq!['f', 'a', 'd', 'e'],
        "fade_black"@ == seq!['f', 'a', 'd', 'e', '_', 'b', 'l', 'a', 'c', 'k'],
        "fade_white"@ == seq!['f', 'a', 'd', 'e', '_', 'w', 'h', 'i', 't', 'e'],
        "slide_left"@ == seq!['s', 'l', 'i', 'd', 'e', '_', 'l', 'e', 'f', 't'],
        "slide_right"@ == seq!['s', 'l', 'i', 'd', 'e', '_', 'r', 'i', 'g', 'h', 't'],
        "slide_up"@ == seq!['s', 'l', 'i', 'd', 'e', '_', 'u', 'p'],
        "slide_down"@ == seq!['s', 'l', 'i', 'd', 'e', '_', 'd', 'o', 'w', 'n'],
        "dissolve"@ == seq!['d', 'i', 's', 's', 'o', 'l', 'v', 'e'],
        "wipe_left"@ == seq!['w', 'i', 'p', 'e', '_', 'l', 'e', 'f', 't'],
        "wipe_right"@ == seq!['w', 'i', 'p', 'e', '_', 'r', 'i', 'g', 'h', 't'],
        "blur"@ == seq!['b', 'l', 'u', 'r'],
        "instant"@ == seq!['i', 'n', 's', 't', 'a', 'n', 't'],
        "fadeblack"@ == seq!['f', 'a', 'd', 'e', 'b', 'l', 'a', 'c', 'k'],
        "fadewhite"@ == seq!['f', 'a', 'd', 'e', 'w', 'h', 'i', 't', 'e'],
        "slideleft"@ == seq!['s', 'l', 'i', 'd', 'e', 'l', 'e', 'f', 't'],
        "slideright"@ == seq!['s', 'l', 'i', 'd', 'e', 'r', 'i', 'g', 'h', 't'],
        "slideup"@ == seq!['s', 'l', 'i', 'd', 'e', 'u', 'p'],
        "slidedown"@ == seq!['s', 'l', 'i', 'd', 'e', 'd', 'o', 'w', 'n'],
        "wipeleft"@ == seq!['w', 'i', 'p', 'e', 'l', 'e', 'f', 't'],
        "wiperight"@ == seq!['w', 'i', 'p', 'e', 'r', 'i', 'g', 'h', 't'],
        "none"@ == seq!['n', 'o', 'n', 'e'],
        "cut"@ == seq!['c', 'u', 't'],
{
    reveal_strlit("fade");
    reveal_strlit("fade_black");
    reveal_strlit("fade_white");
    reveal_strlit("slide_left");
    reveal_strlit("slide_right");
    reveal_strlit("slide_up");
    reveal_strlit("slide_down");
    reveal_strlit("dissolve");
    reveal_strlit("wipe_left");
    reveal_strlit("wipe_right");
    reveal_strlit("blur");
    reveal_strlit("instant");
    reveal_strlit("fadeblack");
    reveal_strlit("fadewhite");
    reveal_strlit("slideleft");
    reveal_strlit("slideright");
    reveal_strlit("slideup");
    reveal_strlit("slidedown");
    reveal_strlit("wipeleft");
    reveal_strlit("wiperight");
    reveal_strlit("none");
    reveal_strlit("cut");
}

/// Every transition keeps its name, in either spelling.
#[verifier::rlimit(60)]
pub proof fn law_transitions_are_kept(t: Transition)
    ensures
        migrate::transition_name(reading_laws::transition_word(t))
            == reading_laws::transition_word(t),
        other_word(t) matches Some(w) ==> migrate::transition_name(w)
            == reading_laws::transition_word(t),
        text_laws::is_one_word(reading_laws::transition_word(t)),
{
    lemma_transition_letters();
    let w = reading_laws::transition_word(t);
    assert(text_laws::is_one_word(w));
    text_laws::law_trim_keeps(Seq::empty(), w, Seq::empty());
    if let Some(o) = other_word(t) {
        text_laws::law_trim_keeps(Seq::empty(), o, Seq::empty());
    }
}

// ---------------------------------------------------------------------------
// The stage
// ---------------------------------------------------------------------------

/// A transition behind a statement, where there is one.
pub open spec fn with_transition(t: Option<Transition>) -> Seq<char> {
    match t {
        Some(x) => " with "@ + reading_laws::transition_word(x),
        None => Seq::empty(),
    }
}

/// What stands before a transition, and the transition.
proof fn lemma_with(what: Seq<char>, t: Option<Transition>)
    requires
        text_laws::is_bare(what),
        forall|i: int| 0 <= i < what.len() ==> !text::occurs_at(what + with_transition(t), " with "@, i),
    ensures
        text_laws::is_bare(what + with_transition(t)),
        slices::trim(slices::before(what + with_transition(t), " with "@)) == what,
        slices::behind(what + with_transition(t), " with "@) == (match t {
            Some(x) => reading_laws::transition_word(x),
            None => Seq::empty(),
        }),
{
    reveal_strlit(" with ");
    let s = what + with_transition(t);
    assert(s[0] == what[0]);
    text_laws::law_trim_keeps(Seq::empty(), what, Seq::empty());
    match t {
        Some(x) => {
            law_transitions_are_kept(x);
            let w = reading_laws::transition_word(x);
            assert(s.last() == w.last());
            let n = what.len() as int;
            assert(s.subrange(n, n + 6) =~= " with "@);
            text_laws::law_first_occurrence(s, " with "@, n);
            assert(s.take(n) =~= what);
            assert(s.skip(n + 6) =~= w);
        },
        None => {
            assert(s =~= what);
            assert forall|i: int| !text::occurs_at(s, " with "@, i) by {
                if text::occurs_at(s, " with "@, i) {
                    assert(0 <= i < what.len());
                }
            }
            text_laws::lemma_not_found(s, " with "@);
        },
    }
}

/// A scene becomes the background of that name, with the same transition; the word
/// `bg` in front of the name is dropped.
pub proof fn law_scene(name: Seq<char>, t: Option<Transition>)
    requires
        text_laws::is_bare(name),
        !text::starts_with(name, "bg "@),
        forall|i: int| 0 <= i < name.len() ==> !text::occurs_at(name + with_transition(t), " with "@, i),
        is_usual("scene "@ + name + with_transition(t)),
    ensures
        becomes(
            "scene "@ + name + with_transition(t),
            "@bg "@ + name + with_transition(t) + "\n"@,
        ),
        forall|chars: Pairs| #[trigger]
            migrate::block_line("scene "@ + name + with_transition(t), chars) == "@bg "@ + name
                + with_transition(t) + "\n"@,
        slices::strip_all("bg "@ + name, "bg "@) == name,
{
    lemma_keywords();
    reveal_strlit("scene ");
    reveal_strlit("scene");
    reveal_strlit("bg ");
    let c = "scene "@ + name + with_transition(t);
    let rest = name + with_transition(t);
    lemma_with(name, t);
    assert(c =~= stated("scene"@, rest));
    lemma_usual("scene"@, rest);
    lemma_statement(c, "scene"@, rest);
    lemma_operand("scene"@, rest);
    lemma_not_init(c);
    text_laws::law_trim_keeps(Seq::empty(), name, Seq::empty());
    assert(slices::strip_all(name, "bg "@) == name);
    let b = "bg "@ + name;
    assert(b.subrange(0, 3) =~= "bg "@);
    assert(b.subrange(3, b.len() as int) =~= name);
    assert(migrate::with_clause(slices::behind(rest, " with "@)) == with_transition(t)) by {
        if let Some(x) = t {
            law_transitions_are_kept(x);
        }
    }
    lemma_written(c, "@bg "@ + name + with_transition(t) + "\n"@);
}

/// A character that is hidden leaves, with the same transition; within a block
/// without one.
pub proof fn law_hide(chars: Pairs, name: Seq<char>, t: Option<Transition>)
    requires
        text_laws::is_one_word(name),
        is_usual("hide "@ + name + with_transition(t)),
    ensures
        becomes(
            "hide "@ + name + with_transition(t),
            "- "@ + name + with_transition(t) + "\n"@,
        ),
        migrate::block_line("hide "@ + name + with_transition(t), chars) == "- "@
            + migrate::resolve(chars, name) + "\n"@,
{
    lemma_keywords();
    reveal_strlit("hide ");
    reveal_strlit("hide");
    reveal_strlit(" with ");
    let c = "hide "@ + name + with_transition(t);
    let rest = name + with_transition(t);
    assert forall|i: int| 0 <= i < name.len() implies !text::occurs_at(rest, " with "@, i) by {
        if text::occurs_at(rest, " with "@, i) {
            assert(rest.subrange(i, i + 6)[0] == rest[i]);
            assert(rest[i] == name[i]);
        }
    }
    assert(text_laws::is_bare(name));
    lemma_with(name, t);
    assert(c =~= stated("hide"@, rest));
    lemma_usual("hide"@, rest);
    lemma_statement(c, "hide"@, rest);
    lemma_operand("hide"@, rest);
    lemma_not_init(c);
    text_laws::law_words(Seq::empty(), name, Seq::empty());
    assert(Seq::empty() + name + Seq::empty() =~= name);
    assert(slices::first_word(name) == name);
    text_laws::law_words(Seq::empty(), name, with_transition(t));
    assert(Seq::empty() + name + with_transition(t) =~= rest);
    assert(slices::first_word(rest) == name);
    assert(migrate::resolve(Seq::empty(), name) == name);
    assert(migrate::with_clause(slices::behind(rest, " with "@)) == with_transition(t)) by {
        if let Some(x) = t {
            law_transitions_are_kept(x);
        }
    }
    lemma_written(c, "- "@ + name + with_transition(t) + "\n"@);
}

/// The words of a character that is shown: its name, its face and its place.
pub open spec fn shown(name: Seq<char>, face: Option<Seq<char>>, place: Option<Seq<char>>) -> Seq<
    char,
> {
    name + (match face {
        Some(f) => seq![' '] + f,
        None => Seq::empty(),
    }) + (match place {
        Some(p) => seq![' ', 'a', 't', ' '] + p,
        None => Seq::empty(),
    })
}

proof fn lemma_shown(name: Seq<char>, face: Option<Seq<char>>, place: Option<Seq<char>>)
    requires
        text_laws::is_one_word(name),
        face matches Some(f) ==> text_laws::is_one_word(f),
        place matches Some(p) ==> text_laws::is_one_word(p),
    ensures
        text_laws::is_bare(shown(name, face, place)),
        slices::words(shown(name, face, place)) == seq![name] + (match face {
            Some(f) => seq![f],
            None => Seq::empty(),
        }) + (match place {
            Some(p) => seq!["at"@, p],
            None => Seq::empty(),
        }),
{
    reveal_strlit("at");
    let none = Seq::<char>::empty();
    let a = match face {
        Some(f) => seq![' '] + f,
        None => none,
    };
    let b = match place {
        Some(p) => seq![' ', 'a', 't', ' '] + p,
        None => none,
    };
    let s = shown(name, face, place);
    assert(s =~= none + name + (a + b));
    assert(s[0] == name[0]);
    assert(text_laws::all_blank(none));
    assert(text_laws::all_blank(seq![' ']));
    text_laws::law_words(none, name, a + b);
    if let Some(p) = place {
        assert("at"@ =~= seq!['a', 't']);
        text_laws::law_words(seq![' '], p, none);
        assert(seq![' '] + p + none =~= seq![' '] + p);
        text_laws::law_words(seq![' '], "at"@, seq![' '] + p);
        assert(seq![' '] + "at"@ + (seq![' '] + p) =~= b);
        assert(s.last() == p.last());
    }
    assert(slices::words(none) =~= Seq::empty());
    if let Some(f) = face {
        text_laws::law_words(seq![' '], f, b);
        assert(seq![' '] + f + b =~= a + b);
        if place is None {
            assert(s.last() == f.last());
        }
    } else {
        assert(a + b =~= b);
        if place is None {
            assert(s.last() == name.last());
        }
    }
    assert(slices::words(s) =~= seq![name] + (match face {
        Some(f) => seq![f],
        None => Seq::empty(),
    }) + (match place {
        Some(p) => seq!["at"@, p],
        None => Seq::empty(),
    }));
}

/// A character that is shown enters, with its face, from its place, and with its
/// transition; with a dissolve where none is given. Within a block only the name and
/// the transition are kept.
#[verifier::rlimit(40)]
pub proof fn law_show(
    chars: Pairs,
    name: Seq<char>,
    face: Option<Seq<char>>,
    place: Option<Seq<char>>,
    t: Option<Transition>,
)
    requires
        text_laws::is_one_word(name),
        name != "at"@,
        face matches Some(f) ==> text_laws::is_one_word(f) && f != "at"@ && f != "with"@ && f
            != "as"@,
        place matches Some(p) ==> text_laws::is_one_word(p),
        forall|i: int|
            0 <= i < shown(name, face, place).len() ==> !text::occurs_at(
                shown(name, face, place) + with_transition(t),
                " with "@,
                i,
            ),
        is_usual("show "@ + shown(name, face, place) + with_transition(t)),
    ensures
        becomes(
            "show "@ + shown(name, face, place) + with_transition(t),
            "+ "@ + name + (match face {
                Some(f) => " "@ + f,
                None => Seq::empty(),
            }) + " enters"@ + (match place {
                Some(p) => " from "@ + p,
                None => Seq::empty(),
            }) + (match t {
                Some(x) => " with "@ + reading_laws::transition_word(x),
                None => " with dissolve"@,
            }) + "\n"@,
        ),
        migrate::block_line("show "@ + shown(name, face, place) + with_transition(t), chars)
            == "+ "@ + migrate::resolve(chars, name) + " enters"@ + (match t {
            Some(x) => " with "@ + reading_laws::transition_word(x),
            None => " with dissolve"@,
        }) + "\n"@,
{
    lemma_keywords();
    reveal_strlit("show ");
    reveal_strlit("show");
    let what = shown(name, face, place);
    let rest = what + with_transition(t);
    let c = "show "@ + what + with_transition(t);
    lemma_shown(name, face, place);
    lemma_with(what, t);
    assert(c =~= stated("show"@, rest));
    lemma_usual("show"@, rest);
    lemma_statement(c, "show"@, rest);
    lemma_operand("show"@, rest);
    lemma_not_init(c);
    assert(migrate::resolve(Seq::empty(), name) == name);
    let tokens = slices::words(what);
    assert(tokens[0] == name);
    let w = match t {
        Some(x) => " with "@ + reading_laws::transition_word(x),
        None => " with dissolve"@,
    };
    assert(migrate::with_or_dissolve(slices::behind(rest, " with "@)) == w) by {
        if let Some(x) = t {
            law_transitions_are_kept(x);
        }
    }
    reveal_with_fuel(migrate::at_index, 4);
    let k = migrate::at_index(tokens, 0);
    match face {
        Some(f) => {
            assert(tokens[1] == f);
            if place is Some {
                assert(tokens[2] == "at"@ && tokens[3] == place->0);
                assert(k == 2);
            } else {
                assert(tokens.len() == 2);
                assert(k == 2);
            }
        },
        None => {
            if place is Some {
                assert(tokens[1] == "at"@ && tokens[2] == place->0);
                assert(k == 1);
            } else {
                assert(tokens.len() == 1);
                assert(k == 1);
            }
        },
    }
    assert(migrate::show_text(c, Seq::empty()) =~= "+ "@ + name + (match face {
        Some(f) => " "@ + f,
        None => Seq::empty(),
    }) + " enters"@ + (match place {
        Some(p) => " from "@ + p,
        None => Seq::empty(),
    }) + w + "\n"@);
    lemma_written(c, migrate::show_text(c, Seq::empty()));
}

/// Music that is stopped is stopped, whatever follows.
pub proof fn law_stop_music(more: Seq<char>)
    requires
        more.len() == 0 || !slices::is_space(more.last()),
        is_usual("stop music"@ + more),
    ensures
        becomes("stop music"@ + more, "@stop_music\n"@),
        forall|chars: Pairs| #[trigger]
            migrate::block_line("stop music"@ + more, chars) == "@stop_music\n"@,
{
    lemma_keywords();
    reveal_strlit("stop music");
    reveal_strlit("stop");
    reveal_strlit("music");
    let c = "stop music"@ + more;
    let rest = "music"@ + more;
    assert(c =~= stated("stop"@, rest));
    assert(text_laws::is_bare(rest)) by {
        assert(rest[0] == 'm');
        if more.len() == 0 {
            assert(rest.last() == 'c');
        } else {
            assert(rest.last() == more.last());
        }
    }
    lemma_usual("stop"@, rest);
    lemma_statement(c, "stop"@, rest);
    lemma_operand("stop"@, rest);
    lemma_not_init(c);
    assert(rest.subrange(0, 5) =~= "music"@);
    assert(!migrate::is_quote(rest));
    lemma_written(c, "@stop_music\n"@);
}

} // verus!
