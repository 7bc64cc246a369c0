//! What the quick conversion makes of each line.

use crate::rpy;
use crate::rpy::Converted;
use crate::slices;
use crate::text;
use crate::text_laws;
use vstd::prelude::*;

verus! {

/// Whether a line is converted to one line, with nothing to warn of.
pub open spec fn becomes(line: Seq<char>, out: Seq<char>) -> bool {
    rpy::converted(line) == Converted { lines: seq![out], warnings: Seq::empty() }
}

proof fn lemma_first(p: Seq<char>, x: Seq<char>)
    ensures
        text::starts_with(p + x, p),
        rpy::rest(p + x, p.len() as int) == x,
{
    let t = p + x;
    assert(t.subrange(0, p.len() as int) =~= p);
    assert(t.subrange(p.len() as int, t.len() as int) =~= x);
}

proof fn lemma_agree(t: Seq<char>, p: Seq<char>)
    ensures
        text::starts_with(t, p) ==> t.len() >= p.len(),
        text::starts_with(t, p) ==> forall|j: int|
            #![trigger t[j]]
            #![trigger p[j]]
            0 <= j < p.len() ==> t[j] == p[j],
{
    if text::starts_with(t, p) {
        assert forall|j: int| 0 <= j < p.len() implies t[j] == #[trigger] p[j] by {
            assert(t.subrange(0, p.len() as int)[j] == t[j]);
        }
    }
}

/// How the lines begin that the conversion tells apart.
proof fn lemma_heads(t: Seq<char>)
    ensures
        text::starts_with(t, "python:"@) ==> t.len() >= 7 && t[0] == 'p' && t[1] == 'y' && t[2] == 't' && t[3] == 'h' && t[4] == 'o' && t[5] == 'n' && t[6] == ':',
        text::starts_with(t, "$ "@) ==> t.len() >= 2 && t[0] == '$' && t[1] == ' ',
        text::starts_with(t, "label "@) ==> t.len() >= 6 && t[0] == 'l' && t[1] == 'a' && t[2] == 'b' && t[3] == 'e' && t[4] == 'l' && t[5] == ' ',
        text::starts_with(t, "scene "@) ==> t.len() >= 6 && t[0] == 's' && t[1] == 'c' && t[2] == 'e' && t[3] == 'n' && t[4] == 'e' && t[5] == ' ',
        text::starts_with(t, "show "@) ==> t.len() >= 5 && t[0] == 's' && t[1] == 'h' && t[2] == 'o' && t[3] == 'w' && t[4] == ' ',
        text::starts_with(t, "hide "@) ==> t.len() >= 5 && t[0] == 'h' && t[1] == 'i' && t[2] == 'd' && t[3] == 'e' && t[4] == ' ',
        text::starts_with(t, "menu:"@) ==> t.len() >= 5 && t[0] == 'm' && t[1] == 'e' && t[2] == 'n' && t[3] == 'u' && t[4] == ':',
        text::starts_with(t, "return"@) ==> t.len() >= 6 && t[0] == 'r' && t[1] == 'e' && t[2] == 't' && t[3] == 'u' && t[4] == 'r' && t[5] == 'n',
        text::starts_with(t, "jump "@) ==> t.len() >= 5 && t[0] == 'j' && t[1] == 'u' && t[2] == 'm' && t[3] == 'p' && t[4] == ' ',
        text::starts_with(t, "play music"@) ==> t.len() >= 10 && t[0] == 'p' && t[1] == 'l' && t[2] == 'a' && t[3] == 'y' && t[4] == ' ' && t[5] == 'm' && t[6] == 'u' && t[7] == 's' && t[8] == 'i' && t[9] == 'c',
        text::starts_with(t, "play sound"@) ==> t.len() >= 10 && t[0] == 'p' && t[1] == 'l' && t[2] == 'a' && t[3] == 'y' && t[4] == ' ' && t[5] == 's' && t[6] == 'o' && t[7] == 'u' && t[8] == 'n' && t[9] == 'd',
        text::starts_with(t, "stop music"@) ==> t.len() >= 10 && t[0] == 's' && t[1] == 't' && t[2] == 'o' && t[3] == 'p' && t[4] == ' ' && t[5] == 'm' && t[6] == 'u' && t[7] == 's' && t[8] == 'i' && t[9] == 'c',
        text::starts_with(t, "stop sound"@) ==> t.len() >= 10 && t[0] == 's' && t[1] == 't' && t[2] == 'o' && t[3] == 'p' && t[4] == ' ' && t[5] == 's' && t[6] == 'o' && t[7] == 'u' && t[8] == 'n' && t[9] == 'd',
        text::starts_with(t, "with "@) ==> t.len() >= 5 && t[0] == 'w' && t[1] == 'i' && t[2] == 't' && t[3] == 'h' && t[4] == ' ',
        text::starts_with(t, "call "@) ==> t.len() >= 5 && t[0] == 'c' && t[1] == 'a' && t[2] == 'l' && t[3] == 'l' && t[4] == ' ',
        text::starts_with(t, "if "@) ==> t.len() >= 3 && t[0] == 'i' && t[1] == 'f' && t[2] == ' ',
        text::starts_with(t, "while "@) ==> t.len() >= 6 && t[0] == 'w' && t[1] == 'h' && t[2] == 'i' && t[3] == 'l' && t[4] == 'e' && t[5] == ' ',
        text::starts_with(t, "for "@) ==> t.len() >= 4 && t[0] == 'f' && t[1] == 'o' && t[2] == 'r' && t[3] == ' ',
        text::starts_with(t, "define "@) ==> t.len() >= 7 && t[0] == 'd' && t[1] == 'e' && t[2] == 'f' && t[3] == 'i' && t[4] == 'n' && t[5] == 'e' && t[6] == ' ',
        text::starts_with(t, "default "@) ==> t.len() >= 8 && t[0] == 'd' && t[1] == 'e' && t[2] == 'f' && t[3] == 'a' && t[4] == 'u' && t[5] == 'l' && t[6] == 't' && t[7] == ' ',
        text::starts_with(t, "init "@) ==> t.len() >= 5 && t[0] == 'i' && t[1] == 'n' && t[2] == 'i' && t[3] == 't' && t[4] == ' ',
        text::starts_with(t, "image "@) ==> t.len() >= 6 && t[0] == 'i' && t[1] == 'm' && t[2] == 'a' && t[3] == 'g' && t[4] == 'e' && t[5] == ' ',
        text::starts_with(t, "transform "@) ==> t.len() >= 10 && t[0] == 't' && t[1] == 'r' && t[2] == 'a' && t[3] == 'n' && t[4] == 's' && t[5] == 'f' && t[6] == 'o' && t[7] == 'r' && t[8] == 'm' && t[9] == ' ',
        text::starts_with(t, "animation "@) ==> t.len() >= 10 && t[0] == 'a' && t[1] == 'n' && t[2] == 'i' && t[3] == 'm' && t[4] == 'a' && t[5] == 't' && t[6] == 'i' && t[7] == 'o' && t[8] == 'n' && t[9] == ' ',
{
    reveal_strlit("python:");
    lemma_agree(t, "python:"@);
    reveal_strlit("$ ");
    lemma_agree(t, "$ "@);
    reveal_strlit("label ");
    lemma_agree(t, "label "@);
    reveal_strlit("scene ");
    lemma_agree(t, "scene "@);
    reveal_strlit("show ");
    lemma_agree(t, "show "@);
    reveal_strlit("hide ");
    lemma_agree(t, "hide "@);
    reveal_strlit("menu:");
    lemma_agree(t, "menu:"@);
    reveal_strlit("return");
    lemma_agree(t, "return"@);
    reveal_strlit("jump ");
    lemma_agree(t, "jump "@);
    reveal_strlit("play music");
    lemma_agree(t, "play music"@);
    reveal_strlit("play sound");
    lemma_agree(t, "play sound"@);
    reveal_strlit("stop music");
    lemma_agree(t, "stop music"@);
    reveal_strlit("stop sound");
    lemma_agree(t, "stop sound"@);
    reveal_strlit("with ");
    lemma_agree(t, "with "@);
    reveal_strlit("call ");
    lemma_agree(t, "call "@);
    reveal_strlit("if ");
    lemma_agree(t, "if "@);
    reveal_strlit("while ");
    lemma_agree(t, "while "@);
    reveal_strlit("for ");
    lemma_agree(t, "for "@);
    reveal_strlit("define ");
    lemma_agree(t, "define "@);
    reveal_strlit("default ");
    lemma_agree(t, "default "@);
    reveal_strlit("init ");
    lemma_agree(t, "init "@);
    reveal_strlit("image ");
    lemma_agree(t, "image "@);
    reveal_strlit("transform ");
    lemma_agree(t, "transform "@);
    reveal_strlit("animation ");
    lemma_agree(t, "animation "@);
}

// ---------------------------------------------------------------------------
// Statements
// ---------------------------------------------------------------------------

proof fn lemma_bare(p: Seq<char>, x: Seq<char>)
    requires
        p.len() > 0,
        !slices::is_space(p[0]),
        x.len() > 0,
        !slices::is_space(x.last()),
    ensures
        slices::trim(p + x) == p + x,
{
    let t = p + x;
    assert(t[0] == p[0]);
    assert(t.last() == x.last());
    text_laws::law_trim_keeps(Seq::empty(), t, Seq::empty());
}

/// A label becomes the head of a section of that name.
pub proof fn law_label(name: Seq<char>)
    requires
        text_laws::is_bare(name),
        name.last() != ':',
    ensures
        becomes("label "@ + name + ":"@, "# "@ + name),
{
    reveal_strlit("label ");
    reveal_strlit(":");
    let x = name.push(':');
    let t = "label "@ + name + ":"@;
    assert("label "@ + x =~= t);
    lemma_first("label "@, x);
    lemma_heads(t);
    lemma_bare("label "@, x);
    assert(x.drop_last() =~= name);
    assert(slices::strip_end(name, ':') == name);
    assert(slices::strip_end(x, ':') == name);
}

/// A jump goes to the same place.
pub proof fn law_jump(name: Seq<char>)
    requires
        text_laws::is_bare(name),
    ensures
        becomes("jump "@ + name, "-> "@ + name),
{
    reveal_strlit("jump ");
    let t = "jump "@ + name;
    lemma_first("jump "@, name);
    lemma_heads(t);
    lemma_bare("jump "@, name);
    text_laws::law_trim_keeps(Seq::empty(), name, Seq::empty());
}

/// The end of a story is the end of the story.
pub proof fn law_return(more: Seq<char>)
    requires
        more.len() == 0 || !slices::is_space(more.last()),
    ensures
        becomes("return"@ + more, "~~"@),
{
    reveal_strlit("return");
    let t = "return"@ + more;
    lemma_first("return"@, more);
    lemma_heads(t);
    assert(t.last() == (if more.len() == 0 {
        'n'
    } else {
        more.last()
    }));
    text_laws::law_trim_keeps(Seq::empty(), t, Seq::empty());
}

/// A menu opens a choice without a prompt.
pub proof fn law_menu(more: Seq<char>)
    requires
        more.len() == 0 || !slices::is_space(more.last()),
    ensures
        becomes("menu:"@ + more, "? \"\""@),
{
    reveal_strlit("menu:");
    let t = "menu:"@ + more;
    lemma_first("menu:"@, more);
    lemma_heads(t);
    assert(t.last() == (if more.len() == 0 {
        ':'
    } else {
        more.last()
    }));
    text_laws::law_trim_keeps(Seq::empty(), t, Seq::empty());
}

proof fn lemma_name(name: Seq<char>, tail: Seq<char>)
    requires
        text_laws::is_one_word(name),
        tail.len() == 0 || slices::is_space(tail[0]),
    ensures
        slices::first_word(name + tail) == name,
{
    text_laws::law_words(Seq::empty(), name, tail);
    assert(Seq::empty() + name + tail =~= name + tail);
}

/// A character that is hidden leaves.
pub proof fn law_hide(name: Seq<char>)
    requires
        text_laws::is_one_word(name),
    ensures
        becomes("hide "@ + name, "- "@ + name),
{
    reveal_strlit("hide ");
    let t = "hide "@ + name;
    lemma_first("hide "@, name);
    lemma_heads(t);
    lemma_bare("hide "@, name);
    lemma_name(name, Seq::empty());
    assert(name + Seq::empty() =~= name);
}

/// A character that is shown enters, at the place that is named.
pub proof fn law_show(name: Seq<char>)
    requires
        text_laws::is_one_word(name),
        !text::contains("show "@ + name + " at right"@, "at left"@),
        !text::contains("show "@ + name, "at left"@),
        !text::contains("show "@ + name, "at right"@),
    ensures
        becomes("show "@ + name, "+ "@ + name),
        becomes("show "@ + name + " at left"@, "+ "@ + name + " at left"@),
        becomes("show "@ + name + " at right"@, "+ "@ + name + " at right"@),
{
    reveal_strlit("show ");
    reveal_strlit(" at left");
    reveal_strlit("at left");
    reveal_strlit(" at right");
    reveal_strlit("at right");
    let n = 5 + name.len() as int;
    let t = "show "@ + name;
    lemma_first("show "@, name);
    lemma_heads(t);
    lemma_bare("show "@, name);
    lemma_name(name, Seq::empty());
    assert(name + Seq::empty() =~= name);
    let x = name + " at left"@;
    let l = "show "@ + name + " at left"@;
    assert("show "@ + x =~= l);
    lemma_first("show "@, x);
    lemma_heads(l);
    assert(x.last() == 't');
    lemma_bare("show "@, x);
    lemma_name(name, " at left"@);
    assert(l.subrange(n + 1, n + 8) =~= "at left"@);
    assert(text::occurs_at(l, "at left"@, n + 1));
    text::law_contains(l, "at left"@);
    let y = name + " at right"@;
    let r = "show "@ + name + " at right"@;
    assert("show "@ + y =~= r);
    lemma_first("show "@, y);
    lemma_heads(r);
    assert(y.last() == 't');
    lemma_bare("show "@, y);
    lemma_name(name, " at right"@);
    assert(r.subrange(n + 1, n + 9) =~= "at right"@);
    assert(text::occurs_at(r, "at right"@, n + 1));
    text::law_contains(r, "at right"@);
}

/// A scene becomes the background of that name, with the transition that is named.
pub proof fn law_scene(name: Seq<char>)
    requires
        text_laws::is_one_word(name),
        !text::contains("scene "@ + name + " with dissolve"@, "with fade"@),
        !text::contains("scene "@ + name, "with fade"@),
        !text::contains("scene "@ + name, "with dissolve"@),
    ensures
        becomes("scene "@ + name, "@bg "@ + name),
        becomes("scene "@ + name + " with fade"@, "@bg "@ + name + " with fade"@),
        becomes("scene "@ + name + " with dissolve"@, "@bg "@ + name + " with dissolve"@),
{
    reveal_strlit("scene ");
    reveal_strlit(" with fade");
    reveal_strlit("with fade");
    reveal_strlit(" with dissolve");
    reveal_strlit("with dissolve");
    let n = 6 + name.len() as int;
    let t = "scene "@ + name;
    lemma_first("scene "@, name);
    lemma_heads(t);
    lemma_bare("scene "@, name);
    lemma_name(name, Seq::empty());
    assert(name + Seq::empty() =~= name);
    let x = name + " with fade"@;
    let l = "scene "@ + name + " with fade"@;
    assert("scene "@ + x =~= l);
    lemma_first("scene "@, x);
    lemma_heads(l);
    assert(x.last() == 'e');
    lemma_bare("scene "@, x);
    lemma_name(name, " with fade"@);
    assert(l.subrange(n + 1, n + 10) =~= "with fade"@);
    assert(text::occurs_at(l, "with fade"@, n + 1));
    text::law_contains(l, "with fade"@);
    let y = name + " with dissolve"@;
    let r = "scene "@ + name + " with dissolve"@;
    assert("scene "@ + y =~= r);
    lemma_first("scene "@, y);
    lemma_heads(r);
    assert(y.last() == 'e');
    lemma_bare("scene "@, y);
    lemma_name(name, " with dissolve"@);
    assert(r.subrange(n + 1, n + 14) =~= "with dissolve"@);
    assert(text::occurs_at(r, "with dissolve"@, n + 1));
    text::law_contains(r, "with dissolve"@);
}

/// A comment stays a comment.
pub proof fn law_comment(t: Seq<char>)
    requires
        text_laws::is_bare(t),
        t[0] != '#',
        !text::contains("# "@ + t, "renpy."@),
        !text::contains("# "@ + t, "Ren'Py"@),
    ensures
        becomes("# "@ + t, "// "@ + t),
{
    reveal_strlit("# ");
    let c = "# "@ + t;
    lemma_heads(c);
    lemma_bare("# "@, t);
    let tail = c.subrange(1, c.len() as int);
    assert(tail =~= seq![' '] + t + Seq::empty());
    assert(slices::strip_start(tail, '#') == tail);
    assert(slices::strip_start(c, '#') == tail);
    text_laws::law_trim_keeps(seq![' '], t, Seq::empty());
}

// ---------------------------------------------------------------------------
// Text
// ---------------------------------------------------------------------------

proof fn lemma_unquoted(x: Seq<char>)
    requires
        x.len() > 0,
        x[0] != '"',
        x.last() != '"',
    ensures
        rpy::unquoted(seq!['"'] + x + seq!['"']) == x,
{
    let s = seq!['"'] + x + seq!['"'];
    let t = s.subrange(1, s.len() as int);
    assert(t =~= x.push('"'));
    assert(slices::strip_start(t, '"') == t);
    assert(slices::strip_start(s, '"') == t);
    assert(t.drop_last() =~= x);
    assert(slices::strip_end(x, '"') == x);
}

/// A narrated text keeps its words.
pub proof fn law_narration(x: Seq<char>)
    requires
        x.len() > 0,
        x != seq![' '],
        !x.contains('"'),
    ensures
        becomes(seq!['"'] + x + seq!['"'], "\""@ + x + "\""@),
{
    let t = seq!['"'] + x + seq!['"'];
    assert(x.contains(x[0]) && x.contains(x.last()));
    lemma_heads(t);
    text_laws::law_trim_keeps(Seq::empty(), t, Seq::empty());
    lemma_unquoted(x);
    reveal_strlit("\" \"");
    assert forall|i: int| !text::occurs_at(t, "\" \""@, i) by {
        if text::occurs_at(t, "\" \""@, i) {
            let p = "\" \""@;
            assert(p[0] == '"' && p[1] == ' ' && p[2] == '"');
            assert(t.subrange(i, i + 3)[0] == t[i]);
            assert(t.subrange(i, i + 3)[2] == t[i + 2]);
            assert(t.subrange(i, i + 3)[1] == t[i + 1]);
            if i > 0 {
                assert(t[i] == x[i - 1]);
                assert(x.contains(x[i - 1]));
            } else if i == 0 && x.len() > 1 {
                assert(t[2] == x[1]);
                assert(x.contains(x[1]));
            } else {
                assert(t[1] == x[0]);
                assert(x =~= seq![' ']);
            }
        }
    }
    if text::contains(t, "\" \""@) {
        text::law_contains(t, "\" \""@);
    }
}

/// What a character says is said by the same character.
pub proof fn law_speech(who: Seq<char>, what: Seq<char>)
    requires
        text_laws::is_bare(who),
        text_laws::is_bare(what),
        !who.contains('"'),
        !what.contains('"'),
    ensures
        becomes(
            seq!['"'] + who + seq!['"', ' ', '"'] + what + seq!['"'],
            who + ": \""@ + what + "\""@,
        ),
{
    let t = seq!['"'] + who + seq!['"', ' ', '"'] + what + seq!['"'];
    lemma_heads(t);
    text_laws::law_trim_keeps(Seq::empty(), t, Seq::empty());
    reveal_strlit("\" \"");
    let p = "\" \""@;
    assert(p[0] == '"' && p[1] == ' ' && p[2] == '"');
    let k = 1 + who.len() as int;
    assert(t.subrange(k, k + 3) =~= p);
    assert forall|i: int| 0 <= i < k implies !text::occurs_at(t, p, i) by {
        if text::occurs_at(t, p, i) {
            assert(t.subrange(i, i + 3)[0] == t[i]);
            assert(t.subrange(i, i + 3)[1] == t[i + 1]);
            if i > 0 {
                assert(t[i] == who[i - 1]);
                assert(who.contains(who[i - 1]));
            } else {
                assert(t[1] == who[0]);
            }
        }
    }
    text_laws::law_first_occurrence(t, p, k);
    text::law_contains(t, p);
    let head = seq!['"'] + who;
    assert(t.take(k) =~= head);
    assert(who.contains(who[0]));
    assert(head.subrange(1, head.len() as int) =~= who);
    assert(slices::strip_start(who, '"') == who);
    assert(slices::strip_start(head, '"') == who);
    let tail = what.push('"');
    assert(t.skip(k + 3) =~= tail);
    assert(what.contains(what.last()));
    assert(tail.drop_last() =~= what);
    assert(slices::strip_end(what, '"') == what);
    assert(slices::strip_end(tail, '"') == what);
    text_laws::law_trim_keeps(Seq::empty(), who, Seq::empty());
    text_laws::law_trim_keeps(Seq::empty(), what, Seq::empty());
}

/// An option keeps its text; a jump behind it goes to the same place.
pub proof fn law_option(x: Seq<char>, target: Seq<char>)
    requires
        text_laws::is_bare(x),
        text_laws::is_bare(target),
        !x.contains('"'),
        !x.contains(':'),
        !target.contains('"'),
        !target.contains(':'),
    ensures
        becomes(seq!['"'] + x + seq!['"', ':'], "| \""@ + x + "\""@),
        rpy::converted(seq!['"'] + x + seq!['"', ':', ' '] + "jump "@ + target) == (Converted {
            lines: seq!["| \""@ + x + "\""@, "    -> "@ + target],
            warnings: Seq::empty(),
        }),
{
    lemma_option(x, Seq::empty());
    reveal_strlit("jump ");
    let tail = seq![' '] + ("jump "@ + target);
    let s = "jump "@ + target;
    assert(s[0] == 'j');
    assert(s.last() == target.last());
    assert forall|i: int| 0 <= i < tail.len() implies tail[i] != '"' by {
        if i >= 6 {
            assert(tail[i] == target[i - 6]);
            assert(target.contains(target[i - 6]));
        }
    }
    lemma_option(x, tail);
    let t = seq!['"'] + x + seq!['"', ':'] + tail;
    assert(seq!['"'] + x + seq!['"', ':', ' '] + "jump "@ + target =~= t);
    text_laws::law_trim_keeps(seq![' '], s, Seq::empty());
    assert(seq![' '] + s + Seq::empty() =~= tail);
    lemma_first("jump "@, target);
    text_laws::law_trim_keeps(Seq::empty(), target, Seq::empty());
    let u = seq!['"'] + x + seq!['"', ':'];
    assert(u + Seq::empty() =~= u);
    assert(slices::trim(Seq::empty()) =~= Seq::<char>::empty());
}

proof fn lemma_option(x: Seq<char>, tail: Seq<char>)
    requires
        text_laws::is_bare(x),
        !x.contains('"'),
        !x.contains(':'),
        forall|i: int| 0 <= i < tail.len() ==> #[trigger] tail[i] != '"',
        tail.len() == 0 || !slices::is_space(tail.last()),
    ensures
        ({
            let line = "| \""@ + x + "\""@;
            let after = slices::trim(tail);
            rpy::converted(seq!['"'] + x + seq!['"', ':'] + tail) == (if text::starts_with(
                after,
                "jump "@,
            ) {
                Converted {
                    lines: seq![line, "    -> "@ + slices::trim(rpy::rest(after, 5))],
                    warnings: Seq::empty(),
                }
            } else {
                rpy::one_line(line)
            })
        }),
{
    let t = seq!['"'] + x + seq!['"', ':'] + tail;
    lemma_heads(t);
    assert(t.last() == (if tail.len() == 0 {
        ':'
    } else {
        tail.last()
    }));
    text_laws::law_trim_keeps(Seq::empty(), t, Seq::empty());
    assert(x.contains(x[0]) && x.contains(x.last()));
    lemma_unquoted(x);
    reveal_strlit("\" \"");
    reveal_strlit(":");
    let p = "\" \""@;
    assert(p[0] == '"' && p[1] == ' ' && p[2] == '"');
    let n = x.len() as int;
    assert forall|i: int| !text::occurs_at(t, p, i) by {
        if text::occurs_at(t, p, i) {
            assert(t.subrange(i, i + 3)[0] == t[i]);
            assert(t.subrange(i, i + 3)[1] == t[i + 1]);
            assert(t.subrange(i, i + 3)[2] == t[i + 2]);
            if 0 < i <= n {
                assert(t[i] == x[i - 1]);
                assert(x.contains(x[i - 1]));
            } else if i == 0 {
                assert(t[1] == x[0]);
            } else if i > n + 2 {
                assert(t[i] == tail[i - n - 3]);
            }
        }
    }
    if text::contains(t, p) {
        text::law_contains(t, p);
    }
    let k = n + 2;
    assert(t[k] == ':');
    assert(t.subrange(k, k + 1) =~= ":"@);
    assert forall|i: int| 0 <= i < k implies !text::occurs_at(t, ":"@, i) by {
        if text::occurs_at(t, ":"@, i) {
            assert(t.subrange(i, i + 1)[0] == t[i]);
            if 0 < i <= n {
                assert(t[i] == x[i - 1]);
                assert(x.contains(x[i - 1]));
            }
        }
    }
    text_laws::law_first_occurrence(t, ":"@, k);
    text::law_contains(t, ":"@);
    assert(t.take(k) =~= seq!['"'] + x + seq!['"']);
    assert(t.skip(k + 1) =~= tail);
    text_laws::law_trim_keeps(Seq::empty(), x, Seq::empty());
    assert(t.last() != '"');
}

// ---------------------------------------------------------------------------
// What is not converted
// ---------------------------------------------------------------------------

/// Whether a line gives nothing but a warning.
pub open spec fn warns(line: Seq<char>, warning: Seq<char>) -> bool {
    rpy::converted(line) == Converted { lines: Seq::empty(), warnings: seq![warning] }
}

/// Music and sounds are only reported.
pub proof fn law_audio(p: Seq<char>, x: Seq<char>)
    requires
        p == "play music"@ || p == "play sound"@ || p == "stop music"@ || p == "stop sound"@,
        x.len() > 0,
        !slices::is_space(x.last()),
    ensures
        warns(p + x, "音频播放指令未转换："@ + p + x),
{
    reveal_strlit("play music");
    reveal_strlit("play sound");
    reveal_strlit("stop music");
    reveal_strlit("stop sound");
    let t = p + x;
    lemma_first(p, x);
    lemma_heads(t);
    if p == "play music"@ {
        reveal_strlit("play music");
        assert(t[0] == 'p');
    }
    if p == "play sound"@ {
        reveal_strlit("play sound");
        assert(t[0] == 'p');
    }
    if p == "stop music"@ {
        reveal_strlit("stop music");
        assert(t[0] == 's');
    }
    if p == "stop sound"@ {
        reveal_strlit("stop sound");
        assert(t[0] == 's');
    }
    lemma_bare(p, x);
    assert("音频播放指令未转换："@ + t =~= "音频播放指令未转换："@ + p + x);
}

/// A transition by itself is only reported.
pub proof fn law_with(p: Seq<char>, x: Seq<char>)
    requires
        p == "with "@,
        x.len() > 0,
        !slices::is_space(x.last()),
    ensures
        warns(p + x, "独立过渡指令未转换："@ + p + x),
{
    reveal_strlit("with ");
    let t = p + x;
    lemma_first(p, x);
    lemma_heads(t);
    if p == "with "@ {
        reveal_strlit("with ");
        assert(t[0] == 'w');
    }
    lemma_bare(p, x);
    assert("独立过渡指令未转换："@ + t =~= "独立过渡指令未转换："@ + p + x);
}

/// Calls, conditions and loops are only reported.
pub proof fn law_control(p: Seq<char>, x: Seq<char>)
    requires
        p == "call "@ || p == "if "@ || p == "while "@ || p == "for "@,
        x.len() > 0,
        !slices::is_space(x.last()),
    ensures
        warns(p + x, "复杂流程控制未转换："@ + p + x),
{
    reveal_strlit("call ");
    reveal_strlit("if ");
    reveal_strlit("while ");
    reveal_strlit("for ");
    let t = p + x;
    lemma_first(p, x);
    lemma_heads(t);
    if p == "call "@ {
        reveal_strlit("call ");
        assert(t[0] == 'c');
    }
    if p == "if "@ {
        reveal_strlit("if ");
        assert(t[0] == 'i');
    }
    if p == "while "@ {
        reveal_strlit("while ");
        assert(t[0] == 'w');
    }
    if p == "for "@ {
        reveal_strlit("for ");
        assert(t[0] == 'f');
    }
    lemma_bare(p, x);
    assert("复杂流程控制未转换："@ + t =~= "复杂流程控制未转换："@ + p + x);
}

/// Definitions are only reported.
pub proof fn law_definitions(p: Seq<char>, x: Seq<char>)
    requires
        p == "define "@ || p == "default "@ || p == "init "@,
        x.len() > 0,
        !slices::is_space(x.last()),
    ensures
        warns(p + x, "定义/初始化块未转换："@ + p + x),
{
    reveal_strlit("define ");
    reveal_strlit("default ");
    reveal_strlit("init ");
    let t = p + x;
    lemma_first(p, x);
    lemma_heads(t);
    if p == "define "@ {
        reveal_strlit("define ");
        assert(t[0] == 'd');
    }
    if p == "default "@ {
        reveal_strlit("default ");
        assert(t[0] == 'd');
    }
    if p == "init "@ {
        reveal_strlit("init ");
        assert(t[0] == 'i');
    }
    lemma_bare(p, x);
    assert("定义/初始化块未转换："@ + t =~= "定义/初始化块未转换："@ + p + x);
}

/// Images and animations are only reported.
pub proof fn law_images(p: Seq<char>, x: Seq<char>)
    requires
        p == "image "@ || p == "transform "@ || p == "animation "@,
        x.len() > 0,
        !slices::is_space(x.last()),
    ensures
        warns(p + x, "图像/动画定义未转换："@ + p + x),
{
    reveal_strlit("image ");
    reveal_strlit("transform ");
    reveal_strlit("animation ");
    let t = p + x;
    lemma_first(p, x);
    lemma_heads(t);
    if p == "image "@ {
        reveal_strlit("image ");
        assert(t[0] == 'i');
    }
    if p == "transform "@ {
        reveal_strlit("transform ");
        assert(t[0] == 't');
    }
    if p == "animation "@ {
        reveal_strlit("animation ");
        assert(t[0] == 'a');
    }
    lemma_bare(p, x);
    assert("图像/动画定义未转换："@ + t =~= "图像/动画定义未转换："@ + p + x);
}

/// Code is passed over.
pub proof fn law_code(x: Seq<char>)
    requires
        x.len() > 0,
        !slices::is_space(x.last()),
    ensures
        rpy::converted("$ "@ + x) == rpy::nothing(),
        rpy::converted("python:"@ + x) == rpy::nothing(),
        rpy::converted(Seq::empty()) == rpy::nothing(),
{
    reveal_strlit("$ ");
    reveal_strlit("python:");
    lemma_first("$ "@, x);
    lemma_bare("$ "@, x);
    lemma_first("python:"@, x);
    lemma_bare("python:"@, x);
    assert(slices::trim(Seq::empty()) =~= Seq::<char>::empty());
}

/// White space around a line changes nothing.
pub proof fn law_blanks(a: Seq<char>, line: Seq<char>, b: Seq<char>)
    requires
        text_laws::is_bare(line),
        text_laws::all_blank(a),
        text_laws::all_blank(b),
    ensures
        rpy::converted(a + line + b) == rpy::converted(line),
{
    text_laws::law_trim_keeps(a, line, b);
}

/// The lines of a script are converted one by one, in their order, and a script
/// without a beginning is warned about first.
pub proof fn law_lines(content: Seq<char>, line: Seq<char>)
    requires
        slices::lines(content).len() > 0,
        slices::lines(content).last() == line,
    ensures
        ({
            let front = rpy::converted_lines(slices::lines(content).drop_last(), rpy::nothing());
            let start = if text::contains(content, "label start:"@) {
                Seq::<Seq<char>>::empty()
            } else {
                seq!["未检测到 'label start:'，可能不是标准的 Ren'Py 剧本文件"@]
            };
            &&& rpy::conversion(content).lines == front.lines + rpy::converted(line).lines
            &&& rpy::conversion(content).warnings == start + front.warnings + rpy::converted(
                line,
            ).warnings
        }),
{
    let start = if text::contains(content, "label start:"@) {
        rpy::nothing()
    } else {
        rpy::warning("未检测到 'label start:'，可能不是标准的 Ren'Py 剧本文件"@)
    };
    lemma_started(slices::lines(content).drop_last(), start);
}

proof fn lemma_started(lines: Seq<Seq<char>>, start: Converted)
    ensures
        rpy::converted_lines(lines, start).lines == start.lines + rpy::converted_lines(
            lines,
            rpy::nothing(),
        ).lines,
        rpy::converted_lines(lines, start).warnings == start.warnings + rpy::converted_lines(
            lines,
            rpy::nothing(),
        ).warnings,
    decreases lines.len(),
{
    if lines.len() > 0 {
        lemma_started(lines.drop_last(), start);
    }
}

/// An import shows its warnings, and that there are none where there are none.
pub proof fn law_warnings_are_shown(warnings: Seq<Seq<char>>)
    ensures
        warnings.len() > 0 ==> rpy::shown_warnings(warnings) == warnings,
        warnings.len() == 0 ==> rpy::shown_warnings(warnings) == seq!["转换完成，无警告"@],
{
}

} // verus!
