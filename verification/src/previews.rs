//! The preview panels: which pictures and tunes they offer, and the lines that
//! they make for the script.

use crate::order;
use crate::order::sort_strings;
use crate::parse;
use crate::slices;
use crate::slices::trim_of;
use crate::text;
use crate::text::{concat2, concat4, from_chars, lower_char, to_chars};
use vstd::prelude::*;
use vstd::slice::slice_subrange;

verus! {

// ---------------------------------------------------------------------------
// Files
// ---------------------------------------------------------------------------

/// Whether two texts differ at most in the case of the letters A to Z.
pub open spec fn same_letters(a: Seq<char>, b: Seq<char>) -> bool {
    a.len() == b.len() && forall|i: int|
        0 <= i < a.len() ==> text::lower(#[trigger] a[i]) == text::lower(b[i])
}

/// The position of the last dot, or zero where there is none.
pub open spec fn last_dot(name: Seq<char>) -> int
    decreases name.len(),
{
    if name.len() == 0 {
        0
    } else if name.last() == '.' {
        name.len() - 1
    } else {
        last_dot(name.drop_last())
    }
}

/// The name of a file without its extension, where it has one of those.
pub open spec fn asset_name(name: Seq<char>, exts: Seq<Seq<char>>) -> Option<Seq<char>> {
    let k = last_dot(name);
    if k > 0 && exists|e: int|
        0 <= e < exts.len() && same_letters(
            name.subrange(k + 1, name.len() as int),
            #[trigger] exts[e],
        ) {
        Some(name.subrange(0, k))
    } else {
        None
    }
}

/// The names of the files that have one of the extensions.
pub open spec fn asset_names(names: Seq<Seq<char>>, exts: Seq<Seq<char>>) -> Seq<Seq<char>>
    decreases names.len(),
{
    if names.len() == 0 {
        Seq::empty()
    } else {
        let before = asset_names(names.drop_last(), exts);
        match asset_name(names.last(), exts) {
            Some(name) => before.push(name),
            None => before,
        }
    }
}

fn have_same_letters(a: &[char], b: &str) -> (r: bool)
    ensures
        r == same_letters(a@, b@),
{
    let bs: Vec<char> = to_chars(b);
    if a.len() != bs.len() {
        return false;
    }
    let mut i: usize = 0;
    while i < a.len()
        invariant
            i <= a@.len(),
            a@.len() == bs@.len(),
            bs@ == b@,
            forall|j: int| 0 <= j < i ==> text::lower(#[trigger] a@[j]) == text::lower(b@[j]),
        decreases a@.len() - i,
    {
        if lower_char(a[i]) != lower_char(bs[i]) {
            return false;
        }
        i = i + 1;
    }
    true
}

/// The position of the last dot of a name, or zero where there is none.
pub fn find_last_dot(name: &[char]) -> (k: usize)
    ensures
        k == last_dot(name@),
        k <= name@.len(),
        k > 0 ==> k < name@.len(),
{
    let mut n: usize = name.len();
    assert(name@.take(n as int) =~= name@);
    while n > 0
        invariant
            n <= name@.len(),
            last_dot(name@) == last_dot(name@.take(n as int)),
        decreases n,
    {
        assert(name@.take(n as int).last() == name@[n - 1]);
        assert(name@.take(n as int).drop_last() =~= name@.take(n - 1));
        n = n - 1;
        if name[n] == '.' {
            return n;
        }
    }
    0
}

fn name_of_asset(name: &str, exts: &Vec<String>) -> (r: Option<String>)
    ensures
        text::opt_view(r) == asset_name(name@, text::views(exts@)),
{
    let cs: Vec<char> = to_chars(name);
    let n: usize = cs.len();
    let k: usize = find_last_dot(cs.as_slice());
    if k == 0 {
        return None;
    }
    let ext: &[char] = slice_subrange(cs.as_slice(), k + 1, n);
    let mut e: usize = 0;
    while e < exts.len()
        invariant
            e <= exts@.len(),
            cs@ == name@,
            0 < k < cs@.len(),
            k == last_dot(name@),
            ext@ == name@.subrange(k + 1, name@.len() as int),
            forall|j: int|
                0 <= j < e ==> !same_letters(ext@, #[trigger] text::views(exts@)[j]),
        decreases exts@.len() - e,
    {
        if have_same_letters(ext, exts[e].as_str()) {
            assert(same_letters(ext@, text::views(exts@)[e as int]));
            return Some(from_chars(slice_subrange(cs.as_slice(), 0, k)));
        }
        e = e + 1;
    }
    None
}

/// The names, in order and without their extension, of the files that have one
/// of the extensions. The case of the letters A to Z makes no difference to an
/// extension.
pub fn list_assets(names: &Vec<String>, exts: &Vec<String>) -> (r: Vec<String>)
    ensures
        order::in_order(text::views(r@)),
        text::views(r@).to_multiset() == asset_names(
            text::views(names@),
            text::views(exts@),
        ).to_multiset(),
{
    let ghost all = text::views(names@);
    let ghost es = text::views(exts@);
    let n: usize = names.len();
    let mut found: Vec<String> = Vec::new();
    let mut i: usize = 0;
    assert(text::views(found@) =~= asset_names(all.take(0), es));
    while i < n
        invariant
            i <= n,
            n == names@.len(),
            all == text::views(names@),
            es == text::views(exts@),
            text::views(found@) == asset_names(all.take(i as int), es),
        decreases n - i,
    {
        proof {
            assert(all.take(i + 1).drop_last() =~= all.take(i as int));
            assert(all.take(i + 1).last() == names@[i as int]@);
        }
        match name_of_asset(names[i].as_str(), exts) {
            Some(name) => {
                let ghost before = text::views(found@);
                let ghost added = name@;
                found.push(name);
                assert(text::views(found@) =~= before.push(added));
            },
            None => {},
        }
        i = i + 1;
    }
    assert(all.take(n as int) =~= all);
    sort_strings(&found)
}

/// What is selected after a listing: the first of the names, where nothing was
/// selected before.
pub fn selected_after(selected: &str, available: &Vec<String>) -> (r: String)
    ensures
        r@ == (if selected@.len() == 0 && available@.len() > 0 {
            available@[0]@
        } else {
            selected@
        }),
{
    let cs: Vec<char> = to_chars(selected);
    if cs.len() == 0 && available.len() > 0 {
        available[0].clone()
    } else {
        selected.to_owned()
    }
}

// ---------------------------------------------------------------------------
// Lines for the script
// ---------------------------------------------------------------------------

/// The name that a sprite gets in the script: that of the picture where no
/// other was entered.
pub open spec fn sprite_name(character: Seq<char>, selected: Seq<char>) -> Seq<char> {
    if slices::trim(character).len() == 0 {
        selected
    } else {
        character
    }
}

/// The line that shows a sprite, with the texts of its place and size.
pub open spec fn sprite_syntax_of(
    name: Seq<char>,
    x: Seq<char>,
    y: Seq<char>,
    scale: Seq<char>,
) -> Seq<char> {
    "+ "@ + name + " at "@ + x + ","@ + y + " size "@ + scale
}

/// The line that shows a background.
pub open spec fn bg_syntax_of(selected: Seq<char>, transition: Seq<char>) -> Seq<char> {
    if selected.len() == 0 {
        "（未选择背景）"@
    } else {
        "@bg "@ + selected + " with "@ + transition
    }
}

/// The line that plays a tune.
pub open spec fn music_syntax_of(selected: Seq<char>) -> Seq<char> {
    if selected.len() == 0 {
        "（未选择音乐）"@
    } else {
        "@music "@ + selected
    }
}

/// The line that ends the music.
pub const STOP_MUSIC: &'static str = "@stop_music";

/// The name that a sprite gets in the script.
pub fn sprite_label(character: &str, selected: &str) -> (r: String)
    ensures
        r@ == sprite_name(character@, selected@),
{
    let cs: Vec<char> = to_chars(character);
    if trim_of(cs.as_slice()).len() == 0 {
        selected.to_owned()
    } else {
        character.to_owned()
    }
}

/// The line that shows a sprite. The host gives the numbers as texts with two
/// decimals.
pub fn sprite_syntax(name: &str, x: &str, y: &str, scale: &str) -> (r: String)
    ensures
        r@ == sprite_syntax_of(name@, x@, y@, scale@),
{
    let mut r: String = concat4("+ ", name, " at ", x);
    r.append(",");
    r.append(y);
    r.append(" size ");
    r.append(scale);
    r
}

/// The line that takes a sprite away.
pub fn hide_syntax(name: &str) -> (r: String)
    ensures
        r@ == "- "@ + name@,
{
    let mut r: String = "- ".to_owned();
    r.append(name);
    r
}

/// The line that shows a background.
pub fn bg_syntax(selected: &str, transition: &str) -> (r: String)
    ensures
        r@ == bg_syntax_of(selected@, transition@),
{
    let cs: Vec<char> = to_chars(selected);
    if cs.len() == 0 {
        "（未选择背景）".to_owned()
    } else {
        concat4("@bg ", selected, " with ", transition)
    }
}

/// The line that plays a tune.
pub fn music_syntax(selected: &str) -> (r: String)
    ensures
        r@ == music_syntax_of(selected@),
{
    let cs: Vec<char> = to_chars(selected);
    if cs.len() == 0 {
        "（未选择音乐）".to_owned()
    } else {
        concat2("@music ", selected)
    }
}

// ---------------------------------------------------------------------------
// Reading the lines back
// ---------------------------------------------------------------------------

/// Whether a text is one word.
pub open spec fn is_word(w: Seq<char>) -> bool {
    w.len() > 0 && forall|i: int| 0 <= i < w.len() ==> !slices::is_space(#[trigger] w[i])
}

proof fn lemma_word_len(w: Seq<char>, tail: Seq<char>)
    requires
        forall|i: int| 0 <= i < w.len() ==> !slices::is_space(#[trigger] w[i]),
        tail.len() == 0 || slices::is_space(tail[0]),
    ensures
        slices::word_len(w + tail) == w.len(),
    decreases w.len(),
{
    let s = w + tail;
    if w.len() > 0 {
        let rest = w.subrange(1, w.len() as int);
        lemma_word_len(rest, tail);
        assert(s.subrange(1, s.len() as int) =~= rest + tail);
        assert(s[0] == w[0]);
    } else {
        assert(s =~= tail);
    }
}

proof fn lemma_first_of_words(w: Seq<char>, tail: Seq<char>)
    requires
        is_word(w),
        tail.len() == 0 || slices::is_space(tail[0]),
    ensures
        slices::words(w + tail) == seq![w] + slices::words(tail),
{
    let s = w + tail;
    assert(s[0] == w[0]);
    lemma_word_len(w, tail);
    assert(s.subrange(0, w.len() as int) =~= w);
    assert(s.subrange(w.len() as int, s.len() as int) =~= tail);
}

proof fn lemma_words_behind_space(s: Seq<char>)
    ensures
        slices::words(" "@ + s) == slices::words(s),
{
    reveal_strlit(" ");
    let t = " "@ + s;
    assert(t.subrange(1, t.len() as int) =~= s);
    assert(slices::trim_start(t) == slices::trim_start(s));
    slices::lemma_trim_start_head(s);
}

proof fn lemma_name_len(w: Seq<char>, tail: Seq<char>, i: int)
    requires
        0 <= i <= w.len(),
        forall|j: int| 0 <= j < w.len() ==> !slices::is_space(#[trigger] w[j]) && w[j] != '(',
        tail.len() > 0 && slices::is_space(tail[0]),
    ensures
        parse::name_len(w + tail, i) == w.len(),
    decreases w.len() - i,
{
    let s = w + tail;
    if i < w.len() {
        assert(s[i] == w[i]);
        lemma_name_len(w, tail, i + 1);
    } else {
        assert(s[i] == tail[0]);
    }
}

proof fn lemma_index_behind(a: Seq<char>, c: char, b: Seq<char>, i: int)
    requires
        0 <= i <= a.len(),
        !a.contains(c),
        b.len() > 0,
        b[0] == c,
    ensures
        slices::index_of(a + b, c, i) == a.len(),
    decreases a.len() - i,
{
    let s = a + b;
    if i < a.len() {
        assert(s[i] == a[i]);
        lemma_index_behind(a, c, b, i + 1);
    } else {
        assert(s[i] == b[0]);
    }
}

proof fn lemma_trim_word(w: Seq<char>)
    requires
        is_word(w),
    ensures
        slices::trim(w) == w,
{
    assert(!slices::is_space(w[0]));
    assert(!slices::is_space(w[w.len() - 1]));
}

/// The words behind the name in the line that shows a sprite.
proof fn lemma_sprite_words(x: Seq<char>, y: Seq<char>, scale: Seq<char>)
    requires
        is_word(x),
        is_word(y),
        is_word(scale),
    ensures
        slices::words(" at "@ + x + ","@ + y + " size "@ + scale) == seq![
            "at"@,
            x + ","@ + y,
            "size"@,
            scale,
        ],
{
    reveal_strlit(" at ");
    reveal_strlit("at");
    reveal_strlit(" ");
    reveal_strlit(",");
    reveal_strlit(" size ");
    reveal_strlit("size");
    let place = x + ","@ + y;
    let end = scale;
    let last = " "@ + end;
    let third = "size"@ + last;
    let second = " "@ + third;
    let first = place + second;
    let zero = " "@ + first;
    let whole = " "@ + ("at"@ + zero);
    assert(" at "@ + x + ","@ + y + " size "@ + scale =~= whole);
    assert forall|i: int| 0 <= i < place.len() implies !slices::is_space(#[trigger] place[i]) by {
        if i < x.len() {
            assert(place[i] == x[i]);
        } else if i > x.len() {
            assert(place[i] == y[i - x.len() - 1]);
        }
    }
    lemma_words_behind_space("at"@ + zero);
    lemma_first_of_words("at"@, zero);
    lemma_words_behind_space(first);
    lemma_first_of_words(place, second);
    lemma_words_behind_space(third);
    lemma_first_of_words("size"@, last);
    lemma_words_behind_space(end);
    assert(end =~= end + Seq::<char>::empty());
    lemma_first_of_words(end, Seq::empty());
    assert(slices::words(Seq::<char>::empty()) =~= Seq::empty());
    assert(slices::words(whole) =~= seq!["at"@, place, "size"@, scale]);
}

/// The line that the panel makes for a sprite is read back as it was made: its
/// numbers are found, and with their values the name, the place and the size.
pub proof fn law_sprite_reads_back(
    name: Seq<char>,
    x: Seq<char>,
    y: Seq<char>,
    scale: Seq<char>,
    values: (u32, u32, u32),
)
    requires
        is_word(name),
        !name.contains('('),
        is_word(x),
        is_word(y),
        is_word(scale),
        !x.contains(','),
        parse::is_positive(values.2),
    ensures
        parse::numbers_of(sprite_syntax_of(name, x, y, scale)) == seq![x, y, scale],
        parse::sprite_line(
            sprite_syntax_of(name, x, y, scale),
            seq![Some(values.0), Some(values.1), Some(values.2)],
        ) == Some(
            parse::ParsedSpriteLine {
                character_name: name,
                selected: name,
                x: values.0,
                y: values.1,
                scale: values.2,
            },
        ),
{
    reveal_strlit("+ ");
    reveal_strlit(" ");
    reveal_strlit(" at ");
    reveal_strlit("at");
    reveal_strlit("size");
    reveal_strlit(",");
    let line = sprite_syntax_of(name, x, y, scale);
    let tail = " at "@ + x + ","@ + y + " size "@ + scale;
    let rest = name + tail;
    assert(line =~= "+ "@ + rest);
    assert(slices::trim_start(line) == line);
    assert(line.subrange(1, line.len() as int) =~= " "@ + rest);
    assert((" "@ + rest).subrange(1, (1 + rest.len()) as int) =~= rest);
    assert(rest[0] == name[0]);
    assert(slices::trim_start(rest) == rest);
    assert(slices::trim_start(" "@ + rest) == rest);
    assert forall|j: int| 0 <= j < name.len() implies !slices::is_space(#[trigger] name[j])
        && name[j] != '(' by {
        assert(name.contains(name[j]));
    }
    lemma_name_len(name, tail, 0);
    assert(rest.subrange(0, name.len() as int) =~= name);
    assert(rest.subrange(name.len() as int, rest.len() as int) =~= tail);
    let trimmed = slices::trim_start(tail);
    assert(tail =~= " "@ + tail.subrange(1, tail.len() as int));
    assert(trimmed == tail.subrange(1, tail.len() as int)) by {
        assert(tail[0] == ' ');
        assert(tail[1] == 'a');
        let at = tail.subrange(1, tail.len() as int);
        assert(at[0] == 'a');
        assert(slices::trim_start(at) == at);
    }
    assert(trimmed[0] == 'a');
    lemma_words_behind_space(trimmed);
    lemma_sprite_words(x, y, scale);
    let words = slices::words(trimmed);
    let place = x + ","@ + y;
    assert(words == seq!["at"@, place, "size"@, scale]);
    assert(place =~= x + (","@ + y));
    lemma_index_behind(x, ',', ","@ + y, 0);
    assert(place.subrange(0, x.len() as int) =~= x);
    assert(place.subrange((x.len() + 1) as int, place.len() as int) =~= y);
    lemma_trim_word(x);
    lemma_trim_word(y);
    assert(parse::at_numbers(place) =~= seq![x, y]);
    assert("size"@[0] != "at"@[0]);
    let numbers = seq![Some(values.0), Some(values.1), Some(values.2)];
    assert(parse::numbers_from(words, 4) =~= Seq::empty());
    assert(parse::numbers_from(words, 2) =~= seq![scale]);
    assert(parse::numbers_from(words, 0) =~= seq![x, y, scale]);
    let p = parse::SpritePlace { x: values.0, y: values.1, scale: values.2 };
    assert(parse::placed_from(words, 4, numbers, 3, p) == Some(p));
    assert(parse::placed_from(
        words,
        2,
        numbers,
        2,
        parse::SpritePlace { scale: parse::ONE, ..p },
    ) == Some(p));
}

/// The lines that the panels make for a background and a tune are read back as
/// they were made.
pub proof fn law_command_reads_back(selected: Seq<char>, transition: Seq<char>)
    requires
        is_word(selected),
        selected[0] != '"',
    ensures
        parse::command_line(bg_syntax_of(selected, transition)) == Some(
            parse::ParsedCommandLine { command: "bg"@, resource: selected },
        ),
        parse::command_line(music_syntax_of(selected)) == Some(
            parse::ParsedCommandLine { command: "music"@, resource: selected },
        ),
{
    reveal_strlit("@bg ");
    reveal_strlit("@music ");
    reveal_strlit("@");
    reveal_strlit("bg");
    reveal_strlit("music");
    reveal_strlit(" ");
    reveal_strlit(" with ");
    assert(bg_syntax_of(selected, transition) =~= "@"@ + ("bg"@ + (" "@ + (selected + (" with "@
        + transition)))));
    lemma_command("bg"@, selected, " with "@ + transition);
    assert(music_syntax_of(selected) =~= "@"@ + ("music"@ + (" "@ + (selected + Seq::empty()))));
    lemma_command("music"@, selected, Seq::empty());
}

proof fn lemma_command(command: Seq<char>, selected: Seq<char>, tail: Seq<char>)
    requires
        is_word(command),
        is_word(selected),
        selected[0] != '"',
        tail.len() == 0 || slices::is_space(tail[0]),
    ensures
        parse::command_line("@"@ + (command + (" "@ + (selected + tail)))) == Some(
            parse::ParsedCommandLine { command, resource: selected },
        ),
{
    reveal_strlit("@");
    reveal_strlit(" ");
    let args = selected + tail;
    let behind = " "@ + args;
    let rest = command + behind;
    let line = "@"@ + rest;
    assert(line.subrange(1, line.len() as int) =~= rest);
    assert(rest[0] == command[0]);
    lemma_word_len(command, behind);
    assert(rest.subrange(0, command.len() as int) =~= command);
    assert(rest.subrange(command.len() as int, rest.len() as int) =~= behind);
    assert(behind.subrange(1, behind.len() as int) =~= args);
    assert(args[0] == selected[0]);
    assert(slices::trim_start(args) == args);
    assert(slices::trim_start(behind) == args);
    lemma_word_len(selected, tail);
    assert(args.subrange(0, selected.len() as int) =~= selected);
}

} // verus!
