//! Names of files and folders: what a script is saved as, where a project
//! begins, and which names a listing shows.

use crate::order;
use crate::order::sort_strings;
use crate::slices;
use crate::slices::{
    begins_with, ends_with_str, find_char, is_text, lines_of, push_str, starts_with_str, trim_of,
};
use crate::text;
use crate::text::{from_chars, has_string, to_chars, to_lower_case};
use vstd::prelude::*;
use vstd::slice::slice_subrange;

verus! {

// ---------------------------------------------------------------------------
// File names
// ---------------------------------------------------------------------------

/// Whether a character separates the parts of a path.
pub open spec fn is_separator(c: char) -> bool {
    c == '/' || c == '\\'
}

/// The text without its separators.
pub open spec fn joined_parts(s: Seq<char>) -> Seq<char>
    decreases s.len(),
{
    if s.len() == 0 {
        s
    } else if is_separator(s.last()) {
        joined_parts(s.drop_last())
    } else {
        joined_parts(s.drop_last()).push(s.last())
    }
}

/// The text without white space at its ends and without separators.
pub open spec fn bare_name(input: Seq<char>) -> Seq<char> {
    joined_parts(slices::trim(input))
}

/// The name that a script is saved under.
pub open spec fn file_name(input: Seq<char>) -> Seq<char> {
    let name = bare_name(input);
    if name.len() == 0 {
        "untitled.akrs"@
    } else if text::ends_with(name, ".akrs"@) {
        name
    } else {
        name + ".akrs"@
    }
}

/// The name that a script is saved under: path separators are left out, a name
/// that is empty is replaced, and the extension is added where it is missing.
pub fn sanitize_filename(input: &str) -> (r: String)
    ensures
        r@ == file_name(input@),
{
    let cs: Vec<char> = to_chars(input);
    let t: &[char] = trim_of(cs.as_slice());
    let mut name: Vec<char> = Vec::new();
    let n: usize = t.len();
    let mut i: usize = 0;
    assert(name@ =~= joined_parts(t@.take(0)));
    while i < n
        invariant
            i <= n,
            n == t@.len(),
            name@ == joined_parts(t@.take(i as int)),
        decreases n - i,
    {
        let c: char = t[i];
        assert(t@.take(i + 1).drop_last() =~= t@.take(i as int));
        assert(t@.take(i + 1).last() == c);
        if c != '/' && c != '\\' {
            name.push(c);
        }
        i = i + 1;
    }
    assert(t@.take(n as int) =~= t@);
    assert(name@ == bare_name(input@));
    if name.len() == 0 {
        return "untitled.akrs".to_owned();
    }
    if !ends_with_str(name.as_slice(), ".akrs") {
        push_str(&mut name, ".akrs");
    }
    from_chars(name.as_slice())
}

proof fn lemma_joined_parts(s: Seq<char>)
    ensures
        forall|k: int|
            0 <= k < joined_parts(s).len() ==> !is_separator(#[trigger] joined_parts(s)[k]),
        (forall|k: int| 0 <= k < s.len() ==> !is_separator(s[k])) ==> joined_parts(s) == s,
    decreases s.len(),
{
    if s.len() > 0 {
        lemma_joined_parts(s.drop_last());
        assert(s =~= s.drop_last().push(s.last()));
        assert(forall|k: int| 0 <= k < s.len() - 1 ==> s.drop_last()[k] == s[k]);
        assert forall|k: int| 0 <= k < joined_parts(s).len() implies !is_separator(
            #[trigger] joined_parts(s)[k],
        ) by {
            if k < joined_parts(s.drop_last()).len() {
                assert(joined_parts(s)[k] == joined_parts(s.drop_last())[k]);
            }
        }
    }
}

/// A saved name ends in the extension and holds no separator.
pub proof fn law_file_name(input: Seq<char>)
    ensures
        text::ends_with(file_name(input), ".akrs"@),
        forall|k: int| 0 <= k < file_name(input).len() ==> !is_separator(file_name(input)[k]),
{
    reveal_strlit(".akrs");
    reveal_strlit("untitled.akrs");
    let name = bare_name(input);
    lemma_joined_parts(slices::trim(input));
    if name.len() == 0 {
        assert("untitled.akrs"@.subrange(8, 13) =~= ".akrs"@);
    } else if !text::ends_with(name, ".akrs"@) {
        let full = name + ".akrs"@;
        assert(full.subrange(full.len() - 5, full.len() as int) =~= ".akrs"@);
    }
}

/// Saving under a saved name keeps it, unless the name begins with white space.
pub proof fn law_file_name_stays(input: Seq<char>)
    requires
        !slices::is_space(file_name(input)[0]),
    ensures
        file_name(file_name(input)) == file_name(input),
{
    reveal_strlit(".akrs");
    law_file_name(input);
    let name = file_name(input);
    assert(name.subrange(name.len() - 5, name.len() as int) == ".akrs"@);
    assert(name.last() == name.subrange(name.len() - 5, name.len() as int)[4]);
    assert(slices::trim(name) == name);
    lemma_joined_parts(name);
}

// ---------------------------------------------------------------------------
// The folder of a project
// ---------------------------------------------------------------------------

/// A folder, with what was found in it.
pub struct Folder {
    pub path: String,
    /// Whether it holds a file `project.json`.
    pub has_project_file: bool,
    /// Whether it holds a folder `assets`.
    pub has_assets: bool,
}

impl Folder {
    /// Whether a project begins here.
    pub open spec fn is_root(&self) -> bool {
        self.has_project_file || self.has_assets
    }
}

/// The index of the first folder from `i` on where a project begins, or the
/// number of folders.
pub open spec fn root_index(parents: Seq<Folder>, i: int) -> int
    decreases parents.len() - i,
{
    if 0 <= i < parents.len() && !parents[i].is_root() {
        root_index(parents, i + 1)
    } else {
        i
    }
}

/// The folder that a script belongs to.
pub open spec fn project_root(parents: Seq<Folder>) -> Seq<char> {
    let i = root_index(parents, 0);
    if parents.len() == 0 {
        "."@
    } else if i < parents.len() {
        parents[i].path@
    } else {
        parents[0].path@
    }
}

/// The folder of the project that a script belongs to: the nearest of the
/// folders around it where a project begins, or else the one it lies in. The
/// folders are given from the inside out.
pub fn infer_project_root(parents: &Vec<Folder>) -> (r: String)
    ensures
        r@ == project_root(parents@),
{
    if parents.len() == 0 {
        return ".".to_owned();
    }
    let mut i: usize = 0;
    while i < parents.len() && !(parents[i].has_project_file || parents[i].has_assets)
        invariant
            i <= parents@.len(),
            root_index(parents@, 0) == root_index(parents@, i as int),
        decreases parents@.len() - i,
    {
        i = i + 1;
    }
    if i < parents.len() {
        parents[i].path.clone()
    } else {
        parents[0].path.clone()
    }
}

// ---------------------------------------------------------------------------
// Names of programs
// ---------------------------------------------------------------------------

/// How far a manifest has been read: whether the lines belong to a program, and
/// the names so far.
pub struct BinScan {
    pub in_bin: bool,
    pub names: Seq<Seq<char>>,
}

/// The name that a line of a program's section gives it.
pub open spec fn bin_name(line: Seq<char>) -> Option<Seq<char>> {
    let k = slices::index_of(line, '=', 0);
    if k >= line.len() || slices::trim(line.subrange(0, k)) != "name"@ {
        None
    } else {
        let value = slices::trim(line.subrange(k + 1, line.len() as int));
        if slices::begins(value, '"') || slices::begins(value, '\'') {
            let rest = value.subrange(1, value.len() as int);
            let e = slices::index_of(rest, value[0], 0);
            if e < rest.len() {
                Some(rest.subrange(0, e))
            } else {
                None
            }
        } else {
            None
        }
    }
}

/// The scan after one more line.
pub open spec fn bin_line(st: BinScan, raw: Seq<char>) -> BinScan {
    let line = slices::trim(raw);
    if line.len() == 0 || slices::begins(line, '#') {
        st
    } else if text::starts_with(line, "[["@) {
        BinScan { in_bin: line == "[[bin]]"@, ..st }
    } else if slices::begins(line, '[') {
        BinScan { in_bin: false, ..st }
    } else if !st.in_bin {
        st
    } else {
        match bin_name(line) {
            Some(name) => if name.len() > 0 && !st.names.contains(name) {
                BinScan { names: st.names.push(name), ..st }
            } else {
                st
            },
            None => st,
        }
    }
}

/// The scan after the given lines.
pub open spec fn bin_lines(lines: Seq<Seq<char>>, names: Seq<Seq<char>>) -> BinScan
    decreases lines.len(),
{
    if lines.len() == 0 {
        BinScan { in_bin: false, names }
    } else {
        bin_line(bin_lines(lines.drop_last(), names), lines.last())
    }
}

/// The names, with those that a manifest gives its programs.
pub open spec fn bin_names(content: Seq<char>, names: Seq<Seq<char>>) -> Seq<Seq<char>> {
    bin_lines(slices::lines(content), names).names
}

fn bin_name_of(line: &[char]) -> (r: Option<String>)
    ensures
        text::opt_view(r) == bin_name(line@),
{
    let k: usize = find_char(line, '=', 0);
    let n: usize = line.len();
    if k >= n || !is_text(trim_of(slice_subrange(line, 0, k)), "name") {
        return None;
    }
    let value: &[char] = trim_of(slice_subrange(line, k + 1, n));
    if begins_with(value, '"') || begins_with(value, '\'') {
        let rest: &[char] = slice_subrange(value, 1, value.len());
        let e: usize = find_char(rest, value[0], 0);
        if e < rest.len() {
            return Some(from_chars(slice_subrange(rest, 0, e)));
        }
    }
    None
}

/// Adds the names that a manifest gives its programs, each once.
pub fn parse_bin_names(content: &str, names: &mut Vec<String>)
    ensures
        text::views(final(names)@) == bin_names(content@, text::views(old(names)@)),
{
    let cs: Vec<char> = to_chars(content);
    let lines: Vec<&[char]> = lines_of(cs.as_slice());
    let ghost all = slices::slice_views(lines@);
    let ghost start = text::views(names@);
    let n: usize = lines.len();
    let mut in_bin: bool = false;
    let mut i: usize = 0;
    assert(all.take(0) =~= Seq::empty());
    while i < n
        invariant
            i <= n,
            n == lines@.len(),
            all == slices::slice_views(lines@),
            (BinScan { in_bin, names: text::views(names@) }) == bin_lines(
                all.take(i as int),
                start,
            ),
        decreases n - i,
    {
        proof {
            assert(all.take(i + 1).drop_last() =~= all.take(i as int));
            assert(all.take(i + 1).last() == lines@[i as int]@);
        }
        let line: &[char] = trim_of(lines[i]);
        if line.len() == 0 || begins_with(line, '#') {
        } else if starts_with_str(line, "[[") {
            in_bin = is_text(line, "[[bin]]");
        } else if begins_with(line, '[') {
            in_bin = false;
        } else if in_bin {
            match bin_name_of(line) {
                Some(name) => {
                    let long: Vec<char> = to_chars(name.as_str());
                    if long.len() > 0 && !has_string(names, name.as_str()) {
                        let ghost before = text::views(names@);
                        let ghost added = name@;
                        names.push(name);
                        assert(text::views(names@) =~= before.push(added));
                    }
                },
                None => {},
            }
        }
        i = i + 1;
    }
    assert(all.take(n as int) =~= all);
}

/// The names after reading the given manifests.
pub open spec fn all_bin_names(manifests: Seq<Seq<char>>) -> Seq<Seq<char>>
    decreases manifests.len(),
{
    if manifests.len() == 0 {
        Seq::empty()
    } else {
        bin_names(manifests.last(), all_bin_names(manifests.drop_last()))
    }
}

/// The names of the programs; that of the folder where no manifest names one.
pub open spec fn program_names(
    manifests: Seq<Seq<char>>,
    folder: Option<Seq<char>>,
) -> Seq<Seq<char>> {
    let names = all_bin_names(manifests);
    if names.len() > 0 {
        names
    } else {
        match folder {
            Some(name) => seq![name],
            None => seq!["akrs-game"@],
        }
    }
}

/// The names of the programs that the manifests define, in order and each once.
/// `manifests` holds the contents of those that could be read; `folder` is the
/// name of the folder, which stands in where there is none.
pub fn read_binary_names(manifests: &Vec<String>, folder: &Option<String>) -> (r: Vec<String>)
    ensures
        text::views(r@) == program_names(text::views(manifests@), text::opt_view(*folder)),
{
    let mut names: Vec<String> = Vec::new();
    let ghost all = text::views(manifests@);
    let n: usize = manifests.len();
    let mut i: usize = 0;
    assert(all.take(0) =~= Seq::empty());
    assert(text::views(names@) =~= Seq::empty());
    while i < n
        invariant
            i <= n,
            n == manifests@.len(),
            all == text::views(manifests@),
            text::views(names@) == all_bin_names(all.take(i as int)),
        decreases n - i,
    {
        proof {
            assert(all.take(i + 1).drop_last() =~= all.take(i as int));
            assert(all.take(i + 1).last() == manifests@[i as int]@);
        }
        parse_bin_names(manifests[i].as_str(), &mut names);
        i = i + 1;
    }
    assert(all.take(n as int) =~= all);
    assert(text::views(names@).len() == names@.len());
    if names.len() == 0 {
        match folder {
            Some(name) => names.push(name.clone()),
            None => names.push("akrs-game".to_owned()),
        }
        assert(text::views(names@) =~= program_names(all, text::opt_view(*folder)));
    }
    names
}

// ---------------------------------------------------------------------------
// Listings
// ---------------------------------------------------------------------------

/// Texts in lower case.
pub open spec fn lower_cases(s: Seq<Seq<char>>) -> Seq<Seq<char>> {
    Seq::new(s.len(), |i: int| text::lower_case(s[i]))
}

/// Whether a name ends in one of the extensions.
pub open spec fn has_extension(name: Seq<char>, exts: Seq<Seq<char>>) -> bool {
    exists|k: int| 0 <= k < exts.len() && text::ends_with(name, #[trigger] exts[k])
}

/// Whether a name ends in one of the extensions.
pub fn ends_in_one(name: &str, exts: &Vec<String>) -> (r: bool)
    ensures
        r == has_extension(name@, text::views(exts@)),
{
    let cs: Vec<char> = to_chars(name);
    let mut k: usize = 0;
    while k < exts.len()
        invariant
            k <= exts@.len(),
            cs@ == name@,
            forall|j: int| 0 <= j < k ==> !text::ends_with(name@, #[trigger] text::views(exts@)[j]),
        decreases exts@.len() - k,
    {
        if ends_with_str(cs.as_slice(), exts[k].as_str()) {
            assert(text::ends_with(name@, text::views(exts@)[k as int]));
            return true;
        }
        k = k + 1;
    }
    false
}

/// The names that a listing shows: those that end in one of the extensions,
/// where upper and lower case make no difference on either side.
pub open spec fn listed(names: Seq<Seq<char>>, exts: Seq<Seq<char>>) -> Seq<Seq<char>> {
    names.filter(|name: Seq<char>| has_extension(text::lower_case(name), lower_cases(exts)))
}

fn lower_all(list: &Vec<String>) -> (r: Vec<String>)
    ensures
        text::views(r@) == lower_cases(text::views(list@)),
{
    let mut r: Vec<String> = Vec::new();
    let n: usize = list.len();
    let mut i: usize = 0;
    while i < n
        invariant
            i <= n,
            n == list@.len(),
            r@.len() == i,
            forall|j: int| 0 <= j < i ==> (#[trigger] r@[j])@ == text::lower_case(list@[j]@),
        decreases n - i,
    {
        r.push(to_lower_case(list[i].as_str()));
        i = i + 1;
    }
    assert(text::views(r@) =~= lower_cases(text::views(list@)));
    r
}

/// The names of files that end in one of the extensions, in order. Upper and
/// lower case make no difference.
pub fn scan_dir(names: &Vec<String>, exts: &Vec<String>) -> (r: Vec<String>)
    ensures
        order::in_order(text::views(r@)),
        text::views(r@).to_multiset() == listed(
            text::views(names@),
            text::views(exts@),
        ).to_multiset(),
{
    let ghost all = text::views(names@);
    let ghost es = lower_cases(text::views(exts@));
    let ghost keep = |name: Seq<char>| has_extension(text::lower_case(name), es);
    let lower_exts: Vec<String> = lower_all(exts);
    let n: usize = names.len();
    let mut items: Vec<String> = Vec::new();
    let mut i: usize = 0;
    proof {
        reveal(Seq::filter);
        assert(text::views(items@) =~= all.take(0).filter(keep));
    }
    while i < n
        invariant
            i <= n,
            n == names@.len(),
            all == text::views(names@),
            es == text::views(lower_exts@),
            keep == (|name: Seq<char>| has_extension(text::lower_case(name), es)),
            text::views(items@) == all.take(i as int).filter(keep),
        decreases n - i,
    {
        proof {
            reveal(Seq::filter);
            assert(all.take(i + 1).drop_last() =~= all.take(i as int));
            assert(all.take(i + 1).last() == names@[i as int]@);
        }
        let lower: String = to_lower_case(names[i].as_str());
        if ends_in_one(lower.as_str(), &lower_exts) {
            let ghost before = text::views(items@);
            items.push(names[i].clone());
            assert(text::views(items@) =~= before.push(names@[i as int]@));
        }
        i = i + 1;
    }
    assert(all.take(n as int) =~= all);
    sort_strings(&items)
}

} // verus!
