//! The dialogs that choose a file or a folder. The host reads the folders.

use crate::order;
use crate::order::{sort_strings, sorted_places, SortKey};
use crate::previews;
use crate::previews::find_last_dot;
use crate::slices::is_text;
use crate::text;
use crate::text::{concat2, contains_str, to_chars, to_lower_case};
use vstd::prelude::*;
use vstd::slice::slice_subrange;

verus! {

/// A file or folder in a dialog.
#[derive(Debug)]
pub struct PickerEntry<S = String> {
    pub name: S,
    pub is_dir: bool,
}

impl View for PickerEntry<String> {
    type V = PickerEntry<Seq<char>>;

    open spec fn view(&self) -> PickerEntry<Seq<char>> {
        PickerEntry { name: self.name@, is_dir: self.is_dir }
    }
}

pub open spec fn picker_views(v: Seq<PickerEntry>) -> Seq<PickerEntry<Seq<char>>> {
    Seq::new(v.len(), |i: int| v[i]@)
}

/// Whether an entry is shown: it has a name, and the name holds the filter,
/// upper and lower case apart.
pub open spec fn passes(entry: PickerEntry<Seq<char>>, filter: Seq<char>) -> bool {
    entry.name.len() > 0 && (text::lower_case(filter).len() == 0 || text::contains(
        text::lower_case(entry.name),
        text::lower_case(filter),
    ))
}

/// The entries that are shown, as they were read.
pub open spec fn passing(
    entries: Seq<PickerEntry<Seq<char>>>,
    filter: Seq<char>,
) -> Seq<PickerEntry<Seq<char>>>
    decreases entries.len(),
{
    if entries.len() == 0 {
        entries
    } else {
        let front = passing(entries.drop_last(), filter);
        if passes(entries.last(), filter) {
            front.push(entries.last())
        } else {
            front
        }
    }
}

/// What the entries are sorted by: folders come first, and then the name
/// decides; it counts in lower case where `fold` is set.
pub open spec fn keys_of(entries: Seq<PickerEntry<Seq<char>>>, fold: bool) -> Seq<
    SortKey<Seq<char>>,
> {
    Seq::new(
        entries.len(),
        |i: int|
            SortKey {
                front: entries[i].is_dir,
                text: if fold {
                    text::lower_case(entries[i].name)
                } else {
                    entries[i].name
                },
            },
    )
}

/// The entries at the given places.
pub open spec fn at_places(
    entries: Seq<PickerEntry<Seq<char>>>,
    places: Seq<usize>,
) -> Seq<PickerEntry<Seq<char>>> {
    Seq::new(places.len(), |i: int| entries[places[i] as int])
}

/// Whether one list holds the entries of another in their order; entries with
/// equal keys stay as they were.
pub open spec fn is_sorting(
    entries: Seq<PickerEntry<Seq<char>>>,
    sorted: Seq<PickerEntry<Seq<char>>>,
    fold: bool,
) -> bool {
    exists|places: Seq<usize>| #[trigger]
        order::is_order_of(keys_of(entries, fold), entries.len() as int, places) && sorted
            == at_places(entries, places)
}

fn keep_passing(entries: &Vec<PickerEntry>, filter: &str) -> (r: Vec<PickerEntry>)
    ensures
        picker_views(r@) == passing(picker_views(entries@), filter@),
{
    let ghost all = picker_views(entries@);
    let lower: String = to_lower_case(filter);
    let lowers: Vec<char> = to_chars(lower.as_str());
    let mut kept: Vec<PickerEntry> = Vec::new();
    let n: usize = entries.len();
    let mut i: usize = 0;
    assert(picker_views(kept@) =~= passing(all.take(0), filter@));
    while i < n
        invariant
            i <= n,
            n == entries@.len(),
            all == picker_views(entries@),
            lower@ == text::lower_case(filter@),
            lowers@ == lower@,
            picker_views(kept@) == passing(all.take(i as int), filter@),
        decreases n - i,
    {
        proof {
            assert(all.take(i + 1).drop_last() =~= all.take(i as int));
            assert(all.take(i + 1).last() == entries@[i as int]@);
        }
        let name: &String = &entries[i].name;
        let cs: Vec<char> = to_chars(name.as_str());
        let folded: String = to_lower_case(name.as_str());
        if cs.len() > 0 && (lowers.len() == 0 || contains_str(folded.as_str(), lower.as_str())) {
            let ghost before = picker_views(kept@);
            kept.push(PickerEntry { name: name.clone(), is_dir: entries[i].is_dir });
            assert(picker_views(kept@) =~= before.push(all[i as int]));
        }
        i = i + 1;
    }
    assert(all.take(n as int) =~= all);
    kept
}

fn sort_entries(entries: &Vec<PickerEntry>, fold: bool) -> (r: Vec<PickerEntry>)
    ensures
        is_sorting(picker_views(entries@), picker_views(r@), fold),
{
    let ghost all = picker_views(entries@);
    let n: usize = entries.len();
    let mut keys: Vec<SortKey> = Vec::new();
    let mut i: usize = 0;
    while i < n
        invariant
            i <= n,
            n == entries@.len(),
            all == picker_views(entries@),
            keys@.len() == i,
            forall|j: int| 0 <= j < i ==> (#[trigger] keys@[j])@ == keys_of(all, fold)[j],
        decreases n - i,
    {
        let name: &String = &entries[i].name;
        let text: String = if fold {
            to_lower_case(name.as_str())
        } else {
            name.clone()
        };
        keys.push(SortKey { front: entries[i].is_dir, text });
        i = i + 1;
    }
    assert(order::key_views(keys@) =~= keys_of(all, fold));
    let places: Vec<usize> = sorted_places(&keys);
    let mut r: Vec<PickerEntry> = Vec::new();
    let mut j: usize = 0;
    while j < n
        invariant
            j <= n,
            n == entries@.len(),
            n == places@.len(),
            all == picker_views(entries@),
            order::is_order_of(keys_of(all, fold), n as int, places@),
            r@.len() == j,
            forall|k: int| 0 <= k < j ==> (#[trigger] r@[k])@ == all[places@[k] as int],
        decreases n - j,
    {
        let p: usize = places[j];
        r.push(PickerEntry { name: entries[p].name.clone(), is_dir: entries[p].is_dir });
        j = j + 1;
    }
    assert(picker_views(r@) =~= at_places(all, places@));
    r
}

/// The entries of a folder that are shown, folders first, each group by name.
pub fn read_picker_entries(entries: &Vec<PickerEntry>, filter: &str) -> (r: Vec<PickerEntry>)
    ensures
        is_sorting(passing(picker_views(entries@), filter@), picker_views(r@), true),
{
    let kept: Vec<PickerEntry> = keep_passing(entries, filter);
    sort_entries(&kept, true)
}

/// The entries of a folder from which a Ren'Py script is chosen: folders first,
/// each group by name.
pub fn import_entries(entries: &Vec<PickerEntry>) -> (r: Vec<PickerEntry>)
    ensures
        is_sorting(picker_views(entries@), picker_views(r@), false),
{
    sort_entries(entries, false)
}

/// Folders stand before files in a sorted list.
pub proof fn law_folders_first(
    entries: Seq<PickerEntry<Seq<char>>>,
    sorted: Seq<PickerEntry<Seq<char>>>,
    fold: bool,
    i: int,
    j: int,
)
    requires
        is_sorting(entries, sorted, fold),
        0 <= i < j < sorted.len(),
        sorted[j].is_dir,
    ensures
        sorted[i].is_dir,
{
    let keys = keys_of(entries, fold);
    let places = choose|places: Seq<usize>| #[trigger]
        order::is_order_of(keys, entries.len() as int, places) && sorted == at_places(
            entries,
            places,
        );
    assert(order::precedes(keys, places[i] as int, places[j] as int));
}

/// The line of an entry in the dialog.
pub fn entry_label(entry: &PickerEntry) -> (r: String)
    ensures
        r@ == (if entry.is_dir {
            "▸  "@
        } else {
            "📄  "@
        }) + entry.name@,
{
    if entry.is_dir {
        concat2("▸  ", entry.name.as_str())
    } else {
        concat2("📄  ", entry.name.as_str())
    }
}

// ---------------------------------------------------------------------------
// The scripts of a folder
// ---------------------------------------------------------------------------

/// Whether a name is that of a script.
pub open spec fn is_script(name: Seq<char>) -> bool {
    let k = previews::last_dot(name);
    k > 0 && name.subrange(k + 1, name.len() as int) == "akrs"@
}

/// The scripts among the names.
pub open spec fn scripts(names: Seq<Seq<char>>) -> Seq<Seq<char>>
    decreases names.len(),
{
    if names.len() == 0 {
        names
    } else if is_script(names.last()) {
        scripts(names.drop_last()).push(names.last())
    } else {
        scripts(names.drop_last())
    }
}

fn names_script(name: &str) -> (r: bool)
    ensures
        r == is_script(name@),
{
    let cs: Vec<char> = to_chars(name);
    let n: usize = cs.len();
    let k: usize = find_last_dot(cs.as_slice());
    k > 0 && is_text(slice_subrange(cs.as_slice(), k + 1, n), "akrs")
}

/// The scripts of a folder, in order. `names` are the names of its files.
pub fn script_list(names: &Vec<String>) -> (r: Vec<String>)
    ensures
        order::in_order(text::views(r@)),
        text::views(r@).to_multiset() == scripts(text::views(names@)).to_multiset(),
{
    let ghost all = text::views(names@);
    let n: usize = names.len();
    let mut found: Vec<String> = Vec::new();
    let mut i: usize = 0;
    assert(text::views(found@) =~= scripts(all.take(0)));
    while i < n
        invariant
            i <= n,
            n == names@.len(),
            all == text::views(names@),
            text::views(found@) == scripts(all.take(i as int)),
        decreases n - i,
    {
        proof {
            assert(all.take(i + 1).drop_last() =~= all.take(i as int));
            assert(all.take(i + 1).last() == names@[i as int]@);
        }
        if names_script(names[i].as_str()) {
            let ghost before = text::views(found@);
            found.push(names[i].clone());
            assert(text::views(found@) =~= before.push(names@[i as int]@));
        }
        i = i + 1;
    }
    assert(all.take(n as int) =~= all);
    sort_strings(&found)
}

// ---------------------------------------------------------------------------
// The dialog
// ---------------------------------------------------------------------------

/// The dialog that chooses a file.
#[derive(Debug)]
pub struct FilePickerState {
    pub current_dir: String,
    pub entries: Vec<PickerEntry>,
    pub selected: Option<String>,
    pub filter: String,
}

/// What the dialog holds.
pub struct Picking {
    pub dir: Seq<char>,
    pub entries: Seq<PickerEntry<Seq<char>>>,
    pub selected: Option<Seq<char>>,
    pub filter: Seq<char>,
}

impl View for FilePickerState {
    type V = Picking;

    open spec fn view(&self) -> Picking {
        Picking {
            dir: self.current_dir@,
            entries: picker_views(self.entries@),
            selected: text::opt_view(self.selected),
            filter: self.filter@,
        }
    }
}

/// Whether the list that is shown holds the entries of a folder that pass the
/// filter, folders first, each group by name.
pub open spec fn shows(
    shown: Seq<PickerEntry<Seq<char>>>,
    entries: Seq<PickerEntry<Seq<char>>>,
    filter: Seq<char>,
) -> bool {
    is_sorting(passing(entries, filter), shown, true)
}

impl FilePickerState {
    /// The dialog on a folder with the given entries.
    pub fn new(dir: String, entries: &Vec<PickerEntry>) -> (r: Self)
        ensures
            shows(r@.entries, picker_views(entries@), Seq::empty()),
            r@ == (Picking {
                dir: dir@,
                entries: r@.entries,
                selected: None,
                filter: Seq::empty(),
            }),
    {
        let filter: String = String::new();
        assert(filter@ =~= Seq::empty());
        let shown: Vec<PickerEntry> = read_picker_entries(entries, filter.as_str());
        FilePickerState { current_dir: dir, entries: shown, selected: None, filter }
    }

    /// Handles a click on an entry. A file is selected; of a folder the name is
    /// returned, for the host to read it.
    pub fn click(&mut self, i: usize) -> (r: Option<String>)
        requires
            i < old(self)@.entries.len(),
        ensures
            ({
                let entry = old(self)@.entries[i as int];
                if entry.is_dir {
                    text::opt_view(r) == Some(entry.name) && final(self)@ == old(self)@
                } else {
                    r is None && final(self)@ == (Picking {
                        selected: Some(entry.name),
                        ..old(self)@
                    })
                }
            }),
    {
        assert(self@.entries.len() == self.entries@.len());
        if self.entries[i].is_dir {
            Some(self.entries[i].name.clone())
        } else {
            self.selected = Some(self.entries[i].name.clone());
            None
        }
    }

    /// Shows a folder that was entered, through the filter, which stays.
    pub fn enter(&mut self, dir: String, entries: &Vec<PickerEntry>)
        ensures
            shows(final(self)@.entries, picker_views(entries@), old(self)@.filter),
            final(self)@ == (Picking {
                dir: dir@,
                entries: final(self)@.entries,
                selected: None,
                ..old(self)@
            }),
    {
        self.entries = read_picker_entries(entries, self.filter.as_str());
        self.current_dir = dir;
        self.selected = None;
    }

    /// Shows a folder that was entered in search of a folder: through the filter,
    /// which is cleared then.
    pub fn enter_folder(&mut self, dir: String, entries: &Vec<PickerEntry>)
        ensures
            shows(final(self)@.entries, picker_views(entries@), old(self)@.filter),
            final(self)@ == (Picking {
                dir: dir@,
                entries: final(self)@.entries,
                selected: None,
                filter: Seq::empty(),
            }),
    {
        self.enter(dir, entries);
        self.filter = String::new();
        assert(self.filter@ =~= Seq::empty());
    }

    /// Shows the folder above. The filter is cleared.
    pub fn go_up(&mut self, dir: String, entries: &Vec<PickerEntry>)
        ensures
            shows(final(self)@.entries, picker_views(entries@), Seq::empty()),
            final(self)@ == (Picking {
                dir: dir@,
                entries: final(self)@.entries,
                selected: None,
                filter: Seq::empty(),
            }),
    {
        self.filter = String::new();
        assert(self.filter@ =~= Seq::empty());
        self.enter(dir, entries);
    }

    /// Shows what passes another filter.
    pub fn set_filter(&mut self, filter: String, entries: &Vec<PickerEntry>)
        ensures
            shows(final(self)@.entries, picker_views(entries@), filter@),
            final(self)@ == (Picking {
                filter: filter@,
                entries: final(self)@.entries,
                ..old(self)@
            }),
    {
        self.entries = read_picker_entries(entries, filter.as_str());
        self.filter = filter;
    }
}

} // verus!
