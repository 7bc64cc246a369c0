//! What holds of the editor's commands.

use crate::blueprint_laws;
use crate::blueprint_script;
use crate::diagnostic;
use crate::editor;
use crate::modes;
use crate::slices;
use crate::text;
use vstd::prelude::*;

verus! {

/// A script that was just saved, opened or made has no changes to save.
pub proof fn law_saved_has_no_changes(
    e: editor::Session,
    content: Seq<char>,
    path: Seq<char>,
    name: Seq<char>,
    main_script: Option<Seq<char>>,
    status: Seq<char>,
)
    ensures
        !editor::has_changes(
            editor::after_save(editor::before_save(e), path, name, main_script),
        ),
        !editor::has_changes(editor::with_script(e, content, Some(path), name, status)),
        !editor::has_changes(editor::new_script(e)),
{
}

/// What is saved in blueprint mode is the script of the blueprint.
pub proof fn law_blueprint_is_saved(
    e: editor::Session,
    path: Seq<char>,
    name: Seq<char>,
    main_script: Option<Seq<char>>,
)
    requires
        e.blueprint_mode,
    ensures
        editor::after_save(editor::before_save(e), path, name, main_script).saved
            == blueprint_script::script_text(e.blueprint),
{
}

/// Undoing right after a script was opened changes nothing of it: steps do not
/// reach into another script.
pub proof fn law_no_undo_across_scripts(
    e: editor::Session,
    content: Seq<char>,
    file: Option<Seq<char>>,
    name: Seq<char>,
    status: Seq<char>,
)
    ensures
        editor::after_undo(editor::with_script(e, content, file, name, status)).content == content,
        editor::after_redo(editor::with_script(e, content, file, name, status)).content == content,
{
}

proof fn lemma_replace_same(s: Seq<char>, t: Seq<char>, i: int)
    requires
        0 <= i <= s.len(),
    ensures
        editor::replaced_from(s, t, t, i) == s.subrange(i, s.len() as int),
    decreases s.len() - i,
{
    text::lemma_find_from(s, t, i);
    match text::find_from(s, t, i) {
        Some(k) => {
            if t.len() > 0 && 0 <= i <= k && k + t.len() <= s.len() {
                lemma_replace_same(s, t, k + t.len());
                assert(s.subrange(i, k) + t + s.subrange(k + t.len(), s.len() as int)
                    =~= s.subrange(i, s.len() as int)) by {
                    assert(text::occurs_at(s, t, k));
                }
            }
        },
        None => {},
    }
}

/// Replacing a text by itself changes nothing, and so does replacing one that
/// does not occur.
pub proof fn law_replace_keeps(s: Seq<char>, t: Seq<char>, r: Seq<char>)
    ensures
        editor::replaced(s, t, t) == s,
        !text::contains(s, t) ==> editor::replaced(s, t, r) == s,
{
    lemma_replace_same(s, t, 0);
    assert(s.subrange(0, s.len() as int) =~= s);
}

/// Entering blueprint mode and leaving it again gives the script back, without
/// its blank lines. The exceptions are those of the blueprint itself: scripts of
/// one comment alone, or of two.
pub proof fn law_modes_round_trip(e: editor::Session, key: Seq<char>)
    requires
        !e.blueprint_mode,
        !editor::is_blank(e.content),
        blueprint_script::filled_lines(slices::lines(e.content)).len() <= usize::MAX,
        blueprint_laws::comes_back(blueprint_script::filled_lines(slices::lines(e.content))),
    ensures
        ({
            let there = modes::after_blueprint_toggle(e, key);
            let back = modes::after_blueprint_toggle(there, key);
            let script = diagnostic::joined(
                blueprint_script::filled_lines(slices::lines(e.content)),
                "\n"@,
            );
            &&& there.blueprint_mode
            &&& !back.blueprint_mode
            &&& back.content == if script.len() > 0 {
                script
            } else {
                e.content
            }
        }),
{
    blueprint_laws::law_script_round_trip(e.blueprint, e.content, e.blueprint.collapse_comments);
}

} // verus!
