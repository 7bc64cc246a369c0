//! The steps of an editing session, to be undone and done again.

use crate::templates::{UNDO_IDLE_MS, UNDO_LIMIT};
use crate::text;
use crate::text::str_eq;
use vstd::prelude::*;

verus! {

/// The history of a text.
#[derive(Debug)]
pub struct History {
    /// Earlier states, the oldest first.
    pub undo_stack: Vec<String>,
    /// States that were undone, the last one first to be done again.
    pub redo_stack: Vec<String>,
    /// The state of the last step.
    pub last_committed: String,
    /// The text when it was last looked at.
    pub seen: String,
    /// Whether there are edits since the last step.
    pub edit_dirty: bool,
    /// When the text last changed, in milliseconds.
    pub last_edit_time: u64,
    /// Whether the text was just set by undoing or redoing.
    pub undo_redo_in_progress: bool,
}

/// What a history holds.
pub struct Steps {
    pub undo: Seq<Seq<char>>,
    pub redo: Seq<Seq<char>>,
    pub committed: Seq<char>,
    pub seen: Seq<char>,
    pub dirty: bool,
    pub edit_time: u64,
    pub in_progress: bool,
}

impl View for History {
    type V = Steps;

    open spec fn view(&self) -> Steps {
        Steps {
            undo: text::views(self.undo_stack@),
            redo: text::views(self.redo_stack@),
            committed: self.last_committed@,
            seen: self.seen@,
            dirty: self.edit_dirty,
            edit_time: self.last_edit_time,
            in_progress: self.undo_redo_in_progress,
        }
    }
}

/// The history of a text before any edit.
pub open spec fn fresh(content: Seq<char>, h: Steps) -> Steps {
    Steps {
        undo: Seq::empty(),
        redo: Seq::empty(),
        committed: content,
        seen: content,
        dirty: false,
        ..h
    }
}

pub open spec fn empty_history() -> Steps {
    Steps {
        undo: Seq::empty(),
        redo: Seq::empty(),
        committed: Seq::empty(),
        seen: Seq::empty(),
        dirty: false,
        edit_time: 0,
        in_progress: false,
    }
}

/// The states with one more; the oldest is dropped where there are too many.
pub open spec fn remembered(states: Seq<Seq<char>>, state: Seq<char>) -> Seq<Seq<char>> {
    let all = states.push(state);
    if all.len() > UNDO_LIMIT {
        all.drop_first()
    } else {
        all
    }
}

/// The history after the text was made a step. A text that has not changed makes
/// none; one that has makes it impossible to redo.
pub open spec fn with_step(h: Steps, content: Seq<char>) -> Steps {
    if content == h.committed {
        Steps { dirty: false, ..h }
    } else {
        Steps {
            undo: remembered(h.undo, h.committed),
            redo: Seq::empty(),
            committed: content,
            dirty: false,
            ..h
        }
    }
}

/// Undoing: the open edits become a step first, and then the last step is taken
/// back. The text that is then shown, where there was a step.
pub open spec fn undone(h: Steps, content: Seq<char>) -> (Steps, Option<Seq<char>>) {
    let c = with_step(h, content);
    if c.undo.len() == 0 {
        (c, None)
    } else {
        let last = c.undo.last();
        (
            Steps {
                undo: c.undo.drop_last(),
                redo: c.redo.push(c.committed),
                committed: last,
                seen: last,
                in_progress: true,
                ..c
            },
            Some(last),
        )
    }
}

/// Redoing: the step that was taken back last, where there is one.
pub open spec fn redone(h: Steps) -> (Steps, Option<Seq<char>>) {
    if h.redo.len() == 0 {
        (h, None)
    } else {
        let last = h.redo.last();
        (
            Steps {
                undo: remembered(h.undo, h.committed),
                redo: h.redo.drop_last(),
                committed: last,
                seen: last,
                in_progress: true,
                ..h
            },
            Some(last),
        )
    }
}

/// The history after the text was looked at. Edits that follow each other belong
/// together; they become a step when the text has rested long enough. Right
/// after undoing or redoing nothing is looked at.
pub open spec fn looked_at(h: Steps, content: Seq<char>, now: u64) -> Steps {
    if h.in_progress {
        Steps { in_progress: false, ..h }
    } else {
        let changed = content != h.seen;
        let c = Steps {
            seen: content,
            dirty: h.dirty || content != h.committed,
            edit_time: if changed {
                now
            } else {
                h.edit_time
            },
            ..h
        };
        if c.dirty && now - c.edit_time > UNDO_IDLE_MS {
            with_step(c, content)
        } else {
            c
        }
    }
}

fn remember(states: &mut Vec<String>, state: String)
    ensures
        text::views(final(states)@) == remembered(text::views(old(states)@), state@),
{
    let ghost before = text::views(states@);
    let ghost added = state@;
    states.push(state);
    assert(text::views(states@) =~= before.push(added));
    if states.len() > UNDO_LIMIT {
        states.remove(0);
        assert(text::views(states@) =~= before.push(added).drop_first());
    }
}

impl History {
    /// The history of an empty text.
    pub fn new() -> (r: Self)
        ensures
            r@ == empty_history(),
    {
        let r: History = History {
            undo_stack: Vec::new(),
            redo_stack: Vec::new(),
            last_committed: String::new(),
            seen: String::new(),
            edit_dirty: false,
            last_edit_time: 0,
            undo_redo_in_progress: false,
        };
        assert(r@.undo =~= Seq::empty());
        assert(r@.redo =~= Seq::empty());
        assert(r@.committed =~= Seq::empty());
        assert(r@.seen =~= Seq::empty());
        r
    }

    /// Begins a new history: that of another text.
    pub fn reset_history(&mut self, content: &str)
        ensures
            final(self)@ == fresh(content@, old(self)@),
    {
        self.undo_stack = Vec::new();
        self.redo_stack = Vec::new();
        self.last_committed = content.to_owned();
        self.seen = content.to_owned();
        self.edit_dirty = false;
        assert(self@.undo =~= Seq::empty());
        assert(self@.redo =~= Seq::empty());
    }

    /// Makes the text a step, where it has changed since the last one.
    pub fn commit_history(&mut self, content: &str)
        ensures
            final(self)@ == with_step(old(self)@, content@),
    {
        if !str_eq(content, self.last_committed.as_str()) {
            let state: String = self.last_committed.clone();
            remember(&mut self.undo_stack, state);
            self.redo_stack = Vec::new();
            self.last_committed = content.to_owned();
            assert(self@.redo =~= Seq::empty());
        }
        self.edit_dirty = false;
    }

    /// Takes the last step back. The result is the text to be shown, if there
    /// was a step.
    pub fn undo(&mut self, content: &str) -> (r: Option<String>)
        ensures
            final(self)@ == undone(old(self)@, content@).0,
            text::opt_view(r) == undone(old(self)@, content@).1,
    {
        self.commit_history(content);
        let ghost c = self@;
        let ghost stack = self.undo_stack@;
        match self.undo_stack.pop() {
            Some(last) => {
                let committed: String = self.last_committed.clone();
                let ghost redo = self@.redo;
                assert(self@.undo =~= c.undo.drop_last());
                assert(c.undo.last() == stack.last()@);
                self.redo_stack.push(committed);
                assert(self@.redo =~= redo.push(c.committed));
                self.last_committed = last.clone();
                self.seen = last.clone();
                self.undo_redo_in_progress = true;
                Some(last)
            },
            None => None,
        }
    }

    /// Does the step again that was taken back last. The result is the text to
    /// be shown, if there was a step.
    pub fn redo(&mut self) -> (r: Option<String>)
        ensures
            final(self)@ == redone(old(self)@).0,
            text::opt_view(r) == redone(old(self)@).1,
    {
        let ghost c = self@;
        let ghost stack = self.redo_stack@;
        match self.redo_stack.pop() {
            Some(last) => {
                let committed: String = self.last_committed.clone();
                assert(self@.redo =~= c.redo.drop_last());
                assert(c.redo.last() == stack.last()@);
                remember(&mut self.undo_stack, committed);
                self.last_committed = last.clone();
                self.seen = last.clone();
                self.undo_redo_in_progress = true;
                Some(last)
            },
            None => None,
        }
    }

    /// Looks at the text. `now` is the time in milliseconds.
    pub fn track(&mut self, content: &str, now: u64)
        ensures
            final(self)@ == looked_at(old(self)@, content@, now),
    {
        if self.undo_redo_in_progress {
            self.undo_redo_in_progress = false;
            return;
        }
        if !str_eq(content, self.seen.as_str()) {
            self.seen = content.to_owned();
            self.last_edit_time = now;
        }
        if !str_eq(content, self.last_committed.as_str()) {
            self.edit_dirty = true;
        }
        if self.edit_dirty && now > self.last_edit_time && now - self.last_edit_time
            > UNDO_IDLE_MS {
            self.commit_history(content);
        }
    }
}

// ---------------------------------------------------------------------------
// Laws
// ---------------------------------------------------------------------------

/// No more states are kept than the limit allows, whatever is done.
pub proof fn law_history_bounded(h: Steps, content: Seq<char>, now: u64)
    requires
        h.undo.len() <= UNDO_LIMIT,
    ensures
        with_step(h, content).undo.len() <= UNDO_LIMIT,
        undone(h, content).0.undo.len() <= UNDO_LIMIT,
        redone(h).0.undo.len() <= UNDO_LIMIT,
        looked_at(h, content, now).undo.len() <= UNDO_LIMIT,
{
}

/// What was undone can be done again: redoing right after undoing gives the text
/// and its history back.
pub proof fn law_undo_redo(h: Steps, content: Seq<char>)
    requires
        h.undo.len() <= UNDO_LIMIT,
        undone(h, content).1 is Some,
    ensures
        redone(undone(h, content).0).1 == Some(content),
        redone(undone(h, content).0).0 == (Steps {
            seen: content,
            in_progress: true,
            ..with_step(h, content)
        }),
{
    let c = with_step(h, content);
    let u = undone(h, content).0;
    let r = redone(u).0;
    assert(u.redo.drop_last() =~= c.redo);
    assert(r.undo =~= c.undo) by {
        assert(c.undo.drop_last().push(c.undo.last()) =~= c.undo);
    }
}

/// What was done again can be undone: undoing right after redoing gives the text
/// back.
pub proof fn law_redo_undo(h: Steps)
    requires
        redone(h).1 is Some,
    ensures
        undone(redone(h).0, redone(h).1->0).1 == Some(h.committed),
        h.undo.len() < UNDO_LIMIT ==> undone(redone(h).0, redone(h).1->0).0.undo == h.undo,
        undone(redone(h).0, redone(h).1->0).0.redo == h.redo,
{
    let r = redone(h).0;
    let u = undone(r, redone(h).1->0).0;
    assert(r.undo.last() == h.committed);
    assert(h.redo.drop_last().push(h.redo.last()) =~= h.redo);
    if h.undo.len() < UNDO_LIMIT {
        assert(h.undo.push(h.committed).drop_last() =~= h.undo);
    }
}

/// A new edit makes it impossible to redo.
pub proof fn law_edit_forgets_redo(h: Steps, content: Seq<char>)
    requires
        content != h.committed,
    ensures
        redone(with_step(h, content)).1 is None,
{
}

/// Typing becomes a step once it has rested: a text that is looked at again,
/// unchanged and late enough, is the last step.
pub proof fn law_rest_makes_step(h: Steps, content: Seq<char>, now: u64, later: u64)
    requires
        !h.in_progress,
        content != h.committed,
        now as int + UNDO_IDLE_MS < later,
        content != h.seen || h.edit_time <= now,
    ensures
        looked_at(looked_at(h, content, now), content, later).committed == content,
        looked_at(looked_at(h, content, now), content, later).undo == remembered(
            h.undo,
            h.committed,
        ),
{
}

} // verus!
