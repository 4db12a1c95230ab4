//! Saving every note that is not saved yet, one write at a time: the
//! decisions of the save loop, with the writes themselves left to the
//! caller. The loop stops at the first write that fails.
use crate::note::NoteView;
use crate::note_list::NoteList;
use vstd::prelude::*;

verus! {

/// What the save loop asks for next.
#[derive(Debug, Clone, Copy, PartialEq, Eq)]
pub enum SaveAction {
    /// Write the note at this position, then report how it went.
    Write(u32),
    /// Every note is saved.
    Done,
    /// A write failed; the loop has stopped.
    Failed,
}

/// The loop's progress as plain values: the position it has reached,
/// whether a write is awaited, and whether a write failed.
pub struct SaveAllView {
    pub next: nat,
    pub pending: bool,
    pub failed: bool,
}

/// The first position from `from` on whose note is not saved, or the
/// number of notes when there is none.
pub open spec fn first_unsaved_from(notes: Seq<NoteView>, from: int) -> int
    decreases notes.len() - from,
{
    if from >= notes.len() {
        notes.len() as int
    } else if !notes[from].is_saved {
        from
    } else {
        first_unsaved_from(notes, from + 1)
    }
}

/// `note` once saved.
pub open spec fn saved(note: NoteView) -> NoteView {
    NoteView { is_saved: true, ..note }
}

/// The loop's next step from `state` over `notes`: its new state and the
/// action it asks for (see `SaveAll::next_action`).
pub open spec fn next_step(state: SaveAllView, notes: Seq<NoteView>) -> (SaveAllView, SaveAction) {
    if state.failed {
        (state, SaveAction::Failed)
    } else {
        let p = first_unsaved_from(notes, state.next as int);
        if p < notes.len() {
            (SaveAllView { next: p as nat, pending: true, failed: false }, SaveAction::Write(p as u32))
        } else {
            (SaveAllView { next: notes.len(), pending: false, failed: false }, SaveAction::Done)
        }
    }
}

/// The loop's state and the notes after the awaited write was reported
/// as `written` (see `SaveAll::report`).
pub open spec fn report_step(state: SaveAllView, notes: Seq<NoteView>, written: bool) -> (
    SaveAllView,
    Seq<NoteView>,
) {
    if !state.pending {
        (state, notes)
    } else if written {
        (
            SaveAllView { next: state.next + 1, pending: false, failed: false },
            if state.next < notes.len() {
                notes.update(state.next as int, saved(notes[state.next as int]))
            } else {
                notes
            },
        )
    } else {
        (SaveAllView { next: state.next, pending: false, failed: true }, notes)
    }
}

/// A whole run of the loop from `state` over `notes`, the writes it asks
/// for going as `outcomes` says, one after the other: the notes at the
/// end, and the last action asked for (a `Write` when the outcomes ran
/// out).
pub open spec fn save_run(state: SaveAllView, notes: Seq<NoteView>, outcomes: Seq<bool>) -> (
    Seq<NoteView>,
    SaveAction,
)
    decreases outcomes.len(),
{
    let (asked, action) = next_step(state, notes);
    if action is Write && outcomes.len() > 0 {
        let (reported, after) = report_step(asked, notes, outcomes[0]);
        save_run(reported, after, outcomes.drop_first())
    } else {
        (notes, action)
    }
}

/// What `first_unsaved_from` finds: a position from `from` on (at most the
/// number of notes) before which every note is saved, holding an unsaved
/// note unless it is the end.
proof fn lemma_first_unsaved_props(notes: Seq<NoteView>, from: int)
    requires
        0 <= from,
    ensures
        from <= first_unsaved_from(notes, from) || from > notes.len(),
        first_unsaved_from(notes, from) <= notes.len() || from > notes.len(),
        forall|k: int| from <= k < first_unsaved_from(notes, from) ==> notes[k].is_saved,
        first_unsaved_from(notes, from) < notes.len() ==> !notes[first_unsaved_from(
            notes,
            from,
        )].is_saved,
    decreases notes.len() - from,
{
    if from < notes.len() && notes[from].is_saved {
        lemma_first_unsaved_props(notes, from + 1);
    }
}

/// Saving all notes stops at the first write that fails: run from a fresh
/// start with an outcome for each note, the loop either saves every note
/// and is done, or it fails at an unsaved note `j`; the notes before `j`
/// are then saved, note `j` stays as it was, unsaved, and the notes after
/// it are untouched. Nothing else of a note changes.
pub proof fn lemma_save_all_stops_at_first_failure(notes: Seq<NoteView>, outcomes: Seq<bool>)
    requires
        notes.len() < u32::MAX,
        outcomes.len() >= notes.len(),
    ensures
        ({
            let (after, action) = save_run(
                SaveAllView { next: 0, pending: false, failed: false },
                notes,
                outcomes,
            );
            &&& after.len() == notes.len()
            &&& action is Done || action is Failed
            &&& action is Done ==> forall|k: int| 0 <= k < notes.len() ==> after[k] == saved(
                notes[k],
            )
            &&& action is Failed ==> exists|j: int|
                0 <= j < notes.len() && !notes[j].is_saved && after[j] == notes[j] && (forall|
                    k: int,
                | 0 <= k < j ==> after[k] == saved(notes[k])) && (forall|k: int|
                    j < k < notes.len() ==> after[k] == notes[k])
        }),
{
    lemma_save_run(SaveAllView { next: 0, pending: false, failed: false }, notes, outcomes);
}

/// The run from any position reached with nothing pending and no failure:
/// the notes before that position are untouched, and from it on the
/// loop saves every note or fails at its first unsaved note whose write
/// fails, as in `lemma_save_all_stops_at_first_failure`.
proof fn lemma_save_run(state: SaveAllView, notes: Seq<NoteView>, outcomes: Seq<bool>)
    requires
        !state.pending,
        !state.failed,
        state.next <= notes.len(),
        notes.len() < u32::MAX,
        outcomes.len() + state.next >= notes.len(),
    ensures
        ({
            let (after, action) = save_run(state, notes, outcomes);
            &&& after.len() == notes.len()
            &&& action is Done || action is Failed
            &&& forall|k: int| 0 <= k < state.next ==> after[k] == notes[k]
            &&& action is Done ==> forall|k: int|
                state.next <= k < notes.len() ==> after[k] == saved(notes[k])
            &&& action is Failed ==> exists|j: int|
                state.next <= j < notes.len() && !notes[j].is_saved && after[j] == notes[j] && (
                forall|k: int| state.next <= k < j ==> after[k] == saved(notes[k])) && (forall|
                    k: int,
                | j < k < notes.len() ==> after[k] == notes[k])
        }),
    decreases outcomes.len(),
{
    let from = state.next as int;
    lemma_first_unsaved_props(notes, from);
    let p = first_unsaved_from(notes, from);
    let (asked, action) = next_step(state, notes);
    if p < notes.len() {
        assert(action is Write);
        assert(outcomes.len() > 0);
        let (reported, after) = report_step(asked, notes, outcomes[0]);
        if outcomes[0] {
            let n2 = notes.update(p, saved(notes[p]));
            assert(after == n2);
            lemma_save_run(reported, n2, outcomes.drop_first());
            let (fin, act) = save_run(reported, n2, outcomes.drop_first());
            assert(save_run(state, notes, outcomes) == (fin, act));
            assert forall|k: int| 0 <= k < state.next implies fin[k] == notes[k] by {
                assert(n2[k] == notes[k]);
            }
            if act is Done {
                assert forall|k: int| state.next <= k < notes.len() implies fin[k] == saved(
                    notes[k],
                ) by {
                    if k < p {
                        assert(notes[k].is_saved);
                        assert(fin[k] == n2[k]);
                    } else if k == p {
                        assert(fin[k] == n2[k]);
                    } else {
                        assert(n2[k] == notes[k]);
                    }
                }
            }
            if act is Failed {
                let j = choose|j: int|
                    p + 1 <= j < n2.len() && !n2[j].is_saved && fin[j] == n2[j] && (forall|
                        k: int,
                    | p + 1 <= k < j ==> fin[k] == saved(n2[k])) && (forall|k: int|
                        j < k < n2.len() ==> fin[k] == n2[k]);
                assert(n2[j] == notes[j]);
                assert forall|k: int| state.next <= k < j implies fin[k] == saved(notes[k]) by {
                    if k < p {
                        assert(notes[k].is_saved);
                        assert(fin[k] == n2[k]);
                    } else if k == p {
                        assert(fin[k] == n2[k]);
                    } else {
                        assert(fin[k] == saved(n2[k]));
                        assert(n2[k] == notes[k]);
                    }
                }
                assert forall|k: int| j < k < notes.len() implies fin[k] == notes[k] by {
                    assert(fin[k] == n2[k]);
                    assert(n2[k] == notes[k]);
                }
            }
        } else {
            assert(after == notes);
            assert(reported.failed);
            assert(save_run(reported, after, outcomes.drop_first()) == (notes, SaveAction::Failed));
            assert(save_run(state, notes, outcomes) == (notes, SaveAction::Failed));
            assert forall|k: int| state.next <= k < p implies notes[k] == saved(notes[k]) by {
                assert(notes[k].is_saved);
            }
        }
    } else {
        assert(action is Done);
        assert(save_run(state, notes, outcomes) == (notes, SaveAction::Done));
        assert forall|k: int| state.next <= k < notes.len() implies notes[k] == saved(notes[k]) by {
            assert(notes[k].is_saved);
        }
    }
}

/// The progress of saving all notes.
#[derive(Debug)]
pub struct SaveAll {
    next: u32,
    pending: bool,
    failed: bool,
}

impl View for SaveAll {
    type V = SaveAllView;

    closed spec fn view(&self) -> SaveAllView {
        SaveAllView { next: self.next as nat, pending: self.pending, failed: self.failed }
    }
}

proof fn lemma_first_unsaved(notes: Seq<NoteView>, from: int, at: int)
    requires
        0 <= from <= at <= notes.len(),
        forall|k: int| from <= k < at ==> notes[k].is_saved,
        at == notes.len() || !notes[at].is_saved,
    ensures
        first_unsaved_from(notes, from) == at,
    decreases at - from,
{
    if from < at {
        lemma_first_unsaved(notes, from + 1, at);
    }
}

impl SaveAll {
    /// A write is awaited only while no write has failed, and at a
    /// position below the largest `u32`.
    #[verifier::type_invariant]
    closed spec fn inv(&self) -> bool {
        self.pending ==> self.next < u32::MAX && !self.failed
    }

    /// A save loop that has not started.
    pub fn new() -> (save: SaveAll)
        ensures
            save@ == (SaveAllView { next: 0, pending: false, failed: false }),
    {
        SaveAll { next: 0, pending: false, failed: false }
    }

    /// The next step: after a failure, `Failed`; otherwise the first note
    /// from the position reached on that is not saved is to be written,
    /// or, when there is none, saving is done.
    pub fn next_action(&mut self, notes: &NoteList) -> (action: SaveAction)
        requires
            notes@.len() < u32::MAX,
        ensures
            (final(self)@, action) == next_step(old(self)@, notes@),
            old(self)@.failed ==> action == SaveAction::Failed && final(self)@ == old(self)@,
            !old(self)@.failed ==> {
                let p = first_unsaved_from(notes@, old(self)@.next as int);
                &&& p < notes@.len() ==> action == SaveAction::Write(p as u32) && final(self)@
                    == (SaveAllView { next: p as nat, pending: true, failed: false })
                &&& p >= notes@.len() ==> action == SaveAction::Done && final(self)@
                    == (SaveAllView { next: notes@.len(), pending: false, failed: false })
            },
    {
        if self.failed {
            return SaveAction::Failed;
        }
        let n = notes.n_items();
        let start = self.next;
        let mut i = start;
        while i < n
            invariant
                n == notes@.len(),
                n < u32::MAX,
                start <= i,
                forall|k: int| start <= k < i ==> notes@[k].is_saved,
                !self.failed,
                self@ == old(self)@,
                start == old(self)@.next,
            decreases n - i,
        {
            match notes.item(i) {
                Some(note) => {
                    if !note.is_saved() {
                        proof {
                            lemma_first_unsaved(notes@, start as int, i as int);
                        }
                        self.next = i;
                        self.pending = true;
                        return SaveAction::Write(i);
                    }
                },
                None => {
                    assert(false);
                },
            }
            i = i + 1;
        }
        proof {
            if start <= n {
                lemma_first_unsaved(notes@, start as int, n as int);
            }
        }
        self.next = n;
        self.pending = false;
        SaveAction::Done
    }

    /// Reports how the awaited write went: when it succeeded the note is
    /// marked as saved and the loop moves past it; when it failed the note
    /// stays unsaved and the loop stops for good. Without an awaited write
    /// nothing changes.
    pub fn report(&mut self, notes: &mut NoteList, written: bool)
        ensures
            (final(self)@, final(notes)@) == report_step(old(self)@, old(notes)@, written),
            !old(self)@.pending ==> final(self)@ == old(self)@ && final(notes)@ == old(notes)@,
            old(self)@.pending && written ==> {
                &&& final(notes)@ == (if old(self)@.next < old(notes)@.len() {
                    old(notes)@.update(
                        old(self)@.next as int,
                        NoteView { is_saved: true, ..old(notes)@[old(self)@.next as int] },
                    )
                } else {
                    old(notes)@
                })
                &&& final(self)@ == (SaveAllView {
                    next: old(self)@.next + 1,
                    pending: false,
                    failed: false,
                })
            },
            old(self)@.pending && !written ==> final(notes)@ == old(notes)@ && final(self)@ == (
            SaveAllView { next: old(self)@.next, pending: false, failed: true }),
    {
        proof {
            use_type_invariant(&*self);
        }
        if !self.pending {
            return;
        }
        self.pending = false;
        if written {
            let _ = notes.mark_saved(self.next);
            self.next = self.next + 1;
        } else {
            self.failed = true;
        }
    }
}

} // verus!
