//! The notes of a session, kept by identity in loading order.
use crate::index_map::{
    has_key, note_map_entries, note_map_get_index, note_map_get_index_of, note_map_insert,
    note_map_len, note_map_new, note_map_shift_remove,
};
use crate::note::id::Id;
use crate::note::{Note, NoteView};
use indexmap::IndexMap;
use vstd::prelude::*;

verus! {

/// The notes, each under its identity, in the order they were added.
#[derive(Debug)]
pub struct NoteList {
    notes: IndexMap<String, Note>,
}

impl View for NoteList {
    type V = Seq<NoteView>;

    /// The notes, in order.
    closed spec fn view(&self) -> Seq<NoteView> {
        note_map_entries(self.notes).map_values(|e: (Seq<char>, Note)| e.1@)
    }
}

/// The identities of `notes`.
pub open spec fn ids(notes: Seq<NoteView>) -> Seq<Seq<char>> {
    notes.map_values(|n: NoteView| n.id)
}

impl NoteList {
    /// The invariant: each note is kept under its own identity, no identity
    /// twice, and each note's tags are distinct.
    #[verifier::type_invariant]
    pub closed spec fn wf(&self) -> bool {
        let entries = note_map_entries(self.notes);
        &&& forall|i: int| 0 <= i < entries.len() ==> (#[trigger] entries[i]).0 == entries[i].1@.id
        &&& forall|i: int| 0 <= i < entries.len() ==> (#[trigger] entries[i]).1.wf()
        &&& forall|i: int, j: int|
            0 <= i < entries.len() && 0 <= j < entries.len() && i != j ==> (#[trigger] entries[i]).0
                != (#[trigger] entries[j]).0
    }

    /// The notes' identities are distinct.
    pub proof fn lemma_ids_distinct(&self)
        requires
            self.wf(),
        ensures
            ids(self@).no_duplicates(),
            forall|i: int| 0 <= i < self@.len() ==> (#[trigger] self@[i]).metadata.tags.no_duplicates(),
    {
        let entries = note_map_entries(self.notes);
        assert forall|i: int, j: int|
            0 <= i < ids(self@).len() && 0 <= j < ids(self@).len() && i != j implies ids(self@)[i]
            != ids(self@)[j] by {
            assert(entries[i].0 != entries[j].0);
        }
        assert forall|i: int| 0 <= i < self@.len() implies (#[trigger] self@[i]).metadata.tags.no_duplicates() by {
            assert(entries[i].1.wf());
        }
    }

    /// An empty list.
    pub fn new() -> (list: NoteList)
        ensures
            list@ == Seq::<NoteView>::empty(),
    {
        let list = NoteList { notes: note_map_new() };
        proof {
            assert(list@ =~= Seq::<NoteView>::empty());
        }
        list
    }

    /// The number of notes, as the list model reports it.
    pub fn n_items(&self) -> (n: u32)
        ensures
            n == self@.len() as u32,
    {
        note_map_len(&self.notes) as u32
    }

    /// The note at `position`, if there is one.
    pub fn item(&self, position: u32) -> (note: Option<&Note>)
        ensures
            note is None <==> position >= self@.len(),
            note matches Some(n) ==> n@ == self@[position as int],
    {
        note_map_get_index(&self.notes, position as usize)
    }

    /// Adds `note` under its identity: a note with the same identity is
    /// replaced in place, otherwise the note goes at the end. The result is
    /// the position announced as added: the last one.
    pub fn append(&mut self, note: Note) -> (position: u32)
        ensures
            ids(old(self)@).contains(note@.id) ==> final(self)@ == old(self)@.update(
                ids(old(self)@).index_of(note@.id),
                note@,
            ),
            !ids(old(self)@).contains(note@.id) ==> final(self)@ == old(self)@.push(note@),
            position == (final(self)@.len() - 1) as u32,
    {
        proof {
            use_type_invariant(&*self);
        }
        let tags = note.metadata().tag_list();
        proof {
            use_type_invariant(tags);
        }
        let ghost before = note_map_entries(self.notes);
        let ghost old_view = self@;
        let key = String::from_str(note.id().as_str());
        let ghost nv = note@;
        let mut notes = note_map_new();
        std::mem::swap(&mut notes, &mut self.notes);
        let replaced = note_map_insert(&mut notes, key, note);
        let ghost after = note_map_entries(notes);
        let ghost new_view = after.map_values(|e: (Seq<char>, Note)| e.1@);
        proof {
            if has_key(before, nv.id) {
                let i = choose|i: int|
                    0 <= i < before.len() && before[i].0 == nv.id && after == before.update(
                        i,
                        (nv.id, after[i].1),
                    );
                assert(replaced is Some);
                let k = ids(old_view).index_of(nv.id);
                assert(ids(old_view)[i] == nv.id);
                assert(ids(old_view).contains(nv.id));
                assert(ids(old_view)[k] == nv.id);
                assert(before[k].0 == nv.id);
                assert(k == i);
                assert(new_view =~= old_view.update(k, nv));
            } else {
                assert(!ids(old_view).contains(nv.id)) by {
                    if ids(old_view).contains(nv.id) {
                        let w = choose|w: int| 0 <= w < ids(old_view).len() && ids(old_view)[w] == nv.id;
                        assert(before[w].0 == nv.id);
                    }
                }
                assert(new_view =~= old_view.push(nv));
            }
        }
        self.notes = notes;
        let n = note_map_len(&self.notes);
        (n - 1) as u32
    }

    /// Removes the note with identity `note_id`, keeping the order of the
    /// others; gives back the position it had, or `None` when there is no
    /// such note.
    pub fn remove(&mut self, note_id: &Id) -> (position: Option<usize>)
        ensures
            position is None <==> !ids(old(self)@).contains(note_id@),
            position is None ==> final(self)@ == old(self)@,
            position matches Some(i) ==> i == ids(old(self)@).index_of(note_id@) && final(self)@
                == old(self)@.remove(i as int),
    {
        proof {
            use_type_invariant(&*self);
        }
        let ghost before = note_map_entries(self.notes);
        let ghost old_view = self@;
        let mut notes = note_map_new();
        std::mem::swap(&mut notes, &mut self.notes);
        let removed = note_map_shift_remove(&mut notes, note_id.as_str());
        let ghost new_view = note_map_entries(notes).map_values(|e: (Seq<char>, Note)| e.1@);
        proof {
            match removed {
                Some(i) => {
                    let k = ids(old_view).index_of(note_id@);
                    assert(ids(old_view)[i as int] == note_id@);
                    assert(ids(old_view)[k] == note_id@);
                    assert(k == i as int);
                    assert(new_view =~= old_view.remove(i as int));
                },
                None => {
                    assert(!ids(old_view).contains(note_id@)) by {
                        if ids(old_view).contains(note_id@) {
                            let w = choose|w: int|
                                0 <= w < ids(old_view).len() && ids(old_view)[w] == note_id@;
                            assert(before[w].0 == note_id@);
                        }
                    }
                },
            }
        }
        self.notes = notes;
        removed
    }

    /// The note with identity `note_id`, if there is one.
    pub fn get(&self, note_id: &Id) -> (note: Option<&Note>)
        ensures
            note is None <==> !ids(self@).contains(note_id@),
            note matches Some(n) ==> n@ == self@[ids(self@).index_of(note_id@)],
    {
        match self.get_full(note_id) {
            Some(i) => note_map_get_index(&self.notes, i),
            None => None,
        }
    }

    /// The position of the note with identity `note_id`, if there is one.
    pub fn get_full(&self, note_id: &Id) -> (position: Option<usize>)
        ensures
            position is None <==> !ids(self@).contains(note_id@),
            position matches Some(i) ==> i == ids(self@).index_of(note_id@) && i < self@.len(),
    {
        proof {
            use_type_invariant(self);
        }
        let ghost entries = note_map_entries(self.notes);
        let r = note_map_get_index_of(&self.notes, note_id.as_str());
        proof {
            match r {
                Some(i) => {
                    let k = ids(self@).index_of(note_id@);
                    assert(ids(self@)[i as int] == note_id@);
                    assert(ids(self@)[k] == note_id@);
                },
                None => {
                    if ids(self@).contains(note_id@) {
                        let w = choose|w: int| 0 <= w < ids(self@).len() && ids(self@)[w] == note_id@;
                        assert(entries[w].0 == note_id@);
                    }
                },
            }
        }
        r
    }

    /// Marks the note at `position` as saved; tells whether there is one.
    /// The other notes, and everything else of this one, stay as they were.
    pub fn mark_saved(&mut self, position: u32) -> (marked: bool)
        ensures
            marked == (position < old(self)@.len()),
            marked ==> final(self)@ == old(self)@.update(
                position as int,
                NoteView { is_saved: true, ..old(self)@[position as int] },
            ),
            !marked ==> final(self)@ == old(self)@,
    {
        proof {
            use_type_invariant(&*self);
        }
        let mut note = match self.item(position) {
            Some(note) => note.clone(),
            None => {
                return false;
            },
        };
        proof {
            let entries = note_map_entries(self.notes);
            assert(entries[position as int].1@ == self@[position as int]);
            assert(entries[position as int].1.wf());
            self.lemma_ids_distinct();
            let k = ids(self@).index_of(note@.id);
            assert(ids(self@)[position as int] == note@.id);
            assert(ids(self@).contains(note@.id));
            assert(ids(self@)[k] == note@.id);
        }
        note.set_is_saved(true);
        let _ = self.append(note);
        true
    }

    /// The positions of the notes not saved yet, in order: those a save of
    /// all notes writes.
    pub fn unsaved_positions(&self) -> (positions: Vec<u32>)
        requires
            self@.len() <= u32::MAX,
        ensures
            forall|k: int|
                0 <= k < positions@.len() ==> #[trigger] positions@[k] < self@.len()
                    && !self@[positions@[k] as int].is_saved,
            forall|k: int, l: int| 0 <= k < l < positions@.len() ==> positions@[k] < positions@[l],
            forall|p: int|
                0 <= p < self@.len() && !(#[trigger] self@[p]).is_saved ==> positions@.contains(
                    p as u32,
                ),
    {
        let n = note_map_len(&self.notes);
        let mut positions: Vec<u32> = Vec::new();
        let mut i: usize = 0;
        while i < n
            invariant
                n == self@.len(),
                n <= u32::MAX,
                i <= n,
                forall|k: int|
                    0 <= k < positions@.len() ==> #[trigger] positions@[k] < i
                        && !self@[positions@[k] as int].is_saved,
                forall|k: int, l: int|
                    0 <= k < l < positions@.len() ==> positions@[k] < positions@[l],
                forall|p: int|
                    0 <= p < i && !(#[trigger] self@[p]).is_saved ==> positions@.contains(p as u32),
            decreases n - i,
        {
            match note_map_get_index(&self.notes, i) {
                Some(note) => {
                    if !note.is_saved() {
                        let ghost before = positions@;
                        positions.push(i as u32);
                        proof {
                            assert forall|p: int|
                                0 <= p < i + 1 && !(#[trigger] self@[p]).is_saved implies positions@.contains(
                                p as u32) by {
                                if p == i as int {
                                    assert(positions@[positions@.len() - 1] == i as u32);
                                } else {
                                    let w = choose|w: int| 0 <= w < before.len() && before[w] == p as u32;
                                    assert(positions@[w] == p as u32);
                                }
                            }
                        }
                    }
                },
                None => {
                    assert(false);
                },
            }
            i = i + 1;
        }
        positions
    }
}

} // verus!
