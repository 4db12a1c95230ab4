//! A plain list of notes in the order they were added.
use crate::note::{Note, NoteView};
use vstd::prelude::*;

verus! {

/// The range of a list that changed: at `position`, `removed` items gave
/// way to `added` ones.
#[derive(Debug, Clone, Copy, PartialEq, Eq)]
pub struct ItemsChanged {
    pub position: u32,
    pub removed: u32,
    pub added: u32,
}

/// Notes, in order.
#[derive(Debug)]
pub struct NoteList {
    list: Vec<Note>,
}

impl View for NoteList {
    type V = Seq<NoteView>;

    /// The notes, in order.
    closed spec fn view(&self) -> Seq<NoteView> {
        self.list@.map_values(|n: Note| n@)
    }
}

impl NoteList {
    /// An empty list.
    pub fn new() -> (list: NoteList)
        ensures
            list@ == Seq::<NoteView>::empty(),
    {
        let list = NoteList { list: Vec::new() };
        proof {
            assert(list@ =~= Seq::<NoteView>::empty());
        }
        list
    }

    /// The number of notes, as the list model reports it.
    pub fn n_items(&self) -> (n: u32)
        ensures
            n == self@.len() as u32,
    {
        self.list.len() as u32
    }

    /// The note at `position`, if there is one.
    pub fn item(&self, position: u32) -> (note: Option<&Note>)
        ensures
            note is None <==> position >= self@.len(),
            note matches Some(n) ==> n@ == self@[position as int],
    {
        if (position as usize) < self.list.len() {
            Some(&self.list[position as usize])
        } else {
            None
        }
    }

    /// Adds `note` at the end. The change announced names, as its
    /// position, the new number of notes plus one.
    pub fn append(&mut self, note: Note) -> (change: ItemsChanged)
        requires
            old(self)@.len() + 2 <= u32::MAX,
        ensures
            final(self)@ == old(self)@.push(note@),
            change == (ItemsChanged {
                position: (old(self)@.len() + 2) as u32,
                removed: 0,
                added: 1,
            }),
    {
        self.list.push(note);
        proof {
            assert(self@ =~= old(self)@.push(note@));
        }
        let n = self.list.len() as u32;
        ItemsChanged { position: n + 1, removed: 0, added: 1 }
    }

    /// Removes the note at `index`, which must be a position of the list,
    /// keeping the order of the others.
    pub fn remove(&mut self, index: usize) -> (change: ItemsChanged)
        requires
            index < old(self)@.len(),
        ensures
            final(self)@ == old(self)@.remove(index as int),
            change == (ItemsChanged { position: index as u32, removed: 1, added: 0 }),
    {
        let _ = self.list.remove(index);
        proof {
            assert(self@ =~= old(self)@.remove(index as int));
        }
        ItemsChanged { position: index as u32, removed: 1, added: 0 }
    }
}

} // verus!
