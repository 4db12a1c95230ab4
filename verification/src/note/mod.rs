//! Notes and what a note carries.

pub mod id;
pub mod metadata;
pub mod note_list;
pub mod note_tag_list;
pub mod tag_list;

use crate::date::Date;
use crate::note::id::Id;
use crate::note::metadata::{Metadata, MetadataView};
use crate::note::note_tag_list::NoteTagList;
use crate::note_file::{frame_note, framed_note};
use vstd::prelude::*;

verus! {

/// A note: its identity, metadata and text, and whether all of it is
/// saved to its file.
#[derive(Debug)]
pub struct Note {
    id: Id,
    metadata: Metadata,
    content: String,
    is_saved: bool,
}

/// A note's parts as plain values.
pub struct NoteView {
    pub id: Seq<char>,
    pub metadata: MetadataView,
    pub content: Seq<char>,
    pub is_saved: bool,
}

impl View for Note {
    type V = NoteView;

    closed spec fn view(&self) -> NoteView {
        NoteView {
            id: self.id@,
            metadata: self.metadata@,
            content: self.content@,
            is_saved: self.is_saved,
        }
    }
}

impl Clone for Note {
    /// A note with the same identity, metadata, text and saved state.
    fn clone(&self) -> (note: Note)
        ensures
            note@ == self@,
            note.wf(),
    {
        Note {
            id: self.id.clone(),
            metadata: self.metadata.clone(),
            content: self.content.clone(),
            is_saved: self.is_saved,
        }
    }
}

impl Note {
    /// The invariant: the note's tag list holds each tag at most once.
    pub open spec fn wf(&self) -> bool {
        self@.metadata.tags.no_duplicates()
    }

    /// A note as just loaded from its file: counted as saved.
    pub fn new(id: Id, metadata: Metadata, content: String) -> (note: Note)
        ensures
            note.wf(),
            note@ == (NoteView {
                id: id@,
                metadata: metadata@,
                content: content@,
                is_saved: true,
            }),
    {
        let tags = metadata.tag_list();
        proof {
            use_type_invariant(tags);
        }
        Note { id, metadata, content, is_saved: true }
    }

    /// The note's identity.
    pub fn id(&self) -> (id: &Id)
        ensures
            id@ == self@.id,
    {
        &self.id
    }

    /// The note's metadata.
    pub fn metadata(&self) -> (metadata: &Metadata)
        ensures
            metadata@ == self@.metadata,
    {
        &self.metadata
    }

    /// The note's text.
    pub fn content(&self) -> (content: &str)
        ensures
            content@ == self@.content,
    {
        self.content.as_str()
    }

    /// Whether everything about the note is saved.
    pub fn is_saved(&self) -> (is_saved: bool)
        ensures
            is_saved == self@.is_saved,
    {
        self.is_saved
    }

    /// Records whether the note is saved.
    pub fn set_is_saved(&mut self, is_saved: bool)
        ensures
            final(self)@ == (NoteView { is_saved, ..old(self)@ }),
    {
        self.is_saved = is_saved;
    }

    /// Replaces the note's text, edited at `now`: the note counts as
    /// modified then, and as not saved.
    pub fn set_content_at(&mut self, content: String, now: Date)
        ensures
            final(self)@ == (NoteView {
                content: content@,
                metadata: MetadataView { last_modified: now, ..old(self)@.metadata },
                is_saved: false,
                ..old(self)@
            }),
    {
        self.content = content;
        self.metadata.update_last_modified(now);
        self.is_saved = false;
    }

    /// Renames the note at `now`: it counts as modified then, and as not
    /// saved.
    pub fn set_title_at(&mut self, title: String, now: Date)
        ensures
            final(self)@ == (NoteView {
                metadata: MetadataView { title: title@, last_modified: now, ..old(self)@.metadata },
                is_saved: false,
                ..old(self)@
            }),
    {
        self.metadata.set_title(title, now);
        self.is_saved = false;
    }

    /// Pins or unpins the note, which then counts as not saved.
    pub fn set_is_pinned(&mut self, is_pinned: bool)
        ensures
            final(self)@ == (NoteView {
                metadata: MetadataView { is_pinned, ..old(self)@.metadata },
                is_saved: false,
                ..old(self)@
            }),
    {
        self.metadata.set_is_pinned(is_pinned);
        self.is_saved = false;
    }

    /// Moves the note to or out of the trash; it then counts as not saved.
    pub fn set_is_trashed(&mut self, is_trashed: bool)
        ensures
            final(self)@ == (NoteView {
                metadata: MetadataView { is_trashed, ..old(self)@.metadata },
                is_saved: false,
                ..old(self)@
            }),
    {
        self.metadata.set_is_trashed(is_trashed);
        self.is_saved = false;
    }

    /// Replaces the note's tag list; the note then counts as not saved.
    pub fn set_tag_list(&mut self, tag_list: NoteTagList)
        ensures
            final(self)@ == (NoteView {
                metadata: MetadataView { tags: tag_list@, ..old(self)@.metadata },
                is_saved: false,
                ..old(self)@
            }),
    {
        self.metadata.set_tag_list(tag_list);
        self.is_saved = false;
    }

    /// The text of the note's file, given its metadata written as YAML.
    pub fn serialize(&self, metadata_yaml: &str) -> (text: String)
        ensures
            text@ == framed_note(metadata_yaml@, self@.content),
    {
        frame_note(metadata_yaml, self.content.as_str())
    }
}

} // verus!
