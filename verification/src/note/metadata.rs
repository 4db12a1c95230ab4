//! What a note records besides its text: title, tags, last change, and
//! whether it is pinned or in the trash.
use crate::date::Date;
use crate::note::note_tag_list::NoteTagList;
use vstd::prelude::*;

verus! {

/// A note's metadata.
#[derive(Debug)]
pub struct Metadata {
    title: String,
    tag_list: NoteTagList,
    last_modified: Date,
    is_pinned: bool,
    is_trashed: bool,
}

/// The metadata's fields as plain values: title, tag names, last
/// modification, pinned, trashed.
pub struct MetadataView {
    pub title: Seq<char>,
    pub tags: Seq<u64>,
    pub last_modified: Date,
    pub is_pinned: bool,
    pub is_trashed: bool,
}

impl View for Metadata {
    type V = MetadataView;

    closed spec fn view(&self) -> MetadataView {
        MetadataView {
            title: self.title@,
            tags: self.tag_list@,
            last_modified: self.last_modified,
            is_pinned: self.is_pinned,
            is_trashed: self.is_trashed,
        }
    }
}

impl Clone for Metadata {
    /// Metadata with the same fields.
    fn clone(&self) -> (metadata: Metadata)
        ensures
            metadata@ == self@,
            metadata.wf(),
    {
        proof {
            use_type_invariant(&self.tag_list);
        }
        Metadata {
            title: self.title.clone(),
            tag_list: self.tag_list.clone(),
            last_modified: self.last_modified,
            is_pinned: self.is_pinned,
            is_trashed: self.is_trashed,
        }
    }
}

impl Metadata {
    /// The invariant: the note's tag list holds each tag at most once.
    pub open spec fn wf(&self) -> bool {
        self@.tags.no_duplicates()
    }

    /// Empty metadata: no title, no tag, modified at the epoch, neither
    /// pinned nor trashed.
    pub fn new() -> (metadata: Metadata)
        ensures
            metadata.wf(),
            metadata@.title == Seq::<char>::empty(),
            metadata@.tags == Seq::<u64>::empty(),
            metadata@.last_modified == (Date { seconds: 0, nanoseconds: 0 }),
            !metadata@.is_pinned,
            !metadata@.is_trashed,
    {
        Metadata {
            title: String::new(),
            tag_list: NoteTagList::new(),
            last_modified: Date::default(),
            is_pinned: false,
            is_trashed: false,
        }
    }

    /// Metadata made of the given fields.
    pub fn from_parts(
        title: String,
        tag_list: NoteTagList,
        last_modified: Date,
        is_pinned: bool,
        is_trashed: bool,
    ) -> (metadata: Metadata)
        ensures
            metadata.wf(),
            metadata@ == (MetadataView {
                title: title@,
                tags: tag_list@,
                last_modified,
                is_pinned,
                is_trashed,
            }),
    {
        proof {
            use_type_invariant(&tag_list);
        }
        Metadata { title, tag_list, last_modified, is_pinned, is_trashed }
    }

    /// Sets the title; the note counts as modified at `now`, the time the
    /// caller read from the clock.
    pub fn set_title(&mut self, title: String, now: Date)
        ensures
            final(self)@ == (MetadataView { title: title@, last_modified: now, ..old(self)@ }),
    {
        self.title = title;
        self.last_modified = now;
    }

    /// The title.
    pub fn title(&self) -> (title: &str)
        ensures
            title@ == self@.title,
    {
        self.title.as_str()
    }

    /// Replaces the note's tag list.
    pub fn set_tag_list(&mut self, tag_list: NoteTagList)
        ensures
            final(self)@ == (MetadataView { tags: tag_list@, ..old(self)@ }),
    {
        self.tag_list = tag_list;
    }

    /// The note's tag list.
    pub fn tag_list(&self) -> (tag_list: &NoteTagList)
        ensures
            tag_list@ == self@.tags,
    {
        &self.tag_list
    }

    /// The note's tag list, for changes.
    pub fn tag_list_mut(&mut self) -> (tag_list: &mut NoteTagList)
        ensures
            tag_list@ == old(self)@.tags,
            final(self)@ == (MetadataView { tags: final(tag_list)@, ..old(self)@ }),
    {
        &mut self.tag_list
    }

    /// Marks the note as modified at `now`, the time the caller read from
    /// the clock; nothing else changes.
    pub fn update_last_modified(&mut self, now: Date)
        ensures
            final(self)@ == (MetadataView { last_modified: now, ..old(self)@ }),
    {
        self.last_modified = now;
    }

    /// When the note was last modified.
    pub fn last_modified(&self) -> (date: Date)
        ensures
            date == self@.last_modified,
    {
        self.last_modified
    }

    /// Pins or unpins the note.
    pub fn set_is_pinned(&mut self, is_pinned: bool)
        ensures
            final(self)@ == (MetadataView { is_pinned, ..old(self)@ }),
    {
        self.is_pinned = is_pinned;
    }

    /// Whether the note is pinned.
    pub fn is_pinned(&self) -> (is_pinned: bool)
        ensures
            is_pinned == self@.is_pinned,
    {
        self.is_pinned
    }

    /// Moves the note to or out of the trash.
    pub fn set_is_trashed(&mut self, is_trashed: bool)
        ensures
            final(self)@ == (MetadataView { is_trashed, ..old(self)@ }),
    {
        self.is_trashed = is_trashed;
    }

    /// Whether the note is in the trash.
    pub fn is_trashed(&self) -> (is_trashed: bool)
        ensures
            is_trashed == self@.is_trashed,
    {
        self.is_trashed
    }
}

} // verus!
