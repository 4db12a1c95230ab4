//! The tag lists of several notes edited together: tags are added to or
//! removed from all of them at once, and a tag shows as checked, unchecked
//! or mixed depending on how many of them carry it.
use crate::note::note_tag_list::NoteTagList;
use crate::tag::Tag;
use crate::tag_list::{TagList, TagListError};
use vstd::prelude::*;

verus! {

/// How a tag shows in the tag dialog for the notes being edited.
#[derive(Debug, Clone, Copy, PartialEq, Eq)]
pub enum TagCheckState {
    /// Every note carries the tag.
    Checked,
    /// No note carries the tag (or there is no note).
    Unchecked,
    /// Some notes carry it and some do not.
    Inconsistent,
}

/// The state the tag with identity `tag` shows for notes whose tag lists are `lists`.
pub open spec fn tag_check_state(lists: Seq<Seq<u64>>, tag: u64) -> TagCheckState {
    if lists.len() == 0 {
        TagCheckState::Unchecked
    } else if forall|i: int| 0 <= i < lists.len() ==> #[trigger] lists[i].contains(tag) {
        TagCheckState::Checked
    } else if forall|i: int| 0 <= i < lists.len() ==> !#[trigger] lists[i].contains(tag) {
        TagCheckState::Unchecked
    } else {
        TagCheckState::Inconsistent
    }
}

/// How a tag shows follows from which notes carry it: checked exactly
/// when there is a note and every note carries it, unchecked exactly when
/// no note carries it, and mixed exactly when one note carries it and
/// another does not.
pub proof fn lemma_tag_check_state_meaning(lists: Seq<Seq<u64>>, tag: u64)
    ensures
        tag_check_state(lists, tag) == TagCheckState::Checked <==> lists.len() > 0 && forall|i: int|
            0 <= i < lists.len() ==> lists[i].contains(tag),
        tag_check_state(lists, tag) == TagCheckState::Unchecked <==> forall|i: int|
            0 <= i < lists.len() ==> !lists[i].contains(tag),
        tag_check_state(lists, tag) == TagCheckState::Inconsistent <==> (exists|i: int|
            0 <= i < lists.len() && lists[i].contains(tag)) && (exists|j: int|
            0 <= j < lists.len() && !lists[j].contains(tag)),
{
    let all = forall|i: int| 0 <= i < lists.len() ==> #[trigger] lists[i].contains(tag);
    let none = forall|i: int| 0 <= i < lists.len() ==> !#[trigger] lists[i].contains(tag);
    if lists.len() > 0 {
        if lists[0].contains(tag) {
            assert(!none);
        } else {
            assert(!all);
        }
    }
    if !all && !none {
        let a = choose|i: int| 0 <= i < lists.len() && !#[trigger] lists[i].contains(tag);
        let b = choose|i: int| 0 <= i < lists.len() && #[trigger] lists[i].contains(tag);
        assert(lists[a].contains(tag) == false);
        assert(lists[b].contains(tag));
    }
}

/// A tag list after appending `tag` when it is not there yet.
pub open spec fn with_tag(list: Seq<u64>, tag: u64) -> Seq<u64> {
    if list.contains(tag) {
        list
    } else {
        list.push(tag)
    }
}

/// A tag list after removing `tag` when it is there.
pub open spec fn without_tag(list: Seq<u64>, tag: u64) -> Seq<u64> {
    if list.contains(tag) {
        list.remove(list.index_of(tag))
    } else {
        list
    }
}

/// After a tag is added to every note, it shows as checked (when there is
/// a note at all).
pub proof fn lemma_append_on_all_checks(
    before: Seq<Seq<u64>>,
    after: Seq<Seq<u64>>,
    tag: u64,
)
    requires
        before.len() > 0,
        after.len() == before.len(),
        forall|i: int| 0 <= i < before.len() ==> #[trigger] after[i] == with_tag(before[i], tag),
    ensures
        tag_check_state(after, tag) == TagCheckState::Checked,
{
    assert forall|i: int| 0 <= i < after.len() implies #[trigger] after[i].contains(tag) by {
        assert(after[i] == with_tag(before[i], tag));
        if !before[i].contains(tag) {
            assert(after[i][before[i].len() as int] == tag);
        }
    }
}

/// After a tag is removed from every note, it shows as unchecked.
pub proof fn lemma_remove_on_all_unchecks(
    before: Seq<Seq<u64>>,
    after: Seq<Seq<u64>>,
    tag: u64,
)
    requires
        forall|i: int| 0 <= i < before.len() ==> (#[trigger] before[i]).no_duplicates(),
        after.len() == before.len(),
        forall|i: int| 0 <= i < before.len() ==> #[trigger] after[i] == without_tag(before[i], tag),
    ensures
        tag_check_state(after, tag) == TagCheckState::Unchecked,
{
    assert forall|i: int| 0 <= i < after.len() implies !#[trigger] after[i].contains(tag) by {
        assert(after[i] == without_tag(before[i], tag));
        let l = before[i];
        assert(l.no_duplicates());
        if l.contains(tag) {
            let k = l.index_of(tag);
            assert(l[k] == tag);
            let r = l.remove(k);
            if r.contains(tag) {
                let w = choose|w: int| 0 <= w < r.len() && r[w] == tag;
                if w < k {
                    assert(l[w] == tag);
                } else {
                    assert(l[w + 1] == tag);
                }
            }
        }
    }
    if after.len() > 0 {
        assert(!after[0].contains(tag));
    }
}

/// Adding a tag to every note twice is the same as adding it once.
pub proof fn lemma_with_tag_idempotent(list: Seq<u64>, tag: u64)
    ensures
        with_tag(with_tag(list, tag), tag) == with_tag(list, tag),
{
    if !list.contains(tag) {
        assert(list.push(tag)[list.len() as int] == tag);
    }
}

/// The tag lists of the notes being edited together.
#[derive(Debug)]
pub struct NoteTagLists {
    lists: Vec<NoteTagList>,
}

impl View for NoteTagLists {
    type V = Seq<Seq<u64>>;

    /// The tag identities of each note, note by note.
    closed spec fn view(&self) -> Seq<Seq<u64>> {
        self.lists@.map_values(|l: NoteTagList| l@)
    }
}

impl NoteTagLists {
    /// No note.
    pub fn new() -> (lists: NoteTagLists)
        ensures
            lists@ == Seq::<Seq<u64>>::empty(),
    {
        NoteTagLists { lists: Vec::new() }
    }

    /// The notes' tag lists, in the given order.
    pub fn from_vec(lists: Vec<NoteTagList>) -> (result: NoteTagLists)
        ensures
            result@ == lists@.map_values(|l: NoteTagList| l@),
    {
        NoteTagLists { lists }
    }

    /// The number of notes.
    pub fn len(&self) -> (n: usize)
        ensures
            n == self@.len(),
    {
        self.lists.len()
    }

    /// Whether there is no note.
    pub fn is_empty(&self) -> (empty: bool)
        ensures
            empty == (self@.len() == 0),
    {
        self.lists.len() == 0
    }

    /// The tag list of the note at `index`, if there is one.
    pub fn get(&self, index: usize) -> (list: Option<&NoteTagList>)
        ensures
            list is None <==> index >= self@.len(),
            list matches Some(l) ==> l@ == self@[index as int],
    {
        if index < self.lists.len() {
            Some(&self.lists[index])
        } else {
            None
        }
    }

    /// The first note's tag list, if there is a note.
    pub fn first(&self) -> (list: Option<&NoteTagList>)
        ensures
            list is None <==> self@.len() == 0,
            list matches Some(l) ==> l@ == self@[0],
    {
        self.get(0)
    }

    /// Adds `tag` to every note that does not carry it yet.
    pub fn append_on_all(&mut self, tag: &Tag)
        ensures
            final(self)@.len() == old(self)@.len(),
            forall|i: int|
                0 <= i < old(self)@.len() ==> #[trigger] final(self)@[i] == with_tag(
                    old(self)@[i],
                    tag@,
                ),
    {
        let n = self.lists.len();
        let mut i: usize = 0;
        while i < n
            invariant
                n == old(self)@.len(),
                self@.len() == n,
                i <= n,
                forall|k: int| 0 <= k < i ==> #[trigger] self@[k] == with_tag(old(self)@[k], tag@),
                forall|k: int| i <= k < n ==> #[trigger] self@[k] == old(self)@[k],
            decreases n - i,
        {
            let ghost before = self.lists@;
            let ghost prev_view = self@;
            proof {
                assert(self@[i as int] == before[i as int]@);
            }
            let mut list = self.lists.remove(i);
            let _ = list.append(tag.clone());
            self.lists.insert(i, list);
            proof {
                assert(self.lists@ =~= before.update(i as int, list));
                assert forall|k: int| 0 <= k < n implies #[trigger] self@[k] == (if k <= i {
                    with_tag(old(self)@[k], tag@)
                } else {
                    old(self)@[k]
                }) by {
                    assert(self@[k] == self.lists@[k]@);
                    if k != i {
                        assert(self.lists@[k] == before[k]);
                        assert(prev_view[k] == before[k]@);
                    }
                }
            }
            i = i + 1;
        }
    }

    /// Removes `tag` from every note that carries it.
    pub fn remove_on_all(&mut self, tag: &Tag)
        ensures
            final(self)@.len() == old(self)@.len(),
            forall|i: int|
                0 <= i < old(self)@.len() ==> #[trigger] final(self)@[i] == without_tag(
                    old(self)@[i],
                    tag@,
                ),
    {
        let n = self.lists.len();
        let mut i: usize = 0;
        while i < n
            invariant
                n == old(self)@.len(),
                self@.len() == n,
                i <= n,
                forall|k: int|
                    0 <= k < i ==> #[trigger] self@[k] == without_tag(old(self)@[k], tag@),
                forall|k: int| i <= k < n ==> #[trigger] self@[k] == old(self)@[k],
            decreases n - i,
        {
            let ghost before = self.lists@;
            let ghost prev_view = self@;
            proof {
                assert(self@[i as int] == before[i as int]@);
            }
            let mut list = self.lists.remove(i);
            let _ = list.remove(tag);
            self.lists.insert(i, list);
            proof {
                assert(self.lists@ =~= before.update(i as int, list));
                assert forall|k: int| 0 <= k < n implies #[trigger] self@[k] == (if k <= i {
                    without_tag(old(self)@[k], tag@)
                } else {
                    old(self)@[k]
                }) by {
                    assert(self@[k] == self.lists@[k]@);
                    if k != i {
                        assert(self.lists@[k] == before[k]);
                        assert(prev_view[k] == before[k]@);
                    }
                }
            }
            i = i + 1;
        }
    }

    /// How `tag` shows for these notes: checked when every note carries
    /// it, unchecked when none does or there is no note, mixed otherwise.
    pub fn tag_state(&self, tag: &Tag) -> (state: TagCheckState)
        ensures
            state == tag_check_state(self@, tag@),
    {
        let n = self.lists.len();
        let mut all_contain = true;
        let mut none_contain = true;
        let mut i: usize = 0;
        while i < n
            invariant
                n == self@.len(),
                i <= n,
                all_contain == (forall|k: int| 0 <= k < i ==> #[trigger] self@[k].contains(tag@)),
                none_contain == (forall|k: int|
                    0 <= k < i ==> !#[trigger] self@[k].contains(tag@)),
            decreases n - i,
        {
            if !all_contain && !none_contain {
                proof {
                    let a = choose|k: int| 0 <= k < i && !self@[k].contains(tag@);
                    let b = choose|k: int| 0 <= k < i && self@[k].contains(tag@);
                    assert(!(forall|k: int| 0 <= k < n ==> #[trigger] self@[k].contains(tag@)));
                    assert(!(forall|k: int| 0 <= k < n ==> !#[trigger] self@[k].contains(tag@)));
                }
                return TagCheckState::Inconsistent;
            }
            proof {
                assert(self@[i as int] == self.lists@[i as int]@);
            }
            if self.lists[i].contains(tag) {
                none_contain = false;
            } else {
                all_contain = false;
            }
            i = i + 1;
        }
        if n == 0 {
            TagCheckState::Unchecked
        } else if all_contain {
            TagCheckState::Checked
        } else if none_contain {
            TagCheckState::Unchecked
        } else {
            TagCheckState::Inconsistent
        }
    }
}

/// Creates the tag `name` from the tag dialog: every edited note gets it,
/// then it joins the list of all tags. The name must be a valid new tag
/// name; the new tag is returned.
pub fn create_tag(tag_list: &mut TagList, notes: &mut NoteTagLists, name: &str) -> (tag: Tag)
    requires
        old(tag_list)@.registry.len() < u64::MAX,
        !old(tag_list)@.names.contains(name@),
        name@.len() > 0,
    ensures
        tag@ == old(tag_list)@.registry.len(),
        tag.name_view() == name@,
        final(tag_list)@.ids == old(tag_list)@.ids.push(tag@),
        final(tag_list)@.names == old(tag_list)@.names.push(name@),
        final(tag_list)@.registry == old(tag_list)@.registry.push(name@),
        final(notes)@.len() == old(notes)@.len(),
        forall|i: int|
            0 <= i < old(notes)@.len() ==> #[trigger] final(notes)@[i] == with_tag(
                old(notes)@[i],
                tag@,
            ),
{
    let tag = tag_list.new_tag(name);
    notes.append_on_all(&tag);
    let _ = tag_list.append(tag.clone());
    tag
}

} // verus!
