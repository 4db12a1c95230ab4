//! The tags one note carries, in the order they were added. A note refers
//! to its tags by identity, so a renamed tag shows its new name on every
//! note that carries it.
use crate::id_set::IdSet;
use crate::note::note_list::ItemsChanged;
use crate::tag::Tag;
use crate::tag_list::{valid_tag_list, TagList, TagListError};
use vstd::prelude::*;

verus! {

/// Whether `id` is the tag that `from_names` takes for the stored name
/// `name`: the listed tag of that name (`listed_ids` and `listed_names`
/// being the listed tags) where there is one, else a tag handed out anew,
/// whose identity is past the `registry_before` tags handed out before
/// and whose name in `registry_after` is `name`.
pub open spec fn stored_tag_fits(
    listed_ids: Seq<u64>,
    listed_names: Seq<Seq<char>>,
    registry_before: nat,
    registry_after: Seq<Seq<char>>,
    name: Seq<char>,
    id: u64,
) -> bool {
    if listed_names.contains(name) {
        id == listed_ids[listed_names.index_of(name)]
    } else {
        registry_before <= id < registry_after.len() && registry_after[id as int] == name
    }
}

/// The tags of one note, each at most once.
#[derive(Debug, PartialEq, Eq)]
pub struct NoteTagList {
    tags: IdSet,
}

impl View for NoteTagList {
    type V = Seq<u64>;

    /// The identities of the note's tags, in order.
    closed spec fn view(&self) -> Seq<u64> {
        self.tags@
    }
}

impl Clone for NoteTagList {
    /// A list carrying the same tags in the same order.
    fn clone(&self) -> (list: NoteTagList)
        ensures
            list@ == self@,
    {
        proof {
            use_type_invariant(self);
        }
        NoteTagList { tags: self.tags.clone() }
    }
}

impl NoteTagList {
    /// The list's invariant: no tag occurs twice.
    #[verifier::type_invariant]
    pub open spec fn wf(&self) -> bool {
        self@.no_duplicates()
    }

    /// A note tag list without tags.
    pub fn new() -> (list: NoteTagList)
        ensures
            list@ == Seq::<u64>::empty(),
    {
        NoteTagList { tags: IdSet::new() }
    }

    /// The number of tags, as the list model reports it.
    pub fn n_items(&self) -> (n: u32)
        ensures
            n == self@.len() as u32,
    {
        self.tags.len() as u32
    }

    /// The tag at `position`, under its current name in `tags`, if there is
    /// one and `tags` handed it out.
    pub fn item(&self, position: u32, tags: &TagList) -> (tag: Option<Tag>)
        ensures
            tag is None <==> position >= self@.len() || self@[position as int]
                >= tags@.registry.len(),
            tag matches Some(t) ==> t@ == self@[position as int] && t.name_view()
                == tags@.registry[t@ as int],
    {
        match self.tags.get(position as usize) {
            Some(id) => tags.tag(id),
            None => None,
        }
    }

    /// Adds `tag` at the end and gives back the change to announce: one
    /// item added at the old end. Refused, with no change, when the note
    /// already carries that very tag; another tag of the same name is
    /// accepted.
    pub fn append(&mut self, tag: Tag) -> (result: Result<ItemsChanged, TagListError>)
        ensures
            result is Ok <==> !old(self)@.contains(tag@),
            result is Ok ==> final(self)@ == old(self)@.push(tag@) && result == Ok::<
                ItemsChanged,
                TagListError,
            >(ItemsChanged { position: old(self)@.len() as u32, removed: 0, added: 1 }),
            result is Err ==> result == Err::<ItemsChanged, TagListError>(TagListError::ExistingTag)
                && final(self)@ == old(self)@,
    {
        let mut tags = IdSet::new();
        std::mem::swap(&mut tags, &mut self.tags);
        let position = tags.len() as u32;
        let inserted = tags.insert(tag.id());
        proof {
            use_type_invariant(&tags);
        }
        self.tags = tags;
        if inserted {
            Ok(ItemsChanged { position, removed: 0, added: 1 })
        } else {
            Err(TagListError::ExistingTag)
        }
    }

    /// Removes `tag`, keeping the order of the others, and gives back the
    /// change to announce: one item removed at the tag's position. Refused,
    /// with no change, when the note does not carry it.
    pub fn remove(&mut self, tag: &Tag) -> (result: Result<ItemsChanged, TagListError>)
        ensures
            result is Ok <==> old(self)@.contains(tag@),
            result is Ok ==> final(self)@ == old(self)@.remove(old(self)@.index_of(tag@))
                && result == Ok::<ItemsChanged, TagListError>(
                ItemsChanged {
                    position: old(self)@.index_of(tag@) as u32,
                    removed: 1,
                    added: 0,
                },
            ),
            result is Err ==> result == Err::<ItemsChanged, TagListError>(TagListError::MissingTag)
                && final(self)@ == old(self)@,
    {
        let mut tags = IdSet::new();
        std::mem::swap(&mut tags, &mut self.tags);
        let removed = tags.shift_remove(tag.id());
        proof {
            use_type_invariant(&tags);
        }
        self.tags = tags;
        match removed {
            Some(index) => Ok(ItemsChanged { position: index as u32, removed: 1, added: 0 }),
            None => Err(TagListError::MissingTag),
        }
    }

    /// Whether the note carries `tag`.
    pub fn contains(&self, tag: &Tag) -> (found: bool)
        ensures
            found == self@.contains(tag@),
    {
        self.tags.contains(tag.id())
    }

    /// The position of `tag`, if the note carries it.
    pub fn get_index_of(&self, tag: &Tag) -> (index: Option<usize>)
        ensures
            index is None <==> !self@.contains(tag@),
            index matches Some(i) ==> i < self@.len() && self@[i as int] == tag@,
    {
        self.tags.index_of(tag.id())
    }

    /// The current names of the note's tags in `tags`, in order; `None`
    /// when one of them was not handed out by `tags`.
    pub fn names(&self, tags: &TagList) -> (names: Option<Vec<String>>)
        ensures
            names is None <==> exists|i: int|
                0 <= i < self@.len() && #[trigger] self@[i] >= tags@.registry.len(),
            names matches Some(v) ==> v@.len() == self@.len() && forall|i: int|
                0 <= i < v@.len() ==> #[trigger] v@[i]@ == tags@.registry[self@[i] as int],
    {
        let n = self.tags.len();
        let mut names: Vec<String> = Vec::new();
        let mut i: usize = 0;
        while i < n
            invariant
                n == self@.len(),
                i <= n,
                names@.len() == i,
                forall|j: int| 0 <= j < i ==> #[trigger] self@[j] < tags@.registry.len(),
                forall|j: int| 0 <= j < i ==> #[trigger] names@[j]@ == tags@.registry[self@[j] as int],
            decreases n - i,
        {
            let id = match self.tags.get(i) {
                Some(id) => id,
                None => {
                    assert(false);
                    return None;
                },
            };
            match tags.tag(id) {
                Some(tag) => names.push(tag.name()),
                None => {
                    return None;
                },
            }
            i = i + 1;
        }
        Some(names)
    }

    /// The note tag list of stored tag names, in that order: for each name
    /// the listed tag of that name in `tags`, or else a new tag of that
    /// name, which `tags` hands out but does not list. A listed name may
    /// not be stored twice: the note would carry the same tag twice.
    pub fn from_names(tags: &mut TagList, names: &Vec<String>) -> (list: NoteTagList)
        requires
            old(tags)@.registry.len() + names@.len() < u64::MAX,
            forall|i: int, j: int|
                0 <= i < j < names@.len() && names@[i]@ == names@[j]@ ==> !old(
                    tags,
                )@.names.contains(#[trigger] names@[i]@) || !#[trigger] old(tags)@.names.contains(
                    names@[j]@,
                ),
        ensures
            final(tags)@.ids == old(tags)@.ids,
            final(tags)@.names == old(tags)@.names,
            final(tags)@.registry.len() >= old(tags)@.registry.len(),
            final(tags)@.registry.subrange(0, old(tags)@.registry.len() as int) == old(
                tags,
            )@.registry,
            list@.len() == names@.len(),
            forall|i: int|
                0 <= i < names@.len() ==> stored_tag_fits(
                    old(tags)@.ids,
                    old(tags)@.names,
                    old(tags)@.registry.len(),
                    final(tags)@.registry,
                    #[trigger] names@[i]@,
                    list@[i],
                ),
    {
        proof {
            use_type_invariant(&*tags);
        }
        let ghost t0 = tags@;
        let mut list = NoteTagList::new();
        let mut i: usize = 0;
        while i < names.len()
            invariant
                valid_tag_list(t0),
                i <= names@.len(),
                t0 == old(tags)@,
                t0.registry.len() + names@.len() < u64::MAX,
                forall|a: int, b: int|
                    0 <= a < b < names@.len() && names@[a]@ == names@[b]@ ==> !t0.names.contains(
                        #[trigger] names@[a]@,
                    ) || !#[trigger] t0.names.contains(names@[b]@),
                tags@.ids == t0.ids,
                tags@.names == t0.names,
                t0.registry.len() <= tags@.registry.len() <= t0.registry.len() + i,
                tags@.registry.subrange(0, t0.registry.len() as int) == t0.registry,
                list@.len() == i,
                forall|k: int| 0 <= k < i ==> #[trigger] list@[k] < tags@.registry.len(),
                forall|k: int|
                    0 <= k < i ==> stored_tag_fits(
                        t0.ids,
                        t0.names,
                        t0.registry.len(),
                        tags@.registry,
                        #[trigger] names@[k]@,
                        list@[k],
                    ),
            decreases names@.len() - i,
        {
            let ghost r_before = tags@.registry;
            let tag = match tags.get_with_name(names[i].as_str()) {
                Some(tag) => tag,
                None => tags.new_tag(names[i].as_str()),
            };
            proof {
                let nm = names@[i as int]@;
                if t0.names.contains(nm) {
                    let k = t0.names.index_of(nm);
                    assert(t0.names[k] == nm);
                    assert(tag@ == t0.ids[k]);
                    // a listed name occurs once: no earlier entry took this tag
                    assert forall|k2: int| 0 <= k2 < i implies list@[k2] != tag@ by {
                        let n2 = names@[k2]@;
                        if list@[k2] == tag@ {
                            if t0.names.contains(n2) {
                                let j2 = t0.names.index_of(n2);
                                assert(t0.names[j2] == n2);
                                assert(t0.ids[j2] == t0.ids[k]);
                                assert(t0.ids.no_duplicates());
                                assert(j2 == k);
                                assert(n2 == nm);
                                assert(t0.names.contains(names@[k2]@));
                                assert(t0.names.contains(names@[i as int]@));
                            } else {
                                assert(list@[k2] >= t0.registry.len());
                                assert(t0.ids[k] < t0.registry.len());
                            }
                        }
                    }
                } else {
                    assert(tag@ == r_before.len());
                    assert forall|k2: int| 0 <= k2 < i implies list@[k2] != tag@ by {}
                }
            }
            let ghost l_before = list@;
            proof {
                use_type_invariant(&list);
            }
            let appended = list.append(tag);
            proof {
                assert(!l_before.contains(tag@)) by {
                    if l_before.contains(tag@) {
                        let w = choose|w: int| 0 <= w < l_before.len() && l_before[w] == tag@;
                        assert(list@.len() > 0);
                    }
                }
                assert(appended is Ok);
                assert(tags@.registry.subrange(0, t0.registry.len() as int) =~= t0.registry);
                assert forall|k: int| 0 <= k < i + 1 implies #[trigger] list@[k]
                    < tags@.registry.len() by {
                    if k < i {
                        assert(list@[k] == l_before[k]);
                    }
                }
                assert forall|k: int|
                    0 <= k < i + 1 implies stored_tag_fits(
                    t0.ids,
                    t0.names,
                    t0.registry.len(),
                    tags@.registry,
                    #[trigger] names@[k]@,
                    list@[k],
                ) by {
                    if k < i {
                        assert(list@[k] == l_before[k]);
                        if !t0.names.contains(names@[k]@) {
                            assert(r_before[list@[k] as int] == names@[k]@);
                            assert(tags@.registry[list@[k] as int] == r_before[list@[k] as int]);
                        }
                    }
                }
            }
            i = i + 1;
        }
        list
    }
}

} // verus!
