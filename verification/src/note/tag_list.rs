//! A set of tags in which two tags with the same name count as one tag.
use crate::name_set::{names_after_inserts, NameSet};
use crate::tag::Tag;
use crate::tag_list::TagList as AllTags;
use vstd::prelude::*;

verus! {

/// Tags, in insertion order, no name twice.
#[derive(Debug)]
pub struct TagList {
    names: NameSet,
    ids: Vec<u64>,
}

impl View for TagList {
    type V = Seq<(u64, Seq<char>)>;

    /// Each held tag, as its identity and the name it was added under, in
    /// order.
    closed spec fn view(&self) -> Seq<(u64, Seq<char>)> {
        Seq::new(self.names@.len(), |i: int| (self.ids@[i], self.names@[i]))
    }
}

/// The names of held tags.
pub open spec fn tag_names(tags: Seq<(u64, Seq<char>)>) -> Seq<Seq<char>> {
    tags.map_values(|t: (u64, Seq<char>)| t.1)
}

impl TagList {
    /// The list's invariant: each held name has its tag's identity.
    #[verifier::type_invariant]
    closed spec fn wf(&self) -> bool {
        self.ids@.len() == self.names@.len()
    }

    /// Takes the list apart, leaving an empty list in its place.
    fn take_parts(&mut self) -> (parts: (NameSet, Vec<u64>))
        ensures
            parts.1@.len() == parts.0@.len(),
            old(self)@ == Seq::new(parts.0@.len(), |i: int| (parts.1@[i], parts.0@[i])),
    {
        proof {
            use_type_invariant(&*self);
        }
        let mut this = TagList::new();
        std::mem::swap(&mut this, self);
        let TagList { names, ids } = this;
        (names, ids)
    }

    /// An empty list.
    pub fn new() -> (list: TagList)
        ensures
            list@ == Seq::<(u64, Seq<char>)>::empty(),
    {
        let list = TagList { names: NameSet::new(), ids: Vec::new() };
        proof {
            assert(list@ =~= Seq::<(u64, Seq<char>)>::empty());
        }
        list
    }

    /// The number of tags, as the list model reports it.
    pub fn n_items(&self) -> (n: u32)
        ensures
            n == self@.len() as u32,
    {
        self.names.len() as u32
    }

    /// The tag at `position`, if there is one.
    pub fn item(&self, position: u32) -> (tag: Option<Tag>)
        ensures
            tag is None <==> position >= self@.len(),
            tag matches Some(t) ==> t@ == self@[position as int].0 && t.name_view()
                == self@[position as int].1,
    {
        proof {
            use_type_invariant(self);
        }
        match self.names.get(position as usize) {
            Some(name) => Some(Tag::new(self.ids[position as usize], name.as_str())),
            None => None,
        }
    }

    /// Adds `tag` at the end unless a tag of that name is held; tells
    /// whether it was added.
    pub fn append(&mut self, tag: Tag) -> (appended: bool)
        ensures
            appended == !tag_names(old(self)@).contains(tag.name_view()),
            appended ==> final(self)@ == old(self)@.push((tag@, tag.name_view())),
            !appended ==> final(self)@ == old(self)@,
    {
        let (mut names, mut ids) = self.take_parts();
        proof {
            assert(tag_names(old(self)@) =~= names@);
        }
        let appended = names.insert(tag.name());
        if appended {
            ids.push(tag.id());
        }
        *self = TagList { names, ids };
        proof {
            if appended {
                assert(self@ =~= old(self)@.push((tag@, tag.name_view())));
            } else {
                assert(self@ =~= old(self)@);
            }
        }
        appended
    }

    /// Removes the tag with `tag`'s name, keeping the order of the others;
    /// tells whether one was held.
    pub fn remove(&mut self, tag: Tag) -> (removed: bool)
        ensures
            removed == tag_names(old(self)@).contains(tag.name_view()),
            removed ==> final(self)@ == old(self)@.remove(
                tag_names(old(self)@).index_of(tag.name_view()),
            ),
            !removed ==> final(self)@ == old(self)@,
    {
        let (mut names, mut ids) = self.take_parts();
        proof {
            assert(tag_names(old(self)@) =~= names@);
        }
        match names.shift_remove(tag.name_str()) {
            Some(index) => {
                ids.remove(index);
                *self = TagList { names, ids };
                proof {
                    assert(self@ =~= old(self)@.remove(index as int));
                }
                true
            },
            None => {
                *self = TagList { names, ids };
                proof {
                    assert(self@ =~= old(self)@);
                }
                false
            },
        }
    }

    /// Whether a tag with `tag`'s name is held.
    pub fn contains(&self, tag: Tag) -> (found: bool)
        ensures
            found == tag_names(self@).contains(tag.name_view()),
    {
        proof {
            assert(tag_names(self@) =~= self.names@);
        }
        self.names.contains(tag.name_str())
    }

    /// The tag named `name`, if one is held.
    pub fn find_with_name(&self, name: &str) -> (tag: Option<Tag>)
        ensures
            tag is Some <==> tag_names(self@).contains(name@),
            tag matches Some(t) ==> t.name_view() == name@ && t@ == self@[tag_names(
                self@,
            ).index_of(name@)].0,
    {
        proof {
            assert(tag_names(self@) =~= self.names@);
        }
        proof {
            use_type_invariant(self);
        }
        match self.names.index_of(name) {
            Some(index) => Some(Tag::new(self.ids[index], name)),
            None => None,
        }
    }

    /// The names of the tags, in order.
    pub fn names(&self) -> (names: Vec<String>)
        ensures
            names@.len() == self@.len(),
            forall|i: int| 0 <= i < names@.len() ==> #[trigger] names@[i]@ == self@[i].1,
    {
        self.names.names()
    }

    /// A list built from stored tag names: a new tag of `tags` for each
    /// name in turn, repeats skipped.
    pub fn from_names(tags: &mut AllTags, names: &Vec<String>) -> (list: TagList)
        requires
            old(tags)@.registry.len() + names@.len() < u64::MAX,
        ensures
            final(tags)@.ids == old(tags)@.ids,
            final(tags)@.names == old(tags)@.names,
            tag_names(list@) == names_after_inserts(
                Seq::empty(),
                names@.map_values(|s: String| s@),
            ),
    {
        let mut list = TagList::new();
        let ghost views = names@.map_values(|s: String| s@);
        let ghost t0 = tags@;
        let mut i: usize = 0;
        while i < names.len()
            invariant
                i <= names@.len(),
                t0 == old(tags)@,
                tags@.ids == t0.ids,
                tags@.names == t0.names,
                tags@.registry.len() == t0.registry.len() + i,
                t0.registry.len() + names@.len() < u64::MAX,
                views == names@.map_values(|s: String| s@),
                tag_names(list@) == names_after_inserts(Seq::empty(), views.take(i as int)),
            decreases names@.len() - i,
        {
            proof {
                assert(views.take(i as int + 1).drop_last() =~= views.take(i as int));
                assert(views.take(i as int + 1).last() == names@[i as int]@);
            }
            let ghost before = list@;
            let tag = tags.new_tag(names[i].as_str());
            let appended = list.append(tag);
            proof {
                if appended {
                    assert(tag_names(list@) =~= tag_names(before).push(names@[i as int]@));
                }
            }
            i = i + 1;
        }
        proof {
            assert(views.take(names@.len() as int) =~= views);
        }
        list
    }
}

} // verus!
