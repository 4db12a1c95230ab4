//! The application-wide list of tags: every tag that notes may carry,
//! each name at most once and never empty, in the order the tags were
//! added. The list also hands out the tags' identities and keeps the
//! current name of every tag it has handed out, listed or not.
use crate::id_set::IdSet;
use crate::name_set::NameSet;
use crate::note::note_list::ItemsChanged;
use crate::tag::Tag;
use vstd::prelude::*;

verus! {

/// Whether `names` can be the names of a tag list: no name occurs twice and
/// no name is empty.
pub open spec fn valid_names(names: Seq<Seq<char>>) -> bool {
    &&& names.no_duplicates()
    &&& forall|i: int| 0 <= i < names.len() ==> #[trigger] names[i].len() > 0
}

/// The names a tag list holds after `names` were appended one by one to a
/// list holding `start`, each name that is empty or already held being
/// skipped.
pub open spec fn names_after_appends(start: Seq<Seq<char>>, names: Seq<Seq<char>>) -> Seq<
    Seq<char>,
>
    decreases names.len(),
{
    if names.len() == 0 {
        start
    } else {
        let before = names_after_appends(start, names.drop_last());
        let name = names.last();
        if name.len() > 0 && !before.contains(name) {
            before.push(name)
        } else {
            before
        }
    }
}

/// Removing an item just appended to a sequence without repeats gives back
/// the sequence as it was: this holds of a tag list's identities and of its
/// names alike.
pub proof fn lemma_append_then_remove<A>(items: Seq<A>, item: A)
    requires
        items.no_duplicates(),
        !items.contains(item),
    ensures
        items.push(item).remove(items.push(item).index_of(item)) == items,
{
    let t = items.push(item);
    let k = t.index_of(item);
    assert(t[items.len() as int] == item);
    assert(t.contains(item));
    assert(t[k] == item);
    if k != items.len() as int {
        assert(items[k] == item);
        assert(items.contains(item));
    }
    assert(t.remove(k) =~= items);
}

/// Renaming a tag and renaming it back gives back the list as it was.
pub proof fn lemma_rename_back(names: Seq<Seq<char>>, from: Seq<char>, to: Seq<char>)
    requires
        valid_names(names),
        names.contains(from),
        to.len() > 0,
        !names.contains(to),
    ensures
        ({
            let renamed = names.update(names.index_of(from), to);
            renamed.update(renamed.index_of(to), from) == names
        }),
{
    let k = names.index_of(from);
    assert(names[k] == from);
    let renamed = names.update(k, to);
    assert(renamed[k] == to);
    assert(renamed.contains(to));
    let j = renamed.index_of(to);
    assert(renamed[j] == to);
    if j != k {
        assert(names[j] == to);
        assert(names.contains(to));
    }
    assert(renamed.update(j, from) =~= names);
}

/// A rename keeps the number of tags and every other tag in its place.
pub proof fn lemma_rename_keeps_others(names: Seq<Seq<char>>, from: Seq<char>, to: Seq<char>)
    requires
        valid_names(names),
        names.contains(from),
    ensures
        names.update(names.index_of(from), to).len() == names.len(),
        forall|i: int|
            0 <= i < names.len() && names[i] != from ==> #[trigger] names.update(
                names.index_of(from),
                to,
            )[i] == names[i],
{
    let k = names.index_of(from);
    assert(names[k] == from);
}

/// A name taken by an appended tag stops being a valid new name, and
/// becomes one again once the tag is removed.
pub proof fn lemma_valid_name_cycle(names: Seq<Seq<char>>, name: Seq<char>)
    requires
        valid_names(names),
        name.len() > 0,
        !names.contains(name),
    ensures
        names.push(name).contains(name),
        !names.push(name).remove(names.push(name).index_of(name)).contains(name),
{
    lemma_append_then_remove(names, name);
    assert(names.push(name)[names.len() as int] == name);
}

/// A list built from stored names is a valid tag list holding each
/// non-empty stored name.
pub proof fn lemma_names_after_appends(start: Seq<Seq<char>>, names: Seq<Seq<char>>)
    requires
        valid_names(start),
    ensures
        valid_names(names_after_appends(start, names)),
        forall|i: int|
            0 <= i < names.len() && names[i].len() > 0 ==> names_after_appends(
                start,
                names,
            ).contains(#[trigger] names[i]),
    decreases names.len(),
{
    if names.len() > 0 {
        let prefix = names.drop_last();
        lemma_names_after_appends(start, prefix);
        let before = names_after_appends(start, prefix);
        let name = names.last();
        if name.len() > 0 && !before.contains(name) {
            let after = before.push(name);
            assert forall|i: int, j: int|
                0 <= i < after.len() && 0 <= j < after.len() && i != j implies after[i]
                != after[j] by {
                if i == before.len() as int {
                    assert(before[j] == after[j]);
                } else if j == before.len() as int {
                    assert(before[i] == after[i]);
                }
            }
            assert forall|i: int| 0 <= i < after.len() implies #[trigger] after[i].len() > 0 by {
                if i < before.len() {
                    assert(before[i] == after[i]);
                }
            }
        }
        let result = names_after_appends(start, names);
        assert forall|i: int|
            0 <= i < names.len() && names[i].len() > 0 implies result.contains(
            #[trigger] names[i]) by {
            if i < prefix.len() {
                assert(prefix[i] == names[i]);
                assert(before.contains(prefix[i]));
                let w = choose|w: int| 0 <= w < before.len() && before[w] == prefix[i];
                if result != before {
                    assert(result[w] == before[w]);
                }
            } else {
                if before.contains(name) {
                } else {
                    assert(result[before.len() as int] == name);
                }
            }
        }
    }
}

/// A renamed tag shows its new name wherever it is referred to by its
/// identity (as the notes' tag lists refer to their tags), and every other
/// tag keeps its name.
pub proof fn lemma_rename_reaches_references(
    registry: Seq<Seq<char>>,
    id: u64,
    name: Seq<char>,
    refs: Seq<u64>,
)
    requires
        id < registry.len(),
        forall|i: int| 0 <= i < refs.len() ==> #[trigger] refs[i] < registry.len(),
    ensures
        forall|i: int|
            0 <= i < refs.len() ==> #[trigger] registry.update(id as int, name)[refs[i] as int]
                == if refs[i] == id {
                name
            } else {
                registry[refs[i] as int]
            },
{
}

/// Loading the names a tag list stores gives back those very names, in
/// their order: storing a list and loading it again lists the same names.
pub proof fn lemma_stored_names_load_back(names: Seq<Seq<char>>)
    requires
        valid_names(names),
    ensures
        names_after_appends(Seq::empty(), names) == names,
    decreases names.len(),
{
    if names.len() > 0 {
        let prefix = names.drop_last();
        assert(valid_names(prefix)) by {
            assert forall|i: int, j: int|
                0 <= i < prefix.len() && 0 <= j < prefix.len() && i != j implies prefix[i]
                != prefix[j] by {
                assert(prefix[i] == names[i]);
                assert(prefix[j] == names[j]);
            }
            assert forall|i: int| 0 <= i < prefix.len() implies #[trigger] prefix[i].len() > 0 by {
                assert(prefix[i] == names[i]);
            }
        }
        lemma_stored_names_load_back(prefix);
        let last = names.last();
        assert(last.len() > 0);
        if prefix.contains(last) {
            let w = choose|w: int| 0 <= w < prefix.len() && prefix[w] == last;
            assert(names[w] == names[names.len() - 1]);
        }
        assert(prefix.push(last) =~= names);
    }
}

/// Why a change to a tag list was refused.
#[derive(Debug, Clone, Copy, PartialEq, Eq)]
pub enum TagListError {
    /// A tag name cannot be empty.
    EmptyName,
    /// The list already holds a tag of that name.
    ExistingName,
    /// The list holds no tag of that name.
    MissingName,
    /// The list already holds that very tag.
    ExistingTag,
    /// The list does not hold that very tag.
    MissingTag,
}

/// A tag list as plain values: the identities of the listed tags and their
/// names, in list order, and the current name of every tag handed out,
/// indexed by identity.
pub struct TagListView {
    pub ids: Seq<u64>,
    pub names: Seq<Seq<char>>,
    pub registry: Seq<Seq<char>>,
}

/// Whether `v` can be a tag list: the listed tags are distinct, handed out
/// by the list, and listed under their current names, which are distinct
/// and not empty.
pub open spec fn valid_tag_list(v: TagListView) -> bool {
    &&& v.ids.no_duplicates()
    &&& v.ids.len() == v.names.len()
    &&& valid_names(v.names)
    &&& forall|i: int|
        0 <= i < v.ids.len() ==> #[trigger] v.ids[i] < v.registry.len() && v.names[i]
            == v.registry[v.ids[i] as int]
}

/// The list of all tags, in the order they were added.
#[derive(Debug)]
pub struct TagList {
    list: IdSet,
    name_list: NameSet,
    registry: Vec<String>,
}

impl View for TagList {
    type V = TagListView;

    closed spec fn view(&self) -> TagListView {
        TagListView {
            ids: self.list@,
            names: self.name_list@,
            registry: self.registry@.map_values(|s: String| s@),
        }
    }
}

impl TagList {
    /// The list's invariant: the listed tags are distinct, handed out by
    /// this list, and listed under their current names, which are distinct
    /// and not empty.
    #[verifier::type_invariant]
    pub open spec fn wf(&self) -> bool {
        valid_tag_list(self@)
    }

    /// Whether `tag` was handed out by this list.
    pub open spec fn has_issued(&self, tag: &Tag) -> bool {
        tag@ < self@.registry.len()
    }

    /// The current name of a tag handed out by this list.
    pub open spec fn name_of(&self, tag: &Tag) -> Seq<char> {
        self@.registry[tag@ as int]
    }

    /// The current name of `tag`: as this list keeps it when the list
    /// handed the tag out, else the name the tag carries.
    pub open spec fn current_name(&self, tag: &Tag) -> Seq<char> {
        if self.has_issued(tag) {
            self.name_of(tag)
        } else {
            tag.name_view()
        }
    }

    /// An empty tag list that has handed out no tag yet.
    pub fn new() -> (list: TagList)
        ensures
            list.wf(),
            list@.ids == Seq::<u64>::empty(),
            list@.names == Seq::<Seq<char>>::empty(),
            list@.registry == Seq::<Seq<char>>::empty(),
    {
        TagList { list: IdSet::new(), name_list: NameSet::new(), registry: Vec::new() }
    }

    /// Takes the list apart, leaving an empty list in its place.
    fn take_parts(&mut self) -> (parts: (IdSet, NameSet, Vec<String>))
        ensures
            old(self).wf(),
            parts.0@ == old(self)@.ids,
            parts.1@ == old(self)@.names,
            parts.2@.map_values(|s: String| s@) == old(self)@.registry,
    {
        proof {
            use_type_invariant(&*self);
        }
        let mut this = TagList::new();
        std::mem::swap(&mut this, self);
        let TagList { list, name_list, registry } = this;
        (list, name_list, registry)
    }

    /// A new tag named `name`, with an identity no other tag of this list
    /// has. The tag is not listed until it is appended.
    pub fn new_tag(&mut self, name: &str) -> (tag: Tag)
        requires
            old(self)@.registry.len() < u64::MAX,
        ensures
            tag@ == old(self)@.registry.len(),
            tag.name_view() == name@,
            final(self)@.ids == old(self)@.ids,
            final(self)@.names == old(self)@.names,
            final(self)@.registry == old(self)@.registry.push(name@),
    {
        let (list, name_list, mut registry) = self.take_parts();
        let id = registry.len() as u64;
        registry.push(name.to_owned());
        proof {
            assert(registry@.map_values(|s: String| s@) =~= old(self)@.registry.push(name@));
        }
        *self = TagList { list, name_list, registry };
        Tag::new(id, name)
    }

    /// The current name of the tag with identity `id`, if this list handed
    /// it out.
    fn registered_name(&self, id: u64) -> (name: Option<&String>)
        ensures
            name is None <==> id >= self@.registry.len(),
            name matches Some(n) ==> n@ == self@.registry[id as int],
    {
        let n = self.registry.len();
        proof {
            assert(self@.registry.len() == n);
        }
        if id < n as u64 {
            let i = id as usize;
            assert(i == id);
            proof {
                assert(self@.registry[id as int] == self.registry@[i as int]@);
            }
            Some(&self.registry[i])
        } else {
            None
        }
    }

    /// Whether `tag` was handed out by this list.
    pub fn issued(&self, tag: &Tag) -> (issued: bool)
        ensures
            issued == self.has_issued(tag),
    {
        self.registered_name(tag.id()).is_some()
    }

    /// The tag with identity `id`, under its current name, if this list
    /// handed it out.
    pub fn tag(&self, id: u64) -> (tag: Option<Tag>)
        ensures
            tag is None <==> id >= self@.registry.len(),
            tag matches Some(t) ==> t@ == id && t.name_view() == self@.registry[id as int],
    {
        match self.registered_name(id) {
            Some(name) => Some(Tag::new(id, name.as_str())),
            None => None,
        }
    }

    /// The number of tags, as the list model reports it.
    pub fn n_items(&self) -> (n: u32)
        ensures
            n == self@.ids.len() as u32,
    {
        self.list.len() as u32
    }

    /// The tag at `position`, under its current name, if there is one.
    pub fn item(&self, position: u32) -> (tag: Option<Tag>)
        ensures
            tag is None <==> position >= self@.ids.len(),
            tag matches Some(t) ==> t@ == self@.ids[position as int] && t.name_view()
                == self@.names[position as int],
    {
        proof {
            use_type_invariant(self);
        }
        match self.list.get(position as usize) {
            Some(id) => match self.name_list.get(position as usize) {
                Some(name) => Some(Tag::new(id, name.as_str())),
                None => None,
            },
            None => None,
        }
    }

    /// Appends `tag` at the end of the list and gives back the change to
    /// announce: one item added at the old end. Refused when the list did
    /// not hand the tag out, or when its current name is empty or already
    /// listed; the list is then unchanged.
    pub fn append(&mut self, tag: Tag) -> (result: Result<ItemsChanged, TagListError>)
        ensures
            !old(self).has_issued(&tag) ==> result == Err::<ItemsChanged, TagListError>(
                TagListError::MissingTag,
            ),
            old(self).has_issued(&tag) && old(self).name_of(&tag).len() == 0 ==> result == Err::<
                ItemsChanged,
                TagListError,
            >(TagListError::EmptyName),
            old(self).has_issued(&tag) && old(self).name_of(&tag).len() > 0 && old(
                self,
            )@.names.contains(old(self).name_of(&tag)) ==> result == Err::<
                ItemsChanged,
                TagListError,
            >(TagListError::ExistingName),
            result is Ok <==> old(self).has_issued(&tag) && old(self).name_of(&tag).len() > 0
                && !old(self)@.names.contains(old(self).name_of(&tag)),
            result is Ok ==> final(self)@.ids == old(self)@.ids.push(tag@) && final(self)@.names
                == old(self)@.names.push(old(self).name_of(&tag)) && result == Ok::<
                ItemsChanged,
                TagListError,
            >(ItemsChanged { position: old(self)@.ids.len() as u32, removed: 0, added: 1 }),
            result is Err ==> final(self)@.ids == old(self)@.ids && final(self)@.names == old(
                self,
            )@.names,
            final(self)@.registry == old(self)@.registry,
    {
        let id = tag.id();
        let name = match self.registered_name(id) {
            Some(name) => name.clone(),
            None => {
                return Err(TagListError::MissingTag);
            },
        };
        if name.as_str().is_empty() {
            return Err(TagListError::EmptyName);
        }
        let (mut list, mut name_list, registry) = self.take_parts();
        let position = list.len() as u32;
        if !name_list.insert(name) {
            *self = TagList { list, name_list, registry };
            return Err(TagListError::ExistingName);
        }
        proof {
            if old(self)@.ids.contains(id) {
                let w = choose|w: int| 0 <= w < old(self)@.ids.len() && old(self)@.ids[w] == id;
                assert(old(self)@.names[w] == old(self)@.registry[id as int]);
                assert(old(self)@.names.contains(old(self)@.names[w]));
            }
        }
        let inserted = list.insert(id);
        proof {
            assert(inserted);
            let t = name_list@;
            let r = registry@.map_values(|s: String| s@);
            assert forall|i: int| 0 <= i < t.len() implies #[trigger] t[i].len() > 0 by {
                if i < old(self)@.names.len() {
                    assert(t[i] == old(self)@.names[i]);
                }
            }
            assert forall|i: int| 0 <= i < list@.len() implies #[trigger] list@[i] < r.len()
                && t[i] == r[list@[i] as int] by {
                if i < old(self)@.ids.len() {
                    assert(list@[i] == old(self)@.ids[i]);
                }
            }
        }
        *self = TagList { list, name_list, registry };
        Ok(ItemsChanged { position, removed: 0, added: 1 })
    }

    /// Removes `tag`, keeping the order of the others, and gives back the
    /// change to announce: one item removed at the tag's position. Refused
    /// when the list does not hold the tag; the list is then unchanged.
    /// The error tells whether another tag listed under the tag's current
    /// name is there (`MissingTag`) or not (`MissingName`).
    pub fn remove(&mut self, tag: &Tag) -> (result: Result<ItemsChanged, TagListError>)
        ensures
            final(self)@.registry == old(self)@.registry,
            result is Ok <==> old(self)@.ids.contains(tag@),
            result is Ok ==> {
                let k = old(self)@.ids.index_of(tag@);
                &&& final(self)@.ids == old(self)@.ids.remove(k)
                &&& final(self)@.names == old(self)@.names.remove(k)
                &&& result == Ok::<ItemsChanged, TagListError>(
                    ItemsChanged { position: k as u32, removed: 1, added: 0 },
                )
            },
            result is Err ==> final(self)@.ids == old(self)@.ids && final(self)@.names == old(
                self,
            )@.names,
            result is Err && old(self)@.names.contains(old(self).current_name(tag)) ==> result
                == Err::<ItemsChanged, TagListError>(TagListError::MissingTag),
            result is Err && !old(self)@.names.contains(old(self).current_name(tag)) ==> result
                == Err::<ItemsChanged, TagListError>(TagListError::MissingName),
    {
        proof {
            use_type_invariant(&*self);
        }
        let id = tag.id();
        if !self.list.contains(id) {
            let listed = match self.registered_name(id) {
                Some(name) => self.name_list.contains(name.as_str()),
                None => self.name_list.contains(tag.name_str()),
            };
            if listed {
                return Err(TagListError::MissingTag);
            }
            return Err(TagListError::MissingName);
        }
        let ghost s = old(self)@;
        let ghost k = s.ids.index_of(id);
        proof {
            assert(s.ids[k] == id);
            assert(s.names[k] == s.registry[id as int]);
            let j = s.names.index_of(s.names[k]);
            assert(s.names[j] == s.names[k]);
            assert(s.names.no_duplicates());
            assert(j == k);
        }
        let name = match self.registered_name(id) {
            Some(name) => name.clone(),
            None => {
                return Err(TagListError::MissingTag);
            },
        };
        let (mut list, mut name_list, registry) = self.take_parts();
        let removed = list.shift_remove(id);
        let _ = name_list.shift_remove(name.as_str());
        let position = match removed {
            Some(index) => index as u32,
            None => 0,
        };
        proof {
            let t = TagListView {
                ids: list@,
                names: name_list@,
                registry: registry@.map_values(|s: String| s@),
            };
            assert forall|i: int| 0 <= i < t.names.len() implies #[trigger] t.names[i].len() > 0 by {
                let oi = if i < k { i } else { i + 1 };
                assert(t.names[i] == s.names[oi]);
            }
            assert forall|i: int| 0 <= i < t.ids.len() implies #[trigger] t.ids[i] < t.registry.len()
                && t.names[i] == t.registry[t.ids[i] as int] by {
                let oi = if i < k { i } else { i + 1 };
                assert(t.names[i] == s.names[oi]);
                assert(t.ids[i] == s.ids[oi]);
            }
        }
        *self = TagList { list, name_list, registry };
        Ok(ItemsChanged { position, removed: 1, added: 0 })
    }

    /// Renames `tag` to `name`; the renamed tag keeps its identity and its
    /// position, and everything that refers to the tag by its identity sees
    /// the new name. Refused when `name` is already listed or empty, or
    /// when the list does not hold the tag; nothing changes then. A tag
    /// that is not held must still be listed under its current name, by
    /// another tag.
    pub fn rename_tag(&mut self, tag: &mut Tag, name: &str) -> (result: Result<(), TagListError>)
        requires
            name@.len() > 0 && !old(self)@.names.contains(name@) ==> old(self)@.names.contains(
                old(self).current_name(old(tag)),
            ),
        ensures
            final(tag)@ == old(tag)@,
            old(self)@.names.contains(name@) ==> result == Err::<(), TagListError>(
                TagListError::ExistingName,
            ),
            !old(self)@.names.contains(name@) && name@.len() == 0 ==> result == Err::<
                (),
                TagListError,
            >(TagListError::EmptyName),
            !old(self)@.names.contains(name@) && name@.len() > 0 && !old(self)@.ids.contains(
                old(tag)@,
            ) ==> result == Err::<(), TagListError>(TagListError::MissingTag),
            result is Ok <==> name@.len() > 0 && !old(self)@.names.contains(name@) && old(
                self,
            )@.ids.contains(old(tag)@),
            result is Ok ==> {
                &&& final(self)@.ids == old(self)@.ids
                &&& final(self)@.names == old(self)@.names.update(
                    old(self)@.ids.index_of(old(tag)@),
                    name@,
                )
                &&& final(self)@.registry == old(self)@.registry.update(old(tag)@ as int, name@)
                &&& final(tag).name_view() == name@
            },
            result is Err ==> final(self)@ == old(self)@ && final(tag).name_view() == old(
                tag,
            ).name_view(),
    {
        proof {
            use_type_invariant(&*self);
        }
        if self.name_list.contains(name) {
            return Err(TagListError::ExistingName);
        }
        if name.is_empty() {
            return Err(TagListError::EmptyName);
        }
        let id = tag.id();
        if !self.list.contains(id) {
            return Err(TagListError::MissingTag);
        }
        let ghost s = old(self)@;
        let ghost k = s.ids.index_of(id);
        proof {
            assert(s.ids[k] == id);
            assert(s.names[k] == s.registry[id as int]);
            let j = s.names.index_of(s.names[k]);
            assert(s.names[j] == s.names[k]);
            assert(j == k);
        }
        let previous = match self.registered_name(id) {
            Some(name) => name.clone(),
            None => {
                return Err(TagListError::MissingTag);
            },
        };
        let (list, mut name_list, mut registry) = self.take_parts();
        name_list.rename(previous.as_str(), name.to_owned());
        let n = registry.len();
        proof {
            assert(id < s.registry.len());
            assert(registry@.len() == s.registry.len());
        }
        assert(id < n as u64);
        let index = id as usize;
        assert(index == id);
        registry.set(index, name.to_owned());
        proof {
            let t = TagListView {
                ids: list@,
                names: name_list@,
                registry: registry@.map_values(|s: String| s@),
            };
            assert(t.registry =~= s.registry.update(id as int, name@));
            assert forall|i: int| 0 <= i < t.names.len() implies #[trigger] t.names[i].len() > 0 by {
                if i != k {
                    assert(t.names[i] == s.names[i]);
                }
            }
            assert forall|i: int| 0 <= i < t.ids.len() implies #[trigger] t.ids[i] < t.registry.len()
                && t.names[i] == t.registry[t.ids[i] as int] by {
                if i != k {
                    assert(t.names[i] == s.names[i]);
                    assert(s.ids[i] != id);
                }
            }
        }
        *self = TagList { list, name_list, registry };
        tag.set_name(name);
        Ok(())
    }

    /// Whether the list holds `tag`.
    pub fn contains(&self, tag: &Tag) -> (found: bool)
        ensures
            found == self@.ids.contains(tag@),
    {
        self.list.contains(tag.id())
    }

    /// Whether the list holds a tag named `name`.
    pub fn contains_with_name(&self, name: &str) -> (found: bool)
        ensures
            found == self@.names.contains(name@),
    {
        self.name_list.contains(name)
    }

    /// The listed tag named `name`, if there is one.
    pub fn get_with_name(&self, name: &str) -> (tag: Option<Tag>)
        ensures
            tag is Some <==> self@.names.contains(name@),
            tag matches Some(t) ==> t.name_view() == name@ && t@ == self@.ids[self@.names.index_of(
                name@,
            )],
    {
        proof {
            use_type_invariant(self);
        }
        match self.name_list.index_of(name) {
            Some(index) => match self.list.get(index) {
                Some(id) => Some(Tag::new(id, name)),
                None => None,
            },
            None => None,
        }
    }

    /// Whether `name` can name a new tag: it is not empty and no listed tag
    /// has it.
    pub fn is_valid_name(&self, name: &str) -> (valid: bool)
        ensures
            valid == (!self@.names.contains(name@) && name@.len() > 0),
    {
        !self.contains_with_name(name) && !name.is_empty()
    }

    /// The position of `tag`, if the list holds it.
    pub fn get_index_of(&self, tag: &Tag) -> (index: Option<usize>)
        ensures
            index is None <==> !self@.ids.contains(tag@),
            index matches Some(i) ==> i == self@.ids.index_of(tag@) && i < self@.ids.len(),
    {
        self.list.index_of(tag.id())
    }

    /// The names of the listed tags, in list order.
    pub fn names(&self) -> (names: Vec<String>)
        ensures
            names@.len() == self@.names.len(),
            forall|i: int| 0 <= i < names@.len() ==> #[trigger] names@[i]@ == self@.names[i],
    {
        self.name_list.names()
    }

    /// A tag list built from stored names: a new tag for each of `names` in
    /// turn, appended to the list; a name that is empty or already listed
    /// is skipped.
    pub fn from_names(names: &Vec<String>) -> (list: TagList)
        requires
            names@.len() < u64::MAX,
        ensures
            list@.names == names_after_appends(Seq::empty(), names@.map_values(|s: String| s@)),
            list@.registry == names@.map_values(|s: String| s@),
    {
        let mut list = TagList::new();
        let ghost views = names@.map_values(|s: String| s@);
        let mut i: usize = 0;
        while i < names.len()
            invariant
                i <= names@.len(),
                names@.len() < u64::MAX,
                views == names@.map_values(|s: String| s@),
                list@.names == names_after_appends(Seq::empty(), views.take(i as int)),
                list@.registry == views.take(i as int),
            decreases names@.len() - i,
        {
            proof {
                assert(views.take(i as int + 1).drop_last() =~= views.take(i as int));
                assert(views.take(i as int + 1).last() == names@[i as int]@);
            }
            let tag = list.new_tag(names[i].as_str());
            let _ = list.append(tag);
            proof {
                assert(list@.registry =~= views.take(i as int + 1));
            }
            i = i + 1;
        }
        proof {
            assert(views.take(names@.len() as int) =~= views);
            use_type_invariant(&list);
        }
        list
    }

    /// Applies a tag name typed in the tag editor: nothing happens when
    /// the text is the tag's current name; otherwise the tag is renamed.
    /// The result tells whether the text must show as an error: a rename
    /// was refused.
    pub fn rename_from_entry(&mut self, tag: &mut Tag, text: &str) -> (error: bool)
        requires
            text@ != old(self).current_name(old(tag)) && text@.len() > 0 && !old(
                self,
            )@.names.contains(text@) ==> old(self)@.names.contains(old(self).current_name(old(tag))),
        ensures
            final(tag)@ == old(tag)@,
            text@ == old(self).current_name(old(tag)) ==> !error && final(self)@ == old(self)@
                && final(tag).name_view() == old(tag).name_view(),
            text@ != old(self).current_name(old(tag)) ==> {
                &&& error == (old(self)@.names.contains(text@) || text@.len() == 0 || !old(
                    self,
                )@.ids.contains(old(tag)@))
                &&& error ==> final(self)@ == old(self)@ && final(tag).name_view() == old(
                    tag,
                ).name_view()
                &&& !error ==> final(self)@.ids == old(self)@.ids && final(self)@.names == old(
                    self,
                )@.names.update(old(self)@.ids.index_of(old(tag)@), text@) && final(self)@.registry
                    == old(self)@.registry.update(old(tag)@ as int, text@) && final(tag).name_view()
                    == text@
            },
    {
        let id = tag.id();
        let current = match self.registered_name(id) {
            Some(name) => name.clone(),
            None => tag.name(),
        };
        let typed = text.to_owned();
        if typed == current {
            return false;
        }
        self.rename_tag(tag, text).is_err()
    }
}

} // verus!
