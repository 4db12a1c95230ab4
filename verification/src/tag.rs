//! A tag: a label that notes can carry. A tag has an identity of its own,
//! handed out by the list of all tags; its name can change.
use vstd::prelude::*;

verus! {

/// A tag: its identity and its name as it was when this value was taken.
/// Two tags are the same tag when their identities are equal, whatever
/// their names.
#[derive(Debug, PartialEq, Eq)]
pub struct Tag {
    id: u64,
    name: String,
}

impl View for Tag {
    type V = u64;

    /// The tag's identity.
    closed spec fn view(&self) -> u64 {
        self.id
    }
}

impl Clone for Tag {
    /// The same tag, with the same name.
    fn clone(&self) -> (tag: Tag)
        ensures
            tag == *self,
    {
        Tag { id: self.id, name: self.name.clone() }
    }
}

impl Tag {
    /// The name this value carries.
    pub closed spec fn name_view(&self) -> Seq<char> {
        self.name@
    }

    /// The tag with identity `id` and name `name`.
    pub(crate) fn new(id: u64, name: &str) -> (tag: Tag)
        ensures
            tag@ == id,
            tag.name_view() == name@,
    {
        Tag { id, name: name.to_owned() }
    }

    /// The tag's identity.
    pub fn id(&self) -> (id: u64)
        ensures
            id == self@,
    {
        self.id
    }

    /// The tag's name.
    pub fn name(&self) -> (name: String)
        ensures
            name@ == self.name_view(),
    {
        self.name.clone()
    }

    /// The tag's name, borrowed.
    pub fn name_str(&self) -> (name: &str)
        ensures
            name@ == self.name_view(),
    {
        self.name.as_str()
    }

    /// Gives this value a new name; the identity stays.
    pub(crate) fn set_name(&mut self, name: &str)
        ensures
            final(self)@ == old(self)@,
            final(self).name_view() == name@,
    {
        self.name = name.to_owned();
    }
}

} // verus!
