//! The identity of a note: the stem of its file's name.
use vstd::prelude::*;

verus! {

/// What `std::path::Path::file_stem` gives for a path, read as text: the
/// file name without its final extension, or `None` when the path has no
/// file name.
pub uninterp spec fn path_file_stem(path: Seq<char>) -> Option<Seq<char>>;

/// Calls `std::path::Path::file_stem` on `path`. The stem of a path given as
/// text is text too, so it converts back to a string without loss.
#[verifier::external_body]
fn file_stem(path: &str) -> (stem: Option<String>)
    ensures
        stem matches Some(s) ==> path_file_stem(path@) == Some(s@),
        stem is None ==> path_file_stem(path@) is None,
{
    std::path::Path::new(path).file_stem().and_then(|s| s.to_str()).map(|s| s.to_string())
}

/// A note's identity.
#[derive(Debug, PartialEq, Eq, Hash)]
pub struct Id {
    id: String,
}

impl Clone for Id {
    /// The same identity.
    fn clone(&self) -> (id: Id)
        ensures
            id == *self,
    {
        Id { id: self.id.clone() }
    }
}

impl View for Id {
    type V = Seq<char>;

    /// The identity as text.
    closed spec fn view(&self) -> Seq<char> {
        self.id@
    }
}

impl Id {
    /// The identity of the note stored at `path`: the path's file stem. The
    /// path must have a file name.
    pub fn from_path(path: &str) -> (id: Id)
        requires
            path_file_stem(path@) is Some,
        ensures
            Some(id@) == path_file_stem(path@),
    {
        match file_stem(path) {
            Some(stem) => Id { id: stem },
            None => Id { id: String::new() },
        }
    }

    /// The identity of the note stored at `path`, or `None` when the path
    /// has no file name.
    pub fn try_from_path(path: &str) -> (id: Option<Id>)
        ensures
            id matches Some(i) ==> Some(i@) == path_file_stem(path@),
            id is None ==> path_file_stem(path@) is None,
    {
        match file_stem(path) {
            Some(_) => Some(Id::from_path(path)),
            None => None,
        }
    }

    /// The identity as text.
    pub fn as_str(&self) -> (s: &str)
        ensures
            s@ == self@,
    {
        self.id.as_str()
    }
}

} // verus!
