//! A set of names that remembers the order in which they were added: the
//! storage behind the tag lists that notes carry.
use crate::index_set::{
    string_set_contains, string_set_get_index, string_set_get_index_of, string_set_insert,
    string_set_items, string_set_len, string_set_new, string_set_shift_remove,
    string_set_swap_remove,
};
use indexmap::IndexSet;
use vstd::prelude::*;

verus! {

/// The names held after inserting `names` one by one into a set holding
/// `start`, each name already held being skipped.
pub open spec fn names_after_inserts(start: Seq<Seq<char>>, names: Seq<Seq<char>>) -> Seq<
    Seq<char>,
>
    decreases names.len(),
{
    if names.len() == 0 {
        start
    } else {
        let before = names_after_inserts(start, names.drop_last());
        if before.contains(names.last()) {
            before
        } else {
            before.push(names.last())
        }
    }
}

/// Inserting names that are all different, into an empty set, gives them
/// back in the same order.
pub proof fn lemma_inserts_of_distinct(names: Seq<Seq<char>>)
    requires
        names.no_duplicates(),
    ensures
        names_after_inserts(Seq::empty(), names) == names,
    decreases names.len(),
{
    if names.len() > 0 {
        let prefix = names.drop_last();
        assert(prefix.no_duplicates()) by {
            assert forall|i: int, j: int|
                0 <= i < prefix.len() && 0 <= j < prefix.len() && i != j implies prefix[i]
                != prefix[j] by {
                assert(prefix[i] == names[i]);
                assert(prefix[j] == names[j]);
            }
        }
        lemma_inserts_of_distinct(prefix);
        assert(!prefix.contains(names.last())) by {
            if prefix.contains(names.last()) {
                let w = choose|w: int| 0 <= w < prefix.len() && prefix[w] == names.last();
                assert(names[w] == names[names.len() - 1]);
            }
        }
        assert(prefix.push(names.last()) =~= names);
    }
}

/// Pushing an item that is not held keeps a sequence free of duplicates.
pub proof fn lemma_push_new_keeps_distinct<A>(names: Seq<A>, name: A)
    requires
        names.no_duplicates(),
        !names.contains(name),
    ensures
        names.push(name).no_duplicates(),
{
    let t = names.push(name);
    assert forall|i: int, j: int| 0 <= i < t.len() && 0 <= j < t.len() && i != j implies t[i]
        != t[j] by {
        if i == names.len() as int {
            assert(names[j] == t[j]);
        } else if j == names.len() as int {
            assert(names[i] == t[i]);
        }
    }
}

/// Removing one entry keeps a sequence free of duplicates.
pub proof fn lemma_remove_keeps_distinct<A>(names: Seq<A>, index: int)
    requires
        names.no_duplicates(),
        0 <= index < names.len(),
    ensures
        names.remove(index).no_duplicates(),
{
    let t = names.remove(index);
    assert forall|i: int, j: int| 0 <= i < t.len() && 0 <= j < t.len() && i != j implies t[i]
        != t[j] by {
        let oi = if i < index { i } else { i + 1 };
        let oj = if j < index { j } else { j + 1 };
        assert(t[i] == names[oi]);
        assert(t[j] == names[oj]);
    }
}

/// Distinct names in the order they were first added.
#[derive(Debug, PartialEq, Eq)]
pub struct NameSet {
    names: IndexSet<String>,
}

impl View for NameSet {
    type V = Seq<Seq<char>>;

    /// The names held, in insertion order.
    closed spec fn view(&self) -> Seq<Seq<char>> {
        string_set_items(self.names)
    }
}

impl Clone for NameSet {
    /// A set holding the same names in the same order.
    fn clone(&self) -> (set: NameSet)
        ensures
            set@ == self@,
    {
        proof {
            use_type_invariant(self);
        }
        let names = self.names();
        let set = NameSet::from_names(&names);
        proof {
            assert(names@.map_values(|s: String| s@) =~= self@);
            lemma_inserts_of_distinct(self@);
        }
        set
    }
}

impl NameSet {
    /// The set's invariant: no name is held twice.
    #[verifier::type_invariant]
    pub open spec fn wf(&self) -> bool {
        self@.no_duplicates()
    }

    /// An empty set.
    pub fn new() -> (set: NameSet)
        ensures
            set@ == Seq::<Seq<char>>::empty(),
    {
        NameSet { names: string_set_new() }
    }

    /// The number of names held.
    pub fn len(&self) -> (n: usize)
        ensures
            n == self@.len(),
    {
        string_set_len(&self.names)
    }

    /// The name at `index`, if there is one.
    pub fn get(&self, index: usize) -> (name: Option<&String>)
        ensures
            name is None <==> index >= self@.len(),
            name matches Some(s) ==> s@ == self@[index as int],
    {
        string_set_get_index(&self.names, index)
    }

    /// Adds `name` at the end unless it is already held; tells whether it
    /// was added.
    pub fn insert(&mut self, name: String) -> (inserted: bool)
        ensures
            inserted == !old(self)@.contains(name@),
            inserted ==> final(self)@ == old(self)@.push(name@),
            !inserted ==> final(self)@ == old(self)@,
    {
        proof {
            use_type_invariant(&*self);
        }
        let mut names = string_set_new();
        std::mem::swap(&mut names, &mut self.names);
        let inserted = string_set_insert(&mut names, name);
        proof {
            if inserted {
                lemma_push_new_keeps_distinct(old(self)@, name@);
            }
        }
        self.names = names;
        inserted
    }

    /// Removes `name`, keeping the order of the others; gives back the
    /// position it had, or `None` when it was not held.
    pub fn shift_remove(&mut self, name: &str) -> (index: Option<usize>)
        ensures
            index is None <==> !old(self)@.contains(name@),
            index is None ==> final(self)@ == old(self)@,
            index matches Some(i) ==> i == old(self)@.index_of(name@) && final(self)@ == old(
                self,
            )@.remove(i as int),
    {
        proof {
            use_type_invariant(&*self);
        }
        let mut names = string_set_new();
        std::mem::swap(&mut names, &mut self.names);
        let index = string_set_shift_remove(&mut names, name);
        proof {
            if let Some(i) = index {
                let s = old(self)@;
                let k = s.index_of(name@);
                assert(s[k] == name@);
                lemma_remove_keeps_distinct(s, i as int);
            }
        }
        self.names = names;
        index
    }

    /// Replaces the held name `from` by `to`, which is not held, in the
    /// same position: `to` is added at the end, then `from` is removed by
    /// moving the last name into its place.
    pub fn rename(&mut self, from: &str, to: String)
        requires
            old(self)@.contains(from@),
            !old(self)@.contains(to@),
        ensures
            final(self)@ == old(self)@.update(old(self)@.index_of(from@), to@),
    {
        proof {
            use_type_invariant(&*self);
        }
        let ghost s0 = self@;
        let ghost k = s0.index_of(from@);
        proof {
            assert(s0[k] == from@);
        }
        let mut names = string_set_new();
        std::mem::swap(&mut names, &mut self.names);
        let inserted = string_set_insert(&mut names, to);
        let ghost s1 = string_set_items(names);
        let removed = string_set_swap_remove(&mut names, from);
        proof {
            assert(inserted);
            assert(s1[k] == from@);
            assert(removed);
            let s2 = string_set_items(names);
            let i = choose|i: int|
                0 <= i < s1.len() && s1[i] == from@ && s2 == s1.update(i, s1.last()).drop_last();
            if i != k {
                if i == s0.len() as int {
                    assert(s1[i] == to@);
                } else {
                    assert(s0[i] == s1[i]);
                }
            }
            assert(i == k);
            assert(s2 =~= s0.update(k, to@));
            assert forall|a: int, b: int|
                0 <= a < s2.len() && 0 <= b < s2.len() && a != b implies s2[a] != s2[b] by {
                if a == k {
                    assert(s0[b] == s2[b]);
                } else if b == k {
                    assert(s0[a] == s2[a]);
                } else {
                    assert(s0[a] == s2[a]);
                    assert(s0[b] == s2[b]);
                }
            }
        }
        self.names = names;
    }

    /// Whether `name` is held.
    pub fn contains(&self, name: &str) -> (found: bool)
        ensures
            found == self@.contains(name@),
    {
        string_set_contains(&self.names, name)
    }

    /// The position of `name`, if it is held.
    pub fn index_of(&self, name: &str) -> (index: Option<usize>)
        ensures
            index is None <==> !self@.contains(name@),
            index matches Some(i) ==> i < self@.len() && self@[i as int] == name@ && i
                == self@.index_of(name@),
    {
        proof {
            use_type_invariant(self);
        }
        let r = string_set_get_index_of(&self.names, name);
        proof {
            if let Some(i) = r {
                let k = self@.index_of(name@);
                assert(self@[k] == name@);
            }
        }
        r
    }

    /// All names held, in order.
    pub fn names(&self) -> (names: Vec<String>)
        ensures
            names@.len() == self@.len(),
            forall|i: int| 0 <= i < names@.len() ==> #[trigger] names@[i]@ == self@[i],
    {
        let n = string_set_len(&self.names);
        let mut names: Vec<String> = Vec::new();
        let mut i: usize = 0;
        while i < n
            invariant
                n == self@.len(),
                i <= n,
                names@.len() == i,
                forall|j: int| 0 <= j < i ==> #[trigger] names@[j]@ == self@[j],
            decreases n - i,
        {
            match string_set_get_index(&self.names, i) {
                Some(name) => names.push(name.clone()),
                None => {
                    assert(false);
                },
            }
            i = i + 1;
        }
        names
    }

    /// A set built by inserting `names` in turn, repeats being skipped.
    pub fn from_names(names: &Vec<String>) -> (set: NameSet)
        ensures
            set@ == names_after_inserts(Seq::empty(), names@.map_values(|s: String| s@)),
    {
        let mut set = NameSet::new();
        let ghost views = names@.map_values(|s: String| s@);
        let mut i: usize = 0;
        while i < names.len()
            invariant
                i <= names@.len(),
                views == names@.map_values(|s: String| s@),
                set@ == names_after_inserts(Seq::empty(), views.take(i as int)),
            decreases names@.len() - i,
        {
            proof {
                assert(views.take(i as int + 1).drop_last() =~= views.take(i as int));
                assert(views.take(i as int + 1).last() == names@[i as int]@);
            }
            let _ = set.insert(names[i].clone());
            i = i + 1;
        }
        proof {
            assert(views.take(names@.len() as int) =~= views);
        }
        set
    }
}

} // verus!
