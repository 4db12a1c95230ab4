//! A set of tag identities that remembers the order in which they were
//! added, kept in an `indexmap::IndexSet<u64>`.
use crate::name_set::{lemma_push_new_keeps_distinct, lemma_remove_keeps_distinct};
use indexmap::IndexSet;
use vstd::prelude::*;

verus! {

/// The identities held by an `IndexSet<u64>`, in insertion order.
pub uninterp spec fn id_set_items(set: IndexSet<u64>) -> Seq<u64>;

/// `IndexSet::new`: a new set holds no item.
#[verifier::external_body]
fn id_set_new() -> (set: IndexSet<u64>)
    ensures
        id_set_items(set) == Seq::<u64>::empty(),
{
    IndexSet::new()
}

/// `IndexSet::len`: the number of items held.
#[verifier::external_body]
fn id_set_len(set: &IndexSet<u64>) -> (n: usize)
    ensures
        n == id_set_items(*set).len(),
{
    set.len()
}

/// `IndexSet::insert`: when no equal item is held, the value is appended at
/// the end and `true` is returned; otherwise the set is left as it was and
/// `false` is returned.
#[verifier::external_body]
fn id_set_insert(set: &mut IndexSet<u64>, value: u64) -> (inserted: bool)
    ensures
        inserted == !id_set_items(*old(set)).contains(value),
        inserted ==> id_set_items(*final(set)) == id_set_items(*old(set)).push(value),
        !inserted ==> id_set_items(*final(set)) == id_set_items(*old(set)),
{
    set.insert(value)
}

/// `IndexSet::get_index_of`: the position of the item equal to `value`, if
/// one is held.
#[verifier::external_body]
fn id_set_get_index_of(set: &IndexSet<u64>, value: u64) -> (index: Option<usize>)
    ensures
        index is None <==> !id_set_items(*set).contains(value),
        index matches Some(i) ==> i < id_set_items(*set).len() && id_set_items(*set)[i as int]
            == value,
{
    set.get_index_of(&value)
}

/// `IndexSet::get_index`: the item at position `index`, if there is one.
#[verifier::external_body]
fn id_set_get_index(set: &IndexSet<u64>, index: usize) -> (item: Option<u64>)
    ensures
        item is None <==> index >= id_set_items(*set).len(),
        item matches Some(v) ==> v == id_set_items(*set)[index as int],
{
    set.get_index(index).copied()
}

/// `IndexSet::shift_remove_full`: removes the item equal to `value`, keeping
/// the order of the others, and gives back the position it had; `None` and
/// no change when no such item is held.
#[verifier::external_body]
fn id_set_shift_remove(set: &mut IndexSet<u64>, value: u64) -> (index: Option<usize>)
    ensures
        index is None <==> !id_set_items(*old(set)).contains(value),
        index is None ==> id_set_items(*final(set)) == id_set_items(*old(set)),
        index matches Some(i) ==> {
            &&& i < id_set_items(*old(set)).len()
            &&& id_set_items(*old(set))[i as int] == value
            &&& id_set_items(*final(set)) == id_set_items(*old(set)).remove(i as int)
        },
{
    set.shift_remove_full(&value).map(|(i, _)| i)
}

/// Distinct tag identities in the order they were first added.
#[derive(Debug, PartialEq, Eq)]
pub struct IdSet {
    ids: IndexSet<u64>,
}

impl View for IdSet {
    type V = Seq<u64>;

    /// The identities held, in insertion order.
    closed spec fn view(&self) -> Seq<u64> {
        id_set_items(self.ids)
    }
}

impl Clone for IdSet {
    /// A set holding the same identities in the same order.
    fn clone(&self) -> (set: IdSet)
        ensures
            set@ == self@,
    {
        proof {
            use_type_invariant(self);
        }
        let n = self.len();
        let mut set = IdSet::new();
        let mut i: usize = 0;
        while i < n
            invariant
                n == self@.len(),
                i <= n,
                self.wf(),
                set@ == self@.take(i as int),
            decreases n - i,
        {
            match self.get(i) {
                Some(id) => {
                    proof {
                        if set@.contains(id) {
                            let w = choose|w: int| 0 <= w < set@.len() && set@[w] == id;
                            assert(self@[w] == self@[i as int]);
                        }
                    }
                    let _ = set.insert(id);
                    proof {
                        assert(set@ =~= self@.take(i as int + 1));
                    }
                },
                None => {
                    assert(false);
                },
            }
            i = i + 1;
        }
        proof {
            assert(self@.take(n as int) =~= self@);
        }
        set
    }
}

impl IdSet {
    /// The set's invariant: no identity is held twice.
    #[verifier::type_invariant]
    pub open spec fn wf(&self) -> bool {
        self@.no_duplicates()
    }

    /// An empty set.
    pub fn new() -> (set: IdSet)
        ensures
            set@ == Seq::<u64>::empty(),
    {
        IdSet { ids: id_set_new() }
    }

    /// The number of identities held.
    pub fn len(&self) -> (n: usize)
        ensures
            n == self@.len(),
    {
        id_set_len(&self.ids)
    }

    /// The identity at `index`, if there is one.
    pub fn get(&self, index: usize) -> (id: Option<u64>)
        ensures
            id is None <==> index >= self@.len(),
            id matches Some(v) ==> v == self@[index as int],
    {
        id_set_get_index(&self.ids, index)
    }

    /// Adds `id` at the end unless it is already held; tells whether it was
    /// added.
    pub fn insert(&mut self, id: u64) -> (inserted: bool)
        ensures
            inserted == !old(self)@.contains(id),
            inserted ==> final(self)@ == old(self)@.push(id),
            !inserted ==> final(self)@ == old(self)@,
    {
        proof {
            use_type_invariant(&*self);
        }
        let mut ids = id_set_new();
        std::mem::swap(&mut ids, &mut self.ids);
        let inserted = id_set_insert(&mut ids, id);
        proof {
            if inserted {
                lemma_push_new_keeps_distinct(old(self)@, id);
            }
        }
        self.ids = ids;
        inserted
    }

    /// Removes `id`, keeping the order of the others; gives back the
    /// position it had, or `None` when it was not held.
    pub fn shift_remove(&mut self, id: u64) -> (index: Option<usize>)
        ensures
            index is None <==> !old(self)@.contains(id),
            index is None ==> final(self)@ == old(self)@,
            index matches Some(i) ==> i == old(self)@.index_of(id) && final(self)@ == old(
                self,
            )@.remove(i as int),
    {
        proof {
            use_type_invariant(&*self);
        }
        let mut ids = id_set_new();
        std::mem::swap(&mut ids, &mut self.ids);
        let index = id_set_shift_remove(&mut ids, id);
        proof {
            if let Some(i) = index {
                let s = old(self)@;
                let k = s.index_of(id);
                assert(s[k] == id);
                lemma_remove_keeps_distinct(s, i as int);
            }
        }
        self.ids = ids;
        index
    }

    /// Whether `id` is held.
    pub fn contains(&self, id: u64) -> (found: bool)
        ensures
            found == self@.contains(id),
    {
        id_set_get_index_of(&self.ids, id).is_some()
    }

    /// The position of `id`, if it is held.
    pub fn index_of(&self, id: u64) -> (index: Option<usize>)
        ensures
            index is None <==> !self@.contains(id),
            index matches Some(i) ==> i < self@.len() && self@[i as int] == id && i
                == self@.index_of(id),
    {
        proof {
            use_type_invariant(self);
        }
        let r = id_set_get_index_of(&self.ids, id);
        proof {
            if let Some(i) = r {
                let k = self@.index_of(id);
                assert(self@[k] == id);
            }
        }
        r
    }
}

} // verus!
