//! Trusted interface to `indexmap::IndexSet<String>`, the insertion-ordered
//! set that keeps tag names.
use indexmap::IndexSet;
use vstd::prelude::*;

verus! {

#[verifier::external_type_specification]
#[verifier::external_body]
#[verifier::reject_recursive_types(T)]
#[verifier::reject_recursive_types(S)]
pub struct ExIndexSet<T, S>(IndexSet<T, S>);

/// The strings held by an `IndexSet<String>`, in insertion order.
pub uninterp spec fn string_set_items(set: IndexSet<String>) -> Seq<Seq<char>>;

/// `IndexSet::new`: a new set holds no item.
#[verifier::external_body]
pub(crate) fn string_set_new() -> (set: IndexSet<String>)
    ensures
        string_set_items(set) == Seq::<Seq<char>>::empty(),
{
    IndexSet::new()
}

/// `IndexSet::len`: the number of items held.
#[verifier::external_body]
pub(crate) fn string_set_len(set: &IndexSet<String>) -> (n: usize)
    ensures
        n == string_set_items(*set).len(),
{
    set.len()
}

/// `IndexSet::insert`: when no equal item is held, the value is appended at
/// the end and `true` is returned; otherwise the set is left as it was and
/// `false` is returned.
#[verifier::external_body]
pub(crate) fn string_set_insert(set: &mut IndexSet<String>, value: String) -> (inserted: bool)
    ensures
        inserted == !string_set_items(*old(set)).contains(value@),
        inserted ==> string_set_items(*final(set)) == string_set_items(*old(set)).push(value@),
        !inserted ==> string_set_items(*final(set)) == string_set_items(*old(set)),
{
    set.insert(value)
}

/// `IndexSet::contains`: whether an item equal to `value` is held.
#[verifier::external_body]
pub(crate) fn string_set_contains(set: &IndexSet<String>, value: &str) -> (found: bool)
    ensures
        found == string_set_items(*set).contains(value@),
{
    set.contains(value)
}

/// `IndexSet::get_index_of`: the position of the item equal to `value`, if
/// one is held.
#[verifier::external_body]
pub(crate) fn string_set_get_index_of(set: &IndexSet<String>, value: &str) -> (index: Option<
    usize,
>)
    ensures
        index is None <==> !string_set_items(*set).contains(value@),
        index matches Some(i) ==> i < string_set_items(*set).len() && string_set_items(
            *set,
        )[i as int] == value@,
{
    set.get_index_of(value)
}

/// `IndexSet::get_index`: the item at position `index`, if there is one.
#[verifier::external_body]
pub(crate) fn string_set_get_index(set: &IndexSet<String>, index: usize) -> (item: Option<&String>)
    ensures
        item is None <==> index >= string_set_items(*set).len(),
        item matches Some(s) ==> s@ == string_set_items(*set)[index as int],
{
    set.get_index(index)
}

/// `IndexSet::shift_remove_full`: removes the item equal to `value`, keeping
/// the order of the others, and gives back the position it had; `None` and
/// no change when no such item is held.
#[verifier::external_body]
pub(crate) fn string_set_shift_remove(set: &mut IndexSet<String>, value: &str) -> (index: Option<
    usize,
>)
    ensures
        index is None <==> !string_set_items(*old(set)).contains(value@),
        index is None ==> string_set_items(*final(set)) == string_set_items(*old(set)),
        index matches Some(i) ==> {
            &&& i < string_set_items(*old(set)).len()
            &&& string_set_items(*old(set))[i as int] == value@
            &&& string_set_items(*final(set)) == string_set_items(*old(set)).remove(i as int)
        },
{
    set.shift_remove_full(value).map(|(i, _)| i)
}

/// `IndexSet::swap_remove`: removes the item equal to `value` by moving the
/// last item into its place; `false` and no change when no such item is held.
#[verifier::external_body]
pub(crate) fn string_set_swap_remove(set: &mut IndexSet<String>, value: &str) -> (removed: bool)
    ensures
        removed == string_set_items(*old(set)).contains(value@),
        !removed ==> string_set_items(*final(set)) == string_set_items(*old(set)),
        removed ==> exists|i: int|
            0 <= i < string_set_items(*old(set)).len() && string_set_items(*old(set))[i] == value@
                && string_set_items(*final(set)) == string_set_items(*old(set)).update(
                i,
                string_set_items(*old(set)).last(),
            ).drop_last(),
{
    set.swap_remove(value)
}

} // verus!
