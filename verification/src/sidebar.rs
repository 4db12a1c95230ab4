//! The sidebar's decisions: in which order notes are listed, which notes a
//! view shows, which view is selected, and how the selection action bar
//! looks.
use crate::date::{date_order, reversed, Order};
use crate::note::metadata::{Metadata, MetadataView};
use crate::note_list::NoteList;
use crate::tag::Tag;
use vstd::prelude::*;

verus! {

/// The order of the sidebar: pinned notes before the others, and among
/// notes alike in that, the most recently modified first.
pub open spec fn note_order(a: MetadataView, b: MetadataView) -> Order {
    if a.is_pinned == b.is_pinned {
        date_order(b.last_modified, a.last_modified)
    } else if a.is_pinned && !b.is_pinned {
        Order::Less
    } else {
        Order::Greater
    }
}

/// The order within a category: the most recently modified note first.
pub open spec fn category_order(a: MetadataView, b: MetadataView) -> Order {
    date_order(b.last_modified, a.last_modified)
}

/// Compares two notes for the sidebar's order.
pub fn compare_notes(a: &Metadata, b: &Metadata) -> (order: Order)
    ensures
        order == note_order(a@, b@),
{
    let a_pinned = a.is_pinned();
    let b_pinned = b.is_pinned();
    if a_pinned == b_pinned {
        b.last_modified().compare(&a.last_modified())
    } else if a_pinned && !b_pinned {
        Order::Less
    } else {
        Order::Greater
    }
}

/// Compares two notes for the order within a category.
pub fn compare_in_category(a: &Metadata, b: &Metadata) -> (order: Order)
    ensures
        order == category_order(a@, b@),
{
    b.last_modified().compare(&a.last_modified())
}

/// Whether a note belongs to the "Pinned" category (`pinned`) or to the
/// "Other Notes" category (`!pinned`).
pub fn in_category(pinned: bool, metadata: &Metadata) -> (member: bool)
    ensures
        member == (metadata@.is_pinned == pinned),
{
    metadata.is_pinned() == pinned
}

/// Comparing two notes one way gives the reverse of comparing them the
/// other way.
pub proof fn lemma_note_order_antisymmetric(a: MetadataView, b: MetadataView)
    ensures
        note_order(a, b) == reversed(note_order(b, a)),
{
}

/// The sidebar's order is transitive.
pub proof fn lemma_note_order_transitive(a: MetadataView, b: MetadataView, c: MetadataView)
    requires
        note_order(a, b) == Order::Less,
        note_order(b, c) == Order::Less,
    ensures
        note_order(a, c) == Order::Less,
{
}

/// Notes that compare equal are alike in being pinned and in their last
/// modification.
pub proof fn lemma_note_order_equal(a: MetadataView, b: MetadataView)
    ensures
        note_order(a, b) == Order::Equal <==> (a.is_pinned == b.is_pinned && a.last_modified
            == b.last_modified),
{
}

/// A pinned note always comes before a note that is not pinned.
pub proof fn lemma_pinned_first(a: MetadataView, b: MetadataView)
    requires
        a.is_pinned,
        !b.is_pinned,
    ensures
        note_order(a, b) == Order::Less,
        note_order(b, a) == Order::Greater,
{
}

/// What an entry of the view switcher stands for.
#[derive(Debug, PartialEq, Eq)]
pub enum ItemKind {
    Separator,
    Category,
    AllNotes,
    EditTags,
    Tag(Tag),
    Trash,
}

impl Clone for ItemKind {
    /// The same kind.
    fn clone(&self) -> (kind: ItemKind)
        ensures
            kind == *self,
    {
        match self {
            ItemKind::Separator => ItemKind::Separator,
            ItemKind::Category => ItemKind::Category,
            ItemKind::AllNotes => ItemKind::AllNotes,
            ItemKind::EditTags => ItemKind::EditTags,
            ItemKind::Tag(tag) => ItemKind::Tag(tag.clone()),
            ItemKind::Trash => ItemKind::Trash,
        }
    }
}

impl Default for ItemKind {
    /// All notes.
    fn default() -> (kind: ItemKind)
        ensures
            kind == ItemKind::AllNotes,
    {
        ItemKind::AllNotes
    }
}

/// Whether entries of this kind can be selected as a view.
pub open spec fn is_view_kind(kind: ItemKind) -> bool {
    kind is AllNotes || kind is Trash || kind is Tag
}

/// Whether the view `kind` shows a note with `metadata`: all notes shows
/// what is not in the trash, the trash what is, and a tag the notes
/// carrying it that are not in the trash.
pub open spec fn view_shows(kind: ItemKind, metadata: MetadataView) -> bool {
    match kind {
        ItemKind::AllNotes => !metadata.is_trashed,
        ItemKind::Trash => metadata.is_trashed,
        ItemKind::Tag(tag) => metadata.tags.contains(tag@) && !metadata.is_trashed,
        _ => false,
    }
}

/// Whether the view `kind` shows the note with `metadata`. Only a view
/// kind can be asked.
pub fn note_is_shown(kind: &ItemKind, metadata: &Metadata) -> (shown: bool)
    requires
        is_view_kind(*kind),
    ensures
        shown == view_shows(*kind, metadata@),
{
    match kind {
        ItemKind::AllNotes => !metadata.is_trashed(),
        ItemKind::Trash => metadata.is_trashed(),
        ItemKind::Tag(tag) => metadata.tag_list().contains(tag) && !metadata.is_trashed(),
        _ => false,
    }
}

/// Every note not in the trash shows in exactly one of "all notes" and the
/// trash; a note shown under a tag also shows under all notes.
pub proof fn lemma_views_partition(metadata: MetadataView, tag: Tag)
    ensures
        view_shows(ItemKind::AllNotes, metadata) != view_shows(ItemKind::Trash, metadata),
        view_shows(ItemKind::Tag(tag), metadata) ==> view_shows(ItemKind::AllNotes, metadata),
{
}

/// Which notes a view shows does not depend on whether they are pinned;
/// a tag's view shows exactly the notes that "all notes" shows and that
/// carry the tag; and the trash shows exactly the notes "all notes" does
/// not.
pub proof fn lemma_view_filters(kind: ItemKind, metadata: MetadataView, tag: Tag)
    ensures
        view_shows(kind, metadata) == view_shows(
            kind,
            MetadataView { is_pinned: !metadata.is_pinned, ..metadata },
        ),
        view_shows(ItemKind::Tag(tag), metadata) == (view_shows(ItemKind::AllNotes, metadata)
            && metadata.tags.contains(tag@)),
        view_shows(ItemKind::AllNotes, metadata) == !metadata.is_trashed,
        view_shows(ItemKind::Trash, metadata) == !view_shows(ItemKind::AllNotes, metadata),
{
}

/// Whether `a` was modified after `b`.
pub open spec fn modified_after(a: MetadataView, b: MetadataView) -> bool {
    ||| a.last_modified.seconds > b.last_modified.seconds
    ||| (a.last_modified.seconds == b.last_modified.seconds && a.last_modified.nanoseconds
        > b.last_modified.nanoseconds)
}

/// Within a category the more recently modified note comes first,
/// whether the notes are pinned or not, and notes modified at the same
/// time compare equal.
pub proof fn lemma_category_newest_first(a: MetadataView, b: MetadataView)
    ensures
        category_order(a, b) == Order::Less <==> modified_after(a, b),
        category_order(a, b) == Order::Greater <==> modified_after(b, a),
        category_order(a, b) == Order::Equal <==> a.last_modified == b.last_modified,
{
}

/// Among notes alike in being pinned, the sidebar lists the more recently
/// modified one first; a pinned note always comes before one that is not.
pub proof fn lemma_note_order_newest_first(a: MetadataView, b: MetadataView)
    ensures
        a.is_pinned == b.is_pinned ==> (note_order(a, b) == Order::Less <==> modified_after(a, b)),
        a.is_pinned == b.is_pinned ==> (note_order(a, b) == Order::Greater <==> modified_after(
            b,
            a,
        )),
        a.is_pinned && !b.is_pinned ==> note_order(a, b) == Order::Less,
{
}

/// The view selected in the view switcher, given the kind of the selected
/// entry: all notes when nothing is selected, and also when an entry that
/// is not a view got selected, in which case the switcher goes back to its
/// first entry (the second value).
pub fn selected_type(selected: Option<&ItemKind>) -> (result: (ItemKind, bool))
    ensures
        selected is None ==> result.0 == ItemKind::AllNotes && !result.1,
        selected matches Some(kind) ==> (if is_view_kind(*kind) {
            result.0 == *kind && !result.1
        } else {
            result.0 == ItemKind::AllNotes && result.1
        }),
        is_view_kind(result.0),
{
    match selected {
        None => (ItemKind::AllNotes, false),
        Some(kind) => match kind {
            ItemKind::Separator | ItemKind::Category | ItemKind::EditTags => (
                ItemKind::AllNotes,
                true,
            ),
            ItemKind::AllNotes => (ItemKind::AllNotes, false),
            ItemKind::Trash => (ItemKind::Trash, false),
            ItemKind::Tag(tag) => (ItemKind::Tag(tag.clone()), false),
        },
    }
}

/// The horizontal margin of a view-switcher row: rows for views are
/// indented, headers and separators are not.
pub fn item_row_margin(kind: &ItemKind) -> (margin: i32)
    ensures
        margin == (if is_view_kind(*kind) {
            6i32
        } else {
            0i32
        }),
{
    match kind {
        ItemKind::AllNotes | ItemKind::Trash | ItemKind::Tag(_) => 6,
        ItemKind::Category | ItemKind::Separator | ItemKind::EditTags => 0,
    }
}

/// How the selection action bar looks.
#[derive(Debug, Clone, Copy, PartialEq, Eq)]
pub struct ActionBarState {
    /// Whether the tag, trash and pin buttons can be used.
    pub buttons_sensitive: bool,
    /// Whether the pin button shows as active.
    pub pin_active: bool,
    /// Whether the trash button shows as active.
    pub trash_active: bool,
    /// The number shown in the selection label; `None` for "No Selected".
    pub selected_count: Option<u64>,
}

/// The action bar for `n_selected` selected notes, the last of which is
/// pinned or not (`last_selected_pinned`, `None` without selection), while
/// the trash view is shown or not. As the selection lists pinned notes
/// first, all selected notes are pinned when the last one is.
pub fn action_bar_state(n_selected: u64, last_selected_pinned: Option<bool>, on_trash_page: bool) -> (state:
    ActionBarState)
    ensures
        state.buttons_sensitive == (n_selected != 0),
        state.pin_active == (last_selected_pinned == Some(true)),
        state.trash_active == (on_trash_page && n_selected != 0),
        state.selected_count == (if n_selected == 0 {
            None
        } else {
            Some(n_selected)
        }),
{
    let pin_active = match last_selected_pinned {
        Some(pinned) => pinned,
        None => false,
    };
    ActionBarState {
        buttons_sensitive: n_selected != 0,
        pin_active,
        trash_active: on_trash_page && n_selected != 0,
        selected_count: if n_selected == 0 {
            None
        } else {
            Some(n_selected)
        },
    }
}

/// The positions whose flag in `is_selected` is set, in order.
pub fn selected_positions(is_selected: &Vec<bool>) -> (positions: Vec<usize>)
    ensures
        forall|k: int| 0 <= k < positions@.len() ==> #[trigger] positions@[k] < is_selected@.len()
            && is_selected@[positions@[k] as int],
        forall|k: int, l: int| 0 <= k < l < positions@.len() ==> positions@[k] < positions@[l],
        forall|p: int|
            0 <= p < is_selected@.len() && #[trigger] is_selected@[p] ==> positions@.contains(
                p as usize,
            ),
{
    let mut positions: Vec<usize> = Vec::new();
    let n = is_selected.len();
    let mut i: usize = 0;
    while i < n
        invariant
            n == is_selected@.len(),
            i <= n,
            forall|k: int| 0 <= k < positions@.len() ==> #[trigger] positions@[k] < i
                && is_selected@[positions@[k] as int],
            forall|k: int, l: int| 0 <= k < l < positions@.len() ==> positions@[k] < positions@[l],
            forall|p: int|
                0 <= p < i && #[trigger] is_selected@[p] ==> positions@.contains(p as usize),
        decreases n - i,
    {
        if is_selected[i] {
            let ghost before = positions@;
            positions.push(i);
            proof {
                assert forall|p: int| 0 <= p < i + 1 && #[trigger] is_selected@[p] implies positions@.contains(
                    p as usize,
                ) by {
                    if p == i as int {
                        assert(positions@[positions@.len() - 1] == i);
                    } else {
                        let w = choose|w: int| 0 <= w < before.len() && before[w] == p as usize;
                        assert(positions@[w] == p as usize);
                    }
                }
            }
        }
        i = i + 1;
    }
    positions
}

/// Which notes a list of the sidebar holds, and in which order: a view
/// of the view switcher, sorted in the sidebar's order, or one of the two
/// categories ("Pinned" for `true`, "Other Notes" for `false`), sorted by
/// last modification.
#[derive(Debug)]
pub enum NoteListing {
    View(ItemKind),
    Category(bool),
}

/// Whether the listing holds a note with `metadata`.
pub open spec fn listing_shows(listing: NoteListing, metadata: MetadataView) -> bool {
    match listing {
        NoteListing::View(kind) => view_shows(kind, metadata),
        NoteListing::Category(pinned) => metadata.is_pinned == pinned,
    }
}

/// The order of the listing.
pub open spec fn listing_order(listing: NoteListing, a: MetadataView, b: MetadataView) -> Order {
    match listing {
        NoteListing::View(_) => note_order(a, b),
        NoteListing::Category(_) => category_order(a, b),
    }
}

/// Whether a listing can be asked: a category, or a view kind.
pub open spec fn is_listing(listing: NoteListing) -> bool {
    match listing {
        NoteListing::View(kind) => is_view_kind(kind),
        NoteListing::Category(_) => true,
    }
}

/// A listing's order is a total preorder: "not after" is transitive, and
/// of two notes one is not after the other.
pub proof fn lemma_listing_order_preorder(
    listing: NoteListing,
    a: MetadataView,
    b: MetadataView,
    c: MetadataView,
)
    ensures
        listing_order(listing, a, b) != Order::Greater || listing_order(listing, b, a)
            != Order::Greater,
        listing_order(listing, a, b) != Order::Greater && listing_order(listing, b, c)
            != Order::Greater ==> listing_order(listing, a, c) != Order::Greater,
{
}

/// The notes of `notes` that the listing holds, each once, as positions in
/// `notes`, sorted in the listing's order: every note the listing holds is
/// there, and no note comes after one that it should precede.
pub fn listed_positions(listing: &NoteListing, notes: &NoteList) -> (positions: Vec<u32>)
    requires
        is_listing(*listing),
        notes@.len() <= u32::MAX,
    ensures
        positions@.no_duplicates(),
        forall|k: int|
            0 <= k < positions@.len() ==> #[trigger] positions@[k] < notes@.len() && listing_shows(
                *listing,
                notes@[positions@[k] as int].metadata,
            ),
        forall|p: int|
            0 <= p < notes@.len() && listing_shows(*listing, #[trigger] notes@[p].metadata)
                ==> positions@.contains(p as u32),
        forall|i: int, j: int|
            0 <= i < j < positions@.len() ==> listing_order(
                *listing,
                notes@[positions@[i] as int].metadata,
                notes@[positions@[j] as int].metadata,
            ) != Order::Greater,
{
    let n = notes.n_items();
    let mut positions: Vec<u32> = Vec::new();
    let mut p: u32 = 0;
    while p < n
        invariant
            n == notes@.len(),
            p <= n,
            is_listing(*listing),
            positions@.no_duplicates(),
            forall|k: int|
                0 <= k < positions@.len() ==> #[trigger] positions@[k] < p && listing_shows(
                    *listing,
                    notes@[positions@[k] as int].metadata,
                ),
            forall|q: int|
                0 <= q < p && listing_shows(*listing, #[trigger] notes@[q].metadata)
                    ==> positions@.contains(q as u32),
            forall|i: int, j: int|
                0 <= i < j < positions@.len() ==> listing_order(
                    *listing,
                    notes@[positions@[i] as int].metadata,
                    notes@[positions@[j] as int].metadata,
                ) != Order::Greater,
        decreases n - p,
    {
        let note = match notes.item(p) {
            Some(note) => note,
            None => {
                assert(false);
                return positions;
            },
        };
        let shown = match listing {
            NoteListing::View(kind) => note_is_shown(kind, note.metadata()),
            NoteListing::Category(pinned) => in_category(*pinned, note.metadata()),
        };
        if shown {
            let ghost mp = notes@[p as int].metadata;
            // the first listed note that comes after this one
            let mut at: usize = 0;
            while at < positions.len()
                invariant
                    n == notes@.len(),
                    p < n,
                    at <= positions@.len(),
                    mp == notes@[p as int].metadata,
                    forall|k: int| 0 <= k < positions@.len() ==> #[trigger] positions@[k] < p,
                    note@ == notes@[p as int],
                    forall|k: int|
                        0 <= k < at ==> listing_order(
                            *listing,
                            notes@[#[trigger] positions@[k] as int].metadata,
                            mp,
                        ) != Order::Greater,
                ensures
                    at <= positions@.len(),
                    forall|k: int|
                        0 <= k < at ==> listing_order(
                            *listing,
                            notes@[#[trigger] positions@[k] as int].metadata,
                            mp,
                        ) != Order::Greater,
                    at < positions@.len() ==> listing_order(
                        *listing,
                        notes@[positions@[at as int] as int].metadata,
                        mp,
                    ) == Order::Greater,
                decreases positions@.len() - at,
            {
                let other = match notes.item(positions[at]) {
                    Some(other) => other,
                    None => {
                        assert(false);
                        return positions;
                    },
                };
                let order = match listing {
                    NoteListing::View(_) => compare_notes(other.metadata(), note.metadata()),
                    NoteListing::Category(_) => compare_in_category(other.metadata(), note.metadata()),
                };
                if let Order::Greater = order {
                    break;
                }
                at = at + 1;
            }
            let ghost before = positions@;
            proof {
                if at < before.len() {
                    assert(listing_order(
                        *listing,
                        notes@[before[at as int] as int].metadata,
                        mp,
                    ) == Order::Greater);
                }
            }
            positions.insert(at, p);
            proof {
                let after = positions@;
                assert(after =~= before.insert(at as int, p));
                assert forall|k: int| 0 <= k < after.len() implies #[trigger] after[k] < p + 1
                    && listing_shows(*listing, notes@[after[k] as int].metadata) by {
                    if k < at {
                        assert(after[k] == before[k]);
                    } else if k > at {
                        assert(after[k] == before[k - 1]);
                    }
                }
                assert forall|a: int, b: int|
                    0 <= a < after.len() && 0 <= b < after.len() && a != b implies after[a]
                    != after[b] by {
                    if a != at as int && b != at as int {
                        let oa = if a < at { a } else { a - 1 };
                        let ob = if b < at { b } else { b - 1 };
                        assert(after[a] == before[oa]);
                        assert(after[b] == before[ob]);
                    } else if a == at as int {
                        let ob = if b < at { b } else { b - 1 };
                        assert(after[b] == before[ob]);
                    } else {
                        let oa = if a < at { a } else { a - 1 };
                        assert(after[a] == before[oa]);
                    }
                }
                assert forall|q: int|
                    0 <= q < p + 1 && listing_shows(*listing, #[trigger] notes@[q].metadata)
                        implies after.contains(q as u32) by {
                    if q == p as int {
                        assert(after[at as int] == p);
                    } else {
                        let w = choose|w: int| 0 <= w < before.len() && before[w] == q as u32;
                        if w < at {
                            assert(after[w] == q as u32);
                        } else {
                            assert(after[w + 1] == q as u32);
                        }
                    }
                }
                assert forall|i: int, j: int| 0 <= i < j < after.len() implies listing_order(
                    *listing,
                    notes@[after[i] as int].metadata,
                    notes@[after[j] as int].metadata,
                ) != Order::Greater by {
                    let mi = notes@[after[i] as int].metadata;
                    let mj = notes@[after[j] as int].metadata;
                    if i == at as int {
                        // the new note comes before everything after it
                        let oj = j - 1;
                        assert(after[j] == before[oj]);
                        let first = notes@[before[at as int] as int].metadata;
                        lemma_listing_order_preorder(*listing, first, mj, mp);
                        lemma_listing_order_preorder(*listing, mp, first, mj);
                        if at as int == oj {
                        } else {
                            assert(listing_order(*listing, first, mj) != Order::Greater);
                        }
                        lemma_listing_order_preorder(*listing, mp, mj, mj);
                    } else if j == at as int {
                        let oi = i;
                        assert(after[i] == before[oi]);
                    } else {
                        let oi = if i < at { i } else { i - 1 };
                        let oj = if j < at { j } else { j - 1 };
                        assert(after[i] == before[oi]);
                        assert(after[j] == before[oj]);
                    }
                }
            }
        }
        p = p + 1;
    }
    positions
}

} // verus!
