use noteworthy::date::{Date, Order};
use noteworthy::note::metadata::Metadata;
use noteworthy::note::note_tag_list::NoteTagList;
use noteworthy::sidebar::{
    action_bar_state, compare_in_category, compare_notes, in_category, item_row_margin,
    listed_positions, note_is_shown, selected_positions, selected_type, ItemKind, NoteListing,
};
use noteworthy::note::id::Id;
use noteworthy::note::Note;
use noteworthy::note_list::NoteList;
use noteworthy::tag::Tag;
use noteworthy::tag_list::TagList;

/// The listed tag named `name`, added to `all` first where needed.
fn tag_named(all: &mut TagList, name: &str) -> Tag {
    match all.get_with_name(name) {
        Some(tag) => tag,
        None => {
            let tag = all.new_tag(name);
            all.append(tag.clone()).unwrap();
            tag
        }
    }
}

fn meta_in(all: &mut TagList, pinned: bool, trashed: bool, seconds: i64, tags: &[&str]) -> Metadata {
    let mut list = NoteTagList::new();
    for t in tags {
        list.append(tag_named(all, t)).unwrap();
    }
    Metadata::from_parts(
        "note".to_string(),
        list,
        Date { seconds, nanoseconds: 0 },
        pinned,
        trashed,
    )
}

fn meta(pinned: bool, trashed: bool, seconds: i64, tags: &[&str]) -> Metadata {
    meta_in(&mut TagList::new(), pinned, trashed, seconds, tags)
}

#[test]
fn pinned_notes_come_first_then_newest() {
    let pinned_old = meta(true, false, 10, &[]);
    let pinned_new = meta(true, false, 20, &[]);
    let other_new = meta(false, false, 30, &[]);
    assert_eq!(compare_notes(&pinned_old, &other_new), Order::Less);
    assert_eq!(compare_notes(&other_new, &pinned_old), Order::Greater);
    assert_eq!(compare_notes(&pinned_new, &pinned_old), Order::Less);
    assert_eq!(compare_notes(&pinned_old, &pinned_new), Order::Greater);
    assert_eq!(compare_notes(&pinned_old, &meta(true, true, 10, &["x"])), Order::Equal);
    assert_eq!(compare_in_category(&other_new, &pinned_old), Order::Less);
    assert!(in_category(true, &pinned_old));
    assert!(!in_category(true, &other_new));
    assert!(in_category(false, &other_new));
}

#[test]
fn views_filter_notes() {
    let mut all = TagList::new();
    let plain = meta_in(&mut all, false, false, 0, &["work"]);
    let trashed = meta_in(&mut all, false, true, 0, &["work"]);
    let work = tag_named(&mut all, "work");
    let home = tag_named(&mut all, "home");
    assert!(note_is_shown(&ItemKind::AllNotes, &plain));
    assert!(!note_is_shown(&ItemKind::AllNotes, &trashed));
    assert!(note_is_shown(&ItemKind::Trash, &trashed));
    assert!(!note_is_shown(&ItemKind::Trash, &plain));
    assert!(note_is_shown(&ItemKind::Tag(work.clone()), &plain));
    assert!(!note_is_shown(&ItemKind::Tag(work.clone()), &trashed));
    assert!(!note_is_shown(&ItemKind::Tag(home), &plain));
}

#[test]
fn selected_type_falls_back_to_all_notes() {
    assert_eq!(selected_type(None), (ItemKind::AllNotes, false));
    assert_eq!(selected_type(Some(&ItemKind::Category)), (ItemKind::AllNotes, true));
    assert_eq!(selected_type(Some(&ItemKind::Separator)), (ItemKind::AllNotes, true));
    assert_eq!(selected_type(Some(&ItemKind::Trash)), (ItemKind::Trash, false));
    let tag = ItemKind::Tag(TagList::new().new_tag("t"));
    assert_eq!(selected_type(Some(&tag)), (tag.clone(), false));
    assert_eq!(ItemKind::default(), ItemKind::AllNotes);
    assert_eq!(item_row_margin(&ItemKind::Trash), 6);
    assert_eq!(item_row_margin(&ItemKind::Separator), 0);
}

#[test]
fn action_bar_follows_selection() {
    let empty = action_bar_state(0, None, true);
    assert!(!empty.buttons_sensitive);
    assert!(!empty.pin_active);
    assert!(!empty.trash_active);
    assert_eq!(empty.selected_count, None);
    let some = action_bar_state(3, Some(true), true);
    assert!(some.buttons_sensitive && some.pin_active && some.trash_active);
    assert_eq!(some.selected_count, Some(3));
    let unpinned = action_bar_state(2, Some(false), false);
    assert!(!unpinned.pin_active && !unpinned.trash_active);
}

#[test]
fn selected_positions_in_order() {
    assert_eq!(selected_positions(&vec![false, true, true, false, true]), vec![1, 2, 4]);
    assert_eq!(selected_positions(&vec![]), Vec::<usize>::new());
}

fn note_with(id: &str, metadata: Metadata) -> Note {
    Note::new(Id::from_path(id), metadata, String::new())
}

#[test]
fn sidebar_lists_shown_notes_in_order() {
    let mut list = NoteList::new();
    list.append(note_with("old.md", meta(false, false, 10, &[])));
    list.append(note_with("pinned.md", meta(true, false, 5, &[])));
    list.append(note_with("trash.md", meta(false, true, 50, &[])));
    list.append(note_with("new.md", meta(false, false, 30, &[])));
    let all = listed_positions(&NoteListing::View(ItemKind::AllNotes), &list);
    assert_eq!(all, vec![1, 3, 0]);
    let trash = listed_positions(&NoteListing::View(ItemKind::Trash), &list);
    assert_eq!(trash, vec![2]);
    let pinned = listed_positions(&NoteListing::Category(true), &list);
    assert_eq!(pinned, vec![1]);
    let others = listed_positions(&NoteListing::Category(false), &list);
    assert_eq!(others, vec![2, 3, 0]);
}
