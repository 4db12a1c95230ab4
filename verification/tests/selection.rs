use noteworthy::selection::{
    ChangedRange, ItemsChange, Selection, SelectionMode, INVALID_LIST_POSITION,
};

#[test]
fn set_selected_moves_and_reports_range() {
    let items: Vec<u64> = vec![10, 11, 12, 13];
    let mut selection = Selection::new();
    let events = selection.set_selected(&items, 1);
    assert_eq!(selection.selected(), 1);
    assert_eq!(selection.selected_item(), Some(11));
    assert_eq!(events.selection_changed, Some(ChangedRange { position: 1, n_items: 1 }));
    assert!(events.notify_selected && events.notify_selected_item);

    let events = selection.set_selected(&items, 3);
    assert_eq!(events.selection_changed, Some(ChangedRange { position: 1, n_items: 3 }));
    let events = selection.set_selected(&items, 0);
    assert_eq!(events.selection_changed, Some(ChangedRange { position: 0, n_items: 4 }));

    let events = selection.set_selected(&items, 0);
    assert_eq!(events.selection_changed, None);
    assert!(!events.notify_selected);

    let events = selection.set_selected(&items, 9);
    assert_eq!(selection.selected(), INVALID_LIST_POSITION);
    assert_eq!(selection.selected_item(), None);
    assert_eq!(events.selection_changed, Some(ChangedRange { position: 0, n_items: 1 }));

    let events = selection.set_selected(&items, 7);
    assert_eq!(events.selection_changed, None);
}

#[test]
fn set_selected_item_finds_first_position() {
    let items: Vec<u64> = vec![5, 6, 7, 6];
    let mut selection = Selection::new();
    let events = selection.set_selected_item(&items, Some(6));
    assert_eq!(selection.selected(), 1);
    assert!(events.notify_selected_item);
    assert!(events.notify_selected);

    let events = selection.set_selected_item(&items, Some(6));
    assert!(!events.notify_selected_item);

    let events = selection.set_selected_item(&items, Some(99));
    assert_eq!(selection.selected(), INVALID_LIST_POSITION);
    assert_eq!(selection.selected_item(), Some(99));
    assert_eq!(events.selection_changed, Some(ChangedRange { position: 1, n_items: 1 }));
}

#[test]
fn items_changed_follows_the_selected_item() {
    let mut items: Vec<u64> = vec![1, 2, 3, 4, 5];
    let mut selection = Selection::new();
    selection.set_selected(&items, 3);

    // Insert two items before the selection: it shifts.
    items = vec![1, 8, 9, 2, 3, 4, 5];
    assert!(selection.items_changed(&items, 1, 0, 2));
    assert_eq!(selection.selected(), 5);
    assert_eq!(items[selection.selected() as usize], 4);

    // A change after the selection leaves it alone.
    items = vec![1, 8, 9, 2, 3, 4];
    assert!(!selection.items_changed(&items, 6, 1, 0));
    assert_eq!(selection.selected(), 5);

    // The selected item moves within a replaced range.
    items = vec![1, 8, 9, 4, 2, 3];
    assert!(selection.items_changed(&items, 3, 3, 3));
    assert_eq!(selection.selected(), 3);

    // The selected item is removed.
    items = vec![1, 8, 9, 2, 3];
    assert!(selection.items_changed(&items, 3, 1, 0));
    assert_eq!(selection.selected(), INVALID_LIST_POSITION);
    assert_eq!(selection.selected_item(), Some(4));
}

#[test]
fn set_model_without_list_clears_selection() {
    let items: Vec<u64> = vec![1, 2];
    let mut selection = Selection::new();
    let change = selection.set_model(Some(10), &items);
    assert!(change.notify_model);
    assert_eq!(change.items_changed, Some(ItemsChange { position: 0, removed: 0, added: 2 }));
    selection.set_selected(&items, 1);
    let change = selection.set_model(None, &Vec::new());
    assert_eq!(selection.selected(), INVALID_LIST_POSITION);
    assert_eq!(selection.selected_item(), None);
    assert!(change.events.notify_selected && change.events.notify_selected_item);
    assert_eq!(change.items_changed, Some(ItemsChange { position: 0, removed: 2, added: 0 }));
    assert_eq!(selection.n_items(), 0);

    let change = selection.set_model(Some(10), &items);
    assert_eq!(change.items_changed, Some(ItemsChange { position: 0, removed: 0, added: 2 }));
    selection.set_selected(&items, 0);
    let other: Vec<u64> = vec![7, 1, 9];
    let change = selection.set_model(Some(11), &other);
    assert_eq!(selection.selected(), 1);
    assert!(change.events.notify_selected);
    assert_eq!(change.items_changed, Some(ItemsChange { position: 0, removed: 2, added: 3 }));
    assert_eq!(selection.model(), Some(11));
    assert_eq!(selection.n_items(), 3);
}

#[test]
fn set_model_with_same_list_does_nothing() {
    let items: Vec<u64> = vec![1, 2];
    let mut selection = Selection::new();
    selection.set_model(Some(3), &items);
    selection.set_selected(&items, 1);
    let change = selection.set_model(Some(3), &items);
    assert!(!change.notify_model);
    assert_eq!(change.items_changed, None);
    assert!(!change.events.notify_selected && !change.events.notify_selected_item);
    assert_eq!(selection.selected(), 1);
    assert_eq!(selection.n_items(), 2);
}

#[test]
fn selection_mode_ranges() {
    let items: Vec<u64> = vec![1, 2, 3];
    let mut selection = Selection::new();
    assert_eq!(selection.selection_mode(), SelectionMode::Single);
    assert_eq!(selection.selected_position(), None);
    selection.set_selected(&items, 2);
    assert!(selection.is_selected(2));
    assert!(!selection.is_selected(1));
    let (single, multi) = selection.set_selection_mode(SelectionMode::Multi, Some((0, 1)));
    assert_eq!(selection.selection_mode(), SelectionMode::Multi);
    assert_eq!(single, Some(ChangedRange { position: 2, n_items: 1 }));
    assert_eq!(multi, Some(ChangedRange { position: 0, n_items: 2 }));
    let (_, multi) = selection.set_selection_mode(SelectionMode::Single, None);
    assert_eq!(multi, None);
    assert_eq!(SelectionMode::default(), SelectionMode::Single);
}
