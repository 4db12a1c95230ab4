use noteworthy::note::note_list::ItemsChanged;
use noteworthy::note::note_tag_list::NoteTagList;
use noteworthy::note_tag_lists::{create_tag, NoteTagLists, TagCheckState};
use noteworthy::tag::Tag;
use noteworthy::tag_list::{TagList, TagListError};

#[test]
fn is_empty() {
    let mut tags = TagList::new();
    let mut note_tag_list_1 = NoteTagList::new();
    note_tag_list_1.append(tags.new_tag("A")).unwrap();
    let mut note_tag_list_2 = NoteTagList::new();
    note_tag_list_2.append(tags.new_tag("A")).unwrap();

    let note_tag_lists = NoteTagLists::from_vec(vec![note_tag_list_1, note_tag_list_2]);
    assert!(!note_tag_lists.is_empty());

    let note_tag_lists = NoteTagLists::new();
    assert!(note_tag_lists.is_empty());
}

#[test]
fn first() {
    let mut tags = TagList::new();
    let mut note_tag_list_1 = NoteTagList::new();
    note_tag_list_1.append(tags.new_tag("A")).unwrap();
    let mut note_tag_list_2 = NoteTagList::new();
    note_tag_list_2.append(tags.new_tag("A")).unwrap();

    let note_tag_lists = NoteTagLists::from_vec(vec![note_tag_list_1.clone(), note_tag_list_2]);
    assert_eq!(note_tag_lists.first(), Some(&note_tag_list_1));
}

#[test]
fn append_on_all() {
    let mut tags = TagList::new();
    let mut note_tag_list_1 = NoteTagList::new();
    note_tag_list_1.append(tags.new_tag("A")).unwrap();

    let mut note_tag_list_2 = NoteTagList::new();
    note_tag_list_2.append(tags.new_tag("A")).unwrap();

    let mut note_tag_lists = NoteTagLists::from_vec(vec![note_tag_list_1, note_tag_list_2]);
    let tag = tags.new_tag("B");
    note_tag_lists.append_on_all(&tag);

    assert!(note_tag_lists.get(0).unwrap().contains(&tag));
    assert!(note_tag_lists.get(1).unwrap().contains(&tag));
}

#[test]
fn remove_on_all() {
    let mut tags = TagList::new();
    let tag = tags.new_tag("B");

    let mut note_tag_list_1 = NoteTagList::new();
    note_tag_list_1.append(tags.new_tag("A")).unwrap();
    note_tag_list_1.append(tag.clone()).unwrap();

    let mut note_tag_list_2 = NoteTagList::new();
    note_tag_list_2.append(tags.new_tag("A")).unwrap();
    note_tag_list_2.append(tag.clone()).unwrap();

    let mut note_tag_lists = NoteTagLists::from_vec(vec![note_tag_list_1, note_tag_list_2]);
    note_tag_lists.remove_on_all(&tag);

    assert!(!note_tag_lists.get(0).unwrap().contains(&tag));
    assert!(!note_tag_lists.get(1).unwrap().contains(&tag));
}

/// The listed tag named `name`, added to `tags` first where needed.
fn tag_named(tags: &mut TagList, name: &str) -> Tag {
    match tags.get_with_name(name) {
        Some(tag) => tag,
        None => {
            let tag = tags.new_tag(name);
            tags.append(tag.clone()).unwrap();
            tag
        }
    }
}

fn lists_of(tags: &mut TagList, names: &[&[&str]]) -> NoteTagLists {
    let mut lists = Vec::new();
    for note in names {
        let mut list = NoteTagList::new();
        for name in note.iter() {
            list.append(tag_named(tags, name)).unwrap();
        }
        lists.push(list);
    }
    NoteTagLists::from_vec(lists)
}

#[test]
fn tag_state_checked_unchecked_mixed() {
    let mut tags = TagList::new();
    let lists = lists_of(&mut tags, &[&["a", "b"], &["b"], &["b", "c"]]);
    assert_eq!(lists.tag_state(&tag_named(&mut tags, "b")), TagCheckState::Checked);
    assert_eq!(lists.tag_state(&tag_named(&mut tags, "z")), TagCheckState::Unchecked);
    assert_eq!(lists.tag_state(&tag_named(&mut tags, "a")), TagCheckState::Inconsistent);
    assert_eq!(lists.tag_state(&tag_named(&mut tags, "c")), TagCheckState::Inconsistent);
}

#[test]
fn tag_state_without_notes_is_unchecked() {
    let mut tags = TagList::new();
    let lists = NoteTagLists::new();
    assert_eq!(lists.tag_state(&tags.new_tag("a")), TagCheckState::Unchecked);
}

#[test]
fn append_on_all_then_checked_remove_on_all_then_unchecked() {
    let mut tags = TagList::new();
    let mut lists = lists_of(&mut tags, &[&["a"], &[], &["x", "a"]]);
    let tag = tag_named(&mut tags, "a");
    lists.append_on_all(&tag);
    assert_eq!(lists.tag_state(&tag), TagCheckState::Checked);
    assert_eq!(lists.get(1).unwrap().names(&tags), Some(vec!["a".to_string()]));
    assert_eq!(lists.get(2).unwrap().names(&tags), Some(vec!["x".to_string(), "a".to_string()]));
    lists.remove_on_all(&tag);
    assert_eq!(lists.tag_state(&tag), TagCheckState::Unchecked);
    assert_eq!(lists.get(2).unwrap().names(&tags), Some(vec!["x".to_string()]));
    assert_eq!(lists.len(), 3);
}

#[test]
fn create_tag_adds_to_notes_and_tag_list() {
    let mut tag_list = TagList::new();
    let mut lists = lists_of(&mut tag_list, &[&["old"], &[]]);
    create_tag(&mut tag_list, &mut lists, "new");
    assert_eq!(tag_list.names(), vec!["old", "new"]);
    assert_eq!(lists.get(0).unwrap().names(&tag_list), Some(vec!["old".to_string(), "new".to_string()]));
    assert_eq!(lists.get(1).unwrap().names(&tag_list), Some(vec!["new".to_string()]));
}

#[test]
fn note_tag_list_errors() {
    let mut tags = TagList::new();
    let a = tag_named(&mut tags, "a");
    let b = tags.new_tag("b");
    let mut list = NoteTagList::new();
    assert!(list.append(a.clone()).is_ok());
    assert_eq!(list.append(a.clone()), Err(TagListError::ExistingTag));
    assert_eq!(list.remove(&b), Err(TagListError::MissingTag));
    assert_eq!(list.get_index_of(&a), Some(0));
    assert_eq!(list.item(0, &tags), Some(a.clone()));
    assert_eq!(list.n_items(), 1);
}

#[test]
fn note_tag_list_holds_distinct_tags_of_one_name() {
    let mut tags = TagList::new();
    let mut list = NoteTagList::new();
    assert!(list.append(tags.new_tag("A")).is_ok());
    assert!(list.append(tags.new_tag("A")).is_ok());
    assert_eq!(list.n_items(), 2);
}

#[test]
fn renaming_a_tag_renames_it_on_every_note() {
    let mut tags = TagList::new();
    let mut lists = lists_of(&mut tags, &[&["a", "b"], &["b"]]);
    let mut b = tag_named(&mut tags, "b");
    assert!(tags.rename_tag(&mut b, "bee").is_ok());
    assert_eq!(lists.get(0).unwrap().names(&tags), Some(vec!["a".to_string(), "bee".to_string()]));
    assert_eq!(lists.get(1).unwrap().names(&tags), Some(vec!["bee".to_string()]));
    lists.remove_on_all(&b);
    assert_eq!(lists.tag_state(&b), TagCheckState::Unchecked);
}

#[test]
fn note_tags_from_stored_names() {
    let mut tags = TagList::new();
    let listed = tag_named(&mut tags, "x");
    let names: Vec<String> = vec!["x".into(), "y".into(), "y".into()];
    let rebuilt = NoteTagList::from_names(&mut tags, &names);
    assert_eq!(rebuilt.n_items(), 3);
    assert_eq!(rebuilt.item(0, &tags), Some(listed));
    assert_eq!(
        rebuilt.names(&tags),
        Some(vec!["x".to_string(), "y".to_string(), "y".to_string()])
    );
    assert_eq!(tags.names(), vec!["x"]);
}

#[test]
fn note_tag_list_announces_changes() {
    let mut tags = TagList::new();
    let a = tags.new_tag("a");
    let b = tags.new_tag("b");
    let mut list = NoteTagList::new();
    assert_eq!(list.append(a.clone()), Ok(ItemsChanged { position: 0, removed: 0, added: 1 }));
    assert_eq!(list.append(b.clone()), Ok(ItemsChanged { position: 1, removed: 0, added: 1 }));
    assert_eq!(list.remove(&a), Ok(ItemsChanged { position: 0, removed: 1, added: 0 }));
    assert_eq!(list.item(0, &tags), Some(b));
}
