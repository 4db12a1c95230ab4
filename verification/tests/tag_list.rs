use noteworthy::note::note_list::ItemsChanged;
use noteworthy::tag_list::{TagList, TagListError};

fn add(tag_list: &mut TagList, name: &str) -> Result<ItemsChanged, TagListError> {
    let tag = tag_list.new_tag(name);
    tag_list.append(tag)
}

#[test]
fn append() {
    let mut tag_list = TagList::new();
    assert!(add(&mut tag_list, "A").is_ok());
    assert_eq!(tag_list.n_items(), 1);
}

#[test]
fn multiple_append() {
    let mut tag_list = TagList::new();
    assert!(add(&mut tag_list, "A").is_ok());
    assert_eq!(tag_list.n_items(), 1);
    assert!(add(&mut tag_list, "a").is_ok());
    assert_eq!(tag_list.n_items(), 2);
    assert!(add(&mut tag_list, "B").is_ok());
    assert_eq!(tag_list.n_items(), 3);
    assert!(add(&mut tag_list, "b").is_ok());
    assert_eq!(tag_list.n_items(), 4);
}

#[test]
fn double_same_append() {
    let mut tag_list = TagList::new();
    assert!(add(&mut tag_list, "A").is_ok());
    assert!(add(&mut tag_list, "A").is_err());
    assert_eq!(tag_list.n_items(), 1);
}

#[test]
fn remove() {
    let mut tag_list = TagList::new();
    let tag = tag_list.new_tag("A");

    assert!(tag_list.append(tag.clone()).is_ok());
    assert_eq!(tag_list.n_items(), 1);

    assert!(tag_list.remove(&tag).is_ok());
    assert_eq!(tag_list.n_items(), 0);
}

#[test]
fn multiple_remove() {
    let mut tag_list = TagList::new();
    let tag_a = tag_list.new_tag("A");
    let tag_a2 = tag_list.new_tag("a");
    let tag_b = tag_list.new_tag("B");
    let tag_b2 = tag_list.new_tag("b");

    assert!(tag_list.append(tag_a.clone()).is_ok());
    assert!(tag_list.append(tag_a2.clone()).is_ok());
    assert!(tag_list.append(tag_b.clone()).is_ok());
    assert!(tag_list.append(tag_b2.clone()).is_ok());
    assert_eq!(tag_list.n_items(), 4);

    assert!(tag_list.remove(&tag_a).is_ok());
    assert_eq!(tag_list.n_items(), 3);
    assert!(tag_list.remove(&tag_a2).is_ok());
    assert_eq!(tag_list.n_items(), 2);
    assert!(tag_list.remove(&tag_b).is_ok());
    assert_eq!(tag_list.n_items(), 1);
    assert!(tag_list.remove(&tag_b2).is_ok());
    assert_eq!(tag_list.n_items(), 0);
}

#[test]
fn double_same_remove() {
    let mut tag_list = TagList::new();
    let tag = tag_list.new_tag("A");

    assert!(tag_list.append(tag.clone()).is_ok());
    assert_eq!(tag_list.n_items(), 1);

    assert!(tag_list.remove(&tag).is_ok());
    assert_eq!(tag_list.n_items(), 0);

    assert!(tag_list.remove(&tag).is_err());
    assert_eq!(tag_list.n_items(), 0);
}

#[test]
fn rename() {
    let mut tag_list = TagList::new();
    let mut tag = tag_list.new_tag("A");
    assert!(!tag_list.contains_with_name("A"));

    assert!(tag_list.append(tag.clone()).is_ok());
    assert!(tag_list.contains_with_name("A"));
    assert!(tag_list.contains(&tag));
    assert_eq!(tag.name(), "A");
    assert_eq!(tag_list.n_items(), 1);

    assert!(tag_list.rename_tag(&mut tag, "Ab").is_ok());
    assert!(!tag_list.contains_with_name("A"));
    assert!(tag_list.contains_with_name("Ab"));
    assert!(tag_list.contains(&tag));
    assert_eq!(tag.name(), "Ab");
    assert_eq!(tag_list.n_items(), 1);

    assert!(tag_list.rename_tag(&mut tag, "A").is_ok());
    assert!(!tag_list.contains_with_name("Ab"));
    assert!(tag_list.contains_with_name("A"));
    assert!(tag_list.contains(&tag));
    assert_eq!(tag.name(), "A");
    assert_eq!(tag_list.n_items(), 1);
}

#[test]
fn rename_tag_empty() {
    let mut tag_list = TagList::new();
    let mut tag = tag_list.new_tag("A");
    assert!(tag_list.append(tag.clone()).is_ok());
    assert_eq!(tag.name(), "A");

    assert!(tag_list.rename_tag(&mut tag, "AA").is_ok());
    assert_eq!(tag.name(), "AA");

    assert!(tag_list.rename_tag(&mut tag, "").is_err());
    assert_eq!(tag.name(), "AA");

    assert_eq!(tag_list.n_items(), 1);
}

#[test]
fn rename_multiple_items() {
    let mut tag_list = TagList::new();

    let mut tag_a = tag_list.new_tag("A");
    assert!(tag_list.append(tag_a.clone()).is_ok());
    assert_eq!(tag_a.name(), "A");
    let tag_a_index = tag_list.get_index_of(&tag_a).unwrap();

    let mut tag_b = tag_list.new_tag("B");
    assert!(tag_list.append(tag_b.clone()).is_ok());
    assert_eq!(tag_b.name(), "B");
    let tag_b_index = tag_list.get_index_of(&tag_b).unwrap();

    let mut tag_c = tag_list.new_tag("C");
    assert!(tag_list.append(tag_c.clone()).is_ok());
    assert_eq!(tag_c.name(), "C");
    let tag_c_index = tag_list.get_index_of(&tag_c).unwrap();

    let mut tag_d = tag_list.new_tag("D");
    assert!(tag_list.append(tag_d.clone()).is_ok());
    assert_eq!(tag_d.name(), "D");
    let tag_d_index = tag_list.get_index_of(&tag_d).unwrap();

    assert_eq!(tag_list.n_items(), 4);

    assert!(tag_list.contains_with_name("A"));
    assert!(tag_list.rename_tag(&mut tag_a, "AA").is_ok());
    assert!(tag_list.contains_with_name("AA"));
    assert!(!tag_list.contains_with_name("A"));
    assert_eq!(tag_a.name(), "AA");

    assert!(tag_list.contains_with_name("B"));
    assert!(tag_list.rename_tag(&mut tag_b, "BB").is_ok());
    assert!(tag_list.contains_with_name("BB"));
    assert!(!tag_list.contains_with_name("B"));
    assert_eq!(tag_b.name(), "BB");

    assert!(tag_list.contains_with_name("C"));
    assert!(tag_list.rename_tag(&mut tag_c, "CC").is_ok());
    assert!(tag_list.contains_with_name("CC"));
    assert!(!tag_list.contains_with_name("C"));
    assert_eq!(tag_c.name(), "CC");

    assert!(tag_list.contains_with_name("D"));
    assert!(tag_list.rename_tag(&mut tag_d, "DD").is_ok());
    assert!(tag_list.contains_with_name("DD"));
    assert!(!tag_list.contains_with_name("D"));
    assert_eq!(tag_d.name(), "DD");

    assert_eq!(tag_list.n_items(), 4);

    assert_eq!(tag_list.get_with_name(&tag_a.name()), Some(tag_a.clone()));
    assert_eq!(tag_list.item(tag_a_index as u32), Some(tag_a));

    assert_eq!(tag_list.get_with_name(&tag_b.name()), Some(tag_b.clone()));
    assert_eq!(tag_list.item(tag_b_index as u32), Some(tag_b));

    assert_eq!(tag_list.get_with_name(&tag_c.name()), Some(tag_c.clone()));
    assert_eq!(tag_list.item(tag_c_index as u32), Some(tag_c));

    assert_eq!(tag_list.get_with_name(&tag_d.name()), Some(tag_d.clone()));
    assert_eq!(tag_list.item(tag_d_index as u32), Some(tag_d));
}

#[test]
fn rename_tag_with_duplicates() {
    let mut tag_list = TagList::new();

    let mut tag_a = tag_list.new_tag("A");
    assert!(tag_list.append(tag_a.clone()).is_ok());
    assert_eq!(tag_a.name(), "A");

    let mut tag_b = tag_list.new_tag("B");
    assert!(tag_list.append(tag_b.clone()).is_ok());
    assert_eq!(tag_b.name(), "B");

    assert_eq!(tag_list.n_items(), 2);

    assert!(tag_list.rename_tag(&mut tag_a, "AA").is_ok());
    assert!(tag_list.rename_tag(&mut tag_a, "B").is_err());
    assert_eq!(tag_a.name(), "AA");

    assert_eq!(tag_list.n_items(), 2);

    assert!(tag_list.rename_tag(&mut tag_b, "A").is_ok());
    assert!(tag_list.rename_tag(&mut tag_b, "AA").is_err());
    assert_eq!(tag_b.name(), "A");

    assert_eq!(tag_list.n_items(), 2);
}

#[test]
fn contains() {
    let mut tag_list = TagList::new();
    let tag_a = tag_list.new_tag("A");
    let tag_a2 = tag_list.new_tag("a");
    let tag_b = tag_list.new_tag("B");
    let tag_b2 = tag_list.new_tag("b");

    assert!(tag_list.append(tag_a.clone()).is_ok());
    assert!(tag_list.append(tag_a2.clone()).is_ok());
    assert!(tag_list.append(tag_b.clone()).is_ok());
    assert!(tag_list.append(tag_b2.clone()).is_ok());

    assert!(tag_list.contains(&tag_a));
    assert!(tag_list.contains(&tag_a2));
    assert!(tag_list.contains(&tag_b));
    assert!(tag_list.contains(&tag_b2));
    let tag_c = tag_list.new_tag("C");
    let tag_c2 = tag_list.new_tag("c");
    assert!(!tag_list.contains(&tag_c));
    assert!(!tag_list.contains(&tag_c2));
}

#[test]
fn contains_with_name() {
    let mut tag_list = TagList::new();

    assert!(add(&mut tag_list, "A").is_ok());
    assert!(add(&mut tag_list, "a").is_ok());
    assert!(add(&mut tag_list, "B").is_ok());
    assert!(add(&mut tag_list, "b").is_ok());

    assert!(tag_list.contains_with_name("A"));
    assert!(tag_list.contains_with_name("a"));
    assert!(tag_list.contains_with_name("B"));
    assert!(tag_list.contains_with_name("b"));
    assert!(!tag_list.contains_with_name("C"));
    assert!(!tag_list.contains_with_name("c"));
}

#[test]
fn get_with_name() {
    let mut tag_list = TagList::new();
    let tag_a = tag_list.new_tag("A");
    let tag_a2 = tag_list.new_tag("a");
    let tag_b = tag_list.new_tag("B");
    let tag_b2 = tag_list.new_tag("b");

    assert!(tag_list.append(tag_a.clone()).is_ok());
    assert!(tag_list.append(tag_a2.clone()).is_ok());
    assert!(tag_list.append(tag_b.clone()).is_ok());
    assert!(tag_list.append(tag_b2.clone()).is_ok());

    assert_eq!(tag_list.get_with_name("A"), Some(tag_a));
    assert_eq!(tag_list.get_with_name("a"), Some(tag_a2));
    assert_eq!(tag_list.get_with_name("B"), Some(tag_b));
    assert_eq!(tag_list.get_with_name("b"), Some(tag_b2));
    assert!(tag_list.get_with_name("C").is_none());
    assert!(tag_list.get_with_name("c").is_none());
}

#[test]
fn get_index_of() {
    let mut tag_list = TagList::new();
    assert!(add(&mut tag_list, "A").is_ok());
    assert!(add(&mut tag_list, "B").is_ok());
    assert!(add(&mut tag_list, "C").is_ok());

    assert_eq!(
        tag_list
            .get_with_name("A")
            .map(|tag| tag_list.get_index_of(&tag)),
        Some(Some(0))
    );
    assert_eq!(
        tag_list
            .get_with_name("B")
            .map(|tag| tag_list.get_index_of(&tag)),
        Some(Some(1))
    );
    assert_eq!(
        tag_list
            .get_with_name("C")
            .map(|tag| tag_list.get_index_of(&tag)),
        Some(Some(2))
    );
}

#[test]
fn is_valid_name_repeating() {
    let mut tag_list = TagList::new();
    let tag = tag_list.new_tag("A");
    assert!(tag_list.is_valid_name("A"));

    assert!(tag_list.append(tag.clone()).is_ok());
    assert!(!tag_list.is_valid_name("A"));

    assert!(tag_list.remove(&tag).is_ok());
    assert!(tag_list.is_valid_name("A"));
}

#[test]
fn is_valid_name_empty() {
    let tag_list = TagList::new();
    assert!(tag_list.is_valid_name("A"));
    assert!(!tag_list.is_valid_name(""));
}

#[test]
fn append_errors_name_the_reason() {
    let mut tag_list = TagList::new();
    assert_eq!(add(&mut tag_list, ""), Err(TagListError::EmptyName));
    assert!(add(&mut tag_list, "work").is_ok());
    assert_eq!(add(&mut tag_list, "work"), Err(TagListError::ExistingName));
    let home = tag_list.new_tag("home");
    assert_eq!(tag_list.remove(&home), Err(TagListError::MissingName));
    let mut tag = tag_list.get_with_name("work").unwrap();
    assert_eq!(tag_list.rename_tag(&mut tag, "work"), Err(TagListError::ExistingName));
    assert_eq!(tag_list.rename_tag(&mut tag, ""), Err(TagListError::EmptyName));
    assert_eq!(tag_list.names(), vec!["work".to_string()]);
}

#[test]
fn remove_keeps_order_of_others() {
    let mut tag_list = TagList::new();
    for name in ["a", "b", "c", "d"] {
        assert!(add(&mut tag_list, name).is_ok());
    }
    let b = tag_list.get_with_name("b").unwrap();
    assert!(tag_list.remove(&b).is_ok());
    assert_eq!(tag_list.names(), vec!["a", "c", "d"]);
    assert_eq!(tag_list.item(1), tag_list.get_with_name("c"));
    assert_eq!(tag_list.item(3), None);
}

#[test]
fn rename_keeps_position() {
    let mut tag_list = TagList::new();
    for name in ["a", "b", "c"] {
        assert!(add(&mut tag_list, name).is_ok());
    }
    let mut tag = tag_list.get_with_name("a").unwrap();
    assert!(tag_list.rename_tag(&mut tag, "z").is_ok());
    assert_eq!(tag_list.names(), vec!["z", "b", "c"]);
    assert!(tag_list.rename_tag(&mut tag, "a").is_ok());
    assert_eq!(tag_list.names(), vec!["a", "b", "c"]);
}

#[test]
fn append_then_remove_restores_list() {
    let mut tag_list = TagList::new();
    assert!(add(&mut tag_list, "x").is_ok());
    assert!(add(&mut tag_list, "y").is_ok());
    let before = tag_list.names();
    let new = tag_list.new_tag("new");
    assert!(tag_list.append(new.clone()).is_ok());
    assert!(tag_list.remove(&new).is_ok());
    assert_eq!(tag_list.names(), before);
}

#[test]
fn from_names_skips_empty_and_repeated() {
    let names: Vec<String> = vec!["a".into(), "".into(), "b".into(), "a".into(), "c".into()];
    let tag_list = TagList::from_names(&names);
    assert_eq!(tag_list.names(), vec!["a", "b", "c"]);
    assert_eq!(tag_list.n_items(), 3);
}

#[test]
fn tags_are_told_apart_by_identity() {
    let mut tag_list = TagList::new();
    let first = tag_list.new_tag("A");
    let second = tag_list.new_tag("A");
    assert_ne!(first, second);
    assert!(tag_list.append(first.clone()).is_ok());
    assert!(tag_list.contains(&first));
    assert!(!tag_list.contains(&second));
    assert_eq!(tag_list.remove(&second), Err(TagListError::MissingTag));
    assert_eq!(tag_list.n_items(), 1);
    assert_eq!(tag_list.append(second), Err(TagListError::ExistingName));
}

#[test]
fn rename_shows_everywhere_by_identity() {
    let mut tag_list = TagList::new();
    let mut tag = tag_list.new_tag("old");
    assert!(tag_list.append(tag.clone()).is_ok());
    let id = tag.id();
    assert!(tag_list.rename_tag(&mut tag, "new").is_ok());
    assert_eq!(tag.id(), id);
    assert_eq!(tag_list.tag(id).unwrap().name(), "new");
    assert_eq!(tag_list.item(0), Some(tag));
}

#[test]
fn append_and_remove_announce_the_change() {
    let mut tag_list = TagList::new();
    let a = tag_list.new_tag("a");
    let b = tag_list.new_tag("b");
    let c = tag_list.new_tag("c");
    assert_eq!(tag_list.append(a.clone()), Ok(ItemsChanged { position: 0, removed: 0, added: 1 }));
    assert_eq!(tag_list.append(b.clone()), Ok(ItemsChanged { position: 1, removed: 0, added: 1 }));
    assert_eq!(tag_list.append(c.clone()), Ok(ItemsChanged { position: 2, removed: 0, added: 1 }));
    assert_eq!(tag_list.remove(&b), Ok(ItemsChanged { position: 1, removed: 1, added: 0 }));
    assert_eq!(tag_list.names(), vec!["a", "c"]);
}

#[test]
fn tag_of_another_list_is_refused() {
    let mut other = TagList::new();
    for name in ["x", "y", "z"] {
        let _ = other.new_tag(name);
    }
    let foreign = other.new_tag("w");
    let mut tag_list = TagList::new();
    assert_eq!(tag_list.append(foreign), Err(TagListError::MissingTag));
    assert_eq!(tag_list.n_items(), 0);
}

#[test]
fn renaming_a_tag_that_is_not_held_is_refused() {
    let mut tag_list = TagList::new();
    let held = tag_list.new_tag("A");
    assert!(tag_list.append(held).is_ok());
    let mut other = tag_list.new_tag("A");
    assert_eq!(tag_list.rename_tag(&mut other, "B"), Err(TagListError::MissingTag));
    assert_eq!(other.name(), "A");
    assert_eq!(tag_list.names(), vec!["A"]);
}

#[test]
fn stored_names_load_back() {
    let mut tag_list = TagList::new();
    for name in ["one", "two", "three"] {
        assert!(add(&mut tag_list, name).is_ok());
    }
    let stored = tag_list.names();
    assert_eq!(TagList::from_names(&stored).names(), stored);
}
