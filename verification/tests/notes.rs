use noteworthy::date::{Date, Order};
use noteworthy::note::id::Id;
use noteworthy::note::metadata::Metadata;
use noteworthy::note::note_list::{ItemsChanged, NoteList as PlainNoteList};
use noteworthy::note::note_tag_list::NoteTagList;
use noteworthy::note::tag_list::TagList as TagSet;
use noteworthy::note::Note;
use noteworthy::note_list::NoteList;
use noteworthy::save_all::{SaveAction, SaveAll};
use noteworthy::tag_list::TagList;

fn note(id: &str, content: &str) -> Note {
    Note::new(Id::from_path(id), Metadata::new(), content.to_string())
}

#[test]
fn note_list_keeps_one_note_per_id() {
    let mut list = NoteList::new();
    assert_eq!(list.append(note("a.md", "one")), 0);
    assert_eq!(list.append(note("b.md", "two")), 1);
    assert_eq!(list.append(note("a.md", "three")), 1);
    assert_eq!(list.n_items(), 2);
    assert_eq!(list.item(0).unwrap().content(), "three");
    assert_eq!(list.get_full(&Id::from_path("b.md")), Some(1));
    assert_eq!(list.get(&Id::from_path("b.md")).unwrap().content(), "two");
    assert_eq!(list.remove(&Id::from_path("a.md")), Some(0));
    assert_eq!(list.remove(&Id::from_path("a.md")), None);
    assert!(list.get(&Id::from_path("a.md")).is_none());
    assert_eq!(list.item(0).unwrap().id().as_str(), "b");
    assert!(list.item(1).is_none());
}

#[test]
fn plain_note_list_reports_changes() {
    let mut list = PlainNoteList::new();
    assert_eq!(list.append(note("a.md", "")), ItemsChanged { position: 2, removed: 0, added: 1 });
    assert_eq!(list.append(note("b.md", "")), ItemsChanged { position: 3, removed: 0, added: 1 });
    assert_eq!(list.remove(0), ItemsChanged { position: 0, removed: 1, added: 0 });
    assert_eq!(list.n_items(), 1);
    assert_eq!(list.item(0).unwrap().id().as_str(), "b");
}

#[test]
fn editing_a_note_marks_it_unsaved() {
    let mut n = note("n.md", "text");
    assert!(n.is_saved());
    let later = Date { seconds: 100, nanoseconds: 5 };
    n.set_content_at("new text".to_string(), later);
    assert!(!n.is_saved());
    assert_eq!(n.content(), "new text");
    assert_eq!(n.metadata().last_modified(), later);
    n.set_is_saved(true);
    n.set_title_at("Title".to_string(), Date { seconds: 200, nanoseconds: 0 });
    assert_eq!(n.metadata().title(), "Title");
    assert!(!n.is_saved());
    n.set_is_saved(true);
    n.set_is_pinned(true);
    assert!(n.metadata().is_pinned() && !n.is_saved());
    n.set_is_trashed(true);
    assert!(n.metadata().is_trashed());
    let mut all_tags = TagList::new();
    let t = all_tags.new_tag("t");
    let mut tags = NoteTagList::new();
    tags.append(t.clone()).unwrap();
    n.set_tag_list(tags);
    assert!(n.metadata().tag_list().contains(&t));
    assert_eq!(n.metadata().tag_list().names(&all_tags), Some(vec!["t".to_string()]));
    assert_eq!(n.serialize("---\ntitle: Title\n"), "---\ntitle: Title\n---\nnew text");
}

#[test]
fn metadata_title_change_moves_modification_time() {
    let mut m = Metadata::new();
    assert_eq!(m.last_modified(), Date::default());
    let now = Date { seconds: 1_700_000_000, nanoseconds: 12 };
    m.set_title("Hello".to_string(), now);
    assert_eq!(m.title(), "Hello");
    assert_eq!(m.last_modified(), now);
}

#[test]
fn dates_compare_by_time() {
    let a = Date { seconds: 1, nanoseconds: 5 };
    let b = Date { seconds: 1, nanoseconds: 9 };
    let c = Date { seconds: 2, nanoseconds: 0 };
    assert_eq!(a.compare(&b), Order::Less);
    assert_eq!(c.compare(&b), Order::Greater);
    assert_eq!(a.compare(&a), Order::Equal);
}

#[test]
fn tag_set_counts_same_name_once() {
    let mut all_tags = TagList::new();
    let a = all_tags.new_tag("a");
    let a2 = all_tags.new_tag("a");
    let b = all_tags.new_tag("b");
    let mut set = TagSet::new();
    assert!(set.append(a.clone()));
    assert!(!set.append(a2.clone()));
    assert!(set.append(b.clone()));
    assert!(set.contains(a2.clone()));
    assert_eq!(set.find_with_name("b"), Some(b.clone()));
    assert_eq!(set.find_with_name("c"), None);
    assert!(set.remove(a2.clone()));
    assert!(!set.remove(a.clone()));
    assert_eq!(set.names(), vec!["b"]);
    assert_eq!(set.item(0), Some(b));
    assert_eq!(set.n_items(), 1);
    let names: Vec<String> = vec!["x".into(), "y".into(), "x".into()];
    assert_eq!(TagSet::from_names(&mut all_tags, &names).names(), vec!["x", "y"]);
}

#[test]
fn update_last_modified_keeps_the_rest() {
    let stale = Date { seconds: 7, nanoseconds: 3 };
    let mut m = Metadata::from_parts("T".to_string(), NoteTagList::new(), stale, true, false);
    let now = Date { seconds: 1_700_000_000, nanoseconds: 5 };
    m.update_last_modified(now);
    assert_eq!(m.title(), "T");
    assert!(m.is_pinned());
    assert!(!m.is_trashed());
    assert_eq!(m.last_modified(), now);
}

fn unsaved(id: &str, seconds: i64) -> Note {
    let mut n = note(id, "");
    n.set_content_at("text".to_string(), Date { seconds, nanoseconds: 0 });
    n
}

#[test]
fn save_all_writes_unsaved_notes_in_order() {
    let mut list = NoteList::new();
    list.append(unsaved("a.md", 1));
    list.append(note("b.md", ""));
    list.append(unsaved("c.md", 2));
    let mut save = SaveAll::new();
    assert_eq!(save.next_action(&list), SaveAction::Write(0));
    save.report(&mut list, true);
    assert!(list.item(0).unwrap().is_saved());
    assert_eq!(save.next_action(&list), SaveAction::Write(2));
    save.report(&mut list, true);
    assert_eq!(save.next_action(&list), SaveAction::Done);
    assert_eq!(list.unsaved_positions(), Vec::<u32>::new());
}

#[test]
fn save_all_stops_at_first_failure() {
    let mut list = NoteList::new();
    list.append(unsaved("a.md", 1));
    list.append(unsaved("b.md", 2));
    list.append(unsaved("c.md", 3));
    let mut save = SaveAll::new();
    assert_eq!(save.next_action(&list), SaveAction::Write(0));
    save.report(&mut list, true);
    assert_eq!(save.next_action(&list), SaveAction::Write(1));
    save.report(&mut list, false);
    assert_eq!(save.next_action(&list), SaveAction::Failed);
    assert_eq!(save.next_action(&list), SaveAction::Failed);
    assert!(list.item(0).unwrap().is_saved());
    assert!(!list.item(1).unwrap().is_saved());
    assert!(!list.item(2).unwrap().is_saved());
}

#[test]
fn mark_saved_touches_one_note() {
    let mut list = NoteList::new();
    list.append(unsaved("a.md", 1));
    list.append(unsaved("b.md", 2));
    assert!(list.mark_saved(1));
    assert!(!list.mark_saved(2));
    assert!(!list.item(0).unwrap().is_saved());
    assert!(list.item(1).unwrap().is_saved());
    assert_eq!(list.item(1).unwrap().content(), "text");
}
