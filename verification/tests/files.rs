use noteworthy::attachment::{
    plan_file_open, validate_file_sizes, ImportError, MAX_BYTES_FILE_SIZE,
};
use noteworthy::note::id::Id;
use noteworthy::note_file::{frame_note, parse_note};
use noteworthy::visualizer::PeakHistory;

#[test]
fn importer_checks_sizes_in_order() {
    assert_eq!(validate_file_sizes(&vec![Some(1), Some(2)]), Ok(()));
    assert_eq!(
        validate_file_sizes(&vec![Some(1), None, Some(MAX_BYTES_FILE_SIZE)]),
        Err(ImportError::Unreadable(1))
    );
    assert_eq!(
        validate_file_sizes(&vec![Some(MAX_BYTES_FILE_SIZE), None]),
        Err(ImportError::TooLarge(0))
    );
    assert_eq!(validate_file_sizes(&vec![Some(MAX_BYTES_FILE_SIZE - 1)]), Ok(()));
}

#[test]
fn opener_skips_unreadable_and_stops_at_large() {
    let plan = plan_file_open(&vec![Some(1), None, Some(5)]);
    assert_eq!(plan.unreadable, vec![1]);
    assert_eq!(plan.too_large, None);
    assert_eq!(plan.to_import, vec![0, 2]);

    let plan = plan_file_open(&vec![None, Some(1), Some(MAX_BYTES_FILE_SIZE), None]);
    assert_eq!(plan.unreadable, vec![0]);
    assert_eq!(plan.too_large, Some(2));
    assert!(plan.to_import.is_empty());
}

#[test]
fn note_text_frames_and_splits() {
    let text = frame_note("---\ntitle: Home\n", "Other stuff");
    assert_eq!(text, "---\ntitle: Home\n---\nOther stuff");
    let parsed = parse_note(&text);
    assert_eq!(parsed.content, "Other stuff");
    assert_eq!(parsed.metadata_source.as_deref(), Some("title: Home"));

    let plain = parse_note("just text");
    assert_eq!(plain.metadata_source, None);
    assert_eq!(plain.content, "just text");

    let empty = parse_note("");
    assert_eq!(empty.metadata_source, None);
    assert_eq!(empty.content, "");
}

#[test]
fn id_is_file_stem() {
    assert_eq!(Id::from_path("/notes/Shopping list.md").as_str(), "Shopping list");
    assert_eq!(Id::from_path("archive.tar.gz").as_str(), "archive.tar");
    assert!(Id::try_from_path("/").is_none());
    assert_eq!(Id::try_from_path("dir/.hidden").map(|i| i.as_str().to_string()), Some(".hidden".to_string()));
}

#[test]
fn peak_history_drops_oldest() {
    let mut history: PeakHistory<u32> = PeakHistory::new();
    // A 24 pixel wide area fits two peaks; a third is kept until the next push.
    history.push_peak(1, 24);
    history.push_peak(2, 24);
    history.push_peak(3, 24);
    assert_eq!(history.len(), 3);
    history.push_peak(4, 24);
    assert_eq!(history.len(), 3);
    assert_eq!(*history.get(0), 2);
    assert_eq!(*history.get(2), 4);
    history.clear_peaks();
    assert_eq!(history.len(), 0);
}
