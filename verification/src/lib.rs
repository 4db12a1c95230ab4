//! Verified core of the Noteworthy note-taking application: tag lists,
//! per-note tag lists, note lists, sidebar ordering and selection logic,
//! note file framing and small display helpers.

pub mod index_set;
pub mod id_set;
pub mod tag;
pub mod tag_list;
pub mod selection;
pub mod name_set;
pub mod note;
pub mod note_tag_lists;
pub mod date;
pub mod sidebar;
pub mod subtitle;
pub mod time_label;
pub mod attachment;
pub mod visualizer;
pub mod setup;
pub mod note_file;
pub mod index_map;
pub mod note_list;
pub mod note_name;
pub mod save_all;
pub mod sync;
