//! A directory-browsing session engine: it tracks a current location, lists
//! directory contents with hidden entries excluded, marks files across
//! navigations, filters the visible listing by a name pattern, classifies
//! previews, and plans batch copies of marked files.
//!
//! The engine never touches the filesystem itself: directory reads, file
//! reads and copies happen outside and are handed in as plain values, so
//! every operation here is a verified state transition.

pub mod copying;
pub mod entries;
pub mod filter;
pub mod paths;
pub mod preview;
pub mod session;

pub use copying::CopyJob;
pub use entries::{classify, files_from_paths, get_files_in_directory, EntryInfo, File, FileData};
pub use paths::{extension_of, file_name, is_hidden_file, is_root_path, join_path, parent_path};
pub use preview::{file_kind, file_preview, get_file_preview, preview_content_path, FileKind,
    FilePreview, PreviewData};
pub use session::{initial_state, SessionError, SessionState};
