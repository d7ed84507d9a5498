use director::{initial_state, EntryInfo, FileKind, PreviewData, SessionError, SessionState};

fn entry(path: &str, is_dir: bool) -> EntryInfo {
    EntryInfo { path: String::from(path), is_dir }
}

fn demo_session() -> SessionState {
    let entries = vec![
        entry("/d/a.txt", false),
        entry("/d/.hidden", false),
        entry("/d/b.png", false),
        entry("/d/sub", true),
    ];
    initial_state(String::from("/d"), &entries)
}

#[test]
fn listing_excludes_hidden_entries() {
    let s = demo_session();
    let rows = s.list_current();
    assert_eq!(rows.len(), 3);
    assert_eq!(rows[0].name, "a.txt");
    assert_eq!(rows[1].name, "b.png");
    assert_eq!(rows[2].name, "sub");
    for row in &rows {
        assert!(!row.name.starts_with('.'));
    }
}

#[test]
fn listing_of_only_hidden_entries_is_empty() {
    let entries = vec![entry("/d/.a", false), entry("/d/.b", true)];
    let s = initial_state(String::from("/d"), &entries);
    assert_eq!(s.list_current().len(), 0);
}

#[test]
fn toggle_mark_marks_a_file() {
    let mut s = demo_session();
    s.toggle_mark(0);
    let rows = s.list_current();
    assert!(rows[0].marked);
    assert!(!rows[1].marked);
    let marked = s.list_marked();
    assert_eq!(marked.len(), 1);
    assert_eq!(marked[0].name, "a.txt");
    assert!(marked[0].marked);
}

#[test]
fn toggle_mark_twice_restores_marked_set() {
    let mut s = demo_session();
    s.toggle_mark(1);
    s.toggle_mark(0);
    s.toggle_mark(0);
    let marked = s.list_marked();
    assert_eq!(marked.len(), 1);
    assert_eq!(marked[0].name, "b.png");
    assert!(!s.list_current()[0].marked);
}

#[test]
fn toggle_mark_on_directory_is_noop() {
    let mut s = demo_session();
    s.toggle_mark(2);
    assert_eq!(s.list_marked().len(), 0);
}

#[test]
fn toggle_mark_out_of_range_is_noop() {
    let mut s = demo_session();
    s.toggle_mark(99);
    assert_eq!(s.list_marked().len(), 0);
}

#[test]
fn marks_survive_navigation() {
    let mut s = demo_session();
    s.toggle_mark(0);
    s.navigate_to(String::from("/e"));
    let other = vec![entry("/e/zzz.txt", false)];
    s.refresh_listing(&other);
    assert_eq!(s.list_marked().len(), 1);
    assert_eq!(s.list_marked()[0].name, "a.txt");
    s.navigate_to(String::from("/d"));
    let back = vec![
        entry("/d/a.txt", false),
        entry("/d/.hidden", false),
        entry("/d/b.png", false),
        entry("/d/sub", true),
    ];
    s.refresh_listing(&back);
    let rows = s.list_current();
    assert!(rows[0].marked);
    assert_eq!(s.list_marked().len(), 1);
}

#[test]
fn filter_narrows_and_clearing_restores() {
    let mut s = demo_session();
    assert!(s.set_filter(String::from("^a")).is_ok());
    let rows = s.list_current();
    assert_eq!(rows.len(), 1);
    assert_eq!(rows[0].name, "a.txt");
    let full = demo_session().list_current();
    for row in &rows {
        assert!(full.iter().any(|r| r.name == row.name));
    }
    assert!(s.set_filter(String::new()).is_ok());
    let restored = s.list_current();
    assert_eq!(restored.len(), full.len());
    for (a, b) in restored.iter().zip(full.iter()) {
        assert_eq!(a.name, b.name);
    }
}

#[test]
fn filter_matches_names_not_paths() {
    let mut s = demo_session();
    // every path begins with /d; a name-based filter for "d" keeps nothing
    // but names containing d, while a path-based one would keep everything
    assert!(s.set_filter(String::from("d")).is_ok());
    assert_eq!(s.list_current().len(), 0);
}

#[test]
fn invalid_filter_pattern_is_rejected_and_filter_kept() {
    let mut s = demo_session();
    assert!(s.set_filter(String::from("^a")).is_ok());
    let err = s.set_filter(String::from("(")).unwrap_err();
    assert_eq!(err, SessionError::InvalidPattern);
    // the previous filter still applies
    let rows = s.list_current();
    assert_eq!(rows.len(), 1);
    assert_eq!(rows[0].name, "a.txt");
}

#[test]
fn navigate_into_directory_moves_and_clears_filter() {
    let mut s = demo_session();
    assert!(s.set_filter(String::from("sub")).is_ok());
    let target = s.navigate_into(0);
    assert_eq!(target.as_deref(), Some("/d/sub"));
    assert_eq!(s.get_current_path(), "/d/sub");
    let inside = vec![entry("/d/sub/inner.txt", false)];
    s.refresh_listing(&inside);
    // the filter was cleared by the navigation
    assert_eq!(s.list_current().len(), 1);
    assert_eq!(s.list_current()[0].name, "inner.txt");
}

#[test]
fn navigate_into_file_or_out_of_range_is_noop() {
    let mut s = demo_session();
    assert_eq!(s.navigate_into(0), None);
    assert_eq!(s.get_current_path(), "/d");
    assert_eq!(s.navigate_into(42), None);
    assert_eq!(s.get_current_path(), "/d");
    assert_eq!(s.list_current().len(), 3);
}

#[test]
fn navigate_parent_reaches_root_and_then_fails() {
    let entries: Vec<EntryInfo> = Vec::new();
    let mut s = initial_state(String::from("/a/b"), &entries);
    assert!(s.navigate_parent().is_ok());
    assert_eq!(s.get_current_path(), "/a");
    assert!(s.navigate_parent().is_ok());
    assert_eq!(s.get_current_path(), "/");
    let err = s.navigate_parent().unwrap_err();
    assert_eq!(err, SessionError::AtRoot);
    // the failed call left the state reporting the same root
    assert_eq!(s.get_current_path(), "/");
}

#[test]
fn preview_classifies_png_as_image() {
    let s = demo_session();
    let bytes: Vec<u8> = vec![104, 101, 108, 108, 111];
    match s.preview_at(1, Some(&bytes)) {
        PreviewData::File(fp) => {
            assert_eq!(fp.kind, FileKind::Image);
            assert_eq!(fp.content, "aGVsbG8=");
        },
        other => panic!("expected a file preview, got {:?}", other),
    }
}

#[test]
fn preview_classifies_txt_as_other_with_placeholder() {
    let s = demo_session();
    match s.preview_at(0, None) {
        PreviewData::File(fp) => {
            assert_eq!(fp.kind, FileKind::Other);
            assert_eq!(fp.content, "NA");
        },
        other => panic!("expected a file preview, got {:?}", other),
    }
}

#[test]
fn preview_of_directory_is_its_path() {
    let s = demo_session();
    match s.preview_at(2, None) {
        PreviewData::Directory(p) => assert_eq!(p, "/d/sub"),
        other => panic!("expected a directory preview, got {:?}", other),
    }
}

#[test]
fn preview_out_of_range_is_missing() {
    let s = demo_session();
    assert!(matches!(s.preview_at(99, None), PreviewData::Missing));
}

#[test]
fn preview_of_unreadable_image_is_missing() {
    let s = demo_session();
    assert!(matches!(s.preview_at(1, None), PreviewData::Missing));
}

#[test]
fn preview_source_names_only_images() {
    let s = demo_session();
    assert_eq!(s.preview_source_at(0), None);
    assert_eq!(s.preview_source_at(1).as_deref(), Some("/d/b.png"));
    assert_eq!(s.preview_source_at(2), None);
    assert_eq!(s.preview_source_at(99), None);
}

#[test]
fn marked_preview_follows_mark_order() {
    let mut s = demo_session();
    s.toggle_mark(1);
    let bytes: Vec<u8> = vec![77, 97, 110];
    match s.preview_marked_at(0, Some(&bytes)) {
        PreviewData::File(fp) => {
            assert_eq!(fp.kind, FileKind::Image);
            assert_eq!(fp.content, "TWFu");
        },
        other => panic!("expected a file preview, got {:?}", other),
    }
    assert_eq!(s.preview_marked_source_at(0).as_deref(), Some("/d/b.png"));
}

#[test]
fn marked_preview_out_of_range_is_missing() {
    let mut s = demo_session();
    s.toggle_mark(0);
    assert!(matches!(s.preview_marked_at(5, None), PreviewData::Missing));
}

#[test]
fn current_path_renders_root_as_slash() {
    let entries: Vec<EntryInfo> = Vec::new();
    let s = initial_state(String::from("/"), &entries);
    assert_eq!(s.get_current_path(), "/");
    let t = initial_state(String::from("/home/user"), &entries);
    assert_eq!(t.get_current_path(), "/home/user");
}
