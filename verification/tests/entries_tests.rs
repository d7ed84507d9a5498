use director::{classify, file_kind, file_preview, files_from_paths, get_file_preview,
    get_files_in_directory, EntryInfo, File, FileKind, PreviewData};

fn entry(path: &str, is_dir: bool) -> EntryInfo {
    EntryInfo { path: String::from(path), is_dir }
}

#[test]
fn classify_by_directory_flag() {
    match classify(String::from("/d/sub"), true) {
        File::Directory(p) => assert_eq!(p, "/d/sub"),
        File::File(_) => panic!("expected a directory"),
    }
    match classify(String::from("/d/a.txt"), false) {
        File::File(p) => assert_eq!(p, "/d/a.txt"),
        File::Directory(_) => panic!("expected a file"),
    }
}

#[test]
fn entry_name_and_path() {
    let f = classify(String::from("/d/a.txt"), false);
    assert_eq!(f.name(), "a.txt");
    assert_eq!(f.path(), "/d/a.txt");
}

#[test]
fn listing_drops_hidden_and_keeps_order() {
    let entries = vec![
        entry("/d/.git", true),
        entry("/d/b.txt", false),
        entry("/d/a", true),
        entry("/d/.env", false),
    ];
    let files = get_files_in_directory(&entries);
    assert_eq!(files.len(), 2);
    assert_eq!(files[0].name(), "b.txt");
    assert_eq!(files[1].name(), "a");
}

#[test]
fn files_from_paths_wraps_paths_as_files() {
    let paths = vec![String::from("/m/a.png"), String::from("/m/b.txt")];
    let files = files_from_paths(&paths);
    assert_eq!(files.len(), 2);
    match &files[0] {
        File::File(p) => assert_eq!(p, "/m/a.png"),
        File::Directory(_) => panic!("expected a file"),
    }
}

#[test]
fn file_kind_table_is_case_sensitive() {
    assert_eq!(file_kind(&String::from("/d/a.jpg")), FileKind::Image);
    assert_eq!(file_kind(&String::from("/d/a.png")), FileKind::Image);
    assert_eq!(file_kind(&String::from("/d/a.gif")), FileKind::Image);
    assert_eq!(file_kind(&String::from("/d/a.PNG")), FileKind::Other);
    assert_eq!(file_kind(&String::from("/d/a.txt")), FileKind::Other);
    assert_eq!(file_kind(&String::from("/d/noext")), FileKind::Other);
}

#[test]
fn file_preview_encodes_image_bytes() {
    let bytes: Vec<u8> = b"hello".to_vec();
    let fp = file_preview(&String::from("/d/a.gif"), Some(&bytes)).unwrap();
    assert_eq!(fp.kind, FileKind::Image);
    assert_eq!(fp.content, "aGVsbG8=");
}

#[test]
fn file_preview_of_empty_image_is_empty_string() {
    let bytes: Vec<u8> = Vec::new();
    let fp = file_preview(&String::from("/d/a.jpg"), Some(&bytes)).unwrap();
    assert_eq!(fp.content, "");
}

#[test]
fn file_preview_padding_matches_standard_alphabet() {
    let fp = file_preview(&String::from("/d/a.png"), Some(&b"Ma".to_vec())).unwrap();
    assert_eq!(fp.content, "TWE=");
    let fp2 = file_preview(&String::from("/d/a.png"), Some(&b"M".to_vec())).unwrap();
    assert_eq!(fp2.content, "TQ==");
}

#[test]
fn file_preview_of_other_never_needs_bytes() {
    let fp = file_preview(&String::from("/d/a.txt"), None).unwrap();
    assert_eq!(fp.kind, FileKind::Other);
    assert_eq!(fp.content, "NA");
}

#[test]
fn file_preview_of_unreadable_image_is_none() {
    assert!(file_preview(&String::from("/d/a.png"), None).is_none());
}

#[test]
fn get_file_preview_over_listing() {
    let entries = vec![entry("/d/sub", true), entry("/d/a.txt", false)];
    let files = get_files_in_directory(&entries);
    match get_file_preview(0, &files, None) {
        PreviewData::Directory(p) => assert_eq!(p, "/d/sub"),
        other => panic!("expected a directory preview, got {:?}", other),
    }
    match get_file_preview(1, &files, None) {
        PreviewData::File(fp) => assert_eq!(fp.kind, FileKind::Other),
        other => panic!("expected a file preview, got {:?}", other),
    }
    assert!(matches!(get_file_preview(2, &files, None), PreviewData::Missing));
}
