use director::{extension_of, file_name, is_hidden_file, is_root_path, join_path, parent_path};

#[test]
fn file_name_of_plain_path() {
    assert_eq!(file_name("/home/user/notes.txt").as_deref(), Some("notes.txt"));
}

#[test]
fn file_name_of_root_is_none() {
    assert_eq!(file_name("/"), None);
}

#[test]
fn file_name_of_empty_is_none() {
    assert_eq!(file_name(""), None);
}

#[test]
fn file_name_without_separator_is_whole() {
    assert_eq!(file_name("notes.txt").as_deref(), Some("notes.txt"));
}

#[test]
fn parent_of_nested_path() {
    assert_eq!(parent_path("/home/user").as_deref(), Some("/home"));
}

#[test]
fn parent_of_top_level_is_root() {
    assert_eq!(parent_path("/home").as_deref(), Some("/"));
}

#[test]
fn parent_of_root_is_none() {
    assert_eq!(parent_path("/"), None);
}

#[test]
fn root_detection() {
    assert!(is_root_path(&String::from("/")));
    assert!(!is_root_path(&String::from("/home")));
    assert!(!is_root_path(&String::from("/home/user")));
}

#[test]
fn join_inserts_separator() {
    assert_eq!(join_path("/home/user", "a.txt"), "/home/user/a.txt");
}

#[test]
fn join_at_root_does_not_double_separator() {
    assert_eq!(join_path("/", "a.txt"), "/a.txt");
}

#[test]
fn extension_of_simple_name() {
    assert_eq!(extension_of("/d/photo.png").as_deref(), Some("png"));
}

#[test]
fn extension_of_dotted_name_takes_last_dot() {
    assert_eq!(extension_of("/d/archive.tar.gz").as_deref(), Some("gz"));
}

#[test]
fn extension_missing_without_dot() {
    assert_eq!(extension_of("/d/Makefile"), None);
}

#[test]
fn extension_missing_for_leading_dot_name() {
    assert_eq!(extension_of("/d/.profile"), None);
}

#[test]
fn hidden_file_detection() {
    assert!(is_hidden_file(&String::from("/home/.config")));
    assert!(!is_hidden_file(&String::from("/home/config")));
    assert!(!is_hidden_file(&String::from("/")));
}
