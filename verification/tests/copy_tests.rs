use director::{initial_state, EntryInfo};

fn entry(path: &str, is_dir: bool) -> EntryInfo {
    EntryInfo { path: String::from(path), is_dir }
}

#[test]
fn copy_plan_sends_each_marked_file_under_its_own_name() {
    let entries = vec![entry("/src/x.txt", false), entry("/src/y.png", false)];
    let mut s = initial_state(String::from("/src"), &entries);
    s.toggle_mark(0);
    s.toggle_mark(1);
    let jobs = s.copy_marked(&String::from("/dest"));
    assert_eq!(jobs.len(), 2);
    assert_eq!(jobs[0].source, "/src/x.txt");
    assert_eq!(jobs[0].dest, "/dest/x.txt");
    assert_eq!(jobs[1].source, "/src/y.png");
    assert_eq!(jobs[1].dest, "/dest/y.png");
}

#[test]
fn copy_plan_to_root_destination() {
    let entries = vec![entry("/src/x.txt", false)];
    let mut s = initial_state(String::from("/src"), &entries);
    s.toggle_mark(0);
    let jobs = s.copy_marked(&String::from("/"));
    assert_eq!(jobs.len(), 1);
    assert_eq!(jobs[0].dest, "/x.txt");
}

#[test]
fn copy_plan_of_nothing_is_empty() {
    let entries = vec![entry("/src/x.txt", false)];
    let s = initial_state(String::from("/src"), &entries);
    assert_eq!(s.copy_marked(&String::from("/dest")).len(), 0);
}

#[test]
fn copy_plan_follows_marks_across_directories() {
    let first = vec![entry("/a/one.txt", false)];
    let mut s = initial_state(String::from("/a"), &first);
    s.toggle_mark(0);
    s.navigate_to(String::from("/b"));
    let second = vec![entry("/b/two.txt", false)];
    s.refresh_listing(&second);
    s.toggle_mark(0);
    let jobs = s.copy_marked(&String::from("/dest"));
    assert_eq!(jobs.len(), 2);
    assert_eq!(jobs[0].source, "/a/one.txt");
    assert_eq!(jobs[0].dest, "/dest/one.txt");
    assert_eq!(jobs[1].source, "/b/two.txt");
    assert_eq!(jobs[1].dest, "/dest/two.txt");
}
