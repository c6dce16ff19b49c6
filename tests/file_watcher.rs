use little_shader_display::file_watcher::{get_file_metadata, is_watched_file_name, FileWatcher, ListedFile};

fn file(name: &str, modified: i128) -> ListedFile {
    ListedFile { path: format!("/shaders/{}", name), name: name.to_string(), modified }
}

fn sorted(mut v: Vec<String>) -> Vec<String> {
    v.sort();
    v
}

#[test]
fn poll_of_unchanged_directory_is_none() {
    let d1 = vec![file("a.frag", 10), file("b.vert", 20)];
    let mut w = FileWatcher::new("/shaders".to_string(), &d1);
    assert_eq!(w.get_changes(&d1), None);
    assert_eq!(w.get_changes(&d1), None);
}

#[test]
fn poll_reports_added_modified_and_removed() {
    let d1 = vec![file("a.frag", 10), file("b.vert", 20), file("c.frag", 30)];
    let d2 = vec![file("a.frag", 11), file("b.vert", 20), file("d.frag", 40)];
    let mut w = FileWatcher::new("/shaders".to_string(), &d1);
    let changes = w.get_changes(&d2).expect("changes");
    assert_eq!(
        sorted(changes),
        vec!["/shaders/a.frag".to_string(), "/shaders/c.frag".to_string(), "/shaders/d.frag".to_string()]
    );
    assert_eq!(w.get_changes(&d2), None);
}

#[test]
fn second_poll_without_change_is_none() {
    let mut w = FileWatcher::new("/shaders".to_string(), &vec![]);
    let d = vec![file("a.frag", 1)];
    assert_eq!(w.get_changes(&d), Some(vec!["/shaders/a.frag".to_string()]));
    assert_eq!(w.get_changes(&d), None);
}

#[test]
fn unreadable_directory_makes_everything_look_added() {
    let mut w = FileWatcher::new("/missing".to_string(), &vec![]);
    let d = vec![file("a.frag", 1), file("b.frag", 2)];
    let changes = w.get_changes(&d).expect("changes");
    assert_eq!(sorted(changes), vec!["/shaders/a.frag".to_string(), "/shaders/b.frag".to_string()]);
}

#[test]
fn emptied_directory_reports_removals() {
    let d = vec![file("a.frag", 1)];
    let mut w = FileWatcher::new("/shaders".to_string(), &d);
    assert_eq!(w.get_changes(&vec![]), Some(vec!["/shaders/a.frag".to_string()]));
    assert_eq!(w.get_changes(&vec![]), None);
}

#[test]
fn hidden_and_temporary_files_are_ignored() {
    let d1 = vec![file("a.frag", 1)];
    let d2 = vec![file("a.frag", 1), file(".a.frag.un~", 2), file("a.frag~", 3), file(".a.frag.swp", 4), file("x.swp", 5)];
    let mut w = FileWatcher::new("/shaders".to_string(), &d1);
    assert_eq!(w.get_changes(&d2), None);
}

#[test]
fn watched_names() {
    assert!(is_watched_file_name("waves.frag"));
    assert!(is_watched_file_name("master.vert"));
    assert!(is_watched_file_name("swp"));
    assert!(is_watched_file_name("a.swpx"));
    assert!(is_watched_file_name(""));
    assert!(!is_watched_file_name(".hidden"));
    assert!(!is_watched_file_name("backup~"));
    assert!(!is_watched_file_name("file.swp"));
    assert!(!is_watched_file_name(".swp"));
}

#[test]
fn repeated_path_in_a_listing_keeps_the_later_time() {
    let listing = vec![file("a.frag", 1), file("a.frag", 2)];
    let snapshot = get_file_metadata(&listing);
    assert_eq!(snapshot.len(), 1);
    assert_eq!(snapshot[0].modified, 2);
}

#[test]
fn watcher_keeps_its_directory() {
    let w = FileWatcher::new("/shaders".to_string(), &vec![]);
    assert_eq!(w.path(), "/shaders");
}

#[test]
fn timestamp_going_backwards_is_a_change() {
    let mut w = FileWatcher::new("/shaders".to_string(), &vec![file("a.frag", 5)]);
    assert_eq!(w.get_changes(&vec![file("a.frag", -5)]), Some(vec!["/shaders/a.frag".to_string()]));
}
