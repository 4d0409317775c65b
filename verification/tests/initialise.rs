use std::path::{Path, PathBuf};

use tack_it_on::tack_store::{contains_notes, find_tack_store, tacked_path, DirEntry, Search};

fn components_of(path: &Path) -> Vec<String> {
    path.components().map(|c| c.as_os_str().to_str().unwrap().to_string()).collect()
}

fn path_of(components: &[String]) -> PathBuf {
    components.iter().collect()
}

fn make_dir(path: &Path) -> tempfile::TempDir {
    tempfile::Builder::new()
        .prefix(path.file_name().unwrap())
        .rand_bytes(0)
        .tempdir_in(path.parent().unwrap())
        .expect("Could not create directory.")
}

fn list_dir(dir: &Path) -> Vec<DirEntry> {
    let pattern = format!("{}/*", glob::Pattern::escape(dir.to_str().unwrap()));
    glob::glob(&pattern)
        .unwrap()
        .map(|entry| {
            let path = entry.unwrap();
            DirEntry {
                name: path.file_name().unwrap().to_str().unwrap().to_string(),
                is_dir: path.is_dir(),
            }
        })
        .collect()
}

#[test]
fn initialize_tackiton() {
    let temp_dir = tempfile::Builder::new()
        .prefix("init_test")
        .tempdir()
        .expect("Could not create temp directory.");
    let root = temp_dir.path().canonicalize().unwrap();
    let marker = path_of(&tacked_path(&components_of(&root)));
    let _made = make_dir(&marker);
    let tacked_path = root.join(".tacked");
    assert!(tacked_path.exists());
    assert_eq!(marker, tacked_path);
    assert_eq!(
        contains_notes(&components_of(&root), &list_dir(&root)),
        Some(components_of(&tacked_path))
    );
}

#[test]
fn a_marker_on_disk_is_found_from_below() {
    let temp_dir = tempfile::Builder::new()
        .prefix("find_tacked_test")
        .tempdir()
        .expect("Could not create temp directory.");
    let root = temp_dir.path().canonicalize().unwrap();
    let _project = make_dir(&root.join("project"));
    let _marker = make_dir(&root.join("project").join(".tacked"));
    let _level1 = make_dir(&root.join("project").join("level1"));
    let _level2 = make_dir(&root.join("project").join("level1").join("level2"));
    let start = components_of(&root.join("project").join("level1").join("level2"));
    let mut listings: Vec<Vec<DirEntry>> = Vec::new();
    let found = loop {
        match find_tack_store(&start, &listings) {
            Search::Found(marker) => break Some(marker),
            Search::NotFound => break None,
            Search::List(wanted) => listings.push(list_dir(&path_of(&wanted))),
        }
    };
    assert_eq!(found, Some(components_of(&root.join("project").join(".tacked"))));
    assert_eq!(listings.len(), 3);
}
