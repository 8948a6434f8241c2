use std::cell::RefCell;

use just_convert::application::file_manager::{
    canonical_existing, check_copy_into_itself, check_move_into_itself, copy_entries, create_directory, creation_target,
    delete_entries_permanently, entry_from_metadata, existing_directory, list_directory, move_entries, order_entries,
    reject_protected_root, rename_entry, rename_target, require_confirmation, trash_entries, unique_destination,
    validate_leaf_name,
};
use just_convert::domain::file_entry::{EntryKind, FileEntry};
use just_convert::platform::TargetOs;

fn same_path(path: &str) -> Result<String, String> {
    Ok(path.to_string())
}

#[test]
fn lists_directories_before_files() {
    let read = |directory: &str| -> Result<Vec<FileEntry>, String> {
        Ok(vec![
            entry_from_metadata(&format!("{directory}/a.txt"), EntryKind::File, 4, Some(1), false),
            entry_from_metadata(&format!("{directory}/z-folder"), EntryKind::Directory, 0, Some(1), false),
        ])
    };

    let listing = list_directory("/tmp/t", same_path("/tmp/t"), true, &read).expect("listing");

    assert_eq!(listing.entries[0].name, "z-folder");
    assert_eq!(listing.entries[1].name, "a.txt");
    assert_eq!(listing.path, "/tmp/t");
    assert_eq!(listing.parent.as_deref(), Some("/tmp"));
}

#[test]
fn listing_orders_each_group_by_lower_case_name() {
    let entries = vec![
        entry_from_metadata("/d/beta.txt", EntryKind::File, 1, None, false),
        entry_from_metadata("/d/Alpha.txt", EntryKind::File, 1, None, false),
        entry_from_metadata("/d/link", EntryKind::Symlink, 0, None, false),
        entry_from_metadata("/d/Zeta", EntryKind::Directory, 0, None, false),
        entry_from_metadata("/d/Éclair", EntryKind::Directory, 0, None, false),
    ];
    let names: Vec<String> = order_entries(entries).into_iter().map(|e| e.name).collect();
    assert_eq!(names, ["Zeta", "Éclair", "Alpha.txt", "beta.txt", "link"]);
}

#[test]
fn entries_are_described_from_their_metadata() {
    let file = entry_from_metadata("/d/.Hidden.TXT", EntryKind::File, 42, Some(7), false);
    assert_eq!(file.name, ".Hidden.TXT");
    assert_eq!(file.extension.as_deref(), Some("txt"));
    assert_eq!(file.size_bytes, Some(42));
    assert!(file.hidden);
    let folder = entry_from_metadata("/d/Music", EntryKind::Directory, 4096, None, true);
    assert_eq!(folder.size_bytes, None);
    assert!(folder.hidden);
    let root = entry_from_metadata("/", EntryKind::Directory, 0, None, false);
    assert_eq!(root.name, "/");
}

#[test]
fn refuses_to_overwrite_existing_items() {
    let existing = |p: &str| p == "/tmp/t/destination/note.txt";
    let written: RefCell<Vec<String>> = RefCell::new(Vec::new());
    let copy = |_: &str, target: &str| -> Result<(), String> {
        written.borrow_mut().push(target.to_string());
        Ok(())
    };

    let result = copy_entries(
        &vec!["/tmp/t/source/note.txt".to_string()],
        "/tmp/t/destination",
        same_path("/tmp/t/destination"),
        true,
        &same_path,
        &existing,
        &copy,
    );

    assert!(result.is_err());
    assert_eq!(result.unwrap_err(), "/tmp/t/destination/note.txt already exists.");
    assert!(written.into_inner().is_empty());
    assert_eq!(
        unique_destination("/tmp/t/destination", "/tmp/t/source/other.txt", &existing),
        Ok("/tmp/t/destination/other.txt".to_string())
    );
    assert_eq!(unique_destination("/d", "/", &existing).unwrap_err(), "Filesystem roots cannot be copied or moved.");
}

#[test]
fn permanent_deletion_requires_confirmation() {
    let deleted: RefCell<Vec<String>> = RefCell::new(Vec::new());
    let delete = |path: &str| -> Result<(), String> {
        deleted.borrow_mut().push(path.to_string());
        Ok(())
    };

    let result = delete_entries_permanently(&vec!["/tmp/t/keep.txt".to_string()], false, &Vec::new(), &same_path, &delete);

    assert!(result.is_err());
    assert_eq!(result.unwrap_err(), "Permanent deletion requires explicit confirmation.");
    assert!(deleted.borrow().is_empty());
    assert!(require_confirmation(true).is_ok());
    let confirmed = delete_entries_permanently(&vec!["/tmp/t/keep.txt".to_string()], true, &Vec::new(), &same_path, &delete);
    assert_eq!(confirmed.unwrap().affected_paths, vec!["/tmp/t/keep.txt".to_string()]);
    assert_eq!(deleted.into_inner(), vec!["/tmp/t/keep.txt".to_string()]);
}

#[test]
fn leaf_names_are_trimmed_single_components() {
    assert_eq!(validate_leaf_name("  notes  ", TargetOs::Linux), Ok("notes".to_string()));
    assert_eq!(validate_leaf_name("  ", TargetOs::Linux).unwrap_err(), "A non-empty file or folder name is required.");
    assert_eq!(validate_leaf_name("..", TargetOs::Linux).unwrap_err(), "A non-empty file or folder name is required.");
    assert_eq!(validate_leaf_name("a/b", TargetOs::Linux).unwrap_err(), "The name cannot contain path separators.");
    assert_eq!(validate_leaf_name("a\\b", TargetOs::Windows).unwrap_err(), "The name cannot contain path separators.");
    assert_eq!(validate_leaf_name("C:x", TargetOs::Windows).unwrap_err(), "The name cannot contain path separators.");
    assert_eq!(validate_leaf_name("C:x", TargetOs::Linux), Ok("C:x".to_string()));
}

#[test]
fn new_and_renamed_items_never_replace_existing_ones() {
    let existing = |p: &str| p == "/d/taken";
    assert_eq!(creation_target("/d", "taken", TargetOs::Linux, &existing).unwrap_err(), "An item with that name already exists.");
    assert_eq!(creation_target("/d", " fresh ", TargetOs::Linux, &existing), Ok("/d/fresh".to_string()));
    assert_eq!(rename_target("/d/old.txt", "taken", TargetOs::Linux, &existing).unwrap_err(), "An item with that name already exists.");
    assert_eq!(rename_target("/d/old.txt", "new.txt", TargetOs::Linux, &existing), Ok("/d/new.txt".to_string()));
    assert_eq!(rename_target("/", "x", TargetOs::Linux, &existing).unwrap_err(), "Filesystem roots cannot be renamed.");
}

#[test]
fn roots_and_home_directories_are_protected() {
    let homes = vec!["/home/me".to_string()];
    assert_eq!(reject_protected_root("/", &homes).unwrap_err(), "Filesystem roots are protected.");
    assert_eq!(reject_protected_root("/home/me", &homes).unwrap_err(), "The user home directory is protected.");
    assert!(reject_protected_root("/home/me/notes.txt", &homes).is_ok());
}

#[test]
fn a_directory_cannot_go_into_itself() {
    assert_eq!(
        check_copy_into_itself("/data/photos", "/data/photos/photos"),
        Err("A directory cannot be copied into itself.".to_string())
    );
    assert_eq!(check_copy_into_itself("/data/photos", "/data/photos-old/photos"), Ok(()));
    assert_eq!(
        check_move_into_itself("/data/photos", "/data/photos/photos", true),
        Err("A directory cannot be moved into itself.".to_string())
    );
    assert_eq!(check_move_into_itself("/data/a.txt", "/data/a.txt/a.txt", false), Ok(()));
}

#[test]
fn chosen_paths_must_be_absolute_and_resolve() {
    assert_eq!(
        canonical_existing("relative/dir", Ok("/abs/relative/dir".to_string())),
        Err("Only absolute filesystem paths are accepted.".to_string())
    );
    assert_eq!(canonical_existing("/data/./x", Ok("/data/x".to_string())), Ok("/data/x".to_string()));
    assert_eq!(
        canonical_existing("/missing", Err("No such file or directory (os error 2)".to_string())),
        Err("The selected path is unavailable: No such file or directory (os error 2)".to_string())
    );
    assert_eq!(
        existing_directory("/data/a.txt", Ok("/data/a.txt".to_string()), false),
        Err("The selected path is not a directory.".to_string())
    );
    assert_eq!(existing_directory("/data", Ok("/data".to_string()), true), Ok("/data".to_string()));
}

#[test]
fn copies_go_under_their_own_names_and_stop_at_the_first_failure() {
    let written: RefCell<Vec<(String, String)>> = RefCell::new(Vec::new());
    let copy = |source: &str, target: &str| -> Result<(), String> {
        if source.ends_with("broken") {
            return Err(format!("Could not copy {source}: denied"));
        }
        written.borrow_mut().push((source.to_string(), target.to_string()));
        Ok(())
    };
    let free = |_: &str| false;
    let sources = vec!["/a/x.txt".to_string(), "/a/pics".to_string(), "/a/broken".to_string(), "/a/y.txt".to_string()];
    let result = copy_entries(&sources, "/b", same_path("/b"), true, &same_path, &free, &copy);
    assert_eq!(result.unwrap_err(), "Could not copy /a/broken: denied");
    assert_eq!(written.borrow().len(), 2);
    assert_eq!(written.borrow()[1], ("/a/pics".to_string(), "/b/pics".to_string()));

    let ok = copy_entries(&sources[..2].to_vec(), "/b", same_path("/b"), true, &same_path, &free, &copy).unwrap();
    assert_eq!(ok.affected_paths, vec!["/b/x.txt".to_string(), "/b/pics".to_string()]);
    assert_eq!(
        copy_entries(&vec!["a/x.txt".to_string()], "/b", same_path("/b"), true, &same_path, &free, &copy).unwrap_err(),
        "Only absolute filesystem paths are accepted."
    );
    assert_eq!(
        copy_entries(&sources, "/b/file.txt", same_path("/b/file.txt"), false, &same_path, &free, &copy).unwrap_err(),
        "The selected path is not a directory."
    );
}

#[test]
fn a_directory_is_never_moved_below_itself() {
    let moved: RefCell<Vec<String>> = RefCell::new(Vec::new());
    let rename = |source: &str, _: &str| -> Result<(), String> {
        moved.borrow_mut().push(source.to_string());
        Ok(())
    };
    let free = |_: &str| false;
    let is_dir = |path: &str| path == "/a/d";
    let result = move_entries(&vec!["/a/d".to_string()], "/a/d/sub", same_path("/a/d/sub"), true, &same_path, &free,
        &is_dir, &rename);
    assert_eq!(result.unwrap_err(), "A directory cannot be moved into itself.");
    assert!(moved.borrow().is_empty());
    let ok = move_entries(&vec!["/a/d".to_string()], "/b", same_path("/b"), true, &same_path, &free, &is_dir, &rename);
    assert_eq!(ok.unwrap().affected_paths, vec!["/b/d".to_string()]);
}

#[test]
fn roots_and_home_directories_are_never_trashed() {
    let trashed: RefCell<Vec<String>> = RefCell::new(Vec::new());
    let trash = |path: &str| -> Result<(), String> {
        trashed.borrow_mut().push(path.to_string());
        Ok(())
    };
    let homes = vec!["/home/me".to_string()];
    assert_eq!(
        trash_entries(&vec!["/".to_string()], &homes, &same_path, &trash).unwrap_err(),
        "Filesystem roots are protected."
    );
    assert_eq!(
        trash_entries(&vec!["/home/me/old.txt".to_string(), "/home/me".to_string()], &homes, &same_path, &trash).unwrap_err(),
        "The user home directory is protected."
    );
    assert_eq!(trashed.borrow().clone(), vec!["/home/me/old.txt".to_string()]);
}

#[test]
fn folders_are_created_and_items_renamed_beside_themselves() {
    let made: RefCell<Vec<String>> = RefCell::new(Vec::new());
    let make = |path: &str| -> Result<(), String> {
        made.borrow_mut().push(path.to_string());
        Ok(())
    };
    let taken = |path: &str| path == "/a/old";
    assert_eq!(
        create_directory("/a", " new ", same_path("/a"), true, TargetOs::Linux, &taken, &make).unwrap().affected_paths,
        vec!["/a/new".to_string()]
    );
    assert_eq!(
        create_directory("/a", "old", same_path("/a"), true, TargetOs::Linux, &taken, &make).unwrap_err(),
        "An item with that name already exists."
    );
    assert_eq!(made.into_inner(), vec!["/a/new".to_string()]);

    let rename = |_: &str, _: &str| -> Result<(), String> { Ok(()) };
    assert_eq!(
        rename_entry("/a/x.txt", "y.txt", same_path("/a/x.txt"), TargetOs::Linux, &taken, &rename).unwrap().affected_paths,
        vec!["/a/y.txt".to_string()]
    );
    assert_eq!(
        rename_entry("/", "y", same_path("/"), TargetOs::Linux, &taken, &rename).unwrap_err(),
        "Filesystem roots cannot be renamed."
    );
}
