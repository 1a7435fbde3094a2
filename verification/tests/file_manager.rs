use adb_manager::adb::AdbManager;
use adb_manager::listing::FileEntry;
use adb_manager::tabs::file_manager_tab::StorageLocation;
use adb_manager::tabs::FileManagerTab;
use std::sync::Arc;

const LISTING: &str = "total 12\ndrwxr-xr-x 2 root root 4096 Jan 1 00:00 .\ndrwxr-xr-x 2 root root 4096 Jan 1 00:00 ..\n-rw-r--r-- 1 root root 0 Jan 1 00:00 note.txt\ndrwxr-xr-x 2 root root 4096 Jan 1 00:00 Download\ndrwxr-xr-x 2 root root 4096 Jan 1 00:00 DCIM\n";

fn panel_args(args: &[&str]) -> Vec<String> {
    args.iter().map(|a| a.to_string()).collect()
}

fn panel_entries(entries: &[FileEntry]) -> Vec<(String, bool)> {
    entries.iter().map(|e| (e.name.clone(), e.is_dir)).collect()
}

fn listed() -> FileManagerTab {
    let mut tab = FileManagerTab::new(Arc::new(AdbManager::new()));
    assert!(tab.select_device("emulator-5554".to_string()));
    tab.update_file_list(&Ok(LISTING.to_string()));
    tab
}

#[test]
fn file_manager_starts_at_internal_storage() {
    let tab = FileManagerTab::new(Arc::new(AdbManager::new()));
    assert_eq!(tab.current_device(), "");
    assert_eq!(tab.current_path(), "/storage/emulated/0");
    assert!(tab.device_files().is_empty());
    assert_eq!(*tab.selected_file(), None);
    assert_eq!(tab.storage_location(), StorageLocation::Internal);
    let tab = FileManagerTab::default();
    assert_eq!(tab.current_path(), "/storage/emulated/0");
    assert_eq!(tab.storage_location(), StorageLocation::Internal);
}

#[test]
fn storage_roots() {
    assert_eq!(StorageLocation::Internal.get_path(), "/storage/emulated/0");
    assert_eq!(StorageLocation::SDCard.get_path(), "/storage/self/primary");
    assert_eq!(StorageLocation::Custom.get_path(), "");
}

#[test]
fn no_listing_without_a_device() {
    let mut tab = FileManagerTab::default();
    assert_eq!(tab.list_command(), None);
    tab.update_file_list(&Ok(LISTING.to_string()));
    assert!(tab.device_files().is_empty());
    tab.select_device("abc".to_string());
    assert_eq!(
        tab.list_command(),
        Some(panel_args(&["-s", "abc", "shell", "ls", "-la", "/storage/emulated/0"]))
    );
}

#[test]
fn listing_replaces_the_entries_in_order() {
    let mut tab = listed();
    assert_eq!(
        panel_entries(tab.device_files()),
        vec![
            ("DCIM".to_string(), true),
            ("Download".to_string(), true),
            ("note.txt".to_string(), false)
        ]
    );
    tab.update_file_list(&Ok("-rw- 1 only\n".to_string()));
    assert_eq!(panel_entries(tab.device_files()), vec![("only".to_string(), false)]);
}

#[test]
fn failed_listing_keeps_the_old_entries() {
    let mut tab = listed();
    tab.update_file_list(&Err("ls: /nowhere: No such file or directory".to_string()));
    assert_eq!(tab.device_files().len(), 3);
    assert_eq!(tab.current_path(), "/storage/emulated/0");
}

#[test]
fn up_at_the_root_is_a_no_op() {
    for location in [StorageLocation::Internal, StorageLocation::SDCard] {
        let mut tab = listed();
        assert!(tab.select_storage(location));
        let root = location.get_path();
        assert_eq!(tab.current_path(), root);
        assert!(!tab.go_up());
        assert_eq!(tab.current_path(), root);
        assert_eq!(tab.device_files().len(), 3);
        assert_eq!(tab.storage_location(), location);
    }
}

#[test]
fn up_with_custom_storage_goes_to_the_top() {
    let mut tab = listed();
    assert!(!tab.select_storage(StorageLocation::Custom));
    assert_eq!(tab.current_path(), "/storage/emulated/0");
    assert!(tab.go_up());
    assert_eq!(tab.current_path(), "/storage/emulated");
    assert!(tab.go_up());
    assert_eq!(tab.current_path(), "/storage");
    assert!(tab.go_up());
    assert_eq!(tab.current_path(), "/");
    assert!(!tab.go_up());
    assert_eq!(tab.current_path(), "/");
}

#[test]
fn up_stays_within_the_root() {
    let mut tab = listed();
    assert!(tab.set_path("/storage/emulated/0/a/b".to_string()));
    assert!(tab.go_up());
    assert_eq!(tab.current_path(), "/storage/emulated/0/a");
    assert!(tab.go_up());
    assert_eq!(tab.current_path(), "/storage/emulated/0");
    assert!(!tab.go_up());
    tab.set_path("/data/local/tmp".to_string());
    assert!(!tab.go_up());
    assert_eq!(tab.current_path(), "/data/local/tmp");
    tab.set_path("/storage/emulated/01/x".to_string());
    assert!(!tab.go_up());
    assert_eq!(tab.current_path(), "/storage/emulated/01/x");
    tab.set_path("/storage/emulated/0x".to_string());
    assert!(!tab.go_up());
    assert_eq!(tab.current_path(), "/storage/emulated/0x");
}

#[test]
fn entering_a_directory_and_up_leads_back() {
    let mut tab = listed();
    tab.set_path("/storage/emulated/0/Pictures".to_string());
    tab.select_entry(2);
    assert_eq!(*tab.selected_file(), Some("note.txt".to_string()));
    assert!(tab.select_entry(1));
    assert_eq!(tab.current_path(), "/storage/emulated/0/Pictures/Download");
    assert_eq!(*tab.selected_file(), None);
    assert!(tab.go_up());
    assert_eq!(tab.current_path(), "/storage/emulated/0/Pictures");
    let mut tab = listed();
    assert!(tab.select_entry(0));
    assert_eq!(tab.current_path(), "/storage/emulated/0/DCIM");
    assert!(tab.go_up());
    assert_eq!(tab.current_path(), "/storage/emulated/0");
}

#[test]
fn entering_from_a_path_with_a_slash_at_its_end_does_not_lead_back() {
    let mut tab = listed();
    tab.set_path("/storage/emulated/0/".to_string());
    assert!(tab.select_entry(0));
    assert_eq!(tab.current_path(), "/storage/emulated/0//DCIM");
    assert!(tab.go_up());
    assert_eq!(tab.current_path(), "/storage/emulated/0");
}

#[test]
fn selecting_a_file_does_not_move() {
    let mut tab = listed();
    assert!(!tab.select_entry(2));
    assert_eq!(*tab.selected_file(), Some("note.txt".to_string()));
    assert_eq!(tab.current_path(), "/storage/emulated/0");
    assert!(!tab.select_entry(3));
    assert!(!tab.select_entry(usize::MAX));
    assert_eq!(*tab.selected_file(), Some("note.txt".to_string()));
}

#[test]
fn storage_presets_move_and_custom_does_not() {
    let mut tab = listed();
    assert!(tab.select_storage(StorageLocation::SDCard));
    assert_eq!(tab.current_path(), "/storage/self/primary");
    assert_eq!(tab.storage_location(), StorageLocation::SDCard);
    assert!(!tab.select_storage(StorageLocation::Custom));
    assert_eq!(tab.current_path(), "/storage/self/primary");
    assert_eq!(tab.storage_location(), StorageLocation::Custom);
    assert!(tab.select_storage(StorageLocation::Internal));
    assert_eq!(tab.current_path(), "/storage/emulated/0");
}

#[test]
fn copy_to_pc_needs_a_selection() {
    let mut tab = listed();
    assert!(tab.copy_to_pc(Some("/home/me/note.txt")).is_none());
    tab.select_entry(2);
    assert!(tab.copy_to_pc(None).is_none());
    let task = tab.copy_to_pc(Some("/home/me/note.txt")).unwrap();
    assert_eq!(
        task.args,
        panel_args(&["-s", "emulator-5554", "pull", "/storage/emulated/0/note.txt", "/home/me/note.txt"])
    );
    assert!(!task.refresh);
    let task = tab.copy_to_pc(Some("")).unwrap();
    assert_eq!(
        task.args,
        panel_args(&["-s", "emulator-5554", "pull", "/storage/emulated/0/note.txt", ""])
    );
    assert_eq!(*tab.selected_file(), Some("note.txt".to_string()));
}

#[test]
fn copy_to_device_pushes_into_the_shown_directory() {
    let tab = listed();
    let (command, refresh) = tab.copy_to_device(Some("/home/me/a.bin"));
    assert_eq!(
        command,
        Some(panel_args(&["-s", "emulator-5554", "push", "/home/me/a.bin", "/storage/emulated/0/"]))
    );
    assert!(refresh);
}

#[test]
fn copy_to_device_without_a_file_still_asks_for_the_listing() {
    let tab = listed();
    let (command, refresh) = tab.copy_to_device(None);
    assert_eq!(command, None);
    assert!(refresh);
    assert_eq!(
        tab.list_command(),
        Some(panel_args(&["-s", "emulator-5554", "shell", "ls", "-la", "/storage/emulated/0"]))
    );
}

#[test]
fn delete_gives_up_the_selection() {
    let mut tab = listed();
    assert!(tab.delete_file().is_none());
    tab.select_entry(2);
    let task = tab.delete_file().unwrap();
    assert_eq!(
        task.args,
        panel_args(&["-s", "emulator-5554", "shell", "rm", "-rf", "/storage/emulated/0/note.txt"])
    );
    assert!(task.refresh);
    assert_eq!(*tab.selected_file(), None);
    assert!(tab.delete_file().is_none());
    assert_eq!(tab.device_files().len(), 3);
}

#[test]
fn selection_outlives_a_new_listing() {
    let mut tab = listed();
    tab.select_entry(2);
    tab.update_file_list(&Ok("total 0\n".to_string()));
    assert!(tab.device_files().is_empty());
    assert_eq!(*tab.selected_file(), Some("note.txt".to_string()));
}

#[test]
fn selecting_a_device_moves_to_the_root() {
    let mut tab = listed();
    tab.set_path("/storage/emulated/0/Download".to_string());
    assert!(tab.select_device("d".to_string()));
    assert_eq!(tab.current_device(), "d");
    assert_eq!(tab.current_path(), "/storage/emulated/0");
    assert_eq!(tab.storage_location(), StorageLocation::Internal);
    assert_eq!(
        tab.list_command(),
        Some(panel_args(&["-s", "d", "shell", "ls", "-la", "/storage/emulated/0"]))
    );
    tab.select_storage(StorageLocation::SDCard);
    tab.set_path("/storage/self/primary/Music".to_string());
    assert!(tab.select_device("e".to_string()));
    assert_eq!(tab.current_path(), "/storage/self/primary");
}

#[test]
fn selecting_a_device_with_custom_storage_keeps_the_path() {
    let mut tab = listed();
    tab.select_storage(StorageLocation::Custom);
    tab.set_path("/data/local/tmp".to_string());
    assert!(tab.select_device("d".to_string()));
    assert_eq!(tab.current_device(), "d");
    assert_eq!(tab.current_path(), "/data/local/tmp");
}

#[test]
fn selection_is_given_up_where_the_path_changes() {
    let mut tab = listed();
    tab.set_path("/storage/emulated/0/a".to_string());
    tab.select_entry(2);
    assert_eq!(*tab.selected_file(), Some("note.txt".to_string()));
    assert!(tab.go_up());
    assert_eq!(*tab.selected_file(), None);
    assert!(tab.delete_file().is_none());

    tab.select_entry(2);
    assert!(!tab.go_up());
    assert_eq!(*tab.selected_file(), Some("note.txt".to_string()));

    assert!(tab.select_storage(StorageLocation::SDCard));
    assert_eq!(*tab.selected_file(), None);

    tab.select_entry(2);
    assert!(!tab.select_storage(StorageLocation::Custom));
    assert_eq!(*tab.selected_file(), Some("note.txt".to_string()));

    assert!(tab.set_path("/sdcard".to_string()));
    assert_eq!(*tab.selected_file(), None);

    tab.select_entry(2);
    assert!(tab.set_path("/sdcard".to_string()));
    assert_eq!(*tab.selected_file(), Some("note.txt".to_string()));

    tab.select_storage(StorageLocation::Internal);
    tab.set_path("/storage/emulated/0/b".to_string());
    tab.select_entry(2);
    assert!(tab.select_device("other".to_string()));
    assert_eq!(*tab.selected_file(), None);
}
