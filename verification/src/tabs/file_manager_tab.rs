//! The file manager panel: which directory of which device is shown, what it
//! holds, and what is selected. Every method takes the panel from one state
//! to the next and says which command, if any, the caller is to run.

use crate::adb::AdbManager;
use crate::listing::{
    listing_of, no_dot_entries, ordered, parse_listing, FileEntry, FileEntryView,
};
use crate::path::{
    child_of, is_settled, is_within, join, lemma_parent_is_shorter, lemma_parent_of_child,
    names_one_entry, parent, parent_of, within,
};
use std::sync::Arc;
use vstd::prelude::*;
use vstd::string::StringExecFns;

verus! {

/// Where on the device the panel browses.
#[derive(Clone, Copy, Debug, PartialEq, Eq, Structural)]
pub enum StorageLocation {
    /// The internal storage.
    Internal,
    /// The SD card.
    SDCard,
    /// Any path that the user enters; no root bounds the way up.
    Custom,
}

impl StorageLocation {
    /// The root of the location. `Custom` has none: its root is empty.
    pub open spec fn root(self) -> Seq<char> {
        match self {
            StorageLocation::Internal => "/storage/emulated/0"@,
            StorageLocation::SDCard => "/storage/self/primary"@,
            StorageLocation::Custom => ""@,
        }
    }

    /// The root of the location as a path on the device.
    pub fn get_path(&self) -> (r: &'static str)
        ensures
            r@ == self.root(),
    {
        match self {
            StorageLocation::Internal => "/storage/emulated/0",
            StorageLocation::SDCard => "/storage/self/primary",
            StorageLocation::Custom => "",
        }
    }
}

/// A command for the caller to run, and what is due once it has run. The
/// outcome of the command is not looked at.
pub struct Task {
    /// The arguments for the tool.
    pub args: Vec<String>,
    /// Whether the shown directory is to be listed anew afterwards.
    pub refresh: bool,
}

/// A task as plain values.
pub struct TaskView {
    pub args: Seq<Seq<char>>,
    pub refresh: bool,
}

impl View for Task {
    type V = TaskView;

    open spec fn view(&self) -> TaskView {
        TaskView { args: self.args.deep_view(), refresh: self.refresh }
    }
}

/// The state of the panel as plain values.
pub struct FileManagerView {
    /// The selected device; empty where none is selected.
    pub current_device: Seq<char>,
    /// The directory that is shown.
    pub current_path: Seq<char>,
    /// What the directory held when it was last listed.
    pub device_files: Seq<FileEntryView>,
    /// The name of the selected file, if one is selected.
    pub selected_file: Option<Seq<char>>,
    /// The storage location that is browsed.
    pub storage_location: StorageLocation,
}

/// The state before anything was selected: no device, the root of the
/// internal storage, nothing listed, nothing selected.
pub open spec fn initial_view() -> FileManagerView {
    FileManagerView {
        current_device: Seq::empty(),
        current_path: StorageLocation::Internal.root(),
        device_files: Seq::empty(),
        selected_file: None,
        storage_location: StorageLocation::Internal,
    }
}

/// Where "Up" leads from `path`: to the path above it, if there is one and
/// it lies within the root of `location`; with `Custom` no root bounds it.
pub open spec fn up_target(path: Seq<char>, location: StorageLocation) -> Option<Seq<char>> {
    match parent_of(path) {
        Some(above) => if location == StorageLocation::Custom || is_within(
            above,
            location.root(),
        ) {
            Some(above)
        } else {
            None
        },
        None => None,
    }
}

impl FileManagerView {
    /// The state at `path`. Where that is another path than before, the
    /// selection is given up: it named an entry of the directory that was
    /// shown.
    pub open spec fn moved_to(self, path: Seq<char>) -> FileManagerView {
        if path == self.current_path {
            self
        } else {
            FileManagerView { current_path: path, selected_file: None, ..self }
        }
    }

    /// The state at the root of the storage location; with `Custom`, which
    /// has no root, the state as it is.
    pub open spec fn at_root(self) -> FileManagerView {
        if self.storage_location == StorageLocation::Custom {
            self
        } else {
            self.moved_to(self.storage_location.root())
        }
    }

    /// The state after `device` was selected: with that device, at the root
    /// of the storage location.
    pub open spec fn with_device(self, device: Seq<char>) -> FileManagerView {
        (FileManagerView { current_device: device, ..self }).at_root()
    }

    /// The state after `location` was selected: with that location, at its
    /// root.
    pub open spec fn with_storage(self, location: StorageLocation) -> FileManagerView {
        (FileManagerView { storage_location: location, ..self }).at_root()
    }

    /// The state after "Up": at the path that `up_target` gives, or as
    /// before where it gives none.
    pub open spec fn gone_up(self) -> FileManagerView {
        match up_target(self.current_path, self.storage_location) {
            Some(above) => self.moved_to(above),
            None => self,
        }
    }

    /// The state after the entry at `index` was selected: inside it if it is
    /// a directory, with it as the selection if it is a file, and as before
    /// if there is no such entry.
    pub open spec fn with_entry_selected(self, index: int) -> FileManagerView {
        if index < 0 || index >= self.device_files.len() {
            self
        } else if self.device_files[index].is_dir {
            self.moved_to(child_of(self.current_path, self.device_files[index].name))
        } else {
            FileManagerView { selected_file: Some(self.device_files[index].name), ..self }
        }
    }
}

/// "Up" at the root of the internal storage or of the SD card leads nowhere:
/// the state stays as it is.
pub proof fn up_at_root_changes_nothing(v: FileManagerView)
    requires
        v.storage_location != StorageLocation::Custom,
        v.current_path == v.storage_location.root(),
    ensures
        up_target(v.current_path, v.storage_location) is None,
        v.gone_up() == v,
{
    lemma_parent_is_shorter(v.current_path);
}

/// "Up" never leaves the root of the storage location: from a path within
/// it, the path after "Up" lies within it too.
pub proof fn up_stays_within_root(v: FileManagerView)
    requires
        v.storage_location != StorageLocation::Custom,
        is_within(v.current_path, v.storage_location.root()),
    ensures
        is_within(v.gone_up().current_path, v.storage_location.root()),
{
}

/// Entering a directory and then going up leads back to the path from which
/// the directory was entered, with nothing selected. This holds exactly
/// where that path is settled, the directory's name holds one component that
/// names something, and the path lies within the root of the storage
/// location or the location is `Custom`.
pub proof fn enter_then_up_leads_back(v: FileManagerView, index: int)
    requires
        0 <= index < v.device_files.len(),
        v.device_files[index].is_dir,
    ensures
        v.with_entry_selected(index).gone_up().current_path == v.current_path <==> {
            &&& is_settled(v.current_path)
            &&& names_one_entry(v.device_files[index].name)
            &&& (v.storage_location == StorageLocation::Custom || is_within(
                v.current_path,
                v.storage_location.root(),
            ))
        },
        v.with_entry_selected(index).gone_up().current_path == v.current_path
            ==> v.with_entry_selected(index).gone_up() == (FileManagerView {
            selected_file: None,
            ..v
        }),
{
    let name = v.device_files[index].name;
    let inside = child_of(v.current_path, name);
    lemma_parent_of_child(v.current_path, name);
    assert(inside.len() > v.current_path.len());
    assert(inside != v.current_path);
}

/// The file manager panel. Its state is read through the methods below and
/// through its view.
pub struct FileManagerTab {
    adb_manager: Arc<AdbManager>,
    current_device: String,
    current_path: String,
    device_files: Vec<FileEntry>,
    selected_file: Option<String>,
    storage_location: StorageLocation,
}

impl View for FileManagerTab {
    type V = FileManagerView;

    closed spec fn view(&self) -> FileManagerView {
        FileManagerView {
            current_device: self.current_device@,
            current_path: self.current_path@,
            device_files: self.device_files.deep_view(),
            selected_file: self.selected_file.deep_view(),
            storage_location: self.storage_location,
        }
    }
}

impl FileManagerTab {
    /// What holds of the listed entries in every state: they are in order,
    /// and none is named `.` or `..`.
    #[verifier::type_invariant]
    spec fn listed_in_order(&self) -> bool {
        ordered(self.device_files.deep_view()) && no_dot_entries(self.device_files.deep_view())
    }

    /// A panel in its initial state.
    pub fn new(adb_manager: Arc<AdbManager>) -> (tab: Self)
        ensures
            tab@ == initial_view(),
    {
        let device_files: Vec<FileEntry> = Vec::new();
        assert(device_files.deep_view() =~= Seq::<FileEntryView>::empty());
        FileManagerTab {
            adb_manager,
            current_device: String::new(),
            current_path: String::from_str("/storage/emulated/0"),
            device_files,
            selected_file: None,
            storage_location: StorageLocation::Internal,
        }
    }

    /// The selected device; empty where none is selected.
    pub fn current_device(&self) -> (r: &str)
        ensures
            r@ == self@.current_device,
    {
        self.current_device.as_str()
    }

    /// The directory that is shown.
    pub fn current_path(&self) -> (r: &str)
        ensures
            r@ == self@.current_path,
    {
        self.current_path.as_str()
    }

    /// What the directory held when it was last listed: in order, and with
    /// no entry named `.` or `..`.
    pub fn device_files(&self) -> (r: &Vec<FileEntry>)
        ensures
            r.deep_view() == self@.device_files,
            ordered(r.deep_view()),
            no_dot_entries(r.deep_view()),
    {
        proof {
            use_type_invariant(self);
        }
        &self.device_files
    }

    /// The name of the selected file, if one is selected.
    pub fn selected_file(&self) -> (r: &Option<String>)
        ensures
            r.deep_view() == self@.selected_file,
    {
        &self.selected_file
    }

    /// The storage location that is browsed.
    pub fn storage_location(&self) -> (r: StorageLocation)
        ensures
            r == self@.storage_location,
    {
        self.storage_location
    }

    /// The command that lists the shown directory, if a device is selected.
    pub fn list_command(&self) -> (r: Option<Vec<String>>)
        ensures
            r is Some <==> self@.current_device.len() > 0,
            r matches Some(args) ==> args.deep_view() == seq![
                "-s"@,
                self@.current_device,
                "shell"@,
                "ls"@,
                "-la"@,
                self@.current_path,
            ],
    {
        if self.current_device.as_str().is_empty() {
            None
        } else {
            Some(
                self.adb_manager.list_args(
                    self.current_device.as_str(),
                    self.current_path.as_str(),
                ),
            )
        }
    }

    /// Takes in the outcome of listing the shown directory. With a device
    /// selected and a listing at hand, the entries are replaced by those of
    /// the listing, in order. Otherwise nothing changes: the old entries stay.
    pub fn update_file_list(&mut self, listing: &Result<String, String>)
        ensures
            final(self)@ == (FileManagerView {
                device_files: match listing {
                    Ok(text) if old(self)@.current_device.len() > 0 => listing_of(text@),
                    _ => old(self)@.device_files,
                },
                ..old(self)@
            }),
    {
        if !self.current_device.as_str().is_empty() {
            match listing {
                Ok(text) => {
                    self.device_files = parse_listing(text.as_str());
                },
                Err(_) => {},
            }
        }
    }

    /// Selects `device` and moves to the root of the storage location; with
    /// `Custom`, which has no root, the path stays. Returns whether the
    /// listing is due: it always is.
    pub fn select_device(&mut self, device: String) -> (refresh: bool)
        ensures
            refresh,
            final(self)@ == old(self)@.with_device(device@),
    {
        proof {
            use_type_invariant(&*self);
        }
        self.current_device = device;
        self.move_to_root();
        true
    }

    /// Moves to `path`, and gives up the selection where that is another
    /// path than before.
    fn move_to(&mut self, path: String)
        ensures
            final(self)@ == old(self)@.moved_to(path@),
    {
        proof {
            use_type_invariant(&*self);
        }
        if path != self.current_path {
            self.current_path = path;
            self.selected_file = None;
        }
    }

    /// Moves to the root of the storage location; with `Custom` nothing
    /// changes.
    fn move_to_root(&mut self)
        ensures
            final(self)@ == old(self)@.at_root(),
    {
        match self.storage_location {
            StorageLocation::Custom => {},
            _ => {
                let root = String::from_str(self.storage_location.get_path());
                self.move_to(root);
            },
        }
    }

    /// Selects a storage location. Any but `Custom` moves the panel to the
    /// root of the location and gives up the selection, and the listing is
    /// then due; `Custom` leaves path and selection as they are. Returns
    /// whether the listing is due.
    pub fn select_storage(&mut self, location: StorageLocation) -> (refresh: bool)
        ensures
            refresh == (location != StorageLocation::Custom),
            final(self)@ == old(self)@.with_storage(location),
    {
        proof {
            use_type_invariant(&*self);
        }
        self.storage_location = location;
        self.move_to_root();
        match location {
            StorageLocation::Custom => false,
            _ => true,
        }
    }

    /// Moves to the path above the shown directory, if there is one within
    /// the root of the storage location, and gives up the selection; with
    /// `Custom` no root bounds the way. Returns whether the panel moved: the
    /// listing is then due.
    pub fn go_up(&mut self) -> (moved: bool)
        ensures
            moved == up_target(old(self)@.current_path, old(self)@.storage_location) is Some,
            final(self)@ == old(self)@.gone_up(),
    {
        proof {
            use_type_invariant(&*self);
        }
        match parent(self.current_path.as_str()) {
            Some(above) => {
                let allowed = match self.storage_location {
                    StorageLocation::Custom => true,
                    _ => within(above.as_str(), self.storage_location.get_path()),
                };
                if allowed {
                    self.move_to(above);
                    true
                } else {
                    false
                }
            },
            None => false,
        }
    }

    /// Shows the directory `path`, as entered by hand. The path is taken as
    /// it is, whether or not such a directory exists; where it is another
    /// path than before, the selection is given up. Returns whether the
    /// listing is due: it always is.
    pub fn set_path(&mut self, path: String) -> (refresh: bool)
        ensures
            refresh,
            final(self)@ == old(self)@.moved_to(path@),
    {
        self.move_to(path);
        true
    }

    /// Selects the entry at `index` of the listed entries. A directory is
    /// entered: its name is added to the path and the selection is cleared;
    /// the listing is then due. A file becomes the selection. An index
    /// beyond the entries changes nothing. Returns whether the listing is
    /// due.
    pub fn select_entry(&mut self, index: usize) -> (refresh: bool)
        ensures
            refresh == (index < old(self)@.device_files.len() && old(
                self,
            )@.device_files[index as int].is_dir),
            final(self)@ == old(self)@.with_entry_selected(index as int),
    {
        proof {
            use_type_invariant(&*self);
        }
        assert(self.device_files.deep_view().len() == self.device_files.len());
        if index >= self.device_files.len() {
            return false;
        }
        assert(self.device_files.deep_view()[index as int] == self.device_files[index as int]@);
        if self.device_files[index].is_dir {
            self.current_path = join(
                self.current_path.as_str(),
                self.device_files[index].name.as_str(),
            );
            self.selected_file = None;
            true
        } else {
            self.selected_file = Some(self.device_files[index].name.clone());
            false
        }
    }

    /// The task that copies the selected file to `destination` on this
    /// machine, if a file is selected and a destination was chosen. Without
    /// either nothing is due. Nothing is listed anew afterwards.
    pub fn copy_to_pc(&self, destination: Option<&str>) -> (r: Option<Task>)
        ensures
            r is Some <==> self@.selected_file is Some && destination is Some,
            r matches Some(task) ==> task@ == (TaskView {
                args: seq![
                    "-s"@,
                    self@.current_device,
                    "pull"@,
                    child_of(self@.current_path, self@.selected_file->Some_0),
                    destination->Some_0@,
                ],
                refresh: false,
            }),
    {
        match (&self.selected_file, destination) {
            (Some(selected), Some(chosen)) => {
                let source = join(self.current_path.as_str(), selected.as_str());
                let args = self.adb_manager.pull_args(
                    self.current_device.as_str(),
                    source.as_str(),
                    chosen,
                );
                Some(Task { args, refresh: false })
            },
            _ => None,
        }
    }

    /// What a click on "Copy to Device" leads to, given the file that was
    /// chosen, if one was. First the command that copies `source` on this
    /// machine into the shown directory, where a file was chosen. Second
    /// whether the listing is due afterwards: it always is, whatever came of
    /// the command, and also where no file was chosen.
    pub fn copy_to_device(&self, source: Option<&str>) -> (r: (Option<Vec<String>>, bool))
        ensures
            r.1,
            r.0 is Some <==> source is Some,
            r.0 matches Some(args) ==> args.deep_view() == seq![
                "-s"@,
                self@.current_device,
                "push"@,
                source->Some_0@,
                self@.current_path + seq!['/'],
            ],
    {
        match source {
            Some(chosen) => {
                let destination = String::from_str(self.current_path.as_str()).concat("/");
                proof {
                    reveal_strlit("/");
                    assert("/"@ =~= seq!['/']);
                }
                let args = self.adb_manager.push_args(
                    self.current_device.as_str(),
                    chosen,
                    destination.as_str(),
                );
                (Some(args), true)
            },
            None => (None, true),
        }
    }

    /// Gives up the selection and returns the task that removes the selected
    /// file from the device, if a file was selected; the listing is due once
    /// the command has run. With nothing selected nothing changes.
    pub fn delete_file(&mut self) -> (r: Option<Task>)
        ensures
            final(self)@ == (FileManagerView { selected_file: None, ..old(self)@ }),
            r is Some <==> old(self)@.selected_file is Some,
            r matches Some(task) ==> task@ == (TaskView {
                args: seq![
                    "-s"@,
                    old(self)@.current_device,
                    "shell"@,
                    "rm"@,
                    "-rf"@,
                    child_of(old(self)@.current_path, old(self)@.selected_file->Some_0),
                ],
                refresh: true,
            }),
    {
        proof {
            use_type_invariant(&*self);
        }
        let r = match &self.selected_file {
            Some(selected) => {
                let target = join(self.current_path.as_str(), selected.as_str());
                let args = self.adb_manager.remove_args(
                    self.current_device.as_str(),
                    target.as_str(),
                );
                Some(Task { args, refresh: true })
            },
            None => None,
        };
        self.selected_file = None;
        r
    }
}

impl Default for FileManagerTab {
    fn default() -> (tab: Self)
        ensures
            tab@ == initial_view(),
    {
        FileManagerTab::new(Arc::new(AdbManager::new()))
    }
}

} // verus!
