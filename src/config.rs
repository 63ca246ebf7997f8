use vstd::prelude::*;
use crate::text::{padded, push_padded, push_str, string_of};

verus! {

/// Milliseconds between scheduled snapshots unless configured otherwise.
pub const DEFAULT_FREQUENCY: u64 = 900000;

/// Snapshots kept unless configured otherwise.
pub const DEFAULT_MAX_BACKUPS: u8 = 10;

/// The settings of the backup engine, shared by the control thread and the
/// worker.
#[derive(Clone, Debug)]
pub struct Configuration {
    /// The directory that holds the snapshots.
    pub path: String,
    /// Milliseconds between scheduled snapshots.
    pub frequency: u64,
    /// What to copy: pairs of a path under the source root and a path under
    /// the snapshot directory.
    pub targets: Vec<(String, String)>,
    /// The most snapshots kept.
    pub max_backups: u8,
}

impl Configuration {
    /// At least one snapshot is kept.
    pub open spec fn wf(&self) -> bool {
        self.max_backups >= 1
    }

    /// A configuration that stores snapshots under `path`, every fifteen
    /// minutes, keeping ten, with the given targets.
    pub fn with_defaults(path: String, targets: Vec<(String, String)>) -> (r: Configuration)
        ensures
            r.wf(),
            r.path == path,
            r.frequency == DEFAULT_FREQUENCY,
            r.targets == targets,
            r.max_backups == DEFAULT_MAX_BACKUPS,
    {
        Configuration {
            path,
            frequency: DEFAULT_FREQUENCY,
            targets,
            max_backups: DEFAULT_MAX_BACKUPS,
        }
    }

    /// A one-line account of the destination, the interval in whole seconds
    /// and the cap.
    pub fn describe(&self) -> (r: String)
        ensures
            r@ == "target: '"@ + self.path@ + "', frequency: "@ + padded(
                (self.frequency / 1000) as nat,
                0,
            ) + " seconds, max_backups: "@ + padded(self.max_backups as nat, 0),
    {
        let mut out: Vec<char> = Vec::new();
        push_str(&mut out, "target: '");
        push_str(&mut out, self.path.as_str());
        push_str(&mut out, "', frequency: ");
        push_padded(&mut out, self.frequency / 1000, 0);
        push_str(&mut out, " seconds, max_backups: ");
        push_padded(&mut out, self.max_backups as u64, 0);
        string_of(&out)
    }

    /// Whether the configuration keeps at least one snapshot.
    pub fn is_valid(&self) -> (r: bool)
        ensures
            r == self.wf(),
    {
        self.max_backups >= 1
    }

    /// Sets the cap on snapshots; a cap of zero is refused and changes
    /// nothing.
    pub fn set_max_backups(&mut self, max_backups: u8) -> (r: bool)
        ensures
            r == (max_backups >= 1),
            r ==> final(self).max_backups == max_backups,
            !r ==> final(self).max_backups == old(self).max_backups,
            final(self).path == old(self).path,
            final(self).frequency == old(self).frequency,
            final(self).targets == old(self).targets,
    {
        if max_backups >= 1 {
            self.max_backups = max_backups;
            true
        } else {
            false
        }
    }

    /// Removes the target at `index`; an index past the end changes nothing.
    pub fn remove_target(&mut self, index: usize) -> (r: bool)
        ensures
            r == (index < old(self).targets@.len()),
            r ==> final(self).targets@ == old(self).targets@.remove(index as int),
            !r ==> final(self).targets@ == old(self).targets@,
            final(self).path == old(self).path,
            final(self).frequency == old(self).frequency,
            final(self).max_backups == old(self).max_backups,
    {
        if index < self.targets.len() {
            self.targets.remove(index);
            true
        } else {
            false
        }
    }
}

/// The screens of the interface.
#[derive(Clone, Copy, Debug, PartialEq, Eq, Structural)]
pub enum CurrentScreen {
    Main,
    Settings,
    Backups,
    Targets,
    ConfirmRestore,
    ConfirmRemove,
}

/// The setting being edited, if any.
#[derive(Clone, Copy, Debug, PartialEq, Eq, Structural)]
pub enum EditSetting {
    Path,
    Targets,
    Frequency,
    Max,
    Unset,
}

/// A failure of a snapshot, a restore or a pruning, with the system's
/// message.
#[derive(Clone, Debug, PartialEq, Eq)]
pub enum BackupError {
    /// A file or directory could not be read.
    FileError(String),
    /// A destination directory could not be created.
    TargetFolderError(String),
    /// A file could not be copied.
    CopyFileError(String),
    /// A snapshot directory could not be removed.
    RemoveFolderError(String),
}

/// A failure of the program as a whole.
#[derive(Clone, Debug, PartialEq, Eq)]
pub enum GeneralError {
    /// The source installation was not found; names what is missing.
    NotInstalled(String),
    /// A file operation failed.
    FileError(String),
    /// Any other failure, with its message.
    Error(String),
    /// The worker stopped after a failed scheduled snapshot.
    WorkerFault(String),
    /// The worker could not be joined after a clean control loop.
    JustBackupWorker(String),
    /// The worker could not be joined after a failed control loop; the
    /// second message is the loop's.
    LoopAndBackupWorker(String, String),
}

/// What the control thread shows and works on.
pub struct App {
    pub current_screen: CurrentScreen,
    pub configuration: Configuration,
    /// When the next scheduled snapshot is due, in milliseconds since the
    /// epoch.
    pub next_backup: i64,
}

impl App {
    /// The main screen over the given configuration, with no snapshot due
    /// yet.
    pub fn new(configuration: Configuration) -> (r: App)
        ensures
            r.current_screen == CurrentScreen::Main,
            r.configuration == configuration,
            r.next_backup == 0,
    {
        App { current_screen: CurrentScreen::Main, configuration, next_backup: 0 }
    }

    /// Shows `view`.
    pub fn set_view(&mut self, view: CurrentScreen)
        ensures
            final(self).current_screen == view,
            final(self).configuration == old(self).configuration,
            final(self).next_backup == old(self).next_backup,
    {
        self.current_screen = view;
    }
}

} // verus!
