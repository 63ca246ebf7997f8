//! Periodic folder snapshots with a retention cap.
//!
//! The library holds the logic of the backup engine: the clamped arithmetic on
//! durations, the naming scheme of snapshot directories, the retention policy,
//! the planning of mirror copies, the decisions of the scheduler's worker and
//! the debounce rule for key presses. Everything that touches the file system,
//! the clock or the terminal is done by the caller, which hands plain values in
//! and performs the actions that come back.

pub mod backup;
pub mod config;
pub mod copy;
pub mod debounce;
pub mod naming;
pub mod paths;
pub mod retention;
pub mod scheduler;
pub mod stamp;
pub mod text;
pub mod timing;

pub use backup::{plan_backup, plan_backup_now, plan_restore, snapshot_dir};
pub use config::{App, BackupError, Configuration, CurrentScreen, EditSetting, GeneralError};
pub use copy::{CopyPlan, CopyStep};
pub use debounce::DebounceTracker;
pub use naming::{parse_snapshot_name, snapshot_name};
pub use retention::{backups_to_remove, get_backups_sorted, DirEntry};
pub use scheduler::{input_timeout, next_fire_time, Signals, Wake, Worker};
pub use stamp::Stamp;
pub use timing::duration_compare;
