use vstd::prelude::*;
use crate::config::Configuration;
use crate::copy::{restore_steps, snapshot_steps, CopyPlan};
use crate::naming::{encode_name, snapshot_name};
use crate::paths::{join_path, path_joined};
use crate::stamp::{month_day_valid, now_local, time_valid, Stamp};

verus! {

/// The directory of the snapshot taken at `now` under the destination root.
pub fn snapshot_dir(destination_root: &String, now: &Stamp) -> (r: String)
    ensures
        r@ == path_joined(destination_root@, encode_name(*now)),
{
    let name = snapshot_name(now);
    join_path(destination_root, &name)
}

/// A snapshot taken at `now`: the directory it goes to, under the
/// configured destination, and the plan that copies every target of the
/// configuration from `source` into it.
pub fn plan_backup(source: &String, config: &Configuration, now: &Stamp) -> (r: (String, CopyPlan))
    ensures
        r.0@ == path_joined(config.path@, encode_name(*now)),
        r.1@ == snapshot_steps(source@, r.0@, config.targets@),
{
    let dir = snapshot_dir(&config.path, now);
    let plan = CopyPlan::for_snapshot(source, &dir, &config.targets);
    (dir, plan)
}

/// A snapshot taken now: the local time it is taken at, and the directory and
/// plan that `plan_backup` gives for that time.
pub fn plan_backup_now(source: &String, config: &Configuration) -> (r: (Stamp, String, CopyPlan))
    ensures
        month_day_valid(r.0.year as int, r.0.month as int, r.0.day as int),
        time_valid(r.0.hour as int, r.0.minute as int, r.0.second as int),
        r.1@ == path_joined(config.path@, encode_name(r.0)),
        r.2@ == snapshot_steps(source@, r.1@, config.targets@),
{
    let now = now_local();
    let (dir, plan) = plan_backup(source, config, &now);
    (now, dir, plan)
}

/// The plan that copies every target of the configuration from the
/// snapshot at `snapshot_path` back onto `source`.
pub fn plan_restore(source: &String, snapshot_path: &String, config: &Configuration) -> (r: CopyPlan)
    ensures
        r@ == restore_steps(source@, snapshot_path@, config.targets@),
{
    CopyPlan::for_restore(source, snapshot_path, &config.targets)
}

} // verus!
