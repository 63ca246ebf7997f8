use crucible::{plan_backup, plan_restore, snapshot_dir, Configuration, CopyPlan, CopyStep, Stamp};
use std::path::{Path, PathBuf};

fn stamp() -> Stamp {
    Stamp { year: 2024, month: 5, day: 6, hour: 7, minute: 8, second: 9 }
}

fn mirror(step: Option<CopyStep>) -> (String, String) {
    match step {
        Some(CopyStep::Mirror { from, to }) => (from, to),
        other => panic!("expected a mirror step, got {:?}", other),
    }
}

fn copy_file(step: Option<CopyStep>) -> (String, String) {
    match step {
        Some(CopyStep::CopyFile { from, to }) => (from, to),
        other => panic!("expected a file copy, got {:?}", other),
    }
}

#[test]
pub fn test_pathbuf_join() -> std::io::Result<()> {
    let path = PathBuf::from(r"C:\TEMP\BCG");
    let new = path.join(r"A\B\C\D.txt");
    println!("{}", new.display());
    Ok(())
}

#[test]
fn snapshot_directory_is_named_after_the_time() {
    let d = snapshot_dir(&"/backups".to_string(), &stamp());
    assert_eq!(d, "/backups/2024-05-06 07-08-09");
}

#[test]
fn file_target_with_empty_destination_lands_in_the_snapshot_root() {
    let targets = vec![("game/options.txt".to_string(), String::new())];
    let mut plan = CopyPlan::for_snapshot(&"/src".to_string(), &"/snap".to_string(), &targets);
    let (from, to) = mirror(plan.next_step());
    assert_eq!(from, "/src/game/options.txt");
    assert_eq!(Path::new(&to), Path::new("/snap"));
    assert!(plan.is_done());
    plan.found_file(&from, &to);
    let (f, t) = copy_file(plan.next_step());
    assert_eq!(f, "/src/game/options.txt");
    assert_eq!(Path::new(&t), Path::new("/snap/options.txt"));
    assert!(plan.next_step().is_none());
}

#[test]
fn directory_target_is_mirrored_entry_by_entry() {
    let targets = vec![
        ("saves".to_string(), "saves".to_string()),
        ("local".to_string(), "data/local".to_string()),
    ];
    let mut plan = CopyPlan::for_snapshot(&"/src".to_string(), &"/snap".to_string(), &targets);
    let (from, to) = mirror(plan.next_step());
    assert_eq!((from.as_str(), to.as_str()), ("/src/saves", "/snap/saves"));
    let entries = vec![("world".to_string(), true), ("level.dat".to_string(), false)];
    plan.found_dir(&from, &to, &entries);
    let (f, t) = mirror(plan.next_step());
    assert_eq!((f.as_str(), t.as_str()), ("/src/saves/world", "/snap/saves/world"));
    plan.found_dir(&f, &t, &vec![("region.mca".to_string(), false)]);
    let (f, t) = copy_file(plan.next_step());
    assert_eq!((f.as_str(), t.as_str()), ("/src/saves/world/region.mca", "/snap/saves/world/region.mca"));
    let (f, t) = copy_file(plan.next_step());
    assert_eq!((f.as_str(), t.as_str()), ("/src/saves/level.dat", "/snap/saves/level.dat"));
    let (f, t) = mirror(plan.next_step());
    assert_eq!((f.as_str(), t.as_str()), ("/src/local", "/snap/data/local"));
    plan.found_dir(&f, &t, &Vec::new());
    assert!(plan.is_done());
}

#[test]
fn file_without_a_name_is_copied_as_unknown() {
    let mut plan = CopyPlan::for_snapshot(&"/src".to_string(), &"/snap".to_string(), &Vec::new());
    assert!(plan.is_done());
    plan.found_file(&"/".to_string(), &"/snap".to_string());
    let (_, t) = copy_file(plan.next_step());
    assert_eq!(t, "/snap/unknown");
}

#[test]
fn backup_and_restore_plans_mirror_each_other() {
    let config = Configuration {
        path: "/backups".to_string(),
        frequency: 5000,
        targets: vec![("a/b".to_string(), "b".to_string()), ("c".to_string(), "".to_string())],
        max_backups: 5,
    };
    let (dir, mut plan) = plan_backup(&"/src".to_string(), &config, &stamp());
    assert_eq!(dir, "/backups/2024-05-06 07-08-09");
    let (f, t) = mirror(plan.next_step());
    assert_eq!((f.as_str(), t.as_str()), ("/src/a/b", "/backups/2024-05-06 07-08-09/b"));
    let (f, _) = mirror(plan.next_step());
    assert_eq!(f, "/src/c");
    assert!(plan.is_done());

    let mut back = plan_restore(&"/src".to_string(), &dir, &config);
    let (f, t) = mirror(back.next_step());
    assert_eq!((f.as_str(), t.as_str()), ("/backups/2024-05-06 07-08-09/b", "/src/a/b"));
    let (_, t) = mirror(back.next_step());
    assert_eq!(t, "/src/c");
    assert!(back.next_step().is_none());
}

#[test]
fn backup_now_is_named_after_the_local_time() {
    let config = Configuration {
        path: "/backups".to_string(),
        frequency: 5000,
        targets: vec![("saves".to_string(), "saves".to_string())],
        max_backups: 5,
    };
    let (t, dir, mut plan) = crucible::plan_backup_now(&"/src".to_string(), &config);
    assert!(t.year >= 2024);
    assert_eq!(dir, format!("/backups/{}", crucible::snapshot_name(&t)));
    assert_eq!(crucible::parse_snapshot_name(&crucible::snapshot_name(&t)), Some(t));
    let (_, to) = mirror(plan.next_step());
    assert_eq!(to, format!("{}/saves", dir));
}
