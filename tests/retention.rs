use crucible::{backups_to_remove, get_backups_sorted, snapshot_name, DirEntry, Stamp};

fn stamp(year: i32, month: u32, day: u32, hour: u32, minute: u32, second: u32) -> Stamp {
    Stamp { year, month, day, hour, minute, second }
}

fn dir(t: &Stamp, path: &str) -> DirEntry {
    DirEntry { name: snapshot_name(t), path: path.to_string(), is_dir: true }
}

#[test]
pub fn test_folder_sorting() {
    let folders = vec![
        dir(&stamp(2024, 07, 04, 00, 00, 00), r"C:\2"),
        dir(&stamp(2024, 04, 03, 10, 11, 12), r"C:\0"),
        dir(&stamp(2024, 04, 03, 10, 11, 13), r"C:\1"),
        dir(&stamp(2024, 08, 03, 10, 11, 12), r"C:\4"),
        dir(&stamp(2024, 08, 03, 00, 00, 00), r"C:\3"),
    ];
    let sorted = get_backups_sorted(&folders);
    assert_eq!(sorted[0].1, r"C:\0");
    assert_eq!(sorted[1].1, r"C:\1");
    assert_eq!(sorted[2].1, r"C:\2");
    assert_eq!(sorted[3].1, r"C:\3");
    assert_eq!(sorted[4].1, r"C:\4");
}

#[test]
fn foreign_entries_are_ignored() {
    let entries = vec![
        DirEntry { name: "notes".to_string(), path: "/b/notes".to_string(), is_dir: true },
        DirEntry {
            name: "2024-01-01 00-00-00".to_string(),
            path: "/b/file".to_string(),
            is_dir: false,
        },
        DirEntry {
            name: "2024-01-02 00-00-00".to_string(),
            path: "/b/2024-01-02 00-00-00".to_string(),
            is_dir: true,
        },
        DirEntry {
            name: "2024-02-30 00-00-00".to_string(),
            path: "/b/bad".to_string(),
            is_dir: true,
        },
    ];
    let sorted = get_backups_sorted(&entries);
    assert_eq!(sorted.len(), 1);
    assert_eq!(sorted[0].0, stamp(2024, 1, 2, 0, 0, 0));
    assert_eq!(sorted[0].1, "/b/2024-01-02 00-00-00");
    assert!(get_backups_sorted(&Vec::new()).is_empty());
}

#[test]
fn equal_stamps_keep_listing_order() {
    let t = stamp(2024, 1, 1, 0, 0, 0);
    let entries = vec![dir(&t, "first"), dir(&stamp(2023, 1, 1, 0, 0, 0), "older"), dir(&t, "second")];
    let sorted = get_backups_sorted(&entries);
    let paths: Vec<&str> = sorted.iter().map(|p| p.1.as_str()).collect();
    assert_eq!(paths, vec!["older", "first", "second"]);
}

#[test]
fn pruning_removes_the_oldest_beyond_the_cap() {
    let times: Vec<Stamp> = (0..6).map(|i| stamp(2024, 1, 1, 0, 0, i)).collect();
    let names: Vec<String> = (0..6).map(|i| format!("t{}", i)).collect();
    // five snapshots at the cap: nothing to remove
    let five: Vec<DirEntry> = (0..5).map(|i| dir(&times[i], &names[i])).collect();
    assert!(backups_to_remove(&get_backups_sorted(&five), 5).is_empty());
    // a sixth, newer one: the oldest goes
    let mut six = five.clone();
    six.push(dir(&times[5], &names[5]));
    let sorted = get_backups_sorted(&six);
    assert_eq!(backups_to_remove(&sorted, 5), vec!["t0".to_string()]);
    assert_eq!(backups_to_remove(&sorted, 3), vec!["t0".to_string(), "t1".to_string(), "t2".to_string()]);
    assert_eq!(backups_to_remove(&sorted, 1).len(), 5);
    assert!(backups_to_remove(&sorted, 200).is_empty());
}

#[test]
fn seven_cycles_keep_five_snapshots() {
    let mut listing: Vec<DirEntry> = Vec::new();
    for cycle in 0..7u32 {
        let t = stamp(2024, 6, 1, 12, 0, cycle * 5);
        listing.push(dir(&t, &format!("/b/{}", snapshot_name(&t))));
        let doomed = backups_to_remove(&get_backups_sorted(&listing), 5);
        listing.retain(|e| !doomed.contains(&e.path));
    }
    let left = get_backups_sorted(&listing);
    assert_eq!(left.len(), 5);
    let kept: Vec<Stamp> = left.iter().map(|p| p.0).collect();
    let expected: Vec<Stamp> = (2..7).map(|c| stamp(2024, 6, 1, 12, 0, c * 5)).collect();
    assert_eq!(kept, expected);
    assert!(!kept.contains(&stamp(2024, 6, 1, 12, 0, 0)));
    assert!(!kept.contains(&stamp(2024, 6, 1, 12, 0, 5)));
}
