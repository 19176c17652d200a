use pzsm::backup::{read_backups, BucketListing, Entry};
use pzsm::order::name_le;
use pzsm::path::DirPath;
use pzsm::save::{read_saves, Category, TimedEntry};

fn dir(parts: &[&str]) -> DirPath {
    DirPath::new(parts.iter().map(|p| p.to_string()).collect())
}

fn segs(p: &DirPath) -> Vec<&str> {
    p.segments.iter().map(|s| s.as_str()).collect()
}

fn entry(name: &str, is_dir: bool) -> Entry {
    Entry { name: name.to_string(), is_dir }
}

fn timed(name: &str, is_dir: bool, t: &str) -> TimedEntry {
    TimedEntry { name: name.to_string(), is_dir, update_time: t.to_string() }
}

#[test]
fn path_join_and_parent() {
    let p = dir(&["/", "home"]);
    let q = p.join(&"saves".to_string());
    assert_eq!(segs(&q), vec!["/", "home", "saves"]);
    assert_eq!(segs(&q.parent().unwrap()), vec!["/", "home"]);
    assert!(DirPath::new(vec![]).parent().is_none());
}

#[test]
fn one_save_per_subdirectory() {
    let root = dir(&["/", "saves"]);
    let listing = vec![
        Category {
            name: "sandbox".to_string(),
            is_dir: true,
            entries: vec![
                timed("World1", true, "2024-01-01 12:00:00"),
                timed("notes.txt", false, "2024-01-02 08:00:00"),
                timed("World2", true, "2024-02-03 04:05:06"),
            ],
        },
        Category { name: "readme.md".to_string(), is_dir: false, entries: vec![] },
        Category {
            name: "survival".to_string(),
            is_dir: true,
            entries: vec![timed("Base", true, "2023-12-31 23:59:59")],
        },
    ];
    let saves = read_saves(&root, Some(listing));
    assert_eq!(saves.len(), 3);
    assert_eq!(saves[0].name, "World1");
    assert_eq!(saves[0].update_time, "2024-01-01 12:00:00");
    assert_eq!(segs(&saves[0].path), vec!["/", "saves", "sandbox", "World1"]);
    assert_eq!(segs(&saves[0].parent), vec!["/", "saves", "sandbox"]);
    assert_eq!(saves[1].name, "World2");
    assert_eq!(saves[1].update_time, "2024-02-03 04:05:06");
    assert_eq!(saves[2].name, "Base");
    assert_eq!(segs(&saves[2].path), vec!["/", "saves", "survival", "Base"]);
}

#[test]
fn missing_saves_root_gives_no_saves() {
    let root = dir(&["/", "saves"]);
    assert!(read_saves(&root, None).is_empty());
    assert!(read_saves(&root, Some(vec![])).is_empty());
}

#[test]
fn scan_after_create_shows_nested_backup() {
    let root = dir(&["/", "backups"]);
    let listing = vec![BucketListing {
        name: "World1".to_string(),
        is_dir: true,
        entries: vec![entry("2024_01_01_12_00_00", true)],
    }];
    let map = read_backups(&root, &listing);
    assert_eq!(map.buckets.len(), 1);
    assert_eq!(map.buckets[0].name, "World1");
    let backups = map.get(&"World1".to_string()).unwrap();
    assert_eq!(backups.len(), 1);
    assert_eq!(backups[0].name, "2024_01_01_12_00_00");
    assert_eq!(
        segs(&backups[0].path),
        vec!["/", "backups", "World1", "2024_01_01_12_00_00", "World1"]
    );
}

#[test]
fn backups_are_sorted_and_empty_buckets_omitted() {
    let root = dir(&["/", "backups"]);
    let listing = vec![
        BucketListing {
            name: "A".to_string(),
            is_dir: true,
            entries: vec![
                entry("2024_03_01_00_00_00", true),
                entry("2023_12_31_23_59_59", true),
                entry("stray.txt", false),
                entry("2024_01_15_10_30_00", true),
            ],
        },
        BucketListing { name: "Empty".to_string(), is_dir: true, entries: vec![] },
        BucketListing {
            name: "OnlyFiles".to_string(),
            is_dir: true,
            entries: vec![entry("x.bin", false)],
        },
        BucketListing { name: "file.txt".to_string(), is_dir: false, entries: vec![] },
    ];
    let map = read_backups(&root, &listing);
    assert_eq!(map.buckets.len(), 1);
    let names: Vec<&str> = map.buckets[0].backups.iter().map(|b| b.name.as_str()).collect();
    assert_eq!(names, vec!["2023_12_31_23_59_59", "2024_01_15_10_30_00", "2024_03_01_00_00_00"]);
    assert!(map.get(&"Empty".to_string()).is_none());
    assert!(map.get(&"OnlyFiles".to_string()).is_none());
}

#[test]
fn new_backup_adds_one_newest_entry() {
    let root = dir(&["/", "backups"]);
    let mut entries = vec![entry("2024_01_01_12_00_00", true), entry("2024_01_02_09_00_00", true)];
    let before = read_backups(
        &root,
        &vec![BucketListing { name: "W".to_string(), is_dir: true, entries: entries.clone() }],
    );
    entries.insert(0, entry("2024_05_05_05_05_05", true));
    let after = read_backups(
        &root,
        &vec![BucketListing { name: "W".to_string(), is_dir: true, entries }],
    );
    let b = before.get(&"W".to_string()).unwrap();
    let a = after.get(&"W".to_string()).unwrap();
    assert_eq!(a.len(), b.len() + 1);
    assert_eq!(a.last().unwrap().name, "2024_05_05_05_05_05");
    for x in b {
        assert!(x.name < a.last().unwrap().name);
    }
}

#[test]
fn lexical_comparison_of_names() {
    let a = "2024_01_01".to_string();
    let b = "2024_01_02".to_string();
    assert!(name_le(&a, &b));
    assert!(!name_le(&b, &a));
    assert!(name_le(&a, &a));
    assert!(name_le(&"abc".to_string(), &"abcd".to_string()));
    assert!(!name_le(&"abcd".to_string(), &"abc".to_string()));
    assert!(name_le(&"".to_string(), &"".to_string()));
}

#[test]
fn removing_a_timestamp_dir_removes_exactly_its_backup() {
    let root = dir(&["/", "backups"]);
    let mut entries = vec![
        entry("2024_01_01_12_00_00", true),
        entry("2024_01_02_12_00_00", true),
        entry("2024_01_03_12_00_00", true),
    ];
    let before = read_backups(
        &root,
        &vec![BucketListing { name: "W".to_string(), is_dir: true, entries: entries.clone() }],
    );
    let target = before.get(&"W".to_string()).unwrap()[1].clone();
    assert_eq!(
        segs(&target.path.parent().unwrap()),
        vec!["/", "backups", "W", "2024_01_02_12_00_00"]
    );
    entries.remove(1);
    let after = read_backups(
        &root,
        &vec![BucketListing { name: "W".to_string(), is_dir: true, entries }],
    );
    let names: Vec<&str> =
        after.get(&"W".to_string()).unwrap().iter().map(|b| b.name.as_str()).collect();
    assert_eq!(names, vec!["2024_01_01_12_00_00", "2024_01_03_12_00_00"]);
}

#[test]
fn removing_the_last_backup_drops_the_bucket() {
    let root = dir(&["/", "backups"]);
    let after = read_backups(
        &root,
        &vec![BucketListing { name: "W".to_string(), is_dir: true, entries: vec![] }],
    );
    assert!(after.buckets.is_empty());
    assert!(after.get(&"W".to_string()).is_none());
}

#[test]
fn deleting_in_one_bucket_leaves_the_others() {
    let root = dir(&["/", "backups"]);
    let other = BucketListing {
        name: "Other".to_string(),
        is_dir: true,
        entries: vec![entry("2023_05_05_05_05_05", true)],
    };
    let before = read_backups(
        &root,
        &vec![
            BucketListing {
                name: "W".to_string(),
                is_dir: true,
                entries: vec![entry("2024_01_01_12_00_00", true)],
            },
            other.clone(),
        ],
    );
    let after = read_backups(
        &root,
        &vec![BucketListing { name: "W".to_string(), is_dir: true, entries: vec![] }, other],
    );
    assert!(after.get(&"W".to_string()).is_none());
    let b = before.get(&"Other".to_string()).unwrap();
    let a = after.get(&"Other".to_string()).unwrap();
    assert_eq!(a.len(), b.len());
    assert_eq!(a[0].name, b[0].name);
    assert_eq!(segs(&a[0].path), segs(&b[0].path));
}
