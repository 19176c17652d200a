use pzsm::backup::{read_backups, BucketListing, Entry};
use pzsm::clock::{display_time, format_systime, time_now, timestamp_token, DateParts};
use pzsm::engine::{
    apply_backup, create_backup, create_backup_at, delete_backup, delete_backup_many,
    prune_unused, restore_outcome, restore_stage, unused_backup_paths, FsOp, Plan,
    RestoreOutcome, RestoreStage,
};
use pzsm::path::DirPath;
use pzsm::roots::{get_backups_path, get_saves_path};
use pzsm::save::Save;

fn dir(parts: &[&str]) -> DirPath {
    DirPath::new(parts.iter().map(|p| p.to_string()).collect())
}

fn segs(p: &DirPath) -> Vec<&str> {
    p.segments.iter().map(|s| s.as_str()).collect()
}

fn world1() -> Save {
    Save {
        name: "World1".to_string(),
        path: dir(&["/", "saves", "sandbox", "World1"]),
        update_time: "2024-01-01 12:00:00".to_string(),
        parent: dir(&["/", "saves", "sandbox"]),
    }
}

fn parts(year: i32, month: u32, day: u32, hour: u32, minute: u32, second: u32) -> DateParts {
    DateParts { year, month, day, hour, minute, second, nanosecond: 0 }
}

fn run_all(plan: &mut Plan, results: Vec<Result<(), String>>) {
    for r in results {
        assert!(plan.next_op().is_some());
        plan.record(r);
    }
}

#[test]
fn timestamp_token_format() {
    assert_eq!(timestamp_token(&parts(2024, 1, 1, 12, 0, 0)), "2024_01_01_12_00_00");
    assert_eq!(timestamp_token(&parts(987, 11, 30, 7, 5, 9)), "0987_11_30_07_05_09");
    let mut leap = parts(2016, 12, 31, 23, 59, 59);
    leap.nanosecond = 1_000_000_000;
    assert_eq!(timestamp_token(&leap), "2016_12_31_23_59_60");
    assert_eq!(timestamp_token(&parts(12345, 6, 7, 8, 9, 10)), "+12345_06_07_08_09_10");
    assert_eq!(timestamp_token(&parts(-5, 6, 7, 8, 9, 10)), "-0005_06_07_08_09_10");
}

#[test]
fn timestamp_order_is_chronological() {
    let earlier = timestamp_token(&parts(2023, 12, 31, 23, 59, 59));
    let later = timestamp_token(&parts(2024, 1, 1, 0, 0, 0));
    assert!(earlier < later);
}

#[test]
fn display_time_format() {
    assert_eq!(display_time(&parts(2024, 2, 3, 4, 5, 6)), "2024-02-03 04:05:06");
}

#[test]
fn time_now_has_token_shape() {
    let t = time_now(1_700_000_000, 500).unwrap();
    assert_eq!(t.len(), 19);
    let b = t.as_bytes();
    for i in [4, 7, 10, 13, 16] {
        assert_eq!(b[i], b'_');
    }
    assert!(t.chars().filter(|c| *c != '_').all(|c| c.is_ascii_digit()));
    assert!(t.starts_with("2023_11_1"));
    assert!(time_now(0, 2_000_000_000).is_none());
}

#[test]
fn format_systime_has_display_shape() {
    let s = format_systime(1_700_000_000, 0).unwrap();
    assert_eq!(s.len(), 19);
    assert_eq!(&s[4..5], "-");
    assert_eq!(&s[10..11], " ");
    assert_eq!(&s[13..14], ":");
    assert!(format_systime(1_700_000_000, 2_000_000_000).is_none());
}

#[test]
fn create_backup_steps() {
    let root = dir(&["/", "backups"]);
    let plan = create_backup_at(&root, &world1(), &"2024_01_01_12_00_00".to_string());
    assert_eq!(plan.ops.len(), 3);
    match &plan.ops[0] {
        FsOp::CreateDirAll(p) => assert_eq!(segs(p), vec!["/", "backups", "World1"]),
        other => panic!("unexpected step {:?}", other),
    }
    match &plan.ops[1] {
        FsOp::CreateNewDir(p) => {
            assert_eq!(segs(p), vec!["/", "backups", "World1", "2024_01_01_12_00_00"])
        }
        other => panic!("unexpected step {:?}", other),
    }
    match &plan.ops[2] {
        FsOp::CopyTree(from, to) => {
            assert_eq!(segs(from), vec!["/", "saves", "sandbox", "World1"]);
            assert_eq!(
                segs(to),
                vec!["/", "backups", "World1", "2024_01_01_12_00_00", "World1"]
            );
        }
        other => panic!("unexpected step {:?}", other),
    }
}

#[test]
fn create_backup_names_after_the_clock() {
    let root = dir(&["/", "backups"]);
    let plan = create_backup(&root, &world1(), 1_700_000_000, 0).unwrap();
    match &plan.ops[1] {
        FsOp::CreateNewDir(p) => {
            assert_eq!(p.segments.len(), 4);
            assert_eq!(p.segments[2], "World1");
            assert_eq!(p.segments[3], time_now(1_700_000_000, 0).unwrap());
        }
        other => panic!("unexpected step {:?}", other),
    }
    assert!(create_backup(&root, &world1(), 0, 2_000_000_000).is_none());
}

#[test]
fn apply_backup_steps_in_order() {
    let backup = dir(&["/", "backups", "World1", "2024_01_01_12_00_00", "World1"]);
    let plan = apply_backup(&world1(), &backup);
    assert_eq!(plan.ops.len(), 3);
    let tmp = vec!["/", "saves", "sandbox", "World1_tmp"];
    match &plan.ops[0] {
        FsOp::Rename(from, to) => {
            assert_eq!(segs(from), vec!["/", "saves", "sandbox", "World1"]);
            assert_eq!(segs(to), tmp);
        }
        other => panic!("unexpected step {:?}", other),
    }
    match &plan.ops[1] {
        FsOp::CopyTree(from, to) => {
            assert_eq!(segs(from), segs(&backup));
            assert_eq!(segs(to), vec!["/", "saves", "sandbox", "World1"]);
        }
        other => panic!("unexpected step {:?}", other),
    }
    match &plan.ops[2] {
        FsOp::Trash(p) => assert_eq!(segs(p), tmp),
        other => panic!("unexpected step {:?}", other),
    }
}

#[test]
fn create_then_apply_reads_what_was_written() {
    let root = dir(&["/", "backups"]);
    let save = world1();
    let created = create_backup_at(&root, &save, &"2024_01_01_12_00_00".to_string());
    let written = match &created.ops[2] {
        FsOp::CopyTree(_, to) => to.clone(),
        other => panic!("unexpected step {:?}", other),
    };
    let restored = apply_backup(&save, &written);
    match &restored.ops[1] {
        FsOp::CopyTree(from, to) => {
            assert_eq!(segs(from), segs(&written));
            assert_eq!(segs(to), segs(&save.path));
        }
        other => panic!("unexpected step {:?}", other),
    }
}

#[test]
fn apply_interrupted_after_rename_leaves_tmp() {
    let backup = dir(&["/", "backups", "World1", "2024_01_01_12_00_00", "World1"]);
    let mut plan = apply_backup(&world1(), &backup);
    assert_eq!(restore_stage(&plan), RestoreStage::Live);
    run_all(&mut plan, vec![Ok(()), Err("disk full".to_string())]);
    assert!(plan.next_op().is_none());
    assert_eq!(restore_stage(&plan), RestoreStage::Renamed);
    match restore_outcome(&plan) {
        RestoreOutcome::SaveMissing(e) => assert_eq!(e.message, "disk full"),
        other => panic!("unexpected outcome {:?}", other),
    }
    assert_eq!(plan.finish().unwrap_err().message, "disk full");
}

#[test]
fn apply_outcomes_for_each_stage() {
    let backup = dir(&["/", "b", "W", "t", "W"]);
    let mut p0 = apply_backup(&world1(), &backup);
    run_all(&mut p0, vec![Err("denied".to_string())]);
    assert!(matches!(restore_outcome(&p0), RestoreOutcome::SaveUntouched(_)));
    let mut p2 = apply_backup(&world1(), &backup);
    run_all(&mut p2, vec![Ok(()), Ok(()), Err("trash".to_string())]);
    assert_eq!(restore_stage(&p2), RestoreStage::Restored);
    assert!(matches!(restore_outcome(&p2), RestoreOutcome::OldSaveLeft(_)));
    let mut p3 = apply_backup(&world1(), &backup);
    run_all(&mut p3, vec![Ok(()), Ok(()), Ok(())]);
    assert_eq!(restore_stage(&p3), RestoreStage::OldMovedToTrash);
    assert!(matches!(restore_outcome(&p3), RestoreOutcome::Done));
    assert!(p3.finish().is_ok());
}

#[test]
fn delete_many_stops_at_first_failure() {
    let paths = vec![dir(&["/", "a"]), dir(&["/", "b"]), dir(&["/", "c"])];
    let mut plan = delete_backup_many(&paths);
    assert_eq!(plan.ops.len(), 3);
    run_all(&mut plan, vec![Ok(()), Err("busy".to_string())]);
    assert!(plan.next_op().is_none());
    assert_eq!(plan.done, 1);
    assert_eq!(plan.finish().unwrap_err().message, "busy");
}

#[test]
fn delete_backup_trashes_timestamp_dir() {
    let plan = delete_backup(&dir(&["/", "backups", "W", "2024_01_01_12_00_00"]));
    assert_eq!(plan.ops.len(), 1);
    match &plan.ops[0] {
        FsOp::Trash(p) => assert_eq!(segs(p), vec!["/", "backups", "W", "2024_01_01_12_00_00"]),
        other => panic!("unexpected step {:?}", other),
    }
}

fn two_bucket_map() -> pzsm::backup::BackupMap {
    let root = dir(&["/", "backups"]);
    let listing = vec![
        BucketListing {
            name: "A".to_string(),
            is_dir: true,
            entries: vec![Entry { name: "2024_01_01_00_00_00".to_string(), is_dir: true }],
        },
        BucketListing {
            name: "B".to_string(),
            is_dir: true,
            entries: vec![
                Entry { name: "2024_02_01_00_00_00".to_string(), is_dir: true },
                Entry { name: "2024_01_01_00_00_00".to_string(), is_dir: true },
            ],
        },
    ];
    read_backups(&root, &listing)
}

#[test]
fn prune_without_saves_removes_both_buckets() {
    let map = two_bucket_map();
    let plan = prune_unused(&vec![], &map);
    let trashed: Vec<Vec<&str>> = plan
        .ops
        .iter()
        .map(|op| match op {
            FsOp::Trash(p) => segs(p),
            other => panic!("unexpected step {:?}", other),
        })
        .collect();
    assert_eq!(trashed, vec![vec!["/", "backups", "A"], vec!["/", "backups", "B"]]);
}

#[test]
fn prune_keeps_buckets_of_live_saves() {
    let map = two_bucket_map();
    let mut save = world1();
    save.name = "A".to_string();
    let paths = unused_backup_paths(&vec![save.clone()], &map);
    assert_eq!(paths.len(), 1);
    assert_eq!(segs(&paths[0]), vec!["/", "backups", "B"]);
    let mut b = world1();
    b.name = "B".to_string();
    assert!(prune_unused(&vec![save, b], &map).ops.is_empty());
}

#[test]
fn root_paths_under_home() {
    let home = dir(&["/", "home", "u"]);
    assert_eq!(segs(&get_saves_path(&home)), vec!["/", "home", "u", "Zomboid", "saves"]);
    assert_eq!(
        segs(&get_backups_path(&home)),
        vec!["/", "home", "u", "Zomboid", "pzsm_backup"]
    );
}

#[test]
fn format_systime_is_within_a_day_of_the_instant() {
    let s = format_systime(0, 0).unwrap();
    assert!(s.starts_with("1970-01-01") || s.starts_with("1969-12-31"));
    let t = time_now(86_400 * 365, 0).unwrap();
    assert!(t.starts_with("1971_01_01") || t.starts_with("1970_12_31"));
}
