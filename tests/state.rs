use pzsm::backup::{read_backups, Backup, BucketListing, Entry};
use pzsm::engine::FsOp;
use pzsm::path::DirPath;
use pzsm::pzsm::{Action, Message, Pzsm};
use pzsm::save::Save;

fn dir(parts: &[&str]) -> DirPath {
    DirPath::new(parts.iter().map(|p| p.to_string()).collect())
}

fn save(name: &str) -> Save {
    Save {
        name: name.to_string(),
        path: dir(&["/", "saves", "sandbox", name]),
        update_time: "2024-01-01 12:00:00".to_string(),
        parent: dir(&["/", "saves", "sandbox"]),
    }
}

fn state_with_backups() -> Pzsm {
    let mut s = Pzsm::new(dir(&["/", "saves"]), dir(&["/", "backups"]));
    let map = read_backups(
        &dir(&["/", "backups"]),
        &vec![BucketListing {
            name: "W".to_string(),
            is_dir: true,
            entries: vec![
                Entry { name: "2024_02_01_00_00_00".to_string(), is_dir: true },
                Entry { name: "2024_01_01_00_00_00".to_string(), is_dir: true },
            ],
        }],
    );
    s.handle_read_backups_ok(map);
    s
}

#[test]
fn selecting_a_save_selects_its_newest_backup() {
    let mut s = state_with_backups();
    s.handle_save_selected(save("W"));
    assert_eq!(s.selected_backup.as_ref().unwrap().name, "2024_02_01_00_00_00");
    s.handle_save_selected(save("Other"));
    assert!(s.selected_backup.is_none());
    assert_eq!(s.selected_save.as_ref().unwrap().name, "Other");
}

#[test]
fn rescan_drops_a_vanished_selection() {
    let mut s = state_with_backups();
    s.handle_save_selected(save("W"));
    match s.handle_read_saves_ok(vec![save("W"), save("X")]) {
        Action::Send(Message::ReadBackups) => {}
        other => panic!("unexpected action {:?}", other),
    }
    assert!(s.selected_save.is_some());
    s.handle_read_saves_ok(vec![save("X")]);
    assert!(s.selected_save.is_none());
}

#[test]
fn loading_masks_and_errors() {
    let mut s = Pzsm::new(dir(&["/", "saves"]), dir(&["/", "backups"]));
    assert!(matches!(s.update(Message::ReadSaves), Action::ScanSaves));
    assert_eq!(s.body_mask, "Loading saves...");
    assert!(matches!(s.update(Message::ReadBackups), Action::ScanBackups));
    assert_eq!(s.body_mask, "Loading backups...");
    s.update(Message::Failed("boom".to_string()));
    assert_eq!(s.error_mask, "boom");
}

#[test]
fn operations_need_a_selection() {
    let mut s = state_with_backups();
    assert!(matches!(s.update(Message::NewBackup), Action::Nothing));
    assert!(matches!(s.update(Message::ApplyBackup), Action::Nothing));
    assert!(matches!(s.update(Message::DeleteBackup), Action::Nothing));
}

#[test]
fn delete_selected_backup_trashes_its_timestamp_dir() {
    let mut s = state_with_backups();
    s.handle_save_selected(save("W"));
    match s.update(Message::DeleteBackup) {
        Action::Run(plan, Message::ReadBackups) => match &plan.ops[0] {
            FsOp::Trash(p) => assert_eq!(
                p.segments,
                vec!["/", "backups", "W", "2024_02_01_00_00_00"]
            ),
            other => panic!("unexpected step {:?}", other),
        },
        other => panic!("unexpected action {:?}", other),
    }
    assert_eq!(s.body_mask, "Deleting backup...");
}

#[test]
fn apply_selected_backup_then_rescans_saves() {
    let mut s = state_with_backups();
    s.handle_save_selected(save("W"));
    s.handle_backup_selected(Backup {
        name: "2024_01_01_00_00_00".to_string(),
        path: dir(&["/", "backups", "W", "2024_01_01_00_00_00", "W"]),
    });
    match s.update(Message::ApplyBackup) {
        Action::Restore(plan) => assert_eq!(plan.ops.len(), 3),
        other => panic!("unexpected action {:?}", other),
    }
    assert_eq!(s.body_mask, "Applying backup...");
}

#[test]
fn delete_unused_backups_when_none_is_unused() {
    let mut s = state_with_backups();
    s.handle_read_saves_ok(vec![save("W")]);
    assert!(matches!(s.update(Message::DeleteUnusedBackups), Action::Nothing));
    s.handle_read_saves_ok(vec![]);
    match s.update(Message::DeleteUnusedBackups) {
        Action::Run(plan, Message::ReadSaves) => assert_eq!(plan.ops.len(), 1),
        other => panic!("unexpected action {:?}", other),
    }
}

#[test]
fn new_backup_reads_the_clock_first() {
    let mut s = state_with_backups();
    s.handle_save_selected(save("W"));
    assert!(matches!(s.update(Message::NewBackup), Action::ReadClock));
    assert_eq!(s.body_mask, "Creating backup...");
    match s.update(Message::ClockRead(1_700_000_000, 0)) {
        Action::Run(plan, Message::ReadBackups) => assert_eq!(plan.ops.len(), 3),
        other => panic!("unexpected action {:?}", other),
    }
    match s.update(Message::ClockRead(0, 2_000_000_000)) {
        Action::Send(Message::Failed(_)) => {}
        other => panic!("unexpected action {:?}", other),
    }
}

#[test]
fn an_error_changes_only_the_error_mask() {
    let mut s = state_with_backups();
    s.handle_save_selected(save("W"));
    s.update(Message::Failed("boom".to_string()));
    assert_eq!(s.error_mask, "boom");
    assert_eq!(s.selected_save.as_ref().unwrap().name, "W");
    assert_eq!(s.selected_backup.as_ref().unwrap().name, "2024_02_01_00_00_00");
    assert_eq!(s.backup_map.buckets.len(), 1);
    assert!(s.body_mask.is_empty());
}
