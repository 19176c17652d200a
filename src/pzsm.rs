//! The application's state and how each message changes it.
use crate::backup::{backups_view, lookup, Backup, BackupMap, BackupView};
use crate::clock::{dates_instant, representable, timestamp_text, DateParts};
use crate::engine::{
    apply_backup, apply_ops, create_backup, create_ops, delete_backup, delete_backup_many,
    ops_view, unused_backup_paths, unused_dirs, FsOpView, Plan,
};
use crate::path::DirPath;
use crate::save::{saves_view, Save, SaveView};
use vstd::prelude::*;

verus! {

/// What the user or a finished task asks of the application.
#[derive(Clone, Debug)]
pub enum Message {
    Failed(String),
    ReadSaves,
    ReadSavesOk(Vec<Save>),
    ReadBackups,
    ReadBackupsOk(BackupMap),
    SaveSelected(Save),
    BackupSelected(Backup),
    NewBackup,
    /// The clock read for a new backup: seconds and nanoseconds since the
    /// Unix epoch.
    ClockRead(i64, u32),
    ApplyBackup,
    DeleteBackup,
    DeleteUnusedBackups,
    OpenSavesDir,
    OpenBackupsDir,
    OpenGithubPage,
}

/// The work that the application runs after a message: its outcome comes
/// back as a message.
#[derive(Clone, Debug)]
pub enum Action {
    /// Nothing to do.
    Nothing,
    /// Scan the saves; send `ReadSavesOk` with them, or `Failed`.
    ScanSaves,
    /// Scan the backups; send `ReadBackupsOk` with them, or `Failed`.
    ScanBackups,
    /// Read the clock; send `ClockRead` with it.
    ReadClock,
    /// Send the message.
    Send(Message),
    /// Run the plan; send the message when it succeeds, or `Failed`.
    Run(Plan, Message),
    /// Run the restore plan; rescan the saves when it succeeds, or report
    /// the `restore_outcome` with `Failed`.
    Restore(Plan),
    OpenSavesDir,
    OpenBackupsDir,
    OpenGithubPage,
}

pub open spec fn save_opt(o: Option<Save>) -> Option<SaveView> {
    match o {
        Some(s) => Some(s@),
        None => None,
    }
}

pub open spec fn backup_opt(o: Option<Backup>) -> Option<BackupView> {
    match o {
        Some(b) => Some(b@),
        None => None,
    }
}

/// The application's state between messages.
#[derive(Clone, Debug)]
pub struct Pzsm {
    pub saves_root: DirPath,
    pub backups_root: DirPath,
    pub saves: Vec<Save>,
    pub selected_save: Option<Save>,
    pub backup_map: BackupMap,
    pub selected_backup: Option<Backup>,
    /// Shown over the body while a task runs; empty when none does.
    pub body_mask: String,
    /// The last error; empty when there is none.
    pub error_mask: String,
}

/// `n` is `o` with `error_mask` set to `e`.
pub open spec fn post_err(o: Pzsm, n: Pzsm, e: String) -> bool {
    n == (Pzsm { error_mask: e, ..o })
}

/// `n` is `o` with only the body mask changed, to `mask`.
pub open spec fn masked(o: Pzsm, n: Pzsm, mask: Seq<char>) -> bool {
    n == (Pzsm { body_mask: n.body_mask, ..o }) && n.body_mask@ == mask
}

pub open spec fn post_read_saves_ok(o: Pzsm, n: Pzsm, saves: Vec<Save>, r: Action) -> bool {
    &&& n == (Pzsm { saves: saves, selected_save: n.selected_save, ..o })
    &&& (r matches Action::Send(m) && m is ReadBackups)
    &&& match o.selected_save {
        None => n.selected_save is None,
        Some(s) => if crate::engine::has_save(saves_view(saves@), s.name@) {
            n.selected_save == o.selected_save
        } else {
            n.selected_save is None
        },
    }
}

pub open spec fn post_select_last(o: Pzsm, n: Pzsm, name: Seq<char>) -> bool {
    &&& n == (Pzsm { selected_backup: n.selected_backup, ..o })
    &&& selects_last(backup_opt(o.selected_backup), o.backup_map@, name, backup_opt(n.selected_backup))
}

pub open spec fn post_read_backups_ok(o: Pzsm, n: Pzsm, m: BackupMap) -> bool {
    &&& n == (Pzsm {
        backup_map: m,
        body_mask: n.body_mask,
        selected_backup: n.selected_backup,
        ..o
    })
    &&& n.body_mask@.len() == 0
    &&& match o.selected_save {
        None => n.selected_backup == o.selected_backup,
        Some(s) => selects_last(
            backup_opt(o.selected_backup),
            m@,
            s.name@,
            backup_opt(n.selected_backup),
        ),
    }
}

pub open spec fn post_save_selected(o: Pzsm, n: Pzsm, save: Save) -> bool {
    &&& n == (Pzsm { selected_save: Some(save), selected_backup: n.selected_backup, ..o })
    &&& selects_last(
        backup_opt(o.selected_backup),
        o.backup_map@,
        save.name@,
        backup_opt(n.selected_backup),
    )
}

pub open spec fn post_new_backup(o: Pzsm, n: Pzsm, r: Action) -> bool {
    match o.selected_save {
        None => r is Nothing && n == o,
        Some(_) => r is ReadClock && masked(o, n, "Creating backup..."@),
    }
}

pub open spec fn post_clock_read(o: Pzsm, n: Pzsm, secs: i64, nanos: u32, r: Action) -> bool {
    &&& n == o
    &&& match o.selected_save {
        None => r is Nothing,
        Some(s) => (!representable(secs, nanos) && (r matches Action::Send(m) && m is Failed))
            || exists|d: DateParts|
            #![trigger timestamp_text(d)]
            dates_instant(d, secs, nanos) && runs_then(
                r,
                create_ops(o.backups_root@, s@, timestamp_text(d)),
                false,
            ),
    }
}

pub open spec fn post_apply_backup(o: Pzsm, n: Pzsm, r: Action) -> bool {
    match (o.selected_save, o.selected_backup) {
        (Some(s), Some(b)) => masked(o, n, "Applying backup..."@) && (r matches Action::Restore(p)
            && p.wf() && p.done == 0 && p.failure is None && ops_view(p.ops@) == apply_ops(
            s@,
            b.path@,
        )),
        _ => r is Nothing && n == o,
    }
}

pub open spec fn post_delete_backup(o: Pzsm, n: Pzsm, r: Action) -> bool {
    match o.selected_backup {
        Some(b) if b.path@.len() > 0 => masked(o, n, "Deleting backup..."@) && runs_then(
            r,
            seq![FsOpView::Trash(b.path@.drop_last())],
            false,
        ),
        _ => r is Nothing && n == o,
    }
}

pub open spec fn post_delete_unused(o: Pzsm, n: Pzsm, r: Action) -> bool {
    let dirs = unused_dirs(saves_view(o.saves@), o.backup_map@);
    if dirs.len() == 0 {
        r is Nothing && n == o
    } else {
        masked(o, n, "Deleting unused backups..."@) && runs_then(
            r,
            dirs.map_values(|d: Seq<Seq<char>>| FsOpView::Trash(d)),
            true,
        )
    }
}

impl Pzsm {
    /// A state with nothing scanned yet, over the given roots.
    pub fn new(saves_root: DirPath, backups_root: DirPath) -> (r: Pzsm)
        ensures
            r.saves_root@ == saves_root@,
            r.backups_root@ == backups_root@,
            r.saves@.len() == 0,
            r.selected_save is None,
            r.backup_map@.len() == 0,
            r.selected_backup is None,
            r.body_mask@.len() == 0,
            r.error_mask@.len() == 0,
    {
        Pzsm {
            saves_root,
            backups_root,
            saves: Vec::new(),
            selected_save: None,
            backup_map: BackupMap::new(),
            selected_backup: None,
            body_mask: String::new(),
            error_mask: String::new(),
        }
    }

    /// Handles one message and says what to run next.
    pub fn update(&mut self, message: Message) -> (r: Action)
        ensures
            match message {
                Message::Failed(e) => post_err(*old(self), *final(self), e) && r is Nothing,
                Message::ReadSaves => masked(*old(self), *final(self), "Loading saves..."@)
                    && r is ScanSaves,
                Message::ReadSavesOk(v) => post_read_saves_ok(*old(self), *final(self), v, r),
                Message::ReadBackups => masked(*old(self), *final(self), "Loading backups..."@)
                    && r is ScanBackups,
                Message::ReadBackupsOk(m) => post_read_backups_ok(*old(self), *final(self), m)
                    && r is Nothing,
                Message::SaveSelected(sv) => post_save_selected(*old(self), *final(self), sv)
                    && r is Nothing,
                Message::BackupSelected(b) => *final(self) == (Pzsm {
                    selected_backup: Some(b),
                    ..*old(self)
                }) && r is Nothing,
                Message::NewBackup => post_new_backup(*old(self), *final(self), r),
                Message::ClockRead(secs, nanos) => post_clock_read(
                    *old(self),
                    *final(self),
                    secs,
                    nanos,
                    r,
                ),
                Message::ApplyBackup => post_apply_backup(*old(self), *final(self), r),
                Message::DeleteBackup => post_delete_backup(*old(self), *final(self), r),
                Message::DeleteUnusedBackups => post_delete_unused(*old(self), *final(self), r),
                Message::OpenSavesDir => r is OpenSavesDir && *final(self) == *old(self),
                Message::OpenBackupsDir => r is OpenBackupsDir && *final(self) == *old(self),
                Message::OpenGithubPage => r is OpenGithubPage && *final(self) == *old(self),
            },
    {
        match message {
            Message::Failed(err) => {
                self.handle_err(err);
                Action::Nothing
            },
            Message::ReadSaves => self.handle_read_saves(),
            Message::ReadSavesOk(saves) => self.handle_read_saves_ok(saves),
            Message::ReadBackups => self.handle_read_backups(),
            Message::ReadBackupsOk(backup_map) => {
                self.handle_read_backups_ok(backup_map);
                Action::Nothing
            },
            Message::SaveSelected(save) => {
                self.handle_save_selected(save);
                Action::Nothing
            },
            Message::NewBackup => self.handle_new_backup(),
            Message::ClockRead(secs, nanos) => self.handle_clock_read(secs, nanos),
            Message::BackupSelected(backup) => {
                self.handle_backup_selected(backup);
                Action::Nothing
            },
            Message::ApplyBackup => self.handle_apply_backup(),
            Message::DeleteBackup => self.handle_delete_backup(),
            Message::DeleteUnusedBackups => self.handle_delete_unused_backups(),
            Message::OpenSavesDir => Action::OpenSavesDir,
            Message::OpenBackupsDir => Action::OpenBackupsDir,
            Message::OpenGithubPage => Action::OpenGithubPage,
        }
    }

    /// Shows the error `err`.
    pub fn handle_err(&mut self, err: String)
        ensures
            post_err(*old(self), *final(self), err),
    {
        self.error_mask = err;
    }

    /// Starts a scan of the saves.
    pub fn handle_read_saves(&mut self) -> (r: Action)
        ensures
            masked(*old(self), *final(self), "Loading saves..."@),
            r is ScanSaves,
    {
        self.body_mask = String::from_str("Loading saves...");
        Action::ScanSaves
    }

    /// Takes a new scan of the saves; the selected save is dropped when no
    /// save of its name is left.
    pub fn handle_read_saves_ok(&mut self, saves: Vec<Save>) -> (r: Action)
        ensures
            post_read_saves_ok(*old(self), *final(self), saves, r),
    {
        self.saves = saves;
        let keep = match &self.selected_save {
            None => true,
            Some(s) => crate::engine::has_save_named(&self.saves, &s.name),
        };
        if !keep {
            self.selected_save = None;
        }
        Action::Send(Message::ReadBackups)
    }

    /// Starts a scan of the backups.
    pub fn handle_read_backups(&mut self) -> (r: Action)
        ensures
            masked(*old(self), *final(self), "Loading backups..."@),
            r is ScanBackups,
    {
        self.body_mask = String::from_str("Loading backups...");
        Action::ScanBackups
    }

    /// Takes a new scan of the backups and selects the newest backup of the
    /// selected save.
    pub fn handle_read_backups_ok(&mut self, backup_map: BackupMap)
        ensures
            post_read_backups_ok(*old(self), *final(self), backup_map),
    {
        self.body_mask = String::new();
        self.backup_map = backup_map;
        let name = match &self.selected_save {
            Some(save) => Some(save.name.clone()),
            None => None,
        };
        if let Some(n) = name {
            self.select_last_backup(n);
        }
    }

    /// Selects the newest backup of the save named `save_name`, or none
    /// when that save has no bucket.
    pub fn select_last_backup(&mut self, save_name: String)
        ensures
            post_select_last(*old(self), *final(self), save_name@),
    {
        let chosen = match self.backup_map.get(&save_name) {
            Some(list) => {
                if list.len() > 0 {
                    let last = list[list.len() - 1].duplicate();
                    assert(backups_view(list@).last() == list@[list.len() - 1]@);
                    Some(Some(last))
                } else {
                    None
                }
            },
            None => Some(None),
        };
        if let Some(c) = chosen {
            self.selected_backup = c;
        }
    }

    /// Selects `save` and its newest backup.
    pub fn handle_save_selected(&mut self, save: Save)
        ensures
            post_save_selected(*old(self), *final(self), save),
    {
        self.select_last_backup(save.name.clone());
        self.selected_save = Some(save);
    }

    /// Selects `backup`.
    pub fn handle_backup_selected(&mut self, backup: Backup)
        ensures
            *final(self) == (Pzsm { selected_backup: Some(backup), ..*old(self) }),
    {
        self.selected_backup = Some(backup);
    }

    /// Starts a backup of the selected save: the clock is read first.
    pub fn handle_new_backup(&mut self) -> (r: Action)
        ensures
            post_new_backup(*old(self), *final(self), r),
    {
        if self.selected_save.is_none() {
            return Action::Nothing;
        }
        self.body_mask = String::from_str("Creating backup...");
        Action::ReadClock
    }

    /// Backs up the selected save, named after the clock reading, then
    /// rescans the backups.
    pub fn handle_clock_read(&mut self, secs: i64, nanos: u32) -> (r: Action)
        ensures
            post_clock_read(*old(self), *final(self), secs, nanos, r),
    {
        match &self.selected_save {
            None => Action::Nothing,
            Some(save) => match create_backup(&self.backups_root, save, secs, nanos) {
                Some(plan) => Action::Run(plan, Message::ReadBackups),
                None => Action::Send(
                    Message::Failed(String::from_str("The clock reads a time with no local date")),
                ),
            },
        }
    }

    /// Restores the selected backup over the selected save, then rescans.
    pub fn handle_apply_backup(&mut self) -> (r: Action)
        ensures
            post_apply_backup(*old(self), *final(self), r),
    {
        match (&self.selected_save, &self.selected_backup) {
            (Some(save), Some(backup)) => {
                let plan = apply_backup(save, &backup.path);
                self.body_mask = String::from_str("Applying backup...");
                Action::Restore(plan)
            },
            _ => Action::Nothing,
        }
    }

    /// Deletes the selected backup (its whole timestamp directory), then
    /// rescans the backups.
    pub fn handle_delete_backup(&mut self) -> (r: Action)
        ensures
            post_delete_backup(*old(self), *final(self), r),
    {
        match &self.selected_backup {
            None => Action::Nothing,
            Some(backup) => match backup.path.parent() {
                None => Action::Nothing,
                Some(dir) => {
                    let plan = delete_backup(&dir);
                    self.body_mask = String::from_str("Deleting backup...");
                    Action::Run(plan, Message::ReadBackups)
                },
            },
        }
    }

    /// Deletes every bucket whose save is gone, then rescans; nothing when
    /// there is none.
    pub fn handle_delete_unused_backups(&mut self) -> (r: Action)
        ensures
            post_delete_unused(*old(self), *final(self), r),
    {
        let paths = unused_backup_paths(&self.saves, &self.backup_map);
        if paths.len() == 0 {
            return Action::Nothing;
        }
        let plan = delete_backup_many(&paths);
        proof {
            assert(ops_view(plan.ops@) =~= unused_dirs(
                saves_view(self.saves@),
                self.backup_map@,
            ).map_values(|d: Seq<Seq<char>>| FsOpView::Trash(d)));
        }
        self.body_mask = String::from_str("Deleting unused backups...");
        Action::Run(plan, Message::ReadSaves)
    }
}

/// `r` runs a fresh plan of the steps `ops`, then rescans the saves
/// (`rescan_saves`) or the backups.
pub open spec fn runs_then(r: Action, ops: Seq<FsOpView>, rescan_saves: bool) -> bool {
    match r {
        Action::Run(p, m) => p.wf() && p.done == 0 && p.failure is None && ops_view(p.ops@) == ops
            && if rescan_saves {
            m is ReadSaves
        } else {
            m is ReadBackups
        },
        _ => false,
    }
}

/// After selecting the newest backup of `name` in `m`, starting from `before`,
/// the selection is `after`.
pub open spec fn selects_last(
    before: Option<BackupView>,
    m: Seq<crate::backup::BucketView>,
    name: Seq<char>,
    after: Option<BackupView>,
) -> bool {
    match lookup(m, name) {
        None => after is None,
        Some(l) => if l.len() > 0 {
            after == Some(l.last())
        } else {
            after == before
        },
    }
}

} // verus!
