//! The file-system steps of creating, restoring and deleting backups, and the
//! run of such steps in order.
use crate::backup::{content_path, BackupMap, BucketView};
use crate::clock::{dates_instant, representable, time_now, timestamp_text, DateParts};
use crate::path::DirPath;
use crate::save::{saves_view, Save, SaveView};
use vstd::prelude::*;

verus! {

/// A failed file-system step, with the message the step reported.
#[derive(Clone, Debug)]
pub struct IoFailure {
    pub message: String,
}

/// One file-system step of an operation.
#[derive(Clone, Debug)]
pub enum FsOp {
    /// Create a directory and every missing ancestor.
    CreateDirAll(DirPath),
    /// Create a directory whose parent exists; fails where it exists already.
    CreateNewDir(DirPath),
    /// Copy the contents of the first directory, recursively, into the second.
    CopyTree(DirPath, DirPath),
    /// Rename the first path to the second.
    Rename(DirPath, DirPath),
    /// Move a path to the recoverable trash.
    Trash(DirPath),
}

pub ghost enum FsOpView {
    CreateDirAll(Seq<Seq<char>>),
    CreateNewDir(Seq<Seq<char>>),
    CopyTree(Seq<Seq<char>>, Seq<Seq<char>>),
    Rename(Seq<Seq<char>>, Seq<Seq<char>>),
    Trash(Seq<Seq<char>>),
}

impl View for FsOp {
    type V = FsOpView;

    open spec fn view(&self) -> FsOpView {
        match self {
            FsOp::CreateDirAll(p) => FsOpView::CreateDirAll(p@),
            FsOp::CreateNewDir(p) => FsOpView::CreateNewDir(p@),
            FsOp::CopyTree(a, b) => FsOpView::CopyTree(a@, b@),
            FsOp::Rename(a, b) => FsOpView::Rename(a@, b@),
            FsOp::Trash(p) => FsOpView::Trash(p@),
        }
    }
}

impl FsOp {
    pub fn duplicate(&self) -> (r: FsOp)
        ensures
            r@ == self@,
    {
        match self {
            FsOp::CreateDirAll(p) => FsOp::CreateDirAll(p.duplicate()),
            FsOp::CreateNewDir(p) => FsOp::CreateNewDir(p.duplicate()),
            FsOp::CopyTree(a, b) => FsOp::CopyTree(a.duplicate(), b.duplicate()),
            FsOp::Rename(a, b) => FsOp::Rename(a.duplicate(), b.duplicate()),
            FsOp::Trash(p) => FsOp::Trash(p.duplicate()),
        }
    }
}

pub open spec fn ops_view(v: Seq<FsOp>) -> Seq<FsOpView> {
    v.map_values(|o: FsOp| o@)
}

/// The steps of one operation, run in order; the first failure ends the run.
#[derive(Clone, Debug)]
pub struct Plan {
    pub ops: Vec<FsOp>,
    /// How many steps have succeeded.
    pub done: usize,
    /// The message of the step that failed, if one did.
    pub failure: Option<String>,
}

impl Plan {
    pub open spec fn wf(&self) -> bool {
        &&& self.done <= self.ops.len()
        &&& self.failure is Some ==> self.done < self.ops.len()
    }

    /// No step is left to run.
    pub open spec fn is_over(&self) -> bool {
        self.failure is Some || self.done == self.ops.len()
    }

    /// A plan of `ops`, none of them run yet.
    pub fn new(ops: Vec<FsOp>) -> (r: Plan)
        ensures
            r.wf(),
            r.ops@ == ops@,
            r.done == 0,
            r.failure is None,
    {
        Plan { ops, done: 0, failure: None }
    }

    /// The step to run next, if any.
    pub fn next_op(&self) -> (r: Option<FsOp>)
        requires
            self.wf(),
        ensures
            r is None <==> self.is_over(),
            r matches Some(op) ==> op@ == self.ops@[self.done as int]@,
    {
        if self.failure.is_some() || self.done == self.ops.len() {
            None
        } else {
            Some(self.ops[self.done].duplicate())
        }
    }

    /// Records the outcome of the step that `next_op` handed out.
    pub fn record(&mut self, outcome: Result<(), String>)
        requires
            old(self).wf(),
            !old(self).is_over(),
        ensures
            final(self).wf(),
            final(self).ops@ == old(self).ops@,
            outcome is Ok ==> final(self).done == old(self).done + 1 && final(self).failure is None,
            outcome matches Err(m) ==> final(self).done == old(self).done && final(self).failure
                == Some(m),
    {
        match outcome {
            Ok(()) => {
                self.done = self.done + 1;
            },
            Err(m) => {
                self.failure = Some(m);
            },
        }
    }

    /// The result of a run that is over: the failure, if a step failed.
    pub fn finish(&self) -> (r: Result<(), IoFailure>)
        requires
            self.wf(),
            self.is_over(),
        ensures
            self.failure is None <==> r is Ok,
            r matches Err(e) ==> self.failure == Some(e.message),
    {
        match &self.failure {
            None => Ok(()),
            Some(m) => Err(IoFailure { message: m.clone() }),
        }
    }
}

/// The steps of a backup of `save` named `stamp` under `root`: make sure
/// the save's bucket exists, create the timestamp directory (which fails
/// where a backup of that name exists already, so no two backups share a
/// name), then copy the save into `<stamp>/<name>` there.
pub open spec fn create_ops(root: Seq<Seq<char>>, save: SaveView, stamp: Seq<char>) -> Seq<
    FsOpView,
> {
    seq![
        FsOpView::CreateDirAll(root.push(save.name)),
        FsOpView::CreateNewDir(root.push(save.name).push(stamp)),
        FsOpView::CopyTree(save.path, content_path(root, save.name, stamp)),
    ]
}

/// The steps that back up `save` under `backups_root` as the backup named
/// `stamp`: create its content directory, then copy the save into it.
pub fn create_backup_at(backups_root: &DirPath, save: &Save, stamp: &String) -> (r: Plan)
    ensures
        r.wf(),
        r.done == 0,
        r.failure is None,
        ops_view(r.ops@) == create_ops(backups_root@, save@, stamp@),
{
    let bucket = backups_root.join(&save.name);
    let stamp_dir = bucket.join(stamp);
    let dest = stamp_dir.join(&save.name);
    let mut ops: Vec<FsOp> = Vec::new();
    ops.push(FsOp::CreateDirAll(bucket));
    ops.push(FsOp::CreateNewDir(stamp_dir));
    ops.push(FsOp::CopyTree(save.path.duplicate(), dest));
    let r = Plan::new(ops);
    assert(ops_view(r.ops@) =~= create_ops(backups_root@, save@, stamp@));
    r
}

/// The steps that back up `save` under `backups_root`, named after the
/// instant `secs` seconds and `nanos` nanoseconds after the Unix epoch in
/// local time; `None` where that instant has no local date.
pub fn create_backup(backups_root: &DirPath, save: &Save, secs: i64, nanos: u32) -> (r: Option<
    Plan,
>)
    ensures
        representable(secs, nanos) ==> r is Some,
        r matches Some(plan) ==> plan.wf() && plan.done == 0 && plan.failure is None && exists|
            p: DateParts,
        |
            #![trigger timestamp_text(p)]
            dates_instant(p, secs, nanos) && ops_view(plan.ops@) == create_ops(
                backups_root@,
                save@,
                timestamp_text(p),
            ),
{
    match time_now(secs, nanos) {
        None => None,
        Some(stamp) => Some(create_backup_at(backups_root, save, &stamp)),
    }
}

/// Where the live save waits while a backup is restored over it: the sibling
/// `<name>_tmp` in the save's parent directory.
pub open spec fn tmp_path(save: SaveView) -> Seq<Seq<char>> {
    save.parent.push(save.name + "_tmp"@)
}

/// The steps of a restore of the backup at `backup_path` over `save`.
pub open spec fn apply_ops(save: SaveView, backup_path: Seq<Seq<char>>) -> Seq<FsOpView> {
    seq![
        FsOpView::Rename(save.path, tmp_path(save)),
        FsOpView::CopyTree(backup_path, save.path),
        FsOpView::Trash(tmp_path(save)),
    ]
}

/// The steps that restore the backup whose content directory is
/// `backup_path` over `save`: rename the live save away to its `_tmp`
/// sibling, copy the backup into the save's path, then move the renamed
/// save to the trash. The order is what keeps the save recoverable.
pub fn apply_backup(save: &Save, backup_path: &DirPath) -> (r: Plan)
    ensures
        r.wf(),
        r.done == 0,
        r.failure is None,
        ops_view(r.ops@) == apply_ops(save@, backup_path@),
{
    proof {
        reveal_strlit("_tmp");
    }
    let tmp_name = save.name.clone().concat("_tmp");
    let tmp = save.parent.join(&tmp_name);
    let mut ops: Vec<FsOp> = Vec::new();
    ops.push(FsOp::Rename(save.path.duplicate(), tmp.duplicate()));
    ops.push(FsOp::CopyTree(backup_path.duplicate(), save.path.duplicate()));
    ops.push(FsOp::Trash(tmp));
    let r = Plan::new(ops);
    assert(ops_view(r.ops@) =~= apply_ops(save@, backup_path@));
    r
}

/// Where a restore stands on disk.
#[derive(Clone, Copy, Debug, PartialEq, Eq)]
pub enum RestoreStage {
    /// Nothing has changed yet.
    Live,
    /// The live save has been renamed to its `_tmp` sibling.
    Renamed,
    /// The backup has been copied into the save's path.
    Restored,
    /// The old save has been moved to the trash.
    OldMovedToTrash,
}

/// The stage that a restore plan has reached.
pub fn restore_stage(plan: &Plan) -> (r: RestoreStage)
    requires
        plan.wf(),
        plan.ops@.len() == 3,
    ensures
        plan.done == 0 <==> r == RestoreStage::Live,
        plan.done == 1 <==> r == RestoreStage::Renamed,
        plan.done == 2 <==> r == RestoreStage::Restored,
        plan.done == 3 <==> r == RestoreStage::OldMovedToTrash,
{
    if plan.done == 0 {
        RestoreStage::Live
    } else if plan.done == 1 {
        RestoreStage::Renamed
    } else if plan.done == 2 {
        RestoreStage::Restored
    } else {
        RestoreStage::OldMovedToTrash
    }
}

/// How a restore ended.
#[derive(Clone, Debug)]
pub enum RestoreOutcome {
    /// Every step succeeded.
    Done,
    /// Renaming the live save failed: the save is untouched.
    SaveUntouched(IoFailure),
    /// Copying the backup failed after the live save was renamed away: no
    /// save stands at its path, and its data is under the `_tmp` sibling.
    SaveMissing(IoFailure),
    /// The backup is in place, but the old save could not be moved to the
    /// trash and is still under the `_tmp` sibling.
    OldSaveLeft(IoFailure),
}

/// The failure that ended a restore, if one did.
pub open spec fn failure_of(r: RestoreOutcome) -> Option<String> {
    match r {
        RestoreOutcome::Done => None,
        RestoreOutcome::SaveUntouched(e) => Some(e.message),
        RestoreOutcome::SaveMissing(e) => Some(e.message),
        RestoreOutcome::OldSaveLeft(e) => Some(e.message),
    }
}

/// The outcome of a restore plan that is over.
pub fn restore_outcome(plan: &Plan) -> (r: RestoreOutcome)
    requires
        plan.wf(),
        plan.is_over(),
        plan.ops@.len() == 3,
    ensures
        plan.failure is None <==> r is Done,
        r is SaveUntouched <==> plan.done == 0 && plan.failure is Some,
        r is SaveMissing <==> plan.done == 1 && plan.failure is Some,
        r is OldSaveLeft <==> plan.done == 2 && plan.failure is Some,
        plan.failure == failure_of(r),
{
    match &plan.failure {
        None => RestoreOutcome::Done,
        Some(m) => {
            let e = IoFailure { message: m.clone() };
            if plan.done == 0 {
                RestoreOutcome::SaveUntouched(e)
            } else if plan.done == 1 {
                RestoreOutcome::SaveMissing(e)
            } else {
                RestoreOutcome::OldSaveLeft(e)
            }
        },
    }
}

/// The step that deletes one backup: `path` is its timestamp directory,
/// which goes to the trash whole.
pub fn delete_backup(path: &DirPath) -> (r: Plan)
    ensures
        r.wf(),
        r.done == 0,
        r.failure is None,
        ops_view(r.ops@) == seq![FsOpView::Trash(path@)],
{
    let mut ops: Vec<FsOp> = Vec::new();
    ops.push(FsOp::Trash(path.duplicate()));
    let r = Plan::new(ops);
    assert(ops_view(r.ops@) =~= seq![FsOpView::Trash(path@)]);
    r
}

/// The steps that move each of `paths` to the trash, in order.
pub fn delete_backup_many(paths: &Vec<DirPath>) -> (r: Plan)
    ensures
        r.wf(),
        r.done == 0,
        r.failure is None,
        ops_view(r.ops@) == paths@.map_values(|p: DirPath| FsOpView::Trash(p@)),
{
    let mut ops: Vec<FsOp> = Vec::new();
    let mut i: usize = 0;
    while i < paths.len()
        invariant
            i <= paths.len(),
            ops_view(ops@) == paths@.take(i as int).map_values(|p: DirPath| FsOpView::Trash(p@)),
        decreases paths.len() - i,
    {
        let op = FsOp::Trash(paths[i].duplicate());
        let ghost before = ops@;
        ops.push(op);
        assert(ops_view(ops@) =~= ops_view(before).push(FsOpView::Trash(paths@[i as int]@)));
        assert(ops_view(ops@) =~= paths@.take(i + 1).map_values(|p: DirPath| FsOpView::Trash(p@)));
        i = i + 1;
    }
    assert(paths@.take(paths.len() as int) =~= paths@);
    Plan::new(ops)
}

/// Some save in `saves` is named `name`.
pub open spec fn has_save(saves: Seq<SaveView>, name: Seq<char>) -> bool {
    exists|i: int| 0 <= i < saves.len() && (#[trigger] saves[i]).name == name
}

/// The directory of a bucket, two levels above its first backup's content.
pub open spec fn bucket_dir(b: BucketView) -> Seq<Seq<char>> {
    b.backups[0].path.drop_last().drop_last()
}

/// The directories of the buckets in `m` that no save in `saves` is named
/// after, in the order of `m`.
pub open spec fn unused_dirs(saves: Seq<SaveView>, m: Seq<BucketView>) -> Seq<Seq<Seq<char>>>
    decreases m.len(),
{
    if m.len() == 0 {
        seq![]
    } else {
        let rest = unused_dirs(saves, m.drop_last());
        let b = m.last();
        if !has_save(saves, b.name) && b.backups.len() > 0 && b.backups[0].path.len() >= 2 {
            rest.push(bucket_dir(b))
        } else {
            rest
        }
    }
}

pub fn has_save_named(saves: &Vec<Save>, name: &String) -> (r: bool)
    ensures
        r == has_save(saves_view(saves@), name@),
{
    let mut i: usize = 0;
    while i < saves.len()
        invariant
            i <= saves.len(),
            forall|k: int| 0 <= k < i ==> saves@[k].name@ != name@,
        decreases saves.len() - i,
    {
        if saves[i].name == *name {
            assert(saves_view(saves@)[i as int].name == name@);
            return true;
        }
        i = i + 1;
    }
    assert forall|k: int| 0 <= k < saves_view(saves@).len() implies (#[trigger] saves_view(
        saves@,
    )[k]).name != name@ by {
        assert(saves_view(saves@)[k] == saves@[k]@);
    }
    false
}

/// The bucket directories of `map` that no save in `saves` is named after.
pub fn unused_backup_paths(saves: &Vec<Save>, map: &BackupMap) -> (r: Vec<DirPath>)
    ensures
        r@.map_values(|p: DirPath| p@) == unused_dirs(saves_view(saves@), map@),
{
    let mut out: Vec<DirPath> = Vec::new();
    let mut i: usize = 0;
    while i < map.buckets.len()
        invariant
            i <= map.buckets.len(),
            out@.map_values(|p: DirPath| p@) == unused_dirs(
                saves_view(saves@),
                map@.take(i as int),
            ),
        decreases map.buckets.len() - i,
    {
        let b = &map.buckets[i];
        assert(map@.take(i + 1).drop_last() =~= map@.take(i as int));
        assert(map@.take(i + 1).last() == b@);
        if !has_save_named(saves, &b.name) && b.backups.len() > 0 {
            assert(b@.backups[0] == b.backups@[0]@);
            if b.backups[0].path.segments.len() >= 2 {
                let dir = b.backups[0].path.parent().unwrap().parent().unwrap();
                let ghost before = out@;
                out.push(dir);
                assert(out@.map_values(|p: DirPath| p@) =~= before.map_values(|p: DirPath| p@).push(
                    bucket_dir(b@),
                ));
            }
        }
        i = i + 1;
    }
    assert(map@.take(map.buckets.len() as int) =~= map@);
    out
}

/// The steps that delete every bucket of `map` whose save is not among
/// `saves`; none when there is no such bucket.
pub fn prune_unused(saves: &Vec<Save>, map: &BackupMap) -> (r: Plan)
    ensures
        r.wf(),
        r.done == 0,
        r.failure is None,
        ops_view(r.ops@) == unused_dirs(saves_view(saves@), map@).map_values(
            |p: Seq<Seq<char>>| FsOpView::Trash(p),
        ),
{
    let paths = unused_backup_paths(saves, map);
    let r = delete_backup_many(&paths);
    assert(ops_view(r.ops@) =~= unused_dirs(saves_view(saves@), map@).map_values(
        |p: Seq<Seq<char>>| FsOpView::Trash(p),
    ));
    r
}

} // verus!
