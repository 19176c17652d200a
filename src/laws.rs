//! What holds across scans and operations.
use crate::backup::{
    content_path, kept, listed_backups, map_of_listing, ordered_form, BackupView, BucketView, Entry,
};
use crate::engine::{apply_ops, bucket_dir, create_ops, unused_dirs, FsOpView};
use crate::order::{lemma_lex_antisym, lex_le, lex_lt};
use crate::save::{dir_count, save_of, saves_in, saves_under, Category, SaveView, TimedEntry};
use vstd::prelude::*;

verus! {

broadcast use vstd::seq_lib::to_multiset_build, vstd::seq_lib::to_multiset_len,
    vstd::seq_lib::to_multiset_contains, vstd::seq_lib::to_multiset_remove;

/// `sv` is the save of some directory among `entries`.
pub open spec fn from_some_dir(parent: Seq<Seq<char>>, entries: Seq<TimedEntry>, sv: SaveView) -> bool {
    exists|k: int|
        0 <= k < entries.len() && (#[trigger] entries[k]).is_dir && sv == save_of(parent, entries[k])
}

/// A scan of a category directory yields one save per subdirectory, each
/// with the subdirectory's name and modification time, and nothing else.
pub proof fn lemma_one_save_per_directory(parent: Seq<Seq<char>>, entries: Seq<TimedEntry>)
    ensures
        saves_in(parent, entries).len() == dir_count(entries),
        forall|k: int|
            0 <= k < entries.len() && (#[trigger] entries[k]).is_dir ==> saves_in(
                parent,
                entries,
            ).contains(save_of(parent, entries[k])),
        forall|j: int|
            0 <= j < saves_in(parent, entries).len() ==> from_some_dir(
                parent,
                entries,
                #[trigger] saves_in(parent, entries)[j],
            ),
    decreases entries.len(),
{
    if entries.len() > 0 {
        let init = entries.drop_last();
        lemma_one_save_per_directory(parent, init);
        let s = saves_in(parent, entries);
        let s0 = saves_in(parent, init);
        assert forall|k: int| 0 <= k < entries.len() && (#[trigger] entries[k]).is_dir implies s.contains(
            save_of(parent, entries[k]),
        ) by {
            if k < entries.len() - 1 {
                assert(init[k] == entries[k]);
                let j = choose|j: int| 0 <= j < s0.len() && s0[j] == save_of(parent, init[k]);
                assert(s[j] == s0[j]);
            } else {
                assert(s[s.len() - 1] == save_of(parent, entries[k]));
            }
        }
        assert forall|j: int| 0 <= j < s.len() implies from_some_dir(
            parent,
            entries,
            #[trigger] s[j],
        ) by {
            if j < s0.len() {
                assert(s[j] == s0[j]);
                assert(from_some_dir(parent, init, s0[j]));
                let k = choose|k: int|
                    0 <= k < init.len() && (#[trigger] init[k]).is_dir && s0[j] == save_of(
                        parent,
                        init[k],
                    );
                assert(entries[k] == init[k]);
            } else {
                let k = entries.len() - 1;
                assert(entries[k] == entries.last());
            }
        }
    }
}

/// The number of subdirectories of every category directory in `cats`.
pub open spec fn total_dirs(cats: Seq<Category>) -> nat
    decreases cats.len(),
{
    if cats.len() == 0 {
        0
    } else {
        total_dirs(cats.drop_last()) + if cats.last().is_dir {
            dir_count(cats.last().entries@)
        } else {
            0nat
        }
    }
}

/// `sv` is the save of some subdirectory of some category directory.
pub open spec fn from_some_category(root: Seq<Seq<char>>, cats: Seq<Category>, sv: SaveView) -> bool {
    exists|c: int|
        0 <= c < cats.len() && (#[trigger] cats[c]).is_dir && from_some_dir(
            root.push(cats[c].name@),
            cats[c].entries@,
            sv,
        )
}

/// A scan of the saves root yields one save per subdirectory of every
/// category directory, each with the subdirectory's name, place and
/// modification time, and nothing else.
pub proof fn lemma_one_save_per_directory_under_root(root: Seq<Seq<char>>, cats: Seq<Category>)
    ensures
        saves_under(root, cats).len() == total_dirs(cats),
        forall|c: int, k: int|
            0 <= c < cats.len() && cats[c].is_dir && 0 <= k < cats[c].entries@.len()
                && (#[trigger] cats[c].entries@[k]).is_dir ==> saves_under(root, cats).contains(
                save_of(root.push(cats[c].name@), cats[c].entries@[k]),
            ),
        forall|j: int|
            0 <= j < saves_under(root, cats).len() ==> from_some_category(
                root,
                cats,
                #[trigger] saves_under(root, cats)[j],
            ),
    decreases cats.len(),
{
    if cats.len() > 0 {
        let init = cats.drop_last();
        let n = cats.len() - 1;
        let last = cats[n];
        assert(last == cats.last());
        lemma_one_save_per_directory_under_root(root, init);
        lemma_one_save_per_directory(root.push(last.name@), last.entries@);
        let s0 = saves_under(root, init);
        let x = if last.is_dir {
            saves_in(root.push(last.name@), last.entries@)
        } else {
            Seq::<SaveView>::empty()
        };
        let s = saves_under(root, cats);
        assert(s == s0 + x);
        assert forall|c: int, k: int|
            0 <= c < cats.len() && cats[c].is_dir && 0 <= k < cats[c].entries@.len()
                && (#[trigger] cats[c].entries@[k]).is_dir implies s.contains(
            save_of(root.push(cats[c].name@), cats[c].entries@[k]),
        ) by {
            let sv = save_of(root.push(cats[c].name@), cats[c].entries@[k]);
            if c < n {
                assert(init[c] == cats[c]);
                assert(init[c].entries@[k].is_dir);
                assert(s0.contains(sv));
                let j = choose|j: int| 0 <= j < s0.len() && s0[j] == sv;
                assert(s[j] == sv);
            } else {
                assert(x.contains(sv));
                let j = choose|j: int| 0 <= j < x.len() && x[j] == sv;
                assert(s[s0.len() + j] == sv);
            }
        }
        assert forall|j: int| 0 <= j < s.len() implies from_some_category(
            root,
            cats,
            #[trigger] s[j],
        ) by {
            if j < s0.len() {
                assert(s[j] == s0[j]);
                assert(from_some_category(root, init, s0[j]));
                let c = choose|c: int|
                    0 <= c < init.len() && (#[trigger] init[c]).is_dir && from_some_dir(
                        root.push(init[c].name@),
                        init[c].entries@,
                        s0[j],
                    );
                assert(cats[c] == init[c]);
            } else {
                assert(s[j] == x[j - s0.len()]);
                assert(from_some_dir(root.push(last.name@), last.entries@, x[j - s0.len()]));
                assert(cats[n] == last);
            }
        }
    }
}

/// Every backup that a bucket listing yields keeps its content at
/// `<root>/<bucket>/<name>/<bucket>`.
pub proof fn lemma_listed_paths(root: Seq<Seq<char>>, bucket: Seq<char>, entries: Seq<Entry>)
    ensures
        forall|i: int|
            0 <= i < listed_backups(root, bucket, entries).len() ==> (#[trigger] listed_backups(
                root,
                bucket,
                entries,
            )[i]).path == content_path(root, bucket, listed_backups(root, bucket, entries)[i].name),
    decreases entries.len(),
{
    if entries.len() > 0 {
        lemma_listed_paths(root, bucket, entries.drop_last());
        let l = listed_backups(root, bucket, entries);
        let r = listed_backups(root, bucket, entries.drop_last());
        assert forall|i: int| 0 <= i < l.len() implies (#[trigger] l[i]).path == content_path(
            root,
            bucket,
            l[i].name,
        ) by {
            if i < r.len() {
                assert(l[i] == r[i]);
            }
        }
    }
}

/// A new backup whose name no backup of its bucket has yet (which the
/// backup's `CreateNewDir` step makes sure of when it succeeds) adds exactly
/// that one backup to the next scan of the bucket.
pub proof fn lemma_new_backup_adds_one(
    root: Seq<Seq<char>>,
    bucket: Seq<char>,
    entries: Seq<Entry>,
    e: Entry,
    before: Seq<BackupView>,
    after: Seq<BackupView>,
)
    requires
        e.is_dir,
        forall|i: int|
            0 <= i < listed_backups(root, bucket, entries).len() ==> (#[trigger] listed_backups(
                root,
                bucket,
                entries,
            )[i]).name != e.name@,
        ordered_form(before, listed_backups(root, bucket, entries)),
        ordered_form(after, listed_backups(root, bucket, entries.push(e))),
    ensures
        after.len() == before.len() + 1,
        after.to_multiset() == before.to_multiset().insert(backup_of(root, bucket, e)),
        before.to_multiset().count(backup_of(root, bucket, e)) == 0,
{
    let old_list = listed_backups(root, bucket, entries);
    let nb = backup_of(root, bucket, e);
    assert(entries.push(e).drop_last() =~= entries);
    assert(listed_backups(root, bucket, entries.push(e)) == old_list.push(nb));
    assert(after.len() == after.to_multiset().len());
    assert(before.len() == before.to_multiset().len());
    assert(!old_list.contains(nb));
    assert(old_list.to_multiset().count(nb) == 0);
}

/// A new backup whose name comes after every name already in its bucket
/// adds exactly one entry to the next scan of the bucket, and that entry is
/// the last and strictly newest one.
pub proof fn lemma_new_backup_is_newest(
    root: Seq<Seq<char>>,
    bucket: Seq<char>,
    entries: Seq<Entry>,
    e: Entry,
    before: Seq<BackupView>,
    after: Seq<BackupView>,
)
    requires
        e.is_dir,
        forall|i: int|
            0 <= i < listed_backups(root, bucket, entries).len() ==> lex_lt(
                (#[trigger] listed_backups(root, bucket, entries)[i]).name,
                e.name@,
            ),
        ordered_form(before, listed_backups(root, bucket, entries)),
        ordered_form(after, listed_backups(root, bucket, entries.push(e))),
    ensures
        after.len() == before.len() + 1,
        after.last().name == e.name@,
        forall|i: int| 0 <= i < after.len() - 1 ==> lex_lt((#[trigger] after[i]).name, e.name@),
{
    let old_list = listed_backups(root, bucket, entries);
    let nb = BackupView { name: e.name@, path: content_path(root, bucket, e.name@) };
    assert(entries.push(e).drop_last() =~= entries);
    assert(listed_backups(root, bucket, entries.push(e)) == old_list.push(nb));
    assert(after.to_multiset() == old_list.to_multiset().insert(nb));
    assert(after.len() == after.to_multiset().len());
    assert(before.len() == before.to_multiset().len());
    assert(old_list.len() == old_list.to_multiset().len());
    let n = after.len() - 1;
    assert forall|i: int| 0 <= i < after.len() && after[i] != nb implies lex_lt(
        (#[trigger] after[i]).name,
        e.name@,
    ) by {
        assert(after.to_multiset().count(after[i]) > 0);
        assert(old_list.to_multiset().count(after[i]) > 0);
        assert(old_list.contains(after[i]));
    }
    assert(after.to_multiset().count(nb) > 0);
    let k = choose|k: int| 0 <= k < after.len() && after[k] == nb;
    if after[n] != nb {
        assert(lex_lt(after[n].name, e.name@));
        assert(k < n);
        assert(lex_le(after[k].name, after[n].name));
        lemma_lex_antisym(after[n].name, e.name@);
    }
    assert forall|i: int| 0 <= i < after.len() - 1 implies lex_lt((#[trigger] after[i]).name, e.name@) by {
        if after[i] == nb {
            assert(after[n] == nb);
            assert(after.to_multiset().count(nb) == old_list.to_multiset().count(nb) + 1);
            assert(!old_list.contains(nb)) by {
                if old_list.contains(nb) {
                    let j = choose|j: int| 0 <= j < old_list.len() && old_list[j] == nb;
                    assert(lex_lt(old_list[j].name, e.name@));
                }
            }
            assert(old_list.to_multiset().count(nb) == 0);
            assert(after.remove(n).to_multiset() == after.to_multiset().remove(nb));
            assert(after.remove(n)[i] == nb);
            assert(after.remove(n).to_multiset().count(nb) > 0);
        }
    }
}

/// The backup that the directory entry `e` of the bucket `bucket` holds.
pub open spec fn backup_of(root: Seq<Seq<char>>, bucket: Seq<char>, e: Entry) -> BackupView {
    BackupView { name: e.name@, path: content_path(root, bucket, e.name@) }
}

/// Moving one timestamp directory of a bucket away removes exactly its
/// backup from the next scan of the bucket; the directory that a delete
/// moves is the one above the backup's content.
pub proof fn lemma_delete_removes_entry(
    root: Seq<Seq<char>>,
    bucket: Seq<char>,
    entries: Seq<Entry>,
    k: int,
)
    requires
        0 <= k < entries.len(),
        entries[k].is_dir,
    ensures
        backup_of(root, bucket, entries[k]).path.drop_last() == root.push(bucket).push(
            entries[k].name@,
        ),
        listed_backups(root, bucket, entries).to_multiset().count(backup_of(root, bucket, entries[k]))
            > 0,
        listed_backups(root, bucket, entries.remove(k)).to_multiset() == listed_backups(
            root,
            bucket,
            entries,
        ).to_multiset().remove(backup_of(root, bucket, entries[k])),
    decreases entries.len(),
{
    broadcast use vstd::multiset::group_multiset_axioms;

    let b = backup_of(root, bucket, entries[k]);
    let init = entries.drop_last();
    let l = listed_backups(root, bucket, entries);
    let l0 = listed_backups(root, bucket, init);
    assert(content_path(root, bucket, entries[k].name@).drop_last() =~= root.push(bucket).push(
        entries[k].name@,
    ));
    if k == entries.len() - 1 {
        assert(entries.remove(k) =~= init);
        assert(l == l0.push(b));
        assert(l.to_multiset() == l0.to_multiset().insert(b));
        assert(l0.to_multiset() =~= l0.to_multiset().insert(b).remove(b));
    } else {
        lemma_delete_removes_entry(root, bucket, init, k);
        assert(init[k] == entries[k]);
        assert(entries.remove(k).drop_last() =~= init.remove(k));
        assert(entries.remove(k).last() == entries.last());
        let r = listed_backups(root, bucket, entries.remove(k));
        let r0 = listed_backups(root, bucket, init.remove(k));
        if entries.last().is_dir {
            let x = backup_of(root, bucket, entries.last());
            assert(l == l0.push(x));
            assert(r == r0.push(x));
            assert(l.to_multiset() == l0.to_multiset().insert(x));
            assert(r.to_multiset() == r0.to_multiset().insert(x));
            assert(r.to_multiset() =~= l.to_multiset().remove(b));
        } else {
            assert(l == l0);
            assert(r == r0);
        }
    }
}

/// The kept entries of a listing are directories that hold a backup.
pub proof fn lemma_kept_hold_backups(root: Seq<Seq<char>>, l: Seq<crate::backup::BucketListing>)
    ensures
        forall|i: int|
            0 <= i < kept(root, l).len() ==> (#[trigger] kept(root, l)[i]).is_dir && listed_backups(
                root,
                kept(root, l)[i].name@,
                kept(root, l)[i].entries@,
            ).len() > 0,
    decreases l.len(),
{
    if l.len() > 0 {
        lemma_kept_hold_backups(root, l.drop_last());
        let k = kept(root, l);
        let k0 = kept(root, l.drop_last());
        assert forall|i: int| 0 <= i < k.len() implies (#[trigger] k[i]).is_dir && listed_backups(
            root,
            k[i].name@,
            k[i].entries@,
        ).len() > 0 by {
            if i < k0.len() {
                assert(k[i] == k0[i]);
            }
        }
    }
}

/// With no save left, pruning removes every bucket directory, in order.
proof fn lemma_unused_without_saves(root: Seq<Seq<char>>, m: Seq<BucketView>)
    requires
        forall|i: int|
            0 <= i < m.len() ==> (#[trigger] m[i]).backups.len() > 0 && m[i].backups[0].path
                == content_path(root, m[i].name, m[i].backups[0].name),
    ensures
        unused_dirs(Seq::<SaveView>::empty(), m) == m.map_values(|b: BucketView| root.push(b.name)),
    decreases m.len(),
{
    if m.len() > 0 {
        let init = m.drop_last();
        assert forall|i: int| 0 <= i < init.len() implies (#[trigger] init[i]).backups.len() > 0
            && init[i].backups[0].path == content_path(root, init[i].name, init[i].backups[0].name) by {
            assert(init[i] == m[i]);
        }
        lemma_unused_without_saves(root, init);
        let b = m.last();
        assert(m[m.len() - 1] == b);
        assert(bucket_dir(b) =~= root.push(b.name));
        assert(m.map_values(|b: BucketView| root.push(b.name)) =~= init.map_values(
            |b: BucketView| root.push(b.name),
        ).push(root.push(b.name)));
    } else {
        assert(m.map_values(|b: BucketView| root.push(b.name)) =~= Seq::<Seq<Seq<char>>>::empty());
    }
}

/// Pruning with no saves, over the buckets of a scan of `root`, moves every
/// bucket directory `<root>/<name>` to the trash, one per bucket, in order.
pub proof fn lemma_prune_without_saves(
    root: Seq<Seq<char>>,
    l: Seq<crate::backup::BucketListing>,
    m: Seq<BucketView>,
)
    requires
        map_of_listing(m, root, l),
    ensures
        unused_dirs(Seq::<SaveView>::empty(), m) == m.map_values(|b: BucketView| root.push(b.name)),
{
    lemma_kept_hold_backups(root, l);
    let k = kept(root, l);
    assert forall|i: int| 0 <= i < m.len() implies (#[trigger] m[i]).backups.len() > 0
        && m[i].backups[0].path == content_path(root, m[i].name, m[i].backups[0].name) by {
        let listed = listed_backups(root, k[i].name@, k[i].entries@);
        assert(m[i].backups.to_multiset() == listed.to_multiset());
        assert(listed.len() == listed.to_multiset().len());
        assert(m[i].backups.len() == m[i].backups.to_multiset().len());
        let first = m[i].backups[0];
        assert(m[i].backups.to_multiset().count(first) > 0);
        assert(listed.contains(first));
        lemma_listed_paths(root, k[i].name@, k[i].entries@);
    }
    lemma_unused_without_saves(root, m);
}

/// A restore of a backup reads the very directory that creating the backup
/// copied the save into, and copies it back into the save's path. (What the
/// copies hold on disk is outside what the library can state.)
pub proof fn lemma_restore_copies_back(root: Seq<Seq<char>>, save: SaveView, stamp: Seq<char>)
    ensures
        create_ops(root, save, stamp)[2] == FsOpView::CopyTree(
            save.path,
            content_path(root, save.name, stamp),
        ),
        apply_ops(save, content_path(root, save.name, stamp))[1] == FsOpView::CopyTree(
            content_path(root, save.name, stamp),
            save.path,
        ),
{
}

} // verus!
