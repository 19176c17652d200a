//! Backups, their buckets, and the scan that finds them under the backups root.
use crate::order::{lemma_lex_total, lemma_lex_trans, lex_le, name_le};
use crate::path::DirPath;
use vstd::prelude::*;

verus! {

broadcast use vstd::seq_lib::to_multiset_build, vstd::seq_lib::to_multiset_insert, vstd::seq_lib::to_multiset_len;

/// One snapshot of a save.
#[derive(Clone, Debug)]
pub struct Backup {
    /// The timestamp token that names the snapshot.
    pub name: String,
    /// The snapshot's content directory.
    pub path: DirPath,
}

pub ghost struct BackupView {
    pub name: Seq<char>,
    pub path: Seq<Seq<char>>,
}

impl View for Backup {
    type V = BackupView;

    open spec fn view(&self) -> BackupView {
        BackupView { name: self.name@, path: self.path@ }
    }
}

impl Backup {
    /// A copy of this backup with equal fields.
    pub fn duplicate(&self) -> (r: Backup)
        ensures
            r@ == self@,
    {
        Backup { name: self.name.clone(), path: self.path.duplicate() }
    }
}

pub open spec fn backups_view(v: Seq<Backup>) -> Seq<BackupView> {
    v.map_values(|b: Backup| b@)
}

/// One entry of a directory listing.
#[derive(Clone, Debug)]
pub struct Entry {
    pub name: String,
    pub is_dir: bool,
}

/// One entry of the backups root, with the listing of its own entries
/// (empty where the entry is not a directory).
#[derive(Clone, Debug)]
pub struct BucketListing {
    pub name: String,
    pub is_dir: bool,
    pub entries: Vec<Entry>,
}

/// Where the backup `stamp` of the save `save_name` keeps its content:
/// `<root>/<save_name>/<stamp>/<save_name>`.
pub open spec fn content_path(root: Seq<Seq<char>>, save_name: Seq<char>, stamp: Seq<char>) -> Seq<
    Seq<char>,
> {
    root.push(save_name).push(stamp).push(save_name)
}

/// The backups that the listing `entries` of the bucket `bucket` holds: one
/// per directory, in listing order.
pub open spec fn listed_backups(root: Seq<Seq<char>>, bucket: Seq<char>, entries: Seq<Entry>) -> Seq<
    BackupView,
>
    decreases entries.len(),
{
    if entries.len() == 0 {
        seq![]
    } else {
        let rest = listed_backups(root, bucket, entries.drop_last());
        let e = entries.last();
        if e.is_dir {
            rest.push(BackupView { name: e.name@, path: content_path(root, bucket, e.name@) })
        } else {
            rest
        }
    }
}

/// The backups come in lexical order of their names.
pub open spec fn sorted_by_name(s: Seq<BackupView>) -> bool {
    forall|i: int, j: int| 0 <= i < j < s.len() ==> lex_le(#[trigger] s[i].name, #[trigger] s[j].name)
}

/// `s` holds exactly the backups of `listed`, ordered by name.
pub open spec fn ordered_form(s: Seq<BackupView>, listed: Seq<BackupView>) -> bool {
    sorted_by_name(s) && s.to_multiset() == listed.to_multiset()
}

fn insert_by_name(v: &mut Vec<Backup>, b: Backup)
    requires
        sorted_by_name(backups_view(old(v)@)),
    ensures
        sorted_by_name(backups_view(final(v)@)),
        backups_view(final(v)@).to_multiset() == backups_view(old(v)@).to_multiset().insert(b@),
{
    let ghost s = backups_view(v@);
    let mut pos: usize = 0;
    loop
        invariant
            pos <= v.len(),
            s == backups_view(v@),
            forall|k: int| 0 <= k < pos ==> lex_le(#[trigger] s[k].name, b@.name),
        ensures
            pos <= v.len(),
            s == backups_view(v@),
            forall|k: int| 0 <= k < pos ==> lex_le(#[trigger] s[k].name, b@.name),
            pos < v.len() ==> !lex_le(s[pos as int].name, b@.name),
        decreases v.len() - pos,
    {
        if pos == v.len() {
            break;
        }
        assert(s[pos as int].name == v@[pos as int].name@);
        if !name_le(&v[pos].name, &b.name) {
            break;
        }
        pos = pos + 1;
    }
    proof {
        if pos < s.len() {
            lemma_lex_total(s[pos as int].name, b@.name);
            assert forall|k: int| pos <= k < s.len() implies lex_le(b@.name, #[trigger] s[k].name) by {
                if k > pos {
                    lemma_lex_trans(b@.name, s[pos as int].name, s[k].name);
                }
            }
        }
    }
    let ghost bv = b@;
    v.insert(pos, b);
    proof {
        let t = s.insert(pos as int, bv);
        assert(backups_view(v@) =~= t);
        assert forall|i: int, j: int| 0 <= i < j < t.len() implies lex_le(
            #[trigger] t[i].name,
            #[trigger] t[j].name,
        ) by {
            if i < pos && j == pos {
            } else if i < pos && j > pos {
                lemma_lex_trans(t[i].name, bv.name, t[j].name);
            } else if i == pos {
            } else if j < pos {
                assert(t[i] == s[i] && t[j] == s[j]);
            } else {
                assert(t[i] == s[i - 1] && t[j] == s[j - 1]);
            }
        }
    }
}

/// The backups of the bucket `bucket` under `root`, from the bucket's
/// listing, ordered by name.
fn read_deeper_backup(root: &DirPath, bucket: &String, entries: &Vec<Entry>) -> (r: Vec<Backup>)
    ensures
        ordered_form(backups_view(r@), listed_backups(root@, bucket@, entries@)),
{
    let mut out: Vec<Backup> = Vec::new();
    let mut i: usize = 0;
    assert(entries@.take(0) =~= Seq::<Entry>::empty());
    assert(backups_view(out@) =~= Seq::<BackupView>::empty());
    while i < entries.len()
        invariant
            i <= entries.len(),
            ordered_form(backups_view(out@), listed_backups(root@, bucket@, entries@.take(i as int))),
        decreases entries.len() - i,
    {
        let e = &entries[i];
        assert(entries@.take(i + 1).drop_last() =~= entries@.take(i as int));
        assert(entries@.take(i + 1).last() == *e);
        if e.is_dir {
            let b = Backup { name: e.name.clone(), path: root.join(bucket).join(&e.name).join(bucket) };
            insert_by_name(&mut out, b);
        }
        i = i + 1;
    }
    assert(entries@.take(entries.len() as int) =~= entries@);
    out
}

/// The backups of one save, ordered by name.
#[derive(Clone, Debug)]
pub struct Bucket {
    pub name: String,
    pub backups: Vec<Backup>,
}

pub ghost struct BucketView {
    pub name: Seq<char>,
    pub backups: Seq<BackupView>,
}

impl View for Bucket {
    type V = BucketView;

    open spec fn view(&self) -> BucketView {
        BucketView { name: self.name@, backups: backups_view(self.backups@) }
    }
}

/// The backups found on disk, one bucket per save name that has any.
#[derive(Clone, Debug)]
pub struct BackupMap {
    pub buckets: Vec<Bucket>,
}

impl View for BackupMap {
    type V = Seq<BucketView>;

    open spec fn view(&self) -> Seq<BucketView> {
        self.buckets@.map_values(|b: Bucket| b@)
    }
}

/// The backups of the first bucket named `name`, if any.
pub open spec fn lookup(m: Seq<BucketView>, name: Seq<char>) -> Option<Seq<BackupView>>
    decreases m.len(),
{
    if m.len() == 0 {
        None
    } else if m[0].name == name {
        Some(m[0].backups)
    } else {
        lookup(m.drop_first(), name)
    }
}

/// The entries of the backups root that become buckets: directories that
/// hold at least one backup.
pub open spec fn kept(root: Seq<Seq<char>>, l: Seq<BucketListing>) -> Seq<BucketListing>
    decreases l.len(),
{
    if l.len() == 0 {
        seq![]
    } else {
        let c = l.last();
        if c.is_dir && listed_backups(root, c.name@, c.entries@).len() > 0 {
            kept(root, l.drop_last()).push(c)
        } else {
            kept(root, l.drop_last())
        }
    }
}

/// The buckets `m` are those that the listing `l` of `root` yields, in
/// listing order, each holding its backups ordered by name.
pub open spec fn map_of_listing(m: Seq<BucketView>, root: Seq<Seq<char>>, l: Seq<BucketListing>) -> bool {
    let k = kept(root, l);
    &&& m.len() == k.len()
    &&& forall|i: int|
        0 <= i < m.len() ==> (#[trigger] m[i]).name == k[i].name@ && ordered_form(
            m[i].backups,
            listed_backups(root, k[i].name@, k[i].entries@),
        )
}

impl BackupMap {
    /// No two buckets share a name, every bucket holds at least one backup,
    /// and its backups are ordered by name.
    pub open spec fn wf(&self) -> bool {
        &&& forall|i: int, j: int|
            0 <= i < j < self@.len() ==> (#[trigger] self@[i]).name != (#[trigger] self@[j]).name
        &&& forall|i: int|
            0 <= i < self@.len() ==> (#[trigger] self@[i]).backups.len() > 0 && sorted_by_name(
                self@[i].backups,
            )
    }

    pub fn new() -> (r: BackupMap)
        ensures
            r@ == Seq::<BucketView>::empty(),
            r.wf(),
    {
        let r = BackupMap { buckets: Vec::new() };
        assert(r@ =~= Seq::<BucketView>::empty());
        r
    }

    /// The backups of the save named `name`.
    pub fn get(&self, name: &String) -> (r: Option<&Vec<Backup>>)
        ensures
            lookup(self@, name@) is None <==> r is None,
            r matches Some(v) ==> lookup(self@, name@) == Some(backups_view(v@)),
    {
        let mut i: usize = 0;
        assert(self@.skip(0) =~= self@);
        while i < self.buckets.len()
            invariant
                i <= self.buckets.len(),
                lookup(self@, name@) == lookup(self@.skip(i as int), name@),
            decreases self.buckets.len() - i,
        {
            assert(self@.skip(i as int)[0] == self.buckets@[i as int]@);
            if self.buckets[i].name == *name {
                return Some(&self.buckets[i].backups);
            }
            assert(self@.skip(i as int).drop_first() =~= self@.skip(i + 1));
            i = i + 1;
        }
        None
    }
}

/// No two entries of the listing `l` share a name, as in any directory.
pub open spec fn distinct_names(l: Seq<BucketListing>) -> bool {
    forall|i: int, j: int| 0 <= i < j < l.len() ==> (#[trigger] l[i]).name@ != (#[trigger] l[j]).name@
}

/// Some entry of `l` before index `i` is named `name`.
pub open spec fn named_before(l: Seq<BucketListing>, i: int, name: Seq<char>) -> bool {
    exists|j: int| 0 <= j < i && (#[trigger] l[j]).name@ == name
}

/// The backups found under the backups root `root`, given the root's listing.
pub fn read_backups(root: &DirPath, listing: &Vec<BucketListing>) -> (r: BackupMap)
    requires
        distinct_names(listing@),
    ensures
        r.wf(),
        map_of_listing(r@, root@, listing@),
{
    let mut r = BackupMap::new();
    let mut i: usize = 0;
    assert(listing@.take(0) =~= Seq::<BucketListing>::empty());
    while i < listing.len()
        invariant
            i <= listing.len(),
            r.wf(),
            distinct_names(listing@),
            map_of_listing(r@, root@, listing@.take(i as int)),
            forall|t: int| 0 <= t < r@.len() ==> named_before(listing@, i as int, (#[trigger] r@[t]).name),
        decreases listing.len() - i,
    {
        let c = &listing[i];
        assert(listing@.take(i + 1).drop_last() =~= listing@.take(i as int));
        assert(listing@.take(i + 1).last() == *c);
        if c.is_dir {
            let backups = read_deeper_backup(root, &c.name, &c.entries);
            proof {
                let listed = listed_backups(root@, c.name@, c.entries@);
                assert(backups_view(backups@).to_multiset().len() == listed.to_multiset().len());
                assert(backups_view(backups@).len() == listed.len());
            }
            if backups.len() > 0 {
                let b = Bucket { name: c.name.clone(), backups };
                let ghost before = r@;
                assert forall|t: int| 0 <= t < before.len() implies (#[trigger] before[t]).name
                    != c.name@ by {
                    assert(named_before(listing@, i as int, before[t].name));
                    let j = choose|j: int| 0 <= j < i && (#[trigger] listing@[j]).name@ == before[t].name;
                    assert(listing@[i as int] == *c);
                    assert(listing@[j].name@ != listing@[i as int].name@);
                    assert(before[t] == r@[t]);
                }
                r.buckets.push(b);
                assert(r@ =~= before.push(b@));
                assert(named_before(listing@, i + 1, c.name@)) by {
                    assert(listing@[i as int] == *c);
                }
                assert(kept(root@, listing@.take(i + 1)) == kept(root@, listing@.take(i as int)).push(
                    *c,
                ));
            }
        }
        assert forall|t: int| 0 <= t < r@.len() implies named_before(
            listing@,
            i + 1,
            (#[trigger] r@[t]).name,
        ) by {
            if t < r@.len() - 1 || !named_before(listing@, i + 1, r@[t].name) {
                if named_before(listing@, i as int, r@[t].name) {
                    let j = choose|j: int| 0 <= j < i && (#[trigger] listing@[j]).name@ == r@[t].name;
                    assert(0 <= j < i + 1 && listing@[j].name@ == r@[t].name);
                }
            }
        }
        i = i + 1;
    }
    assert(listing@.take(listing.len() as int) =~= listing@);
    r
}

} // verus!
