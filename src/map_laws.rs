//! What a scan of the whole backups root shows after one bucket changed.
use crate::backup::{
    distinct_names, kept, listed_backups, lookup, map_of_listing, ordered_form, sorted_by_name,
    BackupView, BucketListing, BucketView,
};
use crate::backup::content_path;
use crate::laws::{
    backup_of, lemma_delete_removes_entry, lemma_listed_paths, lemma_new_backup_adds_one,
    lemma_new_backup_is_newest,
};
use crate::order::lex_lt;
use crate::order::{lemma_lex_antisym, lex_le};
use vstd::multiset::Multiset;
use vstd::prelude::*;

verus! {

broadcast use vstd::seq_lib::to_multiset_len, vstd::seq_lib::to_multiset_contains,
    vstd::seq_lib::to_multiset_remove;

proof fn lemma_lookup_index(m: Seq<BucketView>, name: Seq<char>)
    ensures
        lookup(m, name) is Some <==> exists|t: int| 0 <= t < m.len() && (#[trigger] m[t]).name == name,
        lookup(m, name) is Some ==> exists|t: int|
            0 <= t < m.len() && (#[trigger] m[t]).name == name && lookup(m, name) == Some(
                m[t].backups,
            ),
    decreases m.len(),
{
    if m.len() > 0 {
        lemma_lookup_index(m.drop_first(), name);
        if m[0].name != name {
            if exists|t: int| 0 <= t < m.len() && (#[trigger] m[t]).name == name {
                let t = choose|t: int| 0 <= t < m.len() && (#[trigger] m[t]).name == name;
                assert(m.drop_first()[t - 1] == m[t]);
            }
            if lookup(m, name) is Some {
                let t = choose|t: int|
                    0 <= t < m.drop_first().len() && (#[trigger] m.drop_first()[t]).name == name
                        && lookup(m.drop_first(), name) == Some(m.drop_first()[t].backups);
                assert(m[t + 1] == m.drop_first()[t]);
            }
        } else {
            assert(m[0].name == name);
        }
    }
}

proof fn lemma_kept_from_listing(root: Seq<Seq<char>>, l: Seq<BucketListing>)
    ensures
        forall|t: int|
            0 <= t < kept(root, l).len() ==> exists|i: int|
                0 <= i < l.len() && l[i] == #[trigger] kept(root, l)[t],
        forall|i: int|
            0 <= i < l.len() && (#[trigger] l[i]).is_dir && listed_backups(
                root,
                l[i].name@,
                l[i].entries@,
            ).len() > 0 ==> kept(root, l).contains(l[i]),
    decreases l.len(),
{
    if l.len() > 0 {
        let init = l.drop_last();
        lemma_kept_from_listing(root, init);
        let k = kept(root, l);
        let k0 = kept(root, init);
        assert forall|t: int| 0 <= t < k.len() implies exists|i: int|
            0 <= i < l.len() && l[i] == #[trigger] k[t] by {
            if t < k0.len() {
                assert(k[t] == k0[t]);
                let i = choose|i: int| 0 <= i < init.len() && init[i] == k0[t];
                assert(l[i] == init[i]);
            } else {
                assert(l[l.len() - 1] == k[t]);
            }
        }
        assert forall|i: int|
            0 <= i < l.len() && (#[trigger] l[i]).is_dir && listed_backups(
                root,
                l[i].name@,
                l[i].entries@,
            ).len() > 0 implies k.contains(l[i]) by {
            if i < l.len() - 1 {
                assert(init[i] == l[i]);
                let t = choose|t: int| 0 <= t < k0.len() && k0[t] == init[i];
                assert(k[t] == k0[t]);
            } else {
                assert(k[k.len() - 1] == l[i]);
            }
        }
    }
}

/// In a scan of a listing with distinct names, the save named `l[i].name`
/// has a bucket exactly when `l[i]` is a directory holding a backup, and
/// that bucket holds the backups of `l[i]`, ordered by name.
pub proof fn lemma_lookup_of_listing(
    root: Seq<Seq<char>>,
    l: Seq<BucketListing>,
    m: Seq<BucketView>,
    i: int,
)
    requires
        map_of_listing(m, root, l),
        distinct_names(l),
        0 <= i < l.len(),
    ensures
        lookup(m, l[i].name@) is Some <==> l[i].is_dir && listed_backups(
            root,
            l[i].name@,
            l[i].entries@,
        ).len() > 0,
        lookup(m, l[i].name@) matches Some(bs) ==> ordered_form(
            bs,
            listed_backups(root, l[i].name@, l[i].entries@),
        ),
{
    let name = l[i].name@;
    let k = kept(root, l);
    lemma_lookup_index(m, name);
    lemma_kept_from_listing(root, l);
    crate::laws::lemma_kept_hold_backups(root, l);
    if l[i].is_dir && listed_backups(root, name, l[i].entries@).len() > 0 {
        assert(k.contains(l[i]));
        let t = choose|t: int| 0 <= t < k.len() && k[t] == l[i];
        assert(m[t].name == name);
    }
    if lookup(m, name) is Some {
        let t = choose|t: int|
            0 <= t < m.len() && (#[trigger] m[t]).name == name && lookup(m, name) == Some(
                m[t].backups,
            );
        assert(k[t].name@ == name);
        let j = choose|j: int| 0 <= j < l.len() && l[j] == #[trigger] k[t];
        if j != i {
            if j < i {
                assert(l[j].name@ != l[i].name@);
            } else {
                assert(l[i].name@ != l[j].name@);
            }
        }
        assert(k[t] == l[i]);
    }
}

/// Backups of equal name in `m` are equal (as within one bucket, where the
/// name fixes the path).
pub open spec fn names_identify(m: Multiset<BackupView>) -> bool {
    forall|x: BackupView, y: BackupView|
        #[trigger] m.count(x) > 0 && #[trigger] m.count(y) > 0 && x.name == y.name ==> x == y
}

/// Two orderings by name of the same backups, where names identify
/// backups, are the same sequence.
proof fn lemma_sorted_unique(s1: Seq<BackupView>, s2: Seq<BackupView>)
    requires
        sorted_by_name(s1),
        sorted_by_name(s2),
        s1.to_multiset() == s2.to_multiset(),
        names_identify(s1.to_multiset()),
    ensures
        s1 == s2,
    decreases s1.len(),
{
    broadcast use vstd::multiset::group_multiset_axioms;

    assert(s1.len() == s1.to_multiset().len());
    assert(s2.len() == s2.to_multiset().len());
    if s1.len() == 0 {
        assert(s1 =~= s2);
    } else {
        let a = s1[0];
        let b = s2[0];
        assert(s2.to_multiset().count(b) > 0);
        assert(s1.contains(b));
        let j = choose|j: int| 0 <= j < s1.len() && s1[j] == b;
        if j > 0 {
            assert(lex_le(s1[0].name, s1[j].name));
        } else {
            crate::order::lemma_lex_total(a.name, a.name);
        }
        assert(s1.to_multiset().count(a) > 0);
        assert(s2.contains(a));
        let i = choose|i: int| 0 <= i < s2.len() && s2[i] == a;
        if i > 0 {
            assert(lex_le(s2[0].name, s2[i].name));
        }
        lemma_lex_antisym(a.name, b.name);
        assert(a == b);
        let t1 = s1.drop_first();
        let t2 = s2.drop_first();
        assert(t1 == s1.remove(0));
        assert(t2 == s2.remove(0));
        assert(t1.to_multiset() == s1.to_multiset().remove(a));
        assert(t2.to_multiset() == s2.to_multiset().remove(b));
        assert forall|x: int, y: int| 0 <= x < y < t1.len() implies lex_le(
            #[trigger] t1[x].name,
            #[trigger] t1[y].name,
        ) by {
            assert(t1[x] == s1[x + 1] && t1[y] == s1[y + 1]);
        }
        assert forall|x: int, y: int| 0 <= x < y < t2.len() implies lex_le(
            #[trigger] t2[x].name,
            #[trigger] t2[y].name,
        ) by {
            assert(t2[x] == s2[x + 1] && t2[y] == s2[y + 1]);
        }
        assert forall|x: BackupView, y: BackupView|
            #[trigger] t1.to_multiset().count(x) > 0 && #[trigger] t1.to_multiset().count(y) > 0
                && x.name == y.name implies x == y by {
            assert(s1.to_multiset().count(x) > 0 && s1.to_multiset().count(y) > 0);
        }
        lemma_sorted_unique(t1, t2);
        assert(s1 =~= seq![a] + t1);
        assert(s2 =~= seq![b] + t2);
    }
}

proof fn lemma_listed_names_identify(root: Seq<Seq<char>>, bucket: Seq<char>, entries: Seq<crate::backup::Entry>)
    ensures
        names_identify(listed_backups(root, bucket, entries).to_multiset()),
{
    let l = listed_backups(root, bucket, entries);
    lemma_listed_paths(root, bucket, entries);
    assert forall|x: BackupView, y: BackupView|
        #[trigger] l.to_multiset().count(x) > 0 && #[trigger] l.to_multiset().count(y) > 0
            && x.name == y.name implies x == y by {
        assert(l.contains(x));
        assert(l.contains(y));
        let i = choose|i: int| 0 <= i < l.len() && l[i] == x;
        let j = choose|j: int| 0 <= j < l.len() && l[j] == y;
        assert(x.path == content_path(root, bucket, x.name));
        assert(y.path == content_path(root, bucket, y.name));
    }
}

proof fn lemma_lookup_named(root: Seq<Seq<char>>, l: Seq<BucketListing>, m: Seq<BucketView>, name: Seq<char>)
    requires
        map_of_listing(m, root, l),
        lookup(m, name) is Some,
    ensures
        exists|i: int| 0 <= i < l.len() && (#[trigger] l[i]).name@ == name,
{
    lemma_lookup_index(m, name);
    lemma_kept_from_listing(root, l);
    let t = choose|t: int| 0 <= t < m.len() && (#[trigger] m[t]).name == name;
    let i = choose|i: int| 0 <= i < l.len() && l[i] == #[trigger] kept(root, l)[t];
    assert(l[i].name@ == name);
}

/// Changing the listing of one bucket leaves every other save's backups in
/// the scan as they were.
pub proof fn lemma_other_buckets_unchanged(
    root: Seq<Seq<char>>,
    l: Seq<BucketListing>,
    l2: Seq<BucketListing>,
    m: Seq<BucketView>,
    m2: Seq<BucketView>,
    b: int,
)
    requires
        distinct_names(l),
        map_of_listing(m, root, l),
        map_of_listing(m2, root, l2),
        l2.len() == l.len(),
        0 <= b < l.len(),
        forall|i: int| 0 <= i < l.len() && i != b ==> #[trigger] l2[i] == l[i],
        l2[b].name@ == l[b].name@,
    ensures
        distinct_names(l2),
        forall|name: Seq<char>| name != l[b].name@ ==> #[trigger] lookup(m2, name) == lookup(m, name),
{
    let nb = l[b].name@;
    assert(distinct_names(l2)) by {
        assert forall|i: int, j: int| 0 <= i < j < l2.len() implies (#[trigger] l2[i]).name@
            != (#[trigger] l2[j]).name@ by {
            if i != b {
                assert(l2[i] == l[i]);
            }
            if j != b {
                assert(l2[j] == l[j]);
            }
            assert(l[i].name@ != l[j].name@);
        }
    }
    assert forall|name: Seq<char>| name != nb implies #[trigger] lookup(m2, name) == lookup(m, name) by {
        if exists|i: int| 0 <= i < l.len() && (#[trigger] l[i]).name@ == name {
            let i = choose|i: int| 0 <= i < l.len() && (#[trigger] l[i]).name@ == name;
            assert(i != b);
            assert(l2[i] == l[i]);
            lemma_lookup_of_listing(root, l, m, i);
            lemma_lookup_of_listing(root, l2, m2, i);
            if lookup(m, name) is Some {
                lemma_listed_names_identify(root, name, l[i].entries@);
                lemma_sorted_unique(lookup(m, name)->0, lookup(m2, name)->0);
            }
        } else {
            if lookup(m, name) is Some {
                lemma_lookup_named(root, l, m, name);
            }
            if lookup(m2, name) is Some {
                lemma_lookup_named(root, l2, m2, name);
                let i = choose|i: int| 0 <= i < l2.len() && (#[trigger] l2[i]).name@ == name;
                if i != b {
                    assert(l2[i] == l[i]);
                }
            }
        }
    }
}

/// Moving the timestamp directory of one backup out of the backups root
/// changes the next scan in that backup's bucket only: the backup leaves
/// its place in the bucket's ordered list, and a bucket left empty leaves
/// the map; every other save's backups stay as they were.
pub proof fn lemma_delete_in_scan(
    root: Seq<Seq<char>>,
    l: Seq<BucketListing>,
    l2: Seq<BucketListing>,
    m: Seq<BucketView>,
    m2: Seq<BucketView>,
    b: int,
    k: int,
)
    requires
        distinct_names(l),
        map_of_listing(m, root, l),
        map_of_listing(m2, root, l2),
        l2.len() == l.len(),
        0 <= b < l.len(),
        forall|i: int| 0 <= i < l.len() && i != b ==> #[trigger] l2[i] == l[i],
        l2[b].name@ == l[b].name@,
        l[b].is_dir,
        l2[b].is_dir,
        0 <= k < l[b].entries@.len(),
        l[b].entries@[k].is_dir,
        l2[b].entries@ == l[b].entries@.remove(k),
    ensures
        forall|name: Seq<char>| name != l[b].name@ ==> #[trigger] lookup(m2, name) == lookup(m, name),
        lookup(m, l[b].name@) matches Some(bs) && exists|j: int|
            0 <= j < bs.len() && bs[j] == backup_of(root, l[b].name@, l[b].entries@[k])
                && lookup(m2, l[b].name@) == if bs.len() == 1 {
                None
            } else {
                Some(bs.remove(j))
            },
{
    broadcast use vstd::multiset::group_multiset_axioms;

    let nb = l[b].name@;
    lemma_other_buckets_unchanged(root, l, l2, m, m2, b);
    let entries = l[b].entries@;
    let x = backup_of(root, nb, entries[k]);
    let big = listed_backups(root, nb, entries);
    let small = listed_backups(root, nb, entries.remove(k));
    lemma_delete_removes_entry(root, nb, entries, k);
    assert(big.len() == big.to_multiset().len());
    assert(small.len() == small.to_multiset().len());
    lemma_lookup_of_listing(root, l, m, b);
    lemma_lookup_of_listing(root, l2, m2, b);
    let bs = lookup(m, nb)->0;
    assert(bs.len() == bs.to_multiset().len());
    assert(seq![x][0] == x);
    assert(seq![x].contains(x));
    assert(seq![x].to_multiset().count(x) > 0);
    assert(bs.to_multiset().count(x) > 0);
    assert(bs.contains(x));
    let j = choose|j: int| 0 <= j < bs.len() && bs[j] == x;
    if bs.len() > 1 {
        let rest = bs.remove(j);
        assert(rest.to_multiset() == bs.to_multiset().remove(x));
        assert forall|p: int, q: int| 0 <= p < q < rest.len() implies lex_le(
            #[trigger] rest[p].name,
            #[trigger] rest[q].name,
        ) by {
            let pp = if p < j { p } else { p + 1 };
            let qq = if q < j { q } else { q + 1 };
            assert(rest[p] == bs[pp] && rest[q] == bs[qq]);
        }
        lemma_listed_names_identify(root, nb, entries.remove(k));
        lemma_sorted_unique(lookup(m2, nb)->0, rest);
    }
}

/// The backups that a scan shows for the save `name`; none where it has
/// no bucket.
pub open spec fn backups_of(m: Seq<BucketView>, name: Seq<char>) -> Seq<BackupView> {
    match lookup(m, name) {
        Some(bs) => bs,
        None => seq![],
    }
}

/// A new timestamp directory `e`, of a name that its bucket does not hold
/// yet, adds exactly its backup to that save's backups in the next scan,
/// and changes no other save's. Where its name comes after every older
/// name (as a later clock reading gives), it is the last backup, strictly
/// newest, and the older ones keep their order before it.
pub proof fn lemma_create_in_scan(
    root: Seq<Seq<char>>,
    l: Seq<BucketListing>,
    l2: Seq<BucketListing>,
    m: Seq<BucketView>,
    m2: Seq<BucketView>,
    b: int,
    e: crate::backup::Entry,
)
    requires
        distinct_names(l),
        map_of_listing(m, root, l),
        map_of_listing(m2, root, l2),
        l2.len() == l.len(),
        0 <= b < l.len(),
        forall|i: int| 0 <= i < l.len() && i != b ==> #[trigger] l2[i] == l[i],
        l2[b].name@ == l[b].name@,
        l[b].is_dir,
        l2[b].is_dir,
        e.is_dir,
        l2[b].entries@ == l[b].entries@.push(e),
        forall|i: int|
            0 <= i < listed_backups(root, l[b].name@, l[b].entries@).len() ==> (#[trigger] listed_backups(
                root,
                l[b].name@,
                l[b].entries@,
            )[i]).name != e.name@,
    ensures
        forall|name: Seq<char>| name != l[b].name@ ==> #[trigger] lookup(m2, name) == lookup(m, name),
        lookup(m2, l[b].name@) is Some,
        backups_of(m2, l[b].name@).len() == backups_of(m, l[b].name@).len() + 1,
        backups_of(m2, l[b].name@).to_multiset() == backups_of(m, l[b].name@).to_multiset().insert(
            backup_of(root, l[b].name@, e),
        ),
        (forall|i: int|
            0 <= i < listed_backups(root, l[b].name@, l[b].entries@).len() ==> lex_lt(
                (#[trigger] listed_backups(root, l[b].name@, l[b].entries@)[i]).name,
                e.name@,
            )) ==> backups_of(m2, l[b].name@).last() == backup_of(root, l[b].name@, e)
            && backups_of(m2, l[b].name@).drop_last() == backups_of(m, l[b].name@),
{
    broadcast use vstd::multiset::group_multiset_axioms;

    let nb = l[b].name@;
    lemma_other_buckets_unchanged(root, l, l2, m, m2, b);
    let entries = l[b].entries@;
    let big = listed_backups(root, nb, entries);
    let x = backup_of(root, nb, e);
    assert(entries.push(e).drop_last() =~= entries);
    assert(listed_backups(root, nb, entries.push(e)) == big.push(x));
    lemma_lookup_of_listing(root, l, m, b);
    lemma_lookup_of_listing(root, l2, m2, b);
    let old = backups_of(m, nb);
    let new = backups_of(m2, nb);
    if lookup(m, nb) is None {
        assert(big.len() == 0);
        assert(big =~= Seq::<BackupView>::empty());
        assert(old.to_multiset() =~= big.to_multiset());
    }
    assert(ordered_form(old, big));
    lemma_new_backup_adds_one(root, nb, entries, e, old, new);
    if forall|i: int| 0 <= i < big.len() ==> lex_lt((#[trigger] big[i]).name, e.name@) {
        lemma_new_backup_is_newest(root, nb, entries, e, old, new);
        let n = new.len() - 1;
        let init = new.drop_last();
        assert(init == new.remove(n));
        assert(init.to_multiset() == new.to_multiset().remove(new[n]));
        assert(init.to_multiset() =~= old.to_multiset());
        assert forall|p: int, q: int| 0 <= p < q < init.len() implies lex_le(
            #[trigger] init[p].name,
            #[trigger] init[q].name,
        ) by {
            assert(init[p] == new[p] && init[q] == new[q]);
        }
        lemma_listed_names_identify(root, nb, entries);
        lemma_sorted_unique(init, old);
    }
}

/// The first backup of a save: a new bucket directory `c` holding one
/// timestamp directory gives that save exactly that one backup in the next
/// scan, and changes no other save's.
pub proof fn lemma_first_backup_in_scan(
    root: Seq<Seq<char>>,
    l: Seq<BucketListing>,
    c: BucketListing,
    m: Seq<BucketView>,
    m2: Seq<BucketView>,
    e: crate::backup::Entry,
)
    requires
        distinct_names(l),
        forall|i: int| 0 <= i < l.len() ==> (#[trigger] l[i]).name@ != c.name@,
        map_of_listing(m, root, l),
        map_of_listing(m2, root, l.push(c)),
        c.is_dir,
        e.is_dir,
        c.entries@ == seq![e],
    ensures
        lookup(m, c.name@) is None,
        lookup(m2, c.name@) == Some(seq![backup_of(root, c.name@, e)]),
        forall|name: Seq<char>| name != c.name@ ==> #[trigger] lookup(m2, name) == lookup(m, name),
{
    broadcast use vstd::multiset::group_multiset_axioms;

    let l2 = l.push(c);
    let n = l.len() as int;
    assert(l2[n] == c);
    assert(distinct_names(l2)) by {
        assert forall|i: int, j: int| 0 <= i < j < l2.len() implies (#[trigger] l2[i]).name@
            != (#[trigger] l2[j]).name@ by {
            assert(l2[i] == l[i]);
            if j < n {
                assert(l2[j] == l[j]);
            }
        }
    }
    if lookup(m, c.name@) is Some {
        lemma_lookup_named(root, l, m, c.name@);
    }
    let x = backup_of(root, c.name@, e);
    assert(c.entries@.drop_last() =~= Seq::<crate::backup::Entry>::empty());
    assert(c.entries@.last() == e);
    assert(listed_backups(root, c.name@, c.entries@.drop_last()) == Seq::<BackupView>::empty());
    assert(listed_backups(root, c.name@, c.entries@) =~= seq![x]);
    lemma_lookup_of_listing(root, l2, m2, n);
    let bs = lookup(m2, c.name@)->0;
    assert(bs.len() == bs.to_multiset().len());
    assert(seq![x].len() == seq![x].to_multiset().len());
    assert(seq![x][0] == x);
    assert(seq![x].contains(x));
    assert(seq![x].to_multiset().count(x) > 0);
    assert(bs.to_multiset().count(x) > 0);
    assert(bs.contains(x));
    assert(bs =~= seq![x]);
    assert forall|name: Seq<char>| name != c.name@ implies #[trigger] lookup(m2, name) == lookup(m, name) by {
        if exists|i: int| 0 <= i < l.len() && (#[trigger] l[i]).name@ == name {
            let i = choose|i: int| 0 <= i < l.len() && (#[trigger] l[i]).name@ == name;
            assert(l2[i] == l[i]);
            lemma_lookup_of_listing(root, l, m, i);
            lemma_lookup_of_listing(root, l2, m2, i);
            if lookup(m, name) is Some {
                lemma_listed_names_identify(root, name, l[i].entries@);
                lemma_sorted_unique(lookup(m, name)->0, lookup(m2, name)->0);
            }
        } else {
            if lookup(m, name) is Some {
                lemma_lookup_named(root, l, m, name);
            }
            if lookup(m2, name) is Some {
                lemma_lookup_named(root, l2, m2, name);
                let i = choose|i: int| 0 <= i < l2.len() && (#[trigger] l2[i]).name@ == name;
                if i < n {
                    assert(l2[i] == l[i]);
                }
            }
        }
    }
}

} // verus!
