//! Live saves and the scan that finds them under the saves root.
use crate::path::DirPath;
use vstd::prelude::*;

verus! {

/// One live save directory.
#[derive(Clone, Debug)]
pub struct Save {
    pub name: String,
    pub path: DirPath,
    pub update_time: String,
    pub parent: DirPath,
}

pub ghost struct SaveView {
    pub name: Seq<char>,
    pub path: Seq<Seq<char>>,
    pub update_time: Seq<char>,
    pub parent: Seq<Seq<char>>,
}

impl View for Save {
    type V = SaveView;

    open spec fn view(&self) -> SaveView {
        SaveView {
            name: self.name@,
            path: self.path@,
            update_time: self.update_time@,
            parent: self.parent@,
        }
    }
}

impl Save {
    /// A copy of this save with equal fields.
    pub fn duplicate(&self) -> (r: Save)
        ensures
            r@ == self@,
    {
        Save {
            name: self.name.clone(),
            path: self.path.duplicate(),
            update_time: self.update_time.clone(),
            parent: self.parent.duplicate(),
        }
    }
}

pub open spec fn saves_view(v: Seq<Save>) -> Seq<SaveView> {
    v.map_values(|s: Save| s@)
}

/// One entry of a category directory, with its modification time as shown.
#[derive(Clone, Debug)]
pub struct TimedEntry {
    pub name: String,
    pub is_dir: bool,
    pub update_time: String,
}

/// One entry of the saves root, with the listing of its own entries
/// (empty where the entry is not a directory).
#[derive(Clone, Debug)]
pub struct Category {
    pub name: String,
    pub is_dir: bool,
    pub entries: Vec<TimedEntry>,
}

/// The save that the directory entry `e` under `parent` stands for.
pub open spec fn save_of(parent: Seq<Seq<char>>, e: TimedEntry) -> SaveView {
    SaveView {
        name: e.name@,
        path: parent.push(e.name@),
        update_time: e.update_time@,
        parent,
    }
}

/// The saves among `entries`, the listing of `parent`: one per directory, in
/// listing order.
pub open spec fn saves_in(parent: Seq<Seq<char>>, entries: Seq<TimedEntry>) -> Seq<SaveView>
    decreases entries.len(),
{
    if entries.len() == 0 {
        seq![]
    } else {
        let rest = saves_in(parent, entries.drop_last());
        if entries.last().is_dir {
            rest.push(save_of(parent, entries.last()))
        } else {
            rest
        }
    }
}

/// The saves under every category directory of the saves root `root`.
pub open spec fn saves_under(root: Seq<Seq<char>>, cats: Seq<Category>) -> Seq<SaveView>
    decreases cats.len(),
{
    if cats.len() == 0 {
        seq![]
    } else {
        let c = cats.last();
        saves_under(root, cats.drop_last()) + if c.is_dir {
            saves_in(root.push(c.name@), c.entries@)
        } else {
            seq![]
        }
    }
}

/// The number of directories among `entries`.
pub open spec fn dir_count(entries: Seq<TimedEntry>) -> nat
    decreases entries.len(),
{
    if entries.len() == 0 {
        0
    } else {
        dir_count(entries.drop_last()) + if entries.last().is_dir {
            1nat
        } else {
            0nat
        }
    }
}

fn read_deeper_saves(parent: &DirPath, entries: &Vec<TimedEntry>, out: &mut Vec<Save>)
    ensures
        saves_view(final(out)@) == saves_view(old(out)@) + saves_in(parent@, entries@),
{
    let ghost start = saves_view(out@);
    let mut i: usize = 0;
    while i < entries.len()
        invariant
            i <= entries.len(),
            saves_view(out@) == start + saves_in(parent@, entries@.take(i as int)),
        decreases entries.len() - i,
    {
        let e = &entries[i];
        assert(entries@.take(i + 1).drop_last() =~= entries@.take(i as int));
        assert(entries@.take(i + 1).last() == *e);
        if e.is_dir {
            let s = Save {
                name: e.name.clone(),
                path: parent.join(&e.name),
                update_time: e.update_time.clone(),
                parent: parent.duplicate(),
            };
            assert(s@ == save_of(parent@, *e));
            let ghost before = out@;
            out.push(s);
            assert(saves_view(out@) =~= saves_view(before).push(s@));
            assert(saves_view(out@) =~= start + saves_in(parent@, entries@.take(i + 1)));
        } else {
            assert(saves_view(out@) =~= start + saves_in(parent@, entries@.take(i + 1)));
        }
        i = i + 1;
    }
    assert(entries@.take(entries.len() as int) =~= entries@);
}

/// The saves found under the saves root `root`, given the listing of the
/// root (`None` where the root does not exist, which yields no saves).
pub fn read_saves(root: &DirPath, listing: Option<Vec<Category>>) -> (r: Vec<Save>)
    ensures
        listing is None ==> r@.len() == 0,
        listing matches Some(cats) ==> saves_view(r@) == saves_under(root@, cats@),
{
    let mut out: Vec<Save> = Vec::new();
    let cats = match listing {
        None => {
            return out;
        },
        Some(cats) => cats,
    };
    let mut i: usize = 0;
    while i < cats.len()
        invariant
            i <= cats.len(),
            saves_view(out@) == saves_under(root@, cats@.take(i as int)),
        decreases cats.len() - i,
    {
        let c = &cats[i];
        assert(cats@.take(i + 1).drop_last() =~= cats@.take(i as int));
        if c.is_dir {
            let parent = root.join(&c.name);
            read_deeper_saves(&parent, &c.entries, &mut out);
        } else {
            assert(saves_view(out@) =~= saves_under(root@, cats@.take(i as int)) + seq![]);
        }
        i = i + 1;
    }
    assert(cats@.take(cats.len() as int) =~= cats@);
    out
}

} // verus!
