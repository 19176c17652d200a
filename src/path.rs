//! File-system locations as sequences of components.
use vstd::prelude::*;

verus! {

broadcast use vstd::std_specs::vec::vec_clone_deep_view_proof;

/// A location in the file system, held as its sequence of components
/// (the first one may be a root or a drive prefix).
#[derive(Clone, Debug)]
pub struct DirPath {
    pub segments: Vec<String>,
}

impl View for DirPath {
    type V = Seq<Seq<char>>;

    open spec fn view(&self) -> Seq<Seq<char>> {
        self.segments.deep_view()
    }
}

impl DirPath {
    pub fn new(segments: Vec<String>) -> (r: DirPath)
        ensures
            r@ == segments.deep_view(),
    {
        DirPath { segments }
    }

    /// A copy of this path with the same components.
    pub fn duplicate(&self) -> (r: DirPath)
        ensures
            r@ == self@,
    {
        let segments = self.segments.clone();
        proof {
            assert(vstd::std_specs::vec::vec_clone_trigger(self.segments, segments));
        }
        DirPath { segments }
    }

    /// This path with one more component `name` at its end.
    pub fn join(&self, name: &String) -> (r: DirPath)
        ensures
            r@ == self@.push(name@),
    {
        let mut r = self.duplicate();
        r.segments.push(name.clone());
        proof {
            assert(r@ =~= self@.push(name@));
        }
        r
    }

    /// The directory that directly contains this path; `None` for the empty path.
    pub fn parent(&self) -> (r: Option<DirPath>)
        ensures
            self@.len() == 0 <==> r is None,
            r is Some ==> r->0@ == self@.drop_last(),
    {
        if self.segments.len() == 0 {
            return None;
        }
        let mut r = self.duplicate();
        r.segments.pop();
        proof {
            assert(r@ =~= self@.drop_last());
        }
        Some(r)
    }
}

} // verus!
