//! The inode numbers of files on disk.
use super::inode::EXTERNAL_INO_BASE;
use crate::paths::DiskPath;
use vstd::prelude::*;

verus! {

/// The components of a path.
pub type PathModel = Seq<Seq<char>>;

/// The paths of a table after another one was asked for.
pub open spec fn with_path(paths: Seq<PathModel>, p: PathModel) -> Seq<PathModel> {
    if paths.contains(p) {
        paths
    } else {
        paths.push(p)
    }
}

/// The paths of a table after others were asked for, one behind the other.
pub open spec fn with_paths(paths: Seq<PathModel>, more: Seq<PathModel>) -> Seq<PathModel>
    decreases more.len(),
{
    if more.len() == 0 {
        paths
    } else {
        with_path(with_paths(paths, more.drop_last()), more.last())
    }
}

/// The inode number of a path in a table.
pub open spec fn number_of(paths: Seq<PathModel>, p: PathModel) -> int {
    EXTERNAL_INO_BASE + 1 + paths.index_of(p)
}

/// The path of an inode number in a table.
pub open spec fn path_at(paths: Seq<PathModel>, ino: u64) -> Option<PathModel> {
    if EXTERNAL_INO_BASE < ino <= EXTERNAL_INO_BASE + paths.len() {
        Some(paths[ino - EXTERNAL_INO_BASE - 1])
    } else {
        None
    }
}

/// Inode numbers of files on disk. A path keeps its number.
pub struct PathTable {
    paths: Vec<DiskPath>,
}

impl View for PathTable {
    type V = Seq<PathModel>;

    closed spec fn view(&self) -> Seq<PathModel> {
        self.paths@.map_values(|p: DiskPath| p@)
    }
}

impl PathTable {
    /// No path has two numbers.
    pub open spec fn wf(&self) -> bool {
        self@.no_duplicates()
    }

    /// Whether so many more paths can be given numbers.
    pub open spec fn room(&self, n: nat) -> bool {
        self@.len() + n < 0xffff_ffff_0000_0000
    }

    /// A table without paths.
    pub fn new() -> (r: Self)
        ensures
            r.wf(),
            r@ == Seq::<PathModel>::empty(),
    {
        let r = PathTable { paths: Vec::new() };
        proof {
            assert(r@ =~= Seq::<PathModel>::empty());
        }
        r
    }

    /// The number of paths.
    pub fn len(&self) -> (r: usize)
        ensures
            r == self@.len(),
    {
        self.paths.len()
    }

    /// Where a path stands in the table.
    fn position(&self, p: &DiskPath) -> (r: Option<usize>)
        ensures
            match r {
                None => !self@.contains(p@),
                Some(i) => i < self@.len() && self@[i as int] == p@,
            },
    {
        let mut i: usize = 0;
        while i < self.paths.len()
            invariant
                i <= self.paths@.len(),
                forall|j: int| 0 <= j < i ==> self@[j] != p@,
            decreases self.paths@.len() - i,
        {
            if self.paths[i].is(p) {
                proof {
                    assert(self@[i as int] == self.paths@[i as int]@);
                }
                return Some(i);
            }
            proof {
                assert(self@[i as int] == self.paths@[i as int]@);
            }
            i = i + 1;
        }
        None
    }

    /// The inode number of a path, where it has one.
    pub fn find(&self, p: &DiskPath) -> (r: Option<u64>)
        requires
            self.wf(),
            self.room(0),
        ensures
            match r {
                None => !self@.contains(p@),
                Some(n) => self@.contains(p@) && n == number_of(self@, p@),
            },
    {
        match self.position(p) {
            None => None,
            Some(i) => {
                proof {
                    lemma_number(self@, i as int);
                }
                Some(EXTERNAL_INO_BASE + 1 + i as u64)
            },
        }
    }

    /// The inode number of a path; one that has none is given the next one.
    pub fn ino_for_path(&mut self, p: &DiskPath) -> (r: u64)
        requires
            old(self).wf(),
            old(self).room(1),
        ensures
            final(self).wf(),
            final(self)@ == with_path(old(self)@, p@),
            r == number_of(final(self)@, p@),
            path_at(final(self)@, r) == Some(p@),
    {
        match self.position(p) {
            Some(i) => {
                proof {
                    lemma_number(self@, i as int);
                }
                EXTERNAL_INO_BASE + 1 + i as u64
            },
            None => {
                let i: usize = self.paths.len();
                self.paths.push(p.copy());
                proof {
                    assert(self@ =~= old(self)@.push(p@));
                    lemma_number(self@, i as int);
                }
                EXTERNAL_INO_BASE + 1 + i as u64
            },
        }
    }

    /// The path of an inode number.
    pub fn path_for_ino(&self, ino: u64) -> (r: Option<&DiskPath>)
        ensures
            match r {
                None => path_at(self@, ino) is None,
                Some(p) => path_at(self@, ino) == Some(p@),
            },
    {
        if ino <= EXTERNAL_INO_BASE || ino - EXTERNAL_INO_BASE > self.paths.len() as u64 {
            return None;
        }
        let i: usize = (ino - EXTERNAL_INO_BASE - 1) as usize;
        Some(&self.paths[i])
    }
}

/// The number of a path that stands at a place.
proof fn lemma_number(paths: Seq<PathModel>, i: int)
    requires
        paths.no_duplicates(),
        0 <= i < paths.len(),
    ensures
        paths.contains(paths[i]),
        number_of(paths, paths[i]) == EXTERNAL_INO_BASE + 1 + i,
{
    let j = paths.index_of(paths[i]);
    assert(paths.contains(paths[i]));
    assert(paths[j] == paths[i]);
}

/// A path that has a number keeps it when others are asked for.
pub proof fn numbers_are_stable(paths: Seq<PathModel>, p: PathModel, other: PathModel)
    requires
        paths.no_duplicates(),
        paths.contains(p),
    ensures
        with_path(paths, other).no_duplicates(),
        with_path(paths, other).contains(p),
        number_of(with_path(paths, other), p) == number_of(paths, p),
{
    let after = with_path(paths, other);
    let i = paths.index_of(p);
    assert(after[i] == p);
    lemma_number(after, i);
    lemma_number(paths, i);
}

/// A path that has a number keeps it when many others are asked for.
pub proof fn lemma_with_paths(paths: Seq<PathModel>, more: Seq<PathModel>)
    requires
        paths.no_duplicates(),
    ensures
        with_paths(paths, more).no_duplicates(),
        with_paths(paths, more).len() <= paths.len() + more.len(),
        forall|p: PathModel| #[trigger]
            paths.contains(p) ==> with_paths(paths, more).contains(p) && number_of(
                with_paths(paths, more),
                p,
            ) == number_of(paths, p),
        forall|i: int|
            0 <= i < more.len() ==> with_paths(paths, more).contains(#[trigger] more[i]),
    decreases more.len(),
{
    if more.len() > 0 {
        let rest = more.drop_last();
        let mid = with_paths(paths, rest);
        let after = with_paths(paths, more);
        lemma_with_paths(paths, rest);
        assert(after.contains(more.last())) by {
            if !mid.contains(more.last()) {
                assert(after[mid.len() as int] == more.last());
            }
        }
        assert(after.no_duplicates());
        assert forall|p: PathModel| #[trigger] paths.contains(p) implies after.contains(p)
            && number_of(after, p) == number_of(paths, p) by {
            numbers_are_stable(mid, p, more.last());
        }
        assert forall|i: int| 0 <= i < more.len() implies after.contains(#[trigger] more[i]) by {
            if i < rest.len() {
                assert(rest[i] == more[i]);
                numbers_are_stable(mid, more[i], more.last());
            }
        }
    }
}

/// To ask again for paths that have numbers changes nothing.
pub proof fn lemma_with_known(paths: Seq<PathModel>, more: Seq<PathModel>)
    requires
        forall|i: int| 0 <= i < more.len() ==> paths.contains(#[trigger] more[i]),
    ensures
        with_paths(paths, more) == paths,
    decreases more.len(),
{
    if more.len() > 0 {
        let rest = more.drop_last();
        assert forall|i: int| 0 <= i < rest.len() implies paths.contains(#[trigger] rest[i]) by {
            assert(rest[i] == more[i]);
        }
        lemma_with_known(paths, rest);
        assert(paths.contains(more[more.len() - 1]));
    }
}

/// The number that a path is given lies behind those of the virtual files and leads back
/// to the path. Whatever other paths are asked for later, the path is given the same
/// number again, and no other path is ever given it.
pub proof fn paths_keep_their_numbers(
    paths: Seq<PathModel>,
    p: PathModel,
    later: Seq<PathModel>,
    other: PathModel,
)
    requires
        paths.no_duplicates(),
        paths.len() + later.len() + 2 < 0xffff_ffff_0000_0000,
    ensures
        ({
            let given = number_of(with_path(paths, p), p);
            let then = with_paths(with_path(paths, p), later);
            &&& given > 100_000
            &&& path_at(with_path(paths, p), given as u64) == Some(p)
            &&& path_at(then, given as u64) == Some(p)
            &&& with_path(then, p) == then
            &&& number_of(then, p) == given
            &&& other != p ==> number_of(with_path(then, other), other) != given
        }),
{
    let one = with_path(paths, p);
    assert(one.no_duplicates());
    assert(one.contains(p)) by {
        if !paths.contains(p) {
            assert(one[paths.len() as int] == p);
        }
    }
    let then = with_paths(one, later);
    lemma_with_paths(one, later);
    numbers_identify_paths(one, p, p);
    numbers_identify_paths(then, p, p);
    numbers_are_stable(then, p, other);
    let last = with_path(then, other);
    assert(last.contains(other)) by {
        if !then.contains(other) {
            assert(last[then.len() as int] == other);
        }
    }
    numbers_identify_paths(last, p, other);
}

/// Different paths have different inode numbers, each number leads back to its path,
/// and lies behind those of the virtual files.
pub proof fn numbers_identify_paths(paths: Seq<PathModel>, p: PathModel, q: PathModel)
    requires
        paths.no_duplicates(),
        paths.contains(p),
        paths.contains(q),
        paths.len() < 0xffff_ffff_0000_0000,
    ensures
        number_of(paths, p) == number_of(paths, q) <==> p == q,
        number_of(paths, p) >= 100_001,
        path_at(paths, number_of(paths, p) as u64) == Some(p),
{
    assert(paths[paths.index_of(p)] == p);
    assert(paths[paths.index_of(q)] == q);
}

} // verus!
