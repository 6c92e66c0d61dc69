//! The local index: the mapping from (watch root, path) to the file record
//! last seen there. Every key is held at most once.

use vstd::prelude::*;
use crate::models::{FileRow, RecordView};
use crate::errors::DbError;
use crate::text::str_eq;

verus! {

/// A key of the index: the watch root as supplied, and the path.
pub type IndexKey = (Seq<char>, Seq<char>);

/// Every record of `m` is filed under its own path.
pub open spec fn keyed(m: Map<IndexKey, RecordView>) -> bool {
    forall|k: IndexKey| #[trigger] m.contains_key(k) ==> m[k].path == k.1
}

/// The paths that `m` holds under `root`.
pub open spec fn paths_under(m: Map<IndexKey, RecordView>, root: Seq<char>) -> Set<Seq<char>> {
    Set::new(|p: Seq<char>| m.contains_key((root, p)))
}

/// One stored row and the watch root it belongs to.
pub struct IndexEntry {
    root_dir: String,
    row: FileRow,
}

/// The local index, held in memory; its view maps each key to its record.
pub struct LocalIndex {
    entries: Vec<IndexEntry>,
    model: Ghost<Map<IndexKey, RecordView>>,
}

impl View for LocalIndex {
    type V = Map<IndexKey, RecordView>;

    closed spec fn view(&self) -> Map<IndexKey, RecordView> {
        self.model@
    }
}

impl LocalIndex {
    /// The rows in the order they are stored: watch root and record.
    pub closed spec fn stored(&self) -> Seq<(Seq<char>, RecordView)> {
        self.entries@.map_values(|e: IndexEntry| (e.root_dir@, e.row@))
    }

    closed spec fn key_at(&self, i: int) -> IndexKey {
        (self.entries@[i].root_dir@, self.entries@[i].row@.path)
    }

    /// The stored rows hold each key once and agree with the view.
    pub closed spec fn wf(&self) -> bool {
        &&& forall|i: int, j: int|
            0 <= i < self.entries@.len() && 0 <= j < self.entries@.len() && i != j ==> self.key_at(i)
                != self.key_at(j)
        &&& forall|i: int|
            0 <= i < self.entries@.len() ==> self.model@.contains_key(#[trigger] self.key_at(i))
                && self.model@[self.key_at(i)] == self.entries@[i].row@
        &&& forall|k: IndexKey|
            #[trigger] self.model@.contains_key(k) ==> exists|i: int|
                0 <= i < self.entries@.len() && self.key_at(i) == k
    }

    /// A well-formed index files each record under its own path.
    pub proof fn lemma_keyed(&self)
        requires
            self.wf(),
        ensures
            keyed(self@),
    {
        assert forall|k: IndexKey| #[trigger] self@.contains_key(k) implies self@[k].path == k.1 by {
            let i = choose|i: int| 0 <= i < self.entries@.len() && self.key_at(i) == k;
        }
    }

    /// Index uniqueness: in a well-formed index, and so after any sequence
    /// of the operations below, each (watch root, path) is stored at most
    /// once.
    pub proof fn lemma_unique(&self)
        requires
            self.wf(),
        ensures
            forall|i: int, j: int|
                0 <= i < self.stored().len() && 0 <= j < self.stored().len() && i != j ==> (
                self.stored()[i].0,
                self.stored()[i].1.path,
            ) != (self.stored()[j].0, self.stored()[j].1.path),
    {
        assert forall|i: int, j: int|
            0 <= i < self.stored().len() && 0 <= j < self.stored().len() && i != j implies (
            self.stored()[i].0,
            self.stored()[i].1.path,
        ) != (self.stored()[j].0, self.stored()[j].1.path) by {
            assert(self.key_at(i) != self.key_at(j));
        }
    }

    /// The position of `(root_dir, path)`, if it is stored.
    fn position(&self, root_dir: &str, path: &str) -> (r: Option<usize>)
        requires
            self.wf(),
        ensures
            r matches Some(i) ==> i < self.entries@.len() && self.key_at(i as int) == (root_dir@, path@),
            r is None ==> !self@.contains_key((root_dir@, path@)),
    {
        let mut i: usize = 0;
        while i < self.entries.len()
            invariant
                self.wf(),
                i <= self.entries@.len(),
                forall|j: int| 0 <= j < i ==> self.key_at(j) != (root_dir@, path@),
            decreases self.entries@.len() - i,
        {
            let e = &self.entries[i];
            if str_eq(e.root_dir.as_str(), root_dir) && str_eq(e.row.path(), path) {
                return Some(i);
            }
            i = i + 1;
        }
        None
    }
}

/// Opens an empty index.
pub fn init_db() -> (r: LocalIndex)
    ensures
        r.wf(),
        r@ == Map::<IndexKey, RecordView>::empty(),
{
    LocalIndex { entries: Vec::new(), model: Ghost(Map::empty()) }
}

/// The record stored under `(root_dir, path)`: one row, or none.
pub fn get_file(index: &LocalIndex, path: &String, root_dir: &String) -> (r: Vec<FileRow>)
    requires
        index.wf(),
    ensures
        r@.len() <= 1,
        r@.len() == 1 <==> index@.contains_key((root_dir@, path@)),
        r@.len() == 1 ==> r@[0]@ == index@[(root_dir@, path@)],
{
    let mut out: Vec<FileRow> = Vec::new();
    match index.position(root_dir.as_str(), path.as_str()) {
        Some(i) => {
            out.push(index.entries[i].row.duplicate());
        },
        None => {},
    }
    out
}

/// Adds a record under `root_dir`; refused where its path is already
/// stored there.
pub fn insert_file(index: &mut LocalIndex, file_row: &FileRow, root_dir: &String) -> (r: Result<(), DbError>)
    requires
        old(index).wf(),
    ensures
        final(index).wf(),
        old(index)@.contains_key((root_dir@, file_row@.path)) ==> (r matches Err(
            DbError::AlreadyExists)) && final(index)@ == old(index)@,
        !old(index)@.contains_key((root_dir@, file_row@.path)) ==> r is Ok && final(index)@ == old(
            index,
        )@.insert((root_dir@, file_row@.path), file_row@),
{
    match index.position(root_dir.as_str(), file_row.path()) {
        Some(_) => Err(DbError::AlreadyExists),
        None => {
            let ghost k = (root_dir@, file_row@.path);
            let ghost before = index.entries@;
            index.entries.push(IndexEntry { root_dir: root_dir.clone(), row: file_row.duplicate() });
            index.model = Ghost(index.model@.insert(k, file_row@));
            proof {
                let n = before.len() as int;
                assert(index.key_at(n) == k);
                assert forall|i: int| 0 <= i < n implies index.key_at(i) == old(index).key_at(i)
                    && index.entries@[i].row@ == old(index).entries@[i].row@ by {
                    assert(index.entries@[i] == before[i]);
                }
                assert forall|kk: IndexKey| #[trigger] index.model@.contains_key(kk) implies exists|i: int|
                    0 <= i < index.entries@.len() && index.key_at(i) == kk by {
                    if kk != k {
                        let i = choose|i: int| 0 <= i < before.len() && old(index).key_at(i) == kk;
                        assert(index.key_at(i) == kk);
                    }
                }
            }
            Ok(())
        },
    }
}

/// Replaces the hash and modification time of the record stored under
/// `(root_dir, file_row.path)`; does nothing where there is none.
pub fn update_file(index: &mut LocalIndex, file_row: &FileRow, root_dir: &String)
    requires
        old(index).wf(),
    ensures
        final(index).wf(),
        old(index)@.contains_key((root_dir@, file_row@.path)) ==> final(index)@ == old(index)@.insert(
            (root_dir@, file_row@.path),
            file_row@,
        ),
        !old(index)@.contains_key((root_dir@, file_row@.path)) ==> final(index)@ == old(index)@,
{
    match index.position(root_dir.as_str(), file_row.path()) {
        Some(i) => {
            let ghost k = (root_dir@, file_row@.path);
            let ghost before = index.entries@;
            let mut row = index.entries[i].row.duplicate();
            row.set_hash(crate::text::owned(file_row.hash()));
            row.set_last_modified(file_row.last_modified());
            assert(row@ == file_row@);
            index.entries.set(i, IndexEntry { root_dir: root_dir.clone(), row });
            index.model = Ghost(index.model@.insert(k, file_row@));
            proof {
                assert(index.key_at(i as int) == k);
                assert forall|j: int| 0 <= j < before.len() && j != i implies index.key_at(j) == old(
                    index,
                ).key_at(j) && index.entries@[j].row@ == old(index).entries@[j].row@ by {
                    assert(index.entries@[j] == before[j]);
                }
                assert forall|kk: IndexKey| #[trigger] index.model@.contains_key(kk) implies exists|j: int|
                    0 <= j < index.entries@.len() && index.key_at(j) == kk by {
                    if kk != k {
                        let j = choose|j: int| 0 <= j < before.len() && old(index).key_at(j) == kk;
                        assert(index.key_at(j) == kk);
                    }
                }
            }
        },
        None => {},
    }
}

/// Deletes the record stored under `(root_dir, path)`, if any.
pub fn remove_file(index: &mut LocalIndex, path: &String, root_dir: &String)
    requires
        old(index).wf(),
    ensures
        final(index).wf(),
        final(index)@ == old(index)@.remove((root_dir@, path@)),
{
    match index.position(root_dir.as_str(), path.as_str()) {
        Some(i) => {
            let ghost k = (root_dir@, path@);
            let ghost before = index.entries@;
            index.entries.remove(i);
            index.model = Ghost(index.model@.remove(k));
            proof {
                assert forall|j: int| 0 <= j < index.entries@.len() implies index.key_at(j) == old(
                    index,
                ).key_at(if j < i { j } else { j + 1 }) && index.entries@[j].row@ == old(
                    index,
                ).entries@[if j < i { j } else { j + 1 }].row@ by {
                    if j < i {
                        assert(index.entries@[j] == before[j]);
                    } else {
                        assert(index.entries@[j] == before[j + 1]);
                    }
                }
                assert forall|kk: IndexKey| #[trigger] index.model@.contains_key(kk) implies exists|j: int|
                    0 <= j < index.entries@.len() && index.key_at(j) == kk by {
                    let j = choose|j: int| 0 <= j < before.len() && old(index).key_at(j) == kk;
                    if j < i {
                        assert(index.key_at(j) == kk);
                    } else {
                        assert(j != i);
                        assert(index.key_at(j - 1) == kk);
                    }
                }
            }
        },
        None => {
            assert(index.model@.remove((root_dir@, path@)) =~= index.model@);
        },
    }
}

/// All records stored under `root_dir`, each once.
pub fn get_files(index: &LocalIndex, root_dir: &String) -> (r: Vec<FileRow>)
    requires
        index.wf(),
    ensures
        forall|i: int|
            0 <= i < r@.len() ==> index@.contains_key((root_dir@, #[trigger] r@[i]@.path)) && index@[(
                root_dir@,
                r@[i]@.path,
            )] == r@[i]@,
        forall|p: Seq<char>|
            #[trigger] index@.contains_key((root_dir@, p)) ==> exists|i: int|
                0 <= i < r@.len() && r@[i]@.path == p,
        forall|i: int, j: int| 0 <= i < r@.len() && 0 <= j < r@.len() && i != j ==> r@[i]@.path != r@[j]@.path,
{
    let mut out: Vec<FileRow> = Vec::new();
    let ghost mut src: Seq<int> = Seq::empty();
    let mut i: usize = 0;
    while i < index.entries.len()
        invariant
            index.wf(),
            i <= index.entries@.len(),
            src.len() == out@.len(),
            forall|m: int, n: int| 0 <= m < n < src.len() ==> src[m] < src[n],
            forall|m: int|
                #![trigger src[m]]
                0 <= m < out@.len() ==> 0 <= src[m] < i && index.key_at(src[m]) == (root_dir@, out@[m]@.path)
                    && index.entries@[src[m]].row@ == out@[m]@,
            forall|j: int|
                #![trigger index.entries@[j]]
                0 <= j < i && index.entries@[j].root_dir@ == root_dir@ ==> exists|m: int|
                    0 <= m < out@.len() && src[m] == j,
        decreases index.entries@.len() - i,
    {
        let e = &index.entries[i];
        if str_eq(e.root_dir.as_str(), root_dir.as_str()) {
            out.push(e.row.duplicate());
            proof {
                let m0 = src.len() as int;
                let old_src = src;
                src = src.push(i as int);
                assert(src[m0] == i);
                assert forall|j: int|
                    #![trigger index.entries@[j]]
                    0 <= j < i + 1 && index.entries@[j].root_dir@ == root_dir@ implies exists|m: int|
                    0 <= m < out@.len() && src[m] == j by {
                    if j < i {
                        let m = choose|m: int| 0 <= m < old_src.len() && old_src[m] == j;
                        assert(src[m] == j);
                    } else {
                        assert(src[m0] == j);
                    }
                }
            }
        }
        i = i + 1;
    }
    proof {
        assert forall|m: int, n: int|
            0 <= m < out@.len() && 0 <= n < out@.len() && m != n implies out@[m]@.path != out@[n]@.path by {
            if m < n {
                assert(src[m] < src[n]);
            } else {
                assert(src[n] < src[m]);
            }
            assert(index.key_at(src[m]) != index.key_at(src[n]));
        }
        assert forall|p: Seq<char>| #[trigger] index@.contains_key((root_dir@, p)) implies exists|m: int|
            0 <= m < out@.len() && out@[m]@.path == p by {
            let j = choose|j: int| 0 <= j < index.entries@.len() && index.key_at(j) == (root_dir@, p);
            assert(index.entries@[j].root_dir@ == root_dir@);
            let m = choose|m: int| 0 <= m < out@.len() && src[m] == j;
            assert(out@[m]@.path == p);
        }
        assert forall|m: int| 0 <= m < out@.len() implies index@.contains_key((root_dir@, #[trigger] out@[m]@.path))
            && index@[(root_dir@, out@[m]@.path)] == out@[m]@ by {
            assert(index.model@.contains_key(index.key_at(src[m])));
        }
    }
    out
}

} // verus!
