//! The initial reconciler: one pass over the files found under the watch
//! root, diffed against the local index, yielding upload and delete intents.

use vstd::prelude::*;
use crate::index::{LocalIndex, IndexKey, get_file, get_files, insert_file, update_file, remove_file};
use crate::intent::{Intent, IntentView, intent_views};
use crate::models::{FileRow, RecordView};
use crate::paths::{check_file_path, eligible, scope_path_of, to_scope_path};
use crate::text::str_eq;
use crate::time::Timestamp;

verus! {

/// A file found by the walk: its absolute path, its content hash (`None`
/// where it could not be read) and its modification time.
pub struct WalkedFile {
    pub path: String,
    pub hash: Option<String>,
    pub last_modified: Timestamp,
}

/// What a walked file says.
pub struct FileSeen {
    pub path: Seq<char>,
    pub hash: Option<Seq<char>>,
    pub last_modified: Timestamp,
}

impl View for WalkedFile {
    type V = FileSeen;

    open spec fn view(&self) -> FileSeen {
        FileSeen {
            path: self.path@,
            hash: match self.hash {
                Some(h) => Some(h@),
                None => None,
            },
            last_modified: self.last_modified,
        }
    }
}

/// The views of the walked files.
pub open spec fn walked_views(v: Seq<WalkedFile>) -> Seq<FileSeen> {
    v.map_values(|f: WalkedFile| f@)
}

/// The index path under which a walked file is reconciled, or `None` where
/// it is skipped: not eligible, unreadable, or outside the watch root.
pub open spec fn accepted(root: Seq<char>, canonical: Seq<char>, f: FileSeen) -> Option<Seq<char>> {
    if eligible(f.path, false) && f.hash is Some {
        scope_path_of(root, canonical, f.path)
    } else {
        None
    }
}

/// The state of the walk: the index, the uploads so far and the paths seen.
pub struct WalkState {
    pub index: Map<IndexKey, RecordView>,
    pub uploads: Seq<IntentView>,
    pub seen: Set<Seq<char>>,
}

/// One walked file reconciled against the index: a row with the same hash
/// or the same modification time needs nothing; a row that differs is
/// overwritten and uploaded; a missing row is inserted and uploaded.
pub open spec fn visit(s: WalkState, root: Seq<char>, canonical: Seq<char>, f: FileSeen) -> WalkState {
    match accepted(root, canonical, f) {
        None => s,
        Some(p) => {
            let rec = RecordView { path: p, hash: f.hash.unwrap(), last_modified: f.last_modified };
            if s.index.contains_key((root, p)) && (s.index[(root, p)].hash == rec.hash
                || s.index[(root, p)].last_modified == rec.last_modified) {
                WalkState { seen: s.seen.insert(p), ..s }
            } else {
                WalkState {
                    index: s.index.insert((root, p), rec),
                    uploads: s.uploads.push(IntentView::Upload(rec)),
                    seen: s.seen.insert(p),
                }
            }
        },
    }
}

/// The walk over `files` in order, from the index `m`.
pub open spec fn walk_result(m: Map<IndexKey, RecordView>, root: Seq<char>, canonical: Seq<char>, files: Seq<FileSeen>) -> WalkState
    decreases files.len(),
{
    if files.len() == 0 {
        WalkState { index: m, uploads: Seq::empty(), seen: Set::empty() }
    } else {
        visit(walk_result(m, root, canonical, files.drop_last()), root, canonical, files.last())
    }
}

/// The paths under `root` in `m` that were not seen: the deletions.
pub open spec fn stale(m: Map<IndexKey, RecordView>, root: Seq<char>, seen: Set<Seq<char>>) -> Set<Seq<char>> {
    Set::new(|p: Seq<char>| m.contains_key((root, p)) && !seen.contains(p))
}

/// `m` without the rows under `root` whose path was not seen.
pub open spec fn prune(m: Map<IndexKey, RecordView>, root: Seq<char>, seen: Set<Seq<char>>) -> Map<IndexKey, RecordView> {
    Map::new(|k: IndexKey| m.contains_key(k) && (k.0 != root || seen.contains(k.1)), |k: IndexKey| m[k])
}

/// The index paths of all walked files that were reconciled.
pub open spec fn observed(root: Seq<char>, canonical: Seq<char>, files: Seq<FileSeen>) -> Set<Seq<char>> {
    Set::new(|p: Seq<char>| exists|i: int| 0 <= i < files.len() && accepted(root, canonical, files[i]) == Some(p))
}

/// The deletions among the intents from position `u` on.
pub open spec fn deleted_paths(r: Seq<IntentView>, u: int) -> Set<Seq<char>> {
    Set::new(|p: Seq<char>| exists|t: int| u <= t < r.len() && r[t] == IntentView::Delete(p))
}

/// Whether `p` is among the strings of `v`.
fn contains_str(v: &Vec<String>, p: &str) -> (r: bool)
    ensures
        r == exists|j: int| 0 <= j < v@.len() && v@[j]@ == p@,
{
    let mut j: usize = 0;
    while j < v.len()
        invariant
            j <= v@.len(),
            forall|q: int| 0 <= q < j ==> v@[q]@ != p@,
        decreases v@.len() - j,
    {
        if str_eq(v[j].as_str(), p) {
            return true;
        }
        j = j + 1;
    }
    false
}

/// The initial reconciliation of the files found under the watch root
/// against the index rows of `root_dir`. Each eligible, readable file is
/// reconciled as `visit` says, in order; afterwards every row of `root_dir`
/// whose path was not seen is removed. The intents are the uploads in walk
/// order followed by one delete for each removed row.
pub fn sync(index: &mut LocalIndex, root_dir: &String, watch_root: &String, files: &Vec<WalkedFile>) -> (r: Vec<Intent>)
    requires
        old(index).wf(),
    ensures
        final(index).wf(),
        ({
            let w = walk_result(old(index)@, root_dir@, watch_root@, walked_views(files@));
            &&& final(index)@ == prune(w.index, root_dir@, w.seen)
            &&& r@.len() >= w.uploads.len()
            &&& intent_views(r@).subrange(0, w.uploads.len() as int) == w.uploads
            &&& forall|t: int| w.uploads.len() <= t < r@.len() ==> r@[t] is Delete
            &&& forall|t1: int, t2: int|
                w.uploads.len() <= t1 < r@.len() && w.uploads.len() <= t2 < r@.len() && t1 != t2 ==> r@[t1]@
                    != r@[t2]@
            &&& deleted_paths(intent_views(r@), w.uploads.len() as int) == stale(w.index, root_dir@, w.seen)
        }),
        forall|p: Seq<char>|
            #[trigger] final(index)@.contains_key((root_dir@, p)) ==> observed(
                root_dir@,
                watch_root@,
                walked_views(files@),
            ).contains(p),
{
    let ghost fv = walked_views(files@);
    let ghost m0 = index@;
    let mut out: Vec<Intent> = Vec::new();
    let mut seen: Vec<String> = Vec::new();
    let mut i: usize = 0;
    while i < files.len()
        invariant
            index.wf(),
            fv == walked_views(files@),
            i <= files@.len(),
            ({
                let w = walk_result(m0, root_dir@, watch_root@, fv.subrange(0, i as int));
                &&& index@ == w.index
                &&& intent_views(out@) == w.uploads
                &&& forall|p: Seq<char>| w.seen.contains(p) <==> exists|j: int| 0 <= j < seen@.len() && seen@[j]@ == p
            }),
        decreases files@.len() - i,
    {
        let ghost w = walk_result(m0, root_dir@, watch_root@, fv.subrange(0, i as int));
        proof {
            assert(fv.subrange(0, i + 1).drop_last() =~= fv.subrange(0, i as int));
            assert(fv.subrange(0, i + 1).last() == files@[i as int]@);
        }
        let ghost w2 = visit(w, root_dir@, watch_root@, files@[i as int]@);
        assert(walk_result(m0, root_dir@, watch_root@, fv.subrange(0, i + 1)) == w2);
        let f = &files[i];
        if check_file_path(&f.path, false) {
            match &f.hash {
                None => {},
                Some(h) => {
                    match to_scope_path(root_dir, watch_root, &f.path) {
                        None => {},
                        Some(p) => {
                            let rows = get_file(index, &p, root_dir);
                            let ghost rec = RecordView { path: p@, hash: h@, last_modified: f.last_modified };
                            if rows.len() > 0 && (str_eq(rows[0].hash(), h.as_str())
                                || rows[0].last_modified() == f.last_modified) {
                                let ghost before = seen@;
                                seen.push(p);
                                proof {
                                    assert forall|q: Seq<char>| w2.seen.contains(q) implies exists|j: int|
                                        0 <= j < seen@.len() && seen@[j]@ == q by {
                                        if q != rec.path {
                                            let j = choose|j: int| 0 <= j < before.len() && before[j]@ == q;
                                            assert(seen@[j] == before[j]);
                                        } else {
                                            assert(seen@[before.len() as int]@ == q);
                                        }
                                    }
                                    assert forall|q: Seq<char>| (exists|j: int| 0 <= j < seen@.len() && seen@[j]@ == q) implies w2.seen.contains(q) by {
                                        let j = choose|j: int| 0 <= j < seen@.len() && seen@[j]@ == q;
                                        if j < before.len() {
                                            assert(seen@[j] == before[j]);
                                        }
                                    }
                                }
                            } else {
                                let row = FileRow::new(p.clone(), h.clone(), f.last_modified);
                                if rows.len() > 0 {
                                    update_file(index, &row, root_dir);
                                } else {
                                    let _ = insert_file(index, &row, root_dir);
                                }
                                let ghost before_out = out@;
                                out.push(Intent::Upload(row));
                                assert(intent_views(out@) =~= intent_views(before_out).push(IntentView::Upload(rec)));
                                let ghost before = seen@;
                                seen.push(p);
                                proof {
                                    assert(index@ =~= w2.index);
                                    assert forall|q: Seq<char>| w2.seen.contains(q) implies exists|j: int|
                                        0 <= j < seen@.len() && seen@[j]@ == q by {
                                        if q != rec.path {
                                            let j = choose|j: int| 0 <= j < before.len() && before[j]@ == q;
                                            assert(seen@[j] == before[j]);
                                        } else {
                                            assert(seen@[before.len() as int]@ == q);
                                        }
                                    }
                                    assert forall|q: Seq<char>| (exists|j: int| 0 <= j < seen@.len() && seen@[j]@ == q) implies w2.seen.contains(q) by {
                                        let j = choose|j: int| 0 <= j < seen@.len() && seen@[j]@ == q;
                                        if j < before.len() {
                                            assert(seen@[j] == before[j]);
                                        }
                                    }
                                }
                            }
                        },
                    }
                },
            }
        }
        i = i + 1;
    }
    let ghost w = walk_result(m0, root_dir@, watch_root@, fv);
    assert(fv.subrange(0, files@.len() as int) =~= fv);
    let ghost mid = index@;
    let ghost u = out@.len();
    let ghost uploads = intent_views(out@);
    let rows = get_files(index, root_dir);
    let ghost mut src: Seq<int> = Seq::empty();
    let mut k: usize = 0;
    while k < rows.len()
        invariant
            index.wf(),
            mid == w.index,
            uploads == w.uploads,
            u == uploads.len(),
            forall|p: Seq<char>| w.seen.contains(p) <==> exists|j: int| 0 <= j < seen@.len() && seen@[j]@ == p,
            forall|a: int|
                0 <= a < rows@.len() ==> mid.contains_key((root_dir@, #[trigger] rows@[a]@.path)) && mid[(
                    root_dir@,
                    rows@[a]@.path,
                )] == rows@[a]@,
            forall|p: Seq<char>|
                #[trigger] mid.contains_key((root_dir@, p)) ==> exists|a: int|
                    0 <= a < rows@.len() && rows@[a]@.path == p,
            forall|a: int, b: int|
                0 <= a < rows@.len() && 0 <= b < rows@.len() && a != b ==> rows@[a]@.path != rows@[b]@.path,
            k <= rows@.len(),
            out@.len() == u + src.len(),
            intent_views(out@).subrange(0, u as int) == uploads,
            forall|t: int, s: int| 0 <= t < s < src.len() ==> src[t] < src[s],
            forall|t: int|
                #![trigger src[t]]
                0 <= t < src.len() ==> 0 <= src[t] < k && !w.seen.contains(rows@[src[t]]@.path) && out@[u + t]@
                    == IntentView::Delete(rows@[src[t]]@.path),
            forall|a: int|
                #![trigger rows@[a]]
                0 <= a < k && !w.seen.contains(rows@[a]@.path) ==> exists|t: int| 0 <= t < src.len() && src[t] == a,
            forall|key: IndexKey|
                #[trigger] index@.contains_key(key) <==> mid.contains_key(key) && !(key.0 == root_dir@ && exists|a: int|
                    0 <= a < k && rows@[a]@.path == key.1 && !w.seen.contains(key.1)),
            forall|key: IndexKey| #[trigger] index@.contains_key(key) ==> index@[key] == mid[key],
        decreases rows@.len() - k,
    {
        let path = rows[k].path();
        if !contains_str(&seen, path) {
            let p = crate::text::owned(path);
            let ghost before_index = index@;
            remove_file(index, &p, root_dir);
            let ghost before_out = out@;
            out.push(Intent::Delete(p));
            proof {
                let old_src = src;
                src = src.push(k as int);
                assert(intent_views(out@).subrange(0, u as int) =~= intent_views(before_out).subrange(0, u as int));
                assert forall|a: int|
                    #![trigger rows@[a]]
                    0 <= a < k + 1 && !w.seen.contains(rows@[a]@.path) implies exists|t: int|
                    0 <= t < src.len() && src[t] == a by {
                    if a < k {
                        let t = choose|t: int| 0 <= t < old_src.len() && old_src[t] == a;
                        assert(src[t] == a);
                    } else {
                        assert(src[old_src.len() as int] == a);
                    }
                }
                assert forall|key: IndexKey|
                    #[trigger] index@.contains_key(key) <==> mid.contains_key(key) && !(key.0 == root_dir@ && exists|a: int|
                        0 <= a < k + 1 && rows@[a]@.path == key.1 && !w.seen.contains(key.1)) by {
                    if key.0 == root_dir@ && key.1 == rows@[k as int]@.path {
                        assert(rows@[k as int]@.path == key.1);
                    }
                    if mid.contains_key(key) && !(key.0 == root_dir@ && exists|a: int|
                        0 <= a < k && rows@[a]@.path == key.1 && !w.seen.contains(key.1)) && (key.0 == root_dir@ && exists|a: int|
                        0 <= a < k + 1 && rows@[a]@.path == key.1 && !w.seen.contains(key.1)) {
                        let a = choose|a: int| 0 <= a < k + 1 && rows@[a]@.path == key.1 && !w.seen.contains(key.1);
                        if a < k {
                        } else {
                            assert(key == (root_dir@, p@));
                        }
                    }
                }
            }
        } else {
            proof {
                assert forall|key: IndexKey|
                    #[trigger] index@.contains_key(key) <==> mid.contains_key(key) && !(key.0 == root_dir@ && exists|a: int|
                        0 <= a < k + 1 && rows@[a]@.path == key.1 && !w.seen.contains(key.1)) by {
                    if key.0 == root_dir@ && exists|a: int|
                        0 <= a < k + 1 && rows@[a]@.path == key.1 && !w.seen.contains(key.1) {
                        let a = choose|a: int| 0 <= a < k + 1 && rows@[a]@.path == key.1 && !w.seen.contains(key.1);
                        if a == k {
                            let j = choose|j: int| 0 <= j < seen@.len() && seen@[j]@ == path@;
                            assert(w.seen.contains(path@));
                        }
                    }
                }
            }
        }
        k = k + 1;
    }
    proof {
        lemma_walk_seen(m0, root_dir@, watch_root@, fv);
        assert(index@ =~= prune(w.index, root_dir@, w.seen)) by {
            assert forall|key: IndexKey| #[trigger] index@.contains_key(key) <==> prune(w.index, root_dir@, w.seen).contains_key(key) by {
                if mid.contains_key(key) && key.0 == root_dir@ && !w.seen.contains(key.1) {
                    let a = choose|a: int| 0 <= a < rows@.len() && rows@[a]@.path == key.1;
                }
            }
        }
        let rv = intent_views(out@);
        assert forall|t: int| u <= t < out@.len() implies out@[t] is Delete by {
            let s = t - u;
            assert(src[s] == src[s]);
            assert(u + s == t);
            assert(out@[u + s]@ == IntentView::Delete(rows@[src[s]]@.path));
        }
        assert forall|t1: int, t2: int|
            u <= t1 < out@.len() && u <= t2 < out@.len() && t1 != t2 implies out@[t1]@ != out@[t2]@ by {
            assert(src[t1 - u] == src[t1 - u]);
            assert(src[t2 - u] == src[t2 - u]);
            if t1 < t2 {
                assert(src[t1 - u] < src[t2 - u]);
            } else {
                assert(src[t2 - u] < src[t1 - u]);
            }
        }
        assert(deleted_paths(rv, u as int) =~= stale(w.index, root_dir@, w.seen)) by {
            assert forall|p: Seq<char>| deleted_paths(rv, u as int).contains(p) implies stale(w.index, root_dir@, w.seen).contains(p) by {
                let t = choose|t: int| u <= t < rv.len() && rv[t] == IntentView::Delete(p);
                let s = t - u;
                assert(src[s] == src[s]);
                assert(u + s == t);
                let a = src[s];
                assert(out@[u + s]@ == IntentView::Delete(rows@[a]@.path));
                assert(rv[t] == out@[t]@);
                assert(p == rows@[a]@.path);
                assert(mid.contains_key((root_dir@, rows@[a]@.path)));
            }
            assert forall|p: Seq<char>| stale(w.index, root_dir@, w.seen).contains(p) implies deleted_paths(rv, u as int).contains(p) by {
                let a = choose|a: int| 0 <= a < rows@.len() && rows@[a]@.path == p;
                assert(rows@[a] == rows@[a]);
                let t = choose|t: int| 0 <= t < src.len() && src[t] == a;
                assert(rv[u + t] == IntentView::Delete(p));
            }
        }
    }
    out
}

/// The paths seen by a walk are exactly the index paths of the files it
/// reconciled.
pub proof fn lemma_walk_seen(m: Map<IndexKey, RecordView>, root: Seq<char>, canonical: Seq<char>, files: Seq<FileSeen>)
    ensures
        walk_result(m, root, canonical, files).seen == observed(root, canonical, files),
    decreases files.len(),
{
    if files.len() > 0 {
        let pre = files.drop_last();
        lemma_walk_seen(m, root, canonical, pre);
        let w = walk_result(m, root, canonical, files);
        assert(w.seen =~= observed(root, canonical, files)) by {
            assert forall|p: Seq<char>| observed(root, canonical, files).contains(p) implies w.seen.contains(p) by {
                let i = choose|i: int| 0 <= i < files.len() && accepted(root, canonical, files[i]) == Some(p);
                if i < files.len() - 1 {
                    assert(pre[i] == files[i]);
                    assert(observed(root, canonical, pre).contains(p));
                }
            }
            assert forall|p: Seq<char>| w.seen.contains(p) implies observed(root, canonical, files).contains(p) by {
                if observed(root, canonical, pre).contains(p) {
                    let i = choose|i: int| 0 <= i < pre.len() && accepted(root, canonical, pre[i]) == Some(p);
                    assert(files[i] == pre[i]);
                } else {
                    assert(accepted(root, canonical, files[files.len() - 1]) == Some(p));
                }
            }
        }
    }
}

/// No two reconciled walked files share an index path.
pub open spec fn distinct_scopes(root: Seq<char>, canonical: Seq<char>, files: Seq<FileSeen>) -> bool {
    forall|i: int, j: int|
        0 <= i < files.len() && 0 <= j < files.len() && i != j && accepted(root, canonical, files[i]) is Some
            ==> accepted(root, canonical, files[i]) != accepted(root, canonical, files[j])
}

/// Every reconciled walked file finds a row in `m` with the same hash or
/// the same modification time.
pub open spec fn agrees(m: Map<IndexKey, RecordView>, root: Seq<char>, canonical: Seq<char>, files: Seq<FileSeen>) -> bool {
    forall|i: int|
        #![trigger files[i]]
        0 <= i < files.len() && accepted(root, canonical, files[i]) is Some ==> {
            let p = accepted(root, canonical, files[i]).unwrap();
            m.contains_key((root, p)) && (m[(root, p)].hash == files[i].hash.unwrap() || m[(root, p)].last_modified
                == files[i].last_modified)
        }
}

proof fn lemma_walk_agrees(m: Map<IndexKey, RecordView>, root: Seq<char>, canonical: Seq<char>, files: Seq<FileSeen>)
    requires
        distinct_scopes(root, canonical, files),
    ensures
        agrees(walk_result(m, root, canonical, files).index, root, canonical, files),
    decreases files.len(),
{
    if files.len() > 0 {
        let n = files.len() - 1;
        let pre = files.drop_last();
        assert forall|i: int, j: int|
            0 <= i < pre.len() && 0 <= j < pre.len() && i != j && accepted(root, canonical, pre[i]) is Some implies accepted(
            root,
            canonical,
            pre[i],
        ) != accepted(root, canonical, pre[j]) by {
            assert(pre[i] == files[i] && pre[j] == files[j]);
        }
        lemma_walk_agrees(m, root, canonical, pre);
        let w = walk_result(m, root, canonical, pre);
        let w2 = walk_result(m, root, canonical, files);
        assert forall|i: int|
            #![trigger files[i]]
            0 <= i < files.len() && accepted(root, canonical, files[i]) is Some implies {
                let p = accepted(root, canonical, files[i]).unwrap();
                w2.index.contains_key((root, p)) && (w2.index[(root, p)].hash == files[i].hash.unwrap()
                    || w2.index[(root, p)].last_modified == files[i].last_modified)
            } by {
            if i < n {
                assert(pre[i] == files[i]);
                assert(accepted(root, canonical, files[i]) != accepted(root, canonical, files[n]));
            }
        }
    }
}

proof fn lemma_walk_stable(m: Map<IndexKey, RecordView>, root: Seq<char>, canonical: Seq<char>, files: Seq<FileSeen>)
    requires
        agrees(m, root, canonical, files),
    ensures
        walk_result(m, root, canonical, files).index == m,
        walk_result(m, root, canonical, files).uploads == Seq::<IntentView>::empty(),
    decreases files.len(),
{
    if files.len() > 0 {
        let n = files.len() - 1;
        let pre = files.drop_last();
        assert forall|i: int|
            #![trigger pre[i]]
            0 <= i < pre.len() && accepted(root, canonical, pre[i]) is Some implies {
                let p = accepted(root, canonical, pre[i]).unwrap();
                m.contains_key((root, p)) && (m[(root, p)].hash == pre[i].hash.unwrap() || m[(root, p)].last_modified
                    == pre[i].last_modified)
            } by {
            assert(pre[i] == files[i]);
        }
        lemma_walk_stable(m, root, canonical, pre);
        assert(files.last() == files[n]);
    }
}

/// Idempotence of the initial reconciliation: with no change on disk in
/// between, a second run over the index that the first one left emits no
/// intent and leaves the index as it is. Walked files that share an index
/// path are left out: of those only one can agree with the row.
pub proof fn lemma_sync_idempotent(m0: Map<IndexKey, RecordView>, root: Seq<char>, canonical: Seq<char>, files: Seq<FileSeen>)
    requires
        distinct_scopes(root, canonical, files),
    ensures
        ({
            let w1 = walk_result(m0, root, canonical, files);
            let m1 = prune(w1.index, root, w1.seen);
            let w2 = walk_result(m1, root, canonical, files);
            &&& w2.uploads.len() == 0
            &&& stale(w2.index, root, w2.seen) == Set::<Seq<char>>::empty()
            &&& prune(w2.index, root, w2.seen) == m1
        }),
{
    let w1 = walk_result(m0, root, canonical, files);
    let m1 = prune(w1.index, root, w1.seen);
    lemma_walk_agrees(m0, root, canonical, files);
    lemma_walk_seen(m0, root, canonical, files);
    assert forall|i: int|
        #![trigger files[i]]
        0 <= i < files.len() && accepted(root, canonical, files[i]) is Some implies {
            let p = accepted(root, canonical, files[i]).unwrap();
            m1.contains_key((root, p)) && (m1[(root, p)].hash == files[i].hash.unwrap() || m1[(root, p)].last_modified
                == files[i].last_modified)
        } by {
        let p = accepted(root, canonical, files[i]).unwrap();
        assert(observed(root, canonical, files).contains(p));
    }
    lemma_walk_stable(m1, root, canonical, files);
    lemma_walk_seen(m1, root, canonical, files);
    let w2 = walk_result(m1, root, canonical, files);
    assert(stale(w2.index, root, w2.seen) =~= Set::<Seq<char>>::empty());
    assert(prune(w2.index, root, w2.seen) =~= m1);
}

/// Deletion closure: after the initial reconciliation every path that the
/// index holds for the watch root belongs to a file found on disk.
pub proof fn lemma_deletion_closure(m0: Map<IndexKey, RecordView>, root: Seq<char>, canonical: Seq<char>, files: Seq<FileSeen>, p: Seq<char>)
    requires
        ({
            let w = walk_result(m0, root, canonical, files);
            prune(w.index, root, w.seen).contains_key((root, p))
        }),
    ensures
        exists|i: int| 0 <= i < files.len() && accepted(root, canonical, files[i]) == Some(p),
{
    lemma_walk_seen(m0, root, canonical, files);
    assert(observed(root, canonical, files).contains(p));
}

} // verus!
