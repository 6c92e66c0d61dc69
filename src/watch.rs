//! The live reconciler: per-path debouncing of filesystem events, and the
//! effect of one accepted event on the index.

use vstd::prelude::*;
use crate::index::{LocalIndex, IndexKey, get_file, insert_file, update_file, remove_file};
use crate::intent::{Intent, IntentView};
use crate::models::{FileRow, RecordView};
use crate::paths::{check_file_path, eligible, scope_path_of, to_scope_path};
use crate::text::str_eq;
use crate::time::Timestamp;

verus! {

/// The debounce window, in milliseconds.
pub const DEBOUNCE_MILLIS: u64 = 500;

/// The settling delay between accepting an event and opening the file, in
/// milliseconds.
pub const SETTLE_MILLIS: u64 = 100;

/// An event at `t` on `p` is processed when no event on `p` was processed
/// within the window before it.
pub open spec fn admits(m: Map<Seq<char>, u64>, p: Seq<char>, t: u64) -> bool {
    !m.contains_key(p) || t > m[p] + DEBOUNCE_MILLIS
}

/// The table after an event at `t` on `p`.
pub open spec fn after_event(m: Map<Seq<char>, u64>, p: Seq<char>, t: u64) -> Map<Seq<char>, u64> {
    if admits(m, p, t) { m.insert(p, t) } else { m }
}

/// Feeds events on `p` at `times` in order: the final table and how many
/// were processed.
pub open spec fn run_events(m: Map<Seq<char>, u64>, p: Seq<char>, times: Seq<u64>) -> (Map<Seq<char>, u64>, nat)
    decreases times.len(),
{
    if times.len() == 0 {
        (m, 0)
    } else {
        let (m1, n) = run_events(m, p, times.drop_last());
        let t = times.last();
        (after_event(m1, p, t), if admits(m1, p, t) { n + 1 } else { n })
    }
}

struct DebounceEntry {
    path: String,
    at: u64,
}

/// When each path last had an event processed, in milliseconds of a
/// monotonic clock.
pub struct Debouncer {
    entries: Vec<DebounceEntry>,
    model: Ghost<Map<Seq<char>, u64>>,
}

impl View for Debouncer {
    type V = Map<Seq<char>, u64>;

    closed spec fn view(&self) -> Map<Seq<char>, u64> {
        self.model@
    }
}

impl Debouncer {
    /// Each path is held once, and the entries agree with the view.
    pub closed spec fn wf(&self) -> bool {
        &&& forall|i: int, j: int|
            0 <= i < self.entries@.len() && 0 <= j < self.entries@.len() && i != j ==> self.entries@[i].path@
                != self.entries@[j].path@
        &&& forall|i: int|
            #![trigger self.entries@[i]]
            0 <= i < self.entries@.len() ==> self.model@.contains_key(self.entries@[i].path@)
                && self.model@[self.entries@[i].path@] == self.entries@[i].at
        &&& forall|k: Seq<char>|
            #[trigger] self.model@.contains_key(k) ==> exists|i: int|
                0 <= i < self.entries@.len() && self.entries@[i].path@ == k
    }

    pub fn new() -> (r: Debouncer)
        ensures
            r.wf(),
            r@ == Map::<Seq<char>, u64>::empty(),
    {
        Debouncer { entries: Vec::new(), model: Ghost(Map::empty()) }
    }

    /// Records an event at `now` on `path` and says whether to process it:
    /// only where no event on that path was processed in the window before.
    pub fn should_process(&mut self, path: &String, now: u64) -> (r: bool)
        requires
            old(self).wf(),
        ensures
            final(self).wf(),
            r == admits(old(self)@, path@, now),
            final(self)@ == after_event(old(self)@, path@, now),
    {
        let mut i: usize = 0;
        while i < self.entries.len()
            invariant
                self.wf(),
                self@ == old(self)@,
                i <= self.entries@.len(),
                forall|j: int| 0 <= j < i ==> self.entries@[j].path@ != path@,
            decreases self.entries@.len() - i,
        {
            if str_eq(self.entries[i].path.as_str(), path.as_str()) {
                let last = self.entries[i].at;
                assert(self.model@.contains_key(path@) && self.model@[path@] == last);
                if now >= last && now - last > DEBOUNCE_MILLIS {
                    let ghost before = self.entries@;
                    self.entries.set(i, DebounceEntry { path: path.clone(), at: now });
                    self.model = Ghost(self.model@.insert(path@, now));
                    proof {
                        assert forall|j: int| 0 <= j < before.len() && j != i implies self.entries@[j] == before[j] by {}
                        assert forall|k: Seq<char>| #[trigger] self.model@.contains_key(k) implies exists|j: int|
                            0 <= j < self.entries@.len() && self.entries@[j].path@ == k by {
                            if k != path@ {
                                let j = choose|j: int| 0 <= j < before.len() && before[j].path@ == k;
                                assert(self.entries@[j] == before[j]);
                            } else {
                                assert(self.entries@[i as int].path@ == k);
                            }
                        }
                    }
                    return true;
                }
                return false;
            }
            i = i + 1;
        }
        assert(!self.model@.contains_key(path@)) by {
            if self.model@.contains_key(path@) {
                let j = choose|j: int| 0 <= j < self.entries@.len() && self.entries@[j].path@ == path@;
                assert(self.entries@[j].path@ != path@);
            }
        }
        let ghost before = self.entries@;
        self.entries.push(DebounceEntry { path: path.clone(), at: now });
        self.model = Ghost(self.model@.insert(path@, now));
        proof {
            assert forall|j: int| 0 <= j < before.len() implies self.entries@[j] == before[j] by {}
            assert forall|k: Seq<char>| #[trigger] self.model@.contains_key(k) implies exists|j: int|
                0 <= j < self.entries@.len() && self.entries@[j].path@ == k by {
                if k != path@ {
                    let j = choose|j: int| 0 <= j < before.len() && before[j].path@ == k;
                    assert(self.entries@[j] == before[j]);
                } else {
                    assert(self.entries@[before.len() as int].path@ == k);
                }
            }
        }
        true
    }
}

/// Whether a raw event on `path` is processed: the path must be eligible
/// and pass the debouncer, whose table is updated only for an eligible path.
pub fn admit_event(debouncer: &mut Debouncer, path: &String, is_dir: bool, now: u64) -> (r: bool)
    requires
        old(debouncer).wf(),
    ensures
        final(debouncer).wf(),
        r == (eligible(path@, is_dir) && admits(old(debouncer)@, path@, now)),
        final(debouncer)@ == if eligible(path@, is_dir) {
            after_event(old(debouncer)@, path@, now)
        } else {
            old(debouncer)@
        },
{
    if !check_file_path(path, is_dir) {
        return false;
    }
    debouncer.should_process(path, now)
}

proof fn lemma_burst_prefix(m: Map<Seq<char>, u64>, p: Seq<char>, times: Seq<u64>)
    requires
        times.len() > 0,
        admits(m, p, times[0]),
        forall|i: int| 0 <= i < times.len() ==> times[0] <= #[trigger] times[i] <= times[0] + DEBOUNCE_MILLIS,
    ensures
        run_events(m, p, times).1 == 1,
        run_events(m, p, times).0 == m.insert(p, times[0]),
    decreases times.len(),
{
    if times.len() > 1 {
        let pre = times.drop_last();
        assert(pre[0] == times[0]);
        assert forall|i: int| 0 <= i < pre.len() implies pre[0] <= #[trigger] pre[i] <= pre[0] + DEBOUNCE_MILLIS by {
            assert(pre[i] == times[i]);
        }
        lemma_burst_prefix(m, p, pre);
        let t = times.last();
        assert(t == times[times.len() - 1]);
        assert(!admits(m.insert(p, times[0]), p, t));
        assert(after_event(m.insert(p, times[0]), p, t) == m.insert(p, times[0]));
    } else {
        assert(times.drop_last() =~= Seq::<u64>::empty());
        assert(run_events(m, p, times.drop_last()) == (m, 0nat));
        assert(times.last() == times[0]);
    }
}

/// Debounce correctness, first half: a burst of events on one path, all
/// within the window after the first, where no event on that path was
/// processed within the window before it, is processed exactly once.
pub proof fn lemma_burst_processed_once(m: Map<Seq<char>, u64>, p: Seq<char>, times: Seq<u64>)
    requires
        times.len() > 0,
        admits(m, p, times[0]),
        forall|i: int| 0 <= i < times.len() ==> times[0] <= #[trigger] times[i] <= times[0] + DEBOUNCE_MILLIS,
    ensures
        run_events(m, p, times).1 == 1,
{
    lemma_burst_prefix(m, p, times);
}

/// Debounce correctness, second half: an event more than the window after
/// the last processed one on its path is processed again.
pub proof fn lemma_event_after_window(m: Map<Seq<char>, u64>, p: Seq<char>, t0: u64, t1: u64)
    requires
        admits(m, p, t0),
        t1 > t0 + DEBOUNCE_MILLIS,
    ensures
        admits(after_event(m, p, t0), p, t1),
{
}

/// The kind of a filesystem event.
#[derive(Clone, Copy, Debug, PartialEq, Eq, Structural)]
pub enum ChangeKind {
    Create,
    Modify,
    Remove,
    Other,
}

/// The effect of an accepted event on the index: a created or modified
/// file that could be read is recorded with its hash and time, and
/// uploaded; a removed path is dropped from the index and deleted remotely;
/// anything else changes nothing.
pub open spec fn live_effect(
    m: Map<IndexKey, RecordView>,
    root: Seq<char>,
    canonical: Seq<char>,
    kind: ChangeKind,
    path: Seq<char>,
    hash: Option<Seq<char>>,
    last_modified: Timestamp,
) -> (Map<IndexKey, RecordView>, Option<IntentView>) {
    match scope_path_of(root, canonical, path) {
        None => (m, None),
        Some(p) => match kind {
            ChangeKind::Create | ChangeKind::Modify => match hash {
                Some(h) => {
                    let rec = RecordView { path: p, hash: h, last_modified };
                    (m.insert((root, p), rec), Some(IntentView::Upload(rec)))
                },
                None => (m, None),
            },
            ChangeKind::Remove => (m.remove((root, p)), Some(IntentView::Delete(p))),
            ChangeKind::Other => (m, None),
        },
    }
}

/// Applies one accepted event to the index, as `live_effect` says, and
/// returns the intent it yields. For a created or modified file, `hash` and
/// `last_modified` are what was read after the settling delay.
pub fn live_change(
    index: &mut LocalIndex,
    root_dir: &String,
    watch_root: &String,
    kind: ChangeKind,
    path: &String,
    hash: Option<String>,
    last_modified: Timestamp,
) -> (r: Option<Intent>)
    requires
        old(index).wf(),
    ensures
        final(index).wf(),
        ({
            let e = live_effect(
                old(index)@,
                root_dir@,
                watch_root@,
                kind,
                path@,
                match hash {
                    Some(h) => Some(h@),
                    None => None,
                },
                last_modified,
            );
            &&& final(index)@ == e.0
            &&& match r {
                Some(i) => e.1 == Some(i@),
                None => e.1 is None,
            }
        }),
{
    let p = match to_scope_path(root_dir, watch_root, path) {
        Some(p) => p,
        None => return None,
    };
    match kind {
        ChangeKind::Create | ChangeKind::Modify => match hash {
            Some(h) => {
                let rows = get_file(index, &p, root_dir);
                let row = FileRow::new(p, h, last_modified);
                if rows.len() > 0 {
                    update_file(index, &row, root_dir);
                } else {
                    let _ = insert_file(index, &row, root_dir);
                }
                Some(Intent::Upload(row))
            },
            None => None,
        },
        ChangeKind::Remove => {
            remove_file(index, &p, root_dir);
            Some(Intent::Delete(p))
        },
        ChangeKind::Other => None,
    }
}

/// Live changes are idempotent with respect to the index: applying the
/// same event twice leaves the index as applying it once.
pub proof fn lemma_live_idempotent(
    m: Map<IndexKey, RecordView>,
    root: Seq<char>,
    canonical: Seq<char>,
    kind: ChangeKind,
    path: Seq<char>,
    hash: Option<Seq<char>>,
    last_modified: Timestamp,
)
    ensures
        live_effect(live_effect(m, root, canonical, kind, path, hash, last_modified).0, root, canonical, kind, path, hash, last_modified).0
            == live_effect(m, root, canonical, kind, path, hash, last_modified).0,
{
    let once = live_effect(m, root, canonical, kind, path, hash, last_modified).0;
    let twice = live_effect(once, root, canonical, kind, path, hash, last_modified).0;
    assert(twice =~= once);
}

} // verus!
