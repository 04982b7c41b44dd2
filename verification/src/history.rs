//! History snapshotting and management: the undo/redo model of the editor.
//!
//! The history is a list of labelled snapshots; one of them is viewed.
//! Undoing views an earlier snapshot; making a change while viewing the past
//! first appends a copy of the viewed snapshot (a revert), so no state is
//! ever lost.
use vstd::prelude::*;
use crate::error::{EdError, EdResult};
use crate::text::{decimal_chars, decimal_of, push_str, string_from_chars};

verus! {

/// A special kind of clone for [`History`], which keeps as much memory in
/// common as possible. A snapshot has the same abstract state as its source.
pub trait Snapshot: Sized + View {
    /// Create a copy of self, with the same abstract state.
    fn create_snapshot(&self) -> (r: Self)
        ensures
            r@ == self@;

    /// Whether two states are the same.
    fn same_state(&self, other: &Self) -> (r: bool)
        ensures
            r == (self@ == other@);

    /// The abstract form of the state a new history starts from.
    spec fn initial_view() -> Self::V;

    /// The state a new history starts from.
    fn initial_state() -> (r: Self)
        ensures
            r@ == Self::initial_view();
}

/// The label of the first snapshot of a new history.
pub open spec fn initial_label() -> Seq<char> {
    "Before reading in a file (empty)"@
}

/// The label of a snapshot that reverts `n` undone actions.
pub open spec fn revert_label(n: nat) -> Seq<char> {
    "Reverted the "@ + decimal_chars(n) + " actions undone to as one operation."@
}

/// A history of snapshots of a state `T`, one of which is viewed.
pub struct History<T: Snapshot> {
    snapshots: Vec<(String, T)>,
    viewed_i: usize,
    saved_i: Option<usize>,
    /// If true all calls to [`History::snapshot`] only revert (when viewing
    /// the past) and otherwise are ignored; intended for macro execution.
    /// Read with [`History::snapshots_paused`], set with
    /// [`History::set_dont_snapshot`].
    dont_snapshot: bool,
}

impl<T: Snapshot> History<T> {
    /// The states of the snapshots, oldest first.
    pub closed spec fn states(&self) -> Seq<T::V> {
        self.snapshots@.map_values(|s: (String, T)| s.1@)
    }

    /// The labels of the snapshots: what caused each state.
    pub closed spec fn labels(&self) -> Seq<Seq<char>> {
        self.snapshots@.map_values(|s: (String, T)| s.0@)
    }

    /// The index of the viewed snapshot.
    pub closed spec fn viewed(&self) -> int {
        self.viewed_i as int
    }

    /// The index of the snapshot last saved, if any is believed saved.
    pub closed spec fn saved_index(&self) -> Option<usize> {
        self.saved_i
    }

    /// Whether snapshot creation is paused (`dont_snapshot`).
    pub closed spec fn paused(&self) -> bool {
        self.dont_snapshot
    }

    /// The history holds at least one snapshot and views one of them.
    pub closed spec fn wf(&self) -> bool {
        self.snapshots@.len() >= 1 && self.viewed_i < self.snapshots@.len()
    }

    /// A well-formed history has a snapshot, and views one of them.
    pub proof fn lemma_wf(&self)
        requires
            self.wf(),
        ensures
            self.states().len() >= 1,
            self.states().len() <= usize::MAX,
            self.labels().len() == self.states().len(),
            0 <= self.viewed() < self.states().len(),
    {
        assert(self.snapshots@.len() == self.snapshots.len());
    }

    /// The viewed state.
    pub open spec fn present(&self) -> T::V {
        self.states()[self.viewed()]
    }

    /// Create a new history: only an initial state exists, considered saved.
    pub fn new() -> (h: History<T>)
        ensures
            h.wf(),
            h.states() == seq![T::initial_view()],
            h.labels() == seq![initial_label()],
            h.viewed() == 0,
            h.saved_index() == Some(0usize),
            !h.paused(),
    {
        let mut snapshots = Vec::new();
        snapshots.push((String::from_str("Before reading in a file (empty)"), T::initial_state()));
        let h = History { snapshots, viewed_i: 0, saved_i: Some(0), dont_snapshot: false };
        proof {
            reveal_strlit("Before reading in a file (empty)");
        }
        assert(h.states() =~= seq![T::initial_view()]);
        assert(h.labels() =~= seq![initial_label()]);
        h
    }

    /// Whether the viewed state is the one last saved.
    pub fn saved(&self) -> (r: bool)
        ensures
            r == (self.saved_index() == Some(self.viewed() as usize)),
    {
        match self.saved_i {
            Some(i) => i == self.viewed_i,
            None => false,
        }
    }

    /// Mark the viewed state as saved (or, while `dont_snapshot` is set, as
    /// no state being saved, since no snapshot may correspond to it).
    pub fn set_saved(&mut self)
        ensures
            final(self).states() == old(self).states(),
            final(self).labels() == old(self).labels(),
            final(self).viewed() == old(self).viewed(),
            final(self).paused() == old(self).paused(),
            final(self).saved_index() == (if old(self).paused() { None } else { Some(old(self).viewed() as usize) }),
            old(self).wf() ==> final(self).wf(),
    {
        if !self.dont_snapshot {
            self.saved_i = Some(self.viewed_i);
        } else {
            self.saved_i = None;
        }
    }

    /// Declare that no known state is saved.
    pub fn set_unsaved(&mut self)
        ensures
            final(self).states() == old(self).states(),
            final(self).labels() == old(self).labels(),
            final(self).viewed() == old(self).viewed(),
            final(self).paused() == old(self).paused(),
            final(self).saved_index() == None::<usize>,
            old(self).wf() ==> final(self).wf(),
    {
        self.saved_i = None;
    }

    /// The viewed state.
    pub fn current(&self) -> (r: &T)
        requires
            self.wf(),
        ensures
            r@ == self.present(),
    {
        &self.snapshots[self.viewed_i].1
    }

    fn internal_create_snapshot(&mut self, label: String)
        requires
            old(self).wf(),
        ensures
            final(self).wf(),
            final(self).states() == old(self).states().push(old(self).present()),
            final(self).labels() == old(self).labels().push(label@),
            final(self).viewed() == old(self).states().len(),
            final(self).saved_index() == old(self).saved_index(),
            final(self).paused() == old(self).paused(),
    {
        let copy = self.snapshots[self.viewed_i].1.create_snapshot();
        let ghost l = label@;
        let ghost c = copy@;
        self.snapshots.push((label, copy));
        self.viewed_i = self.snapshots.len() - 1;
        assert(self.states() =~= old(self).states().push(c));
        assert(self.labels() =~= old(self).labels().push(l));
    }

    /// The history after [`History::snapshot`] with the given cause.
    pub open spec fn snapshot_states(&self) -> Seq<T::V> {
        let reverted = if self.viewed() < self.states().len() - 1 {
            self.states().push(self.present())
        } else {
            self.states()
        };
        if self.paused() { reverted } else { reverted.push(self.present()) }
    }

    /// The labels after [`History::snapshot`] with the given cause.
    pub open spec fn snapshot_labels(&self, cause: Seq<char>) -> Seq<Seq<char>> {
        let reverted = if self.viewed() < self.states().len() - 1 {
            self.labels().push(revert_label((self.states().len() - (self.viewed() + 1)) as nat))
        } else {
            self.labels()
        };
        if self.paused() { reverted } else { reverted.push(cause) }
    }

    /// Manually add a snapshot labelled with what causes the coming change.
    ///
    /// When viewing the past, a snapshot reverting to the viewed state is
    /// appended first (even if `dont_snapshot` is set). Unless
    /// `dont_snapshot` is set, a copy of the viewed state is then appended
    /// with the given label. Either way the last snapshot is viewed after.
    pub fn snapshot(&mut self, modification_cause: String)
        requires
            old(self).wf(),
        ensures
            final(self).wf(),
            final(self).states() == old(self).snapshot_states(),
            final(self).labels() == old(self).snapshot_labels(modification_cause@),
            final(self).viewed() == final(self).states().len() - 1,
            final(self).present() == old(self).present(),
            final(self).saved_index() == old(self).saved_index(),
            final(self).paused() == old(self).paused(),
    {
        if self.viewed_i < self.snapshots.len() - 1 {
            let n = self.snapshots.len() - (self.viewed_i + 1);
            let mut label: Vec<char> = Vec::new();
            push_str(&mut label, "Reverted the ");
            let digits = decimal_of(n);
            let mut i: usize = 0;
            while i < digits.len()
                invariant
                    i <= digits@.len(),
                    label@ == "Reverted the "@ + digits@.subrange(0, i as int),
                decreases digits@.len() - i,
            {
                label.push(digits[i]);
                i = i + 1;
                assert(label@ =~= "Reverted the "@ + digits@.subrange(0, i as int));
            }
            assert(digits@.subrange(0, i as int) =~= digits@);
            push_str(&mut label, " actions undone to as one operation.");
            let label = string_from_chars(label.as_slice());
            self.internal_create_snapshot(label);
        }
        if !self.dont_snapshot {
            self.internal_create_snapshot(modification_cause);
        }
    }

    /// Get mutable access to the present state, to make a change.
    ///
    /// First snapshots as [`History::snapshot`] does with the given cause;
    /// the returned state is the last snapshot, which is viewed.
    pub fn current_mut(&mut self, modification_cause: String) -> (r: &mut T)
        requires
            old(self).wf(),
        ensures
            (*r)@ == old(self).present(),
            final(self).wf(),
            final(self).states() == old(self).snapshot_states().update(
                old(self).snapshot_states().len() - 1,
                (*final(r))@,
            ),
            final(self).labels() == old(self).snapshot_labels(modification_cause@),
            final(self).viewed() == final(self).states().len() - 1,
            final(self).saved_index() == old(self).saved_index(),
            final(self).paused() == old(self).paused(),
    {
        self.snapshot(modification_cause);
        let i = self.viewed_i;
        &mut self.snapshots[i].1
    }

    /// Mutable access to the viewed state without taking a snapshot, for
    /// changes that are not undone (such as tags).
    pub fn viewed_mut(&mut self) -> (r: &mut T)
        requires
            old(self).wf(),
        ensures
            (*r)@ == old(self).present(),
            final(self).wf(),
            final(self).states() == old(self).states().update(old(self).viewed(), (*final(r))@),
            final(self).labels() == old(self).labels(),
            final(self).viewed() == old(self).viewed(),
            final(self).saved_index() == old(self).saved_index(),
            final(self).paused() == old(self).paused(),
    {
        let i = self.viewed_i;
        let ghost before = self.snapshots@;
        let r = &mut self.snapshots[i].1;
        r
    }

    /// Whether snapshot creation is paused.
    pub fn snapshots_paused(&self) -> (b: bool)
        ensures
            b == self.paused(),
    {
        self.dont_snapshot
    }

    /// Pause (or resume) snapshot creation.
    pub fn set_dont_snapshot(&mut self, dont: bool)
        ensures
            final(self).paused() == dont,
            final(self).states() == old(self).states(),
            final(self).labels() == old(self).labels(),
            final(self).viewed() == old(self).viewed(),
            final(self).saved_index() == old(self).saved_index(),
            old(self).wf() ==> final(self).wf(),
    {
        self.dont_snapshot = dont;
    }

    /// What [`History::dedup_present`] leaves of `self`: if its last two
    /// snapshots hold the same state, without the last one, viewing the new
    /// last one; else `self` unchanged.
    pub open spec fn present_deduped(&self, new: History<T>) -> bool {
        let n = self.states().len();
        &&& new.wf()
        &&& if n >= 2 && self.states()[n - 1] == self.states()[n - 2] {
            &&& new.states() == self.states().drop_last()
            &&& new.labels() == self.labels().drop_last()
            &&& new.viewed() == n - 2
        } else {
            &&& new.states() == self.states()
            &&& new.labels() == self.labels()
            &&& new.viewed() == self.viewed()
        }
        &&& new.saved_index() == self.saved_index()
    }

    /// If the last two snapshots hold the same state, deletes the last one
    /// (and views the new last one). Intended after running a macro, which
    /// snapshots before knowing if it will change anything.
    pub fn dedup_present(&mut self)
        requires
            old(self).wf(),
        ensures
            final(self).wf(),
            ({
                let n = old(self).states().len();
                if n >= 2 && old(self).states()[n - 1] == old(self).states()[n - 2] {
                    &&& final(self).states() == old(self).states().drop_last()
                    &&& final(self).labels() == old(self).labels().drop_last()
                    &&& final(self).viewed() == n - 2
                } else {
                    &&& final(self).states() == old(self).states()
                    &&& final(self).labels() == old(self).labels()
                    &&& final(self).viewed() == old(self).viewed()
                }
            }),
            final(self).saved_index() == old(self).saved_index(),
            final(self).paused() == old(self).paused(),
            old(self).present_deduped(*final(self)),
    {
        let n = self.snapshots.len();
        if n >= 2 && self.snapshots[n - 1].1.same_state(&self.snapshots[n - 2].1) {
            self.snapshots.pop();
            self.viewed_i = self.snapshots.len() - 1;
            assert(self.states() =~= old(self).states().drop_last());
            assert(self.labels() =~= old(self).labels().drop_last());
        }
    }

    /// The states after [`History::force_create_snapshot`].
    pub open spec fn forced_states(&self) -> Seq<T::V> {
        let reverted = if self.viewed() < self.states().len() - 1 {
            self.states().push(self.present())
        } else {
            self.states()
        };
        reverted.push(self.present())
    }

    /// The labels after [`History::force_create_snapshot`] with `label`.
    pub open spec fn forced_labels(&self, label: Seq<char>) -> Seq<Seq<char>> {
        let reverted = if self.viewed() < self.states().len() - 1 {
            self.labels().push(revert_label((self.states().len() - (self.viewed() + 1)) as nat))
        } else {
            self.labels()
        };
        reverted.push(label)
    }

    /// Adds a snapshot labelled `label`, even while snapshot creation is
    /// paused (after a revert snapshot, when viewing the past), and views it.
    pub fn force_create_snapshot(&mut self, label: String)
        requires
            old(self).wf(),
        ensures
            final(self).wf(),
            final(self).states() == old(self).forced_states(),
            final(self).labels() == old(self).forced_labels(label@),
            final(self).viewed() == final(self).states().len() - 1,
            final(self).present() == old(self).present(),
            final(self).saved_index() == old(self).saved_index(),
            final(self).paused() == old(self).paused(),
    {
        let paused = self.dont_snapshot;
        self.dont_snapshot = false;
        self.snapshot(label);
        self.dont_snapshot = paused;
    }

    /// What [`History::delete_present`] leaves of `self`: without its last
    /// snapshot (if it has another), viewing the new last one; a save that
    /// pointed at the deleted snapshot is forgotten.
    pub open spec fn present_deleted(&self, new: History<T>) -> bool {
        let n = self.states().len();
        &&& new.wf()
        &&& if n >= 2 {
            &&& new.states() == self.states().drop_last()
            &&& new.labels() == self.labels().drop_last()
            &&& new.viewed() == n - 2
            &&& new.saved_index() == (if self.saved_index() == Some((n - 1) as usize) {
                None
            } else {
                self.saved_index()
            })
        } else {
            &&& new.states() == self.states()
            &&& new.labels() == self.labels()
            &&& new.viewed() == self.viewed()
            &&& new.saved_index() == self.saved_index()
        }
    }

    /// Deletes the last snapshot, unless it is the only one, and views the
    /// new last one. Used to drop the snapshot a macro made, leaving no
    /// trace of it.
    pub fn delete_present(&mut self)
        requires
            old(self).wf(),
        ensures
            old(self).present_deleted(*final(self)),
            final(self).paused() == old(self).paused(),
    {
        let n = self.snapshots.len();
        if n >= 2 {
            self.snapshots.pop();
            self.viewed_i = n - 2;
            if self.saved_i == Some(n - 1) {
                self.saved_i = None;
            }
            assert(self.states() =~= old(self).states().drop_last());
            assert(self.labels() =~= old(self).labels().drop_last());
        }
    }

    /// Number of snapshots in the history.
    pub fn len(&self) -> (n: usize)
        ensures
            n == self.states().len(),
    {
        self.snapshots.len()
    }

    /// The label and state of every snapshot, oldest first.
    pub fn snapshots(&self) -> (r: &Vec<(String, T)>)
        ensures
            r@.len() == self.states().len(),
            forall|i: int| 0 <= i < r@.len() ==> (#[trigger] r@[i]).0@ == self.labels()[i]
                && r@[i].1@ == self.states()[i],
    {
        &self.snapshots
    }

    /// The index of the snapshot last saved, if any is believed saved.
    pub fn saved_i(&self) -> (r: Option<usize>)
        ensures
            r == self.saved_index(),
    {
        self.saved_i
    }

    /// The index of the viewed snapshot.
    pub fn viewed_i(&self) -> (r: usize)
        ensures
            r == self.viewed(),
    {
        self.viewed_i
    }

    /// Views the snapshot at `new_i`, returning its label; errors if no
    /// snapshot has that index.
    pub fn set_viewed_i(&mut self, new_i: usize) -> (r: EdResult<&str>)
        requires
            old(self).wf(),
        ensures
            final(self).wf(),
            final(self).states() == old(self).states(),
            final(self).labels() == old(self).labels(),
            final(self).saved_index() == old(self).saved_index(),
            final(self).paused() == old(self).paused(),
            r is Ok <==> new_i < old(self).states().len(),
            r matches Ok(label) ==> label@ == old(self).labels()[new_i as int] && final(self).viewed()
                == new_i,
            r is Err ==> *final(self) == *old(self),
            r matches Err(e) ==> final(self).viewed() == old(self).viewed() && e == (EdError::UndoIndexTooBig {
                index: new_i,
                history_len: old(self).states().len() as usize,
                relative_redo_limit: (old(self).states().len() - old(self).viewed() - 1) as usize,
            }),
    {
        if new_i < self.snapshots.len() {
            self.viewed_i = new_i;
            Ok(self.snapshots[self.viewed_i].0.as_str())
        } else {
            Err(EdError::UndoIndexTooBig {
                index: new_i,
                history_len: self.snapshots.len(),
                relative_redo_limit: self.snapshots.len() - self.viewed_i - 1,
            })
        }
    }
}

} // verus!
