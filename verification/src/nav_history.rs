//! Back and forward navigation between the API tester's views: a bounded
//! list of snapshots and the position of the current one.

use vstd::prelude::*;
use crate::api_messages::ActiveView;

verus! {

/// The most snapshots the history keeps.
pub const MAX_NAVIGATION_HISTORY: usize = 100;

/// Whether a view takes part in the history (the keymap help does not).
pub open spec fn history_view(v: ActiveView) -> bool {
    v != ActiveView::KeymapHelp
}

/// Whether a view takes part in the history.
pub fn is_history_view(view: ActiveView) -> (b: bool)
    ensures
        b == history_view(view),
{
    view != ActiveView::KeymapHelp
}

/// The snapshots visited, oldest first, and the position of the current
/// one.
pub struct NavHistory<T> {
    pub entries: Vec<T>,
    pub index: usize,
}

impl<T> NavHistory<T> {
    /// The position is within the snapshots (0 when there are none), and
    /// there are at most [`MAX_NAVIGATION_HISTORY`] of them.
    pub open spec fn wf(&self) -> bool {
        &&& self.entries@.len() <= MAX_NAVIGATION_HISTORY
        &&& (self.entries@.len() == 0 ==> self.index == 0)
        &&& (self.entries@.len() > 0 ==> self.index < self.entries@.len())
    }

    /// An empty history.
    pub fn new() -> (h: Self)
        ensures
            h.wf(),
            h.entries@.len() == 0,
            h.index == 0,
    {
        NavHistory { entries: Vec::new(), index: 0 }
    }

    /// Overwrites the current snapshot; nothing happens while the history
    /// is empty.
    pub fn replace_current(&mut self, snapshot: T)
        requires
            old(self).wf(),
        ensures
            final(self).wf(),
            final(self).index == old(self).index,
            final(self).entries@ == (if old(self).entries@.len() == 0 {
                old(self).entries@
            } else {
                old(self).entries@.update(old(self).index as int, snapshot)
            }),
    {
        if self.entries.len() == 0 {
            return;
        }
        let i = self.index;
        let _ = self.entries.remove(i);
        self.entries.insert(i, snapshot);
        proof {
            assert(self.entries@ =~= old(self).entries@.update(i as int, snapshot));
        }
    }

    /// The history after visiting `snapshot` from the current position:
    /// snapshots after the current one are dropped, the new one is added
    /// and becomes current, and the oldest are dropped beyond the limit.
    pub open spec fn pushed(entries: Seq<T>, index: usize, snapshot: T) -> Seq<T> {
        let kept = if index + 1 < entries.len() {
            entries.take(index + 1)
        } else {
            entries
        };
        let all = kept.push(snapshot);
        if all.len() > MAX_NAVIGATION_HISTORY {
            all.skip(all.len() - MAX_NAVIGATION_HISTORY)
        } else {
            all
        }
    }

    /// Records a visit to a new snapshot.
    pub fn push(&mut self, snapshot: T)
        requires
            old(self).wf(),
        ensures
            final(self).wf(),
            final(self).entries@ == Self::pushed(old(self).entries@, old(self).index, snapshot),
            final(self).index == final(self).entries@.len() - 1,
    {
        if self.index + 1 < self.entries.len() {
            self.entries.truncate(self.index + 1);
        }
        self.entries.push(snapshot);
        let ghost all = self.entries@;
        if self.entries.len() > MAX_NAVIGATION_HISTORY {
            let _ = self.entries.remove(0);
            proof {
                assert(all.len() == MAX_NAVIGATION_HISTORY + 1);
                assert(self.entries@ =~= all.skip(all.len() - MAX_NAVIGATION_HISTORY));
            }
        }
        self.index = self.entries.len() - 1;
    }

    /// Steps back: the current snapshot is overwritten with `current` and
    /// the previous one becomes current. Returns whether it moved.
    pub fn back(&mut self, current: T) -> (moved: bool)
        requires
            old(self).wf(),
        ensures
            final(self).wf(),
            moved == (old(self).entries@.len() > 0 && old(self).index > 0),
            moved ==> final(self).index == old(self).index - 1 && final(self).entries@
                == old(self).entries@.update(old(self).index as int, current),
            !moved ==> *final(self) == *old(self),
    {
        if self.entries.len() == 0 || self.index == 0 {
            return false;
        }
        self.replace_current(current);
        self.index = self.index - 1;
        true
    }

    /// Steps forward: the current snapshot is overwritten with `current`
    /// and the next one becomes current. Returns whether it moved.
    pub fn forward(&mut self, current: T) -> (moved: bool)
        requires
            old(self).wf(),
        ensures
            final(self).wf(),
            moved == (old(self).entries@.len() > 0 && old(self).index + 1 < old(self).entries@.len()),
            moved ==> final(self).index == old(self).index + 1 && final(self).entries@
                == old(self).entries@.update(old(self).index as int, current),
            !moved ==> *final(self) == *old(self),
    {
        if self.entries.len() == 0 || self.index + 1 >= self.entries.len() {
            return false;
        }
        self.replace_current(current);
        self.index = self.index + 1;
        true
    }
}

// ---------------------------------------------------------------------------
// Laws
// ---------------------------------------------------------------------------

/// Going back and then forward returns to the same position, where the
/// snapshot taken when leaving it is found again.
pub proof fn law_back_then_forward_returns<T>(
    entries: Seq<T>,
    index: usize,
    leaving: T,
    returning: T,
)
    requires
        entries.len() <= MAX_NAVIGATION_HISTORY,
        0 < index < entries.len(),
    ensures
        ({
            let after_back = entries.update(index as int, leaving);
            let after_forward = after_back.update(index - 1, returning);
            &&& (index - 1) + 1 < after_back.len()
            &&& after_forward[index as int] == leaving
            &&& after_forward.len() == entries.len()
        }),
{
}

/// A visit never lets the history grow beyond its limit, and the visited
/// snapshot is the last and current one.
pub proof fn law_push_is_bounded_and_current<T>(entries: Seq<T>, index: usize, snapshot: T)
    requires
        entries.len() <= MAX_NAVIGATION_HISTORY,
        entries.len() == 0 ==> index == 0,
        entries.len() > 0 ==> index < entries.len(),
    ensures
        NavHistory::<T>::pushed(entries, index, snapshot).len() <= MAX_NAVIGATION_HISTORY,
        NavHistory::<T>::pushed(entries, index, snapshot).last() == snapshot,
{
}

/// After a visit, going back lands on the snapshot that was current before
/// it (unless that one fell off the front of a full history).
pub proof fn law_push_then_back_lands_on_previous<T>(entries: Seq<T>, index: usize, snapshot: T)
    requires
        0 < entries.len() <= MAX_NAVIGATION_HISTORY,
        index < entries.len(),
        index + 1 < MAX_NAVIGATION_HISTORY,
    ensures
        ({
            let p = NavHistory::<T>::pushed(entries, index, snapshot);
            p.len() >= 2 && p[p.len() - 2] == entries[index as int]
        }),
{
    let kept = if index + 1 < entries.len() {
        entries.take(index + 1)
    } else {
        entries
    };
    assert(kept.len() == index + 1);
    let all = kept.push(snapshot);
    assert(all.len() <= MAX_NAVIGATION_HISTORY);
    assert(all[all.len() - 2] == entries[index as int]);
}

} // verus!
