//! The fan-out hub: membership of admin event sinks and the debouncer
//! that coalesces bursts of storage-change notifications.
//!
//! The hub broadcasts two events, `stats` and `clock`, to every connected
//! admin stream.  The channel sends themselves happen outside the verified
//! core; this module decides, from plain values, what the hub does: how the
//! sink list changes on connect, disconnect and send failure, and whether a
//! change-feed tick broadcasts now, schedules a trailing broadcast, or is
//! dropped.

use vstd::prelude::*;

verus! {

/// A burst of changes yields at most one immediate broadcast per this many
/// milliseconds.
pub const DEBOUNCE_WINDOW_MS: i64 = 10_000;

/// Delay, from the last immediate broadcast, of the trailing broadcast
/// that closes a burst; one second past the window so cycles overlap.
pub const TRAILING_DELAY_MS: i64 = 11_000;

/// Initial `last_update`: far enough in the past that the first tick
/// always broadcasts immediately.
pub const LAST_UPDATE_FLOOR_MS: i64 = -8_334_601_228_800_000;

/// What the hub does with one change-feed tick.
#[derive(Clone, Copy, Debug, PartialEq, Eq, Structural)]
pub enum DebounceAction {
    /// Broadcast `stats` now.
    Broadcast,
    /// Sleep `delay_ms`, then broadcast `stats` and clear the debounce
    /// flag.
    Schedule { delay_ms: u64 },
    /// A trailing broadcast is already scheduled; drop the tick.
    Ignore,
}

/// Debounce state for `stats` broadcasts.
#[derive(Clone, Copy, Debug, PartialEq, Eq, Structural)]
pub struct Debouncer {
    /// Epoch milliseconds of the last immediate broadcast.
    pub last_update: i64,
    /// True while a trailing broadcast is scheduled.
    pub debounced: bool,
}

impl Debouncer {
    /// A fresh debouncer: the next tick broadcasts immediately.
    pub fn new() -> (d: Debouncer)
        ensures
            d == (Debouncer { last_update: LAST_UPDATE_FLOOR_MS, debounced: false }),
    {
        Debouncer { last_update: LAST_UPDATE_FLOOR_MS, debounced: false }
    }

    /// Decides what one change-feed tick at time `now` does, and updates
    /// the debounce state accordingly.
    pub fn on_change_tick(&mut self, now: i64) -> (a: DebounceAction)
        requires
            i64::MIN <= now - old(self).last_update <= i64::MAX,
            TRAILING_DELAY_MS - (now - old(self).last_update) <= i64::MAX,
        ensures
            now - old(self).last_update > DEBOUNCE_WINDOW_MS ==> {
                &&& a == DebounceAction::Broadcast
                &&& *final(self) == (Debouncer { last_update: now, debounced: false })
            },
            now - old(self).last_update <= DEBOUNCE_WINDOW_MS && !old(self).debounced ==> {
                &&& a == (DebounceAction::Schedule {
                    delay_ms: (TRAILING_DELAY_MS - (now - old(self).last_update)) as u64,
                })
                &&& *final(self) == (Debouncer { last_update: old(self).last_update, debounced: true })
            },
            now - old(self).last_update <= DEBOUNCE_WINDOW_MS && old(self).debounced ==> {
                &&& a == DebounceAction::Ignore
                &&& *final(self) == *old(self)
            },
    {
        let diff = now - self.last_update;
        if diff > DEBOUNCE_WINDOW_MS {
            self.last_update = now;
            self.debounced = false;
            DebounceAction::Broadcast
        } else if !self.debounced {
            self.debounced = true;
            DebounceAction::Schedule { delay_ms: (TRAILING_DELAY_MS - diff) as u64 }
        } else {
            DebounceAction::Ignore
        }
    }

    /// The scheduled trailing broadcast fired: clear the debounce flag.
    pub fn on_debounce_fire(&mut self)
        ensures
            *final(self) == (Debouncer { last_update: old(self).last_update, debounced: false }),
    {
        self.debounced = false;
    }
}

/// Folds one membership message into the sink list: append the sink on
/// connect; on disconnect, remove its first occurrence if present.
pub fn apply_membership(list: &mut Vec<u64>, connect: bool, sink: u64)
    ensures
        connect ==> final(list)@ == old(list)@.push(sink),
        !connect ==> final(list)@ == old(list)@.remove_value(sink),
{
    if connect {
        list.push(sink);
    } else {
        let n = list.len();
        let mut i: usize = 0;
        while i < n
            invariant
                !connect,
                list@ == old(list)@,
                n == list.len(),
                0 <= i <= n,
                forall|j: int| 0 <= j < i ==> list@[j] != sink,
            decreases n - i,
        {
            if list[i] == sink {
                proof {
                    list@.index_of_first_ensures(sink);
                }
                list.remove(i);
                return ;
            }
            i = i + 1;
        }
        proof {
            list@.index_of_first_ensures(sink);
        }
    }
}

/// The sequence `s` with the elements at `idxs` removed, head first.
/// Meaningful when `idxs` is strictly decreasing, so that earlier removals
/// do not shift the positions named by later ones.
pub open spec fn spec_remove_indices(s: Seq<u64>, idxs: Seq<usize>) -> Seq<u64>
    decreases idxs.len(),
{
    if idxs.len() == 0 {
        s
    } else {
        spec_remove_indices(s.remove(idxs[0] as int), idxs.drop_first())
    }
}

proof fn lemma_remove_indices_push(s: Seq<u64>, idxs: Seq<usize>, j: usize)
    ensures
        spec_remove_indices(s, idxs.push(j)) == spec_remove_indices(s, idxs).remove(j as int),
    decreases idxs.len(),
{
    if idxs.len() == 0 {
        assert(idxs.push(j)[0] == j);
        assert(idxs.push(j).drop_first() =~= Seq::<usize>::empty());
        assert(spec_remove_indices(s, idxs.push(j)) == spec_remove_indices(
            s.remove(j as int),
            Seq::<usize>::empty(),
        ));
    } else {
        assert(idxs.push(j)[0] == idxs[0]);
        assert(idxs.push(j).drop_first() =~= idxs.drop_first().push(j));
        lemma_remove_indices_push(s.remove(idxs[0] as int), idxs.drop_first(), j);
    }
}

/// Removes the sinks whose sends failed.  `failed` holds positions into
/// the current list, strictly decreasing, as the broadcast loop collects
/// them; removing from the largest position down keeps the remaining
/// positions valid.
pub fn remove_failed(list: &mut Vec<u64>, failed: &Vec<usize>)
    requires
        forall|k: int| 0 <= k < failed@.len() ==> failed@[k] < old(list)@.len(),
        forall|k1: int, k2: int|
            0 <= k1 < k2 < failed@.len() ==> failed@[k1] > failed@[k2],
    ensures
        final(list)@ == spec_remove_indices(old(list)@, failed@),
{
    let ghost orig = list@;
    let n = failed.len();
    let mut k: usize = 0;
    while k < n
        invariant
            n == failed@.len(),
            0 <= k <= n,
            list@ == spec_remove_indices(orig, failed@.take(k as int)),
            list@.len() == orig.len() - k,
            forall|k0: int| 0 <= k0 < n ==> failed@[k0] < orig.len(),
            forall|k1: int, k2: int| 0 <= k1 < k2 < n ==> failed@[k1] > failed@[k2],
            forall|k0: int| k <= k0 < n ==> failed@[k0] < list@.len(),
        decreases n - k,
    {
        let idx = failed[k];
        list.remove(idx);
        proof {
            assert(failed@.take(k + 1 as int) =~= failed@.take(k as int).push(failed@[k as int]));
            lemma_remove_indices_push(orig, failed@.take(k as int), idx);
        }
        k = k + 1;
    }
    proof {
        assert(failed@.take(n as int) =~= failed@);
    }
}

} // verus!
