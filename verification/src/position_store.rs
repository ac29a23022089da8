//! The shared application-position store: a mapping from process id to
//! the canvas rectangle the application's window occupies.
//!
//! The store is a sequence of `(pid, rect)` entries with pairwise
//! distinct pids; its mathematical value is the finite map from pid to
//! rectangle.  The host embeds one store behind an exclusive lock whose
//! guard is the reservation of the design: while a holder has the
//! guard, every other read, write and reserve waits, so a spawn can
//! learn the new pid and register its position as one indivisible unit.
//! Each operation here is one such serialized step.

use vstd::prelude::*;

use crate::config::Rect;

verus! {

/// The finite map described by an entry sequence: later entries win,
/// though the store keeps its keys distinct so order never matters.
pub open spec fn map_of(s: Seq<(u32, Rect)>) -> Map<u32, Rect>
    decreases s.len(),
{
    if s.len() == 0 {
        Map::empty()
    } else {
        map_of(s.drop_last()).insert(s.last().0, s.last().1)
    }
}

/// Pairwise distinct pids.
pub open spec fn keys_unique(s: Seq<(u32, Rect)>) -> bool {
    forall|i: int, j: int| 0 <= i < j < s.len() ==> s[i].0 != s[j].0
}

/// A key is in the map exactly when some entry carries it.
proof fn lemma_map_of_contains_key(s: Seq<(u32, Rect)>, k: u32)
    ensures
        map_of(s).contains_key(k) <==> (exists|i: int| 0 <= i < s.len() && s[i].0 == k),
    decreases s.len(),
{
    if s.len() > 0 {
        lemma_map_of_contains_key(s.drop_last(), k);
        if s.last().0 == k {
            assert(s[s.len() - 1].0 == k);
        } else if exists|i: int| 0 <= i < s.drop_last().len() && s.drop_last()[i].0 == k {
            let i = choose|i: int| 0 <= i < s.drop_last().len() && s.drop_last()[i].0 == k;
            assert(s[i].0 == k);
        } else if exists|i: int| 0 <= i < s.len() && s[i].0 == k {
            let i = choose|i: int| 0 <= i < s.len() && s[i].0 == k;
            if i < s.len() - 1 {
                assert(s.drop_last()[i].0 == k);
            }
        }
    }
}

/// With distinct keys, the map sends each entry's pid to its rect.
proof fn lemma_map_of_index(s: Seq<(u32, Rect)>, i: int)
    requires
        keys_unique(s),
        0 <= i < s.len(),
    ensures
        map_of(s).contains_key(s[i].0),
        map_of(s)[s[i].0] == s[i].1,
    decreases s.len(),
{
    if i < s.len() - 1 {
        assert(keys_unique(s.drop_last()));
        lemma_map_of_index(s.drop_last(), i);
        assert(s.drop_last()[i] == s[i]);
        assert(s[i].0 != s.last().0);
    }
}

/// Replacing the rect of the entry at `i` updates the map at that pid.
proof fn lemma_map_of_update(s: Seq<(u32, Rect)>, i: int, r: Rect)
    requires
        keys_unique(s),
        0 <= i < s.len(),
    ensures
        map_of(s.update(i, (s[i].0, r))) == map_of(s).insert(s[i].0, r),
    decreases s.len(),
{
    let k = s[i].0;
    let t = s.update(i, (k, r));
    if i == s.len() - 1 {
        assert(t.drop_last() =~= s.drop_last());
        assert(t.last() == (k, r));
        assert(map_of(t) =~= map_of(s).insert(k, r));
    } else {
        assert(t.drop_last() =~= s.drop_last().update(i, (k, r)));
        assert(keys_unique(s.drop_last()));
        assert(s.drop_last()[i] == s[i]);
        lemma_map_of_update(s.drop_last(), i, r);
        assert(t.last() == s.last());
        assert(k != s.last().0);
        assert(map_of(t) =~= map_of(s).insert(k, r));
    }
}

/// Removing the entry at `i` removes that pid from the map.
proof fn lemma_map_of_remove(s: Seq<(u32, Rect)>, i: int)
    requires
        keys_unique(s),
        0 <= i < s.len(),
    ensures
        map_of(s.remove(i)) == map_of(s).remove(s[i].0),
    decreases s.len(),
{
    let k = s[i].0;
    let t = s.remove(i);
    if i == s.len() - 1 {
        assert(t =~= s.drop_last());
        lemma_map_of_contains_key(s.drop_last(), k);
        assert(forall|j: int| 0 <= j < s.drop_last().len() ==> s.drop_last()[j].0 != k);
        assert(!map_of(s.drop_last()).contains_key(k));
        assert(map_of(t) =~= map_of(s).remove(k));
    } else {
        assert(t.drop_last() =~= s.drop_last().remove(i));
        assert(t.last() == s.last());
        assert(keys_unique(s.drop_last()));
        assert(s.drop_last()[i] == s[i]);
        lemma_map_of_remove(s.drop_last(), i);
        assert(k != s.last().0);
        assert(map_of(t) =~= map_of(s).remove(k));
    }
}

/// Appending an entry with a fresh pid inserts it into the map.
proof fn lemma_map_of_push(s: Seq<(u32, Rect)>, k: u32, r: Rect)
    ensures
        map_of(s.push((k, r))) == map_of(s).insert(k, r),
{
    assert(s.push((k, r)).drop_last() =~= s);
    assert(s.push((k, r)).last() == (k, r));
}

/// The shared pid-to-rectangle store.
pub struct PositionStore {
    entries: Vec<(u32, Rect)>,
}

impl View for PositionStore {
    type V = Map<u32, Rect>;

    closed spec fn view(&self) -> Map<u32, Rect> {
        map_of(self.entries@)
    }
}

impl PositionStore {
    /// Well-formedness: the entry pids are pairwise distinct.
    /// `new` establishes it and every operation preserves it.
    pub closed spec fn inv(self) -> bool {
        keys_unique(self.entries@)
    }

    /// An empty store: no pid has a registered position.
    pub fn new() -> (r: PositionStore)
        ensures
            r@ == Map::<u32, Rect>::empty(),
            r.inv(),
    {
        PositionStore { entries: Vec::new() }
    }

    /// Index of the entry for `pid`, if one exists.
    fn index_of(&self, pid: u32) -> (r: Option<usize>)
        ensures
            match r {
                Some(i) => i < self.entries@.len() && self.entries@[i as int].0 == pid,
                None => forall|i: int| 0 <= i < self.entries@.len() ==> self.entries@[i].0 != pid,
            },
    {
        let mut i: usize = 0;
        while i < self.entries.len()
            invariant
                i <= self.entries@.len(),
                forall|j: int| 0 <= j < i ==> self.entries@[j].0 != pid,
            decreases self.entries@.len() - i,
        {
            if self.entries[i].0 == pid {
                return Some(i);
            }
            i += 1;
        }
        None
    }

    /// The registered position of `pid`: `Some` exactly when a position
    /// was written for `pid` and not removed since.
    pub fn application_rect_by_pid(&self, pid: u32) -> (r: Option<Rect>)
        requires
            self.inv(),
        ensures
            r == (if self@.contains_key(pid) {
                Some(self@[pid])
            } else {
                None::<Rect>
            }),
    {
        proof {
            lemma_map_of_contains_key(self.entries@, pid);
        }
        match self.index_of(pid) {
            Some(i) => {
                proof {
                    lemma_map_of_index(self.entries@, i as int);
                }
                Some(self.entries[i].1)
            },
            None => None,
        }
    }

    /// The registered position of `pid`, for contexts that must not
    /// suspend (a rendering callback with no access to the
    /// scheduler): same answer as [`Self::application_rect_by_pid`];
    /// the host reaches it through a non-suspending lock.
    pub fn application_rect_by_pid_blocking(&self, pid: u32) -> (r: Option<Rect>)
        requires
            self.inv(),
        ensures
            r == (if self@.contains_key(pid) {
                Some(self@[pid])
            } else {
                None::<Rect>
            }),
    {
        self.application_rect_by_pid(pid)
    }

    /// Register (or replace) the position of `pid`.
    pub fn set_application_position(&mut self, pid: u32, rect: Rect)
        requires
            old(self).inv(),
        ensures
            final(self)@ == old(self)@.insert(pid, rect),
            final(self).inv(),
    {
        match self.index_of(pid) {
            Some(i) => {
                proof {
                    lemma_map_of_update(self.entries@, i as int, rect);
                }
                self.entries[i] = (pid, rect);
            },
            None => {
                proof {
                    lemma_map_of_push(self.entries@, pid, rect);
                }
                self.entries.push((pid, rect));
            },
        }
    }

    /// Drop the position of `pid`; reports whether one was registered.
    pub fn remove_application_position(&mut self, pid: u32) -> (r: bool)
        requires
            old(self).inv(),
        ensures
            final(self)@ == old(self)@.remove(pid),
            r == old(self)@.contains_key(pid),
            final(self).inv(),
    {
        proof {
            lemma_map_of_contains_key(self.entries@, pid);
        }
        match self.index_of(pid) {
            Some(i) => {
                proof {
                    lemma_map_of_remove(self.entries@, i as int);
                }
                self.entries.remove(i);
                true
            },
            None => {
                proof {
                    assert(old(self)@ =~= old(self)@.remove(pid));
                }
                false
            },
        }
    }
}

/// The topmost surface under a point: surfaces are listed back to
/// front, so the search walks them front to back and answers the
/// first whose registered rectangle strictly contains the point.
pub open spec fn spec_surface_at(
    pids: Seq<u32>,
    m: Map<u32, Rect>,
    x: u32,
    y: u32,
) -> Option<(u32, Rect)>
    decreases pids.len(),
{
    if pids.len() == 0 {
        None
    } else {
        let p = pids.last();
        if m.contains_key(p) && crate::config::spec_is_inside(m[p], x, y) {
            Some((p, m[p]))
        } else {
            spec_surface_at(pids.drop_last(), m, x, y)
        }
    }
}

impl PositionStore {
    /// Find the topmost surface at `(x, y)`: `pids` lists the mapped
    /// surfaces back to front, and a surface counts only while it has
    /// a registered position that strictly contains the point.
    pub fn surface_at_pos(&self, pids: &Vec<u32>, x: u32, y: u32) -> (r: Option<(u32, Rect)>)
        requires
            self.inv(),
        ensures
            r == spec_surface_at(pids@, self@, x, y),
    {
        let mut i: usize = pids.len();
        proof {
            assert(pids@.take(pids@.len() as int) =~= pids@);
        }
        while i > 0
            invariant
                i <= pids@.len(),
                self.inv(),
                spec_surface_at(pids@, self@, x, y) == spec_surface_at(
                    pids@.take(i as int),
                    self@,
                    x,
                    y,
                ),
            decreases i,
        {
            i = i - 1;
            let pid = pids[i];
            proof {
                assert(pids@.take(i + 1).last() == pids@[i as int]);
                assert(pids@.take(i + 1).drop_last() =~= pids@.take(i as int));
            }
            match self.application_rect_by_pid(pid) {
                Some(rect) => {
                    if rect.is_inside(x, y) {
                        return Some((pid, rect));
                    }
                },
                None => {},
            }
        }
        proof {
            assert(pids@.take(0) =~= Seq::<u32>::empty());
        }
        None
    }
}

/// What a position means over the life of a pid: a pid never written
/// reads as absent; after a write it reads back exactly the written
/// rectangle, other pids are untouched, and a removal makes it absent
/// again.  `m` is the store's value, as every operation's contract
/// speaks of it.
pub proof fn lemma_store_read_write(m: Map<u32, Rect>, pid: u32, other: u32, r: Rect)
    ensures
        !Map::<u32, Rect>::empty().contains_key(pid),
        m.insert(pid, r).contains_key(pid),
        m.insert(pid, r)[pid] == r,
        other != pid ==> m.insert(pid, r).contains_key(other) == m.contains_key(other),
        other != pid && m.contains_key(other) ==> m.insert(pid, r)[other] == m[other],
        !m.remove(pid).contains_key(pid),
        other != pid ==> m.remove(pid).contains_key(other) == m.contains_key(other),
{
}

} // verus!
