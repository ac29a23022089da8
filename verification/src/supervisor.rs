//! The process supervisor: it owns the metadata of every managed
//! application process and keeps it consistent with the position store.
//!
//! The operating-system side of a spawn or a kill (creating the child,
//! sending it a termination signal) happens outside this crate; the
//! host performs it while it holds the store reservation and hands the
//! outcome to [`AppController::spawn_process`].  Registering the new
//! position and committing the process entry are then one step of this
//! model, which is exactly what the reservation discipline provides:
//! no reader can observe a pid whose process entry is not committed.

use vstd::prelude::*;

use crate::config::{AppConfig, AppConfigV, Rect};
use crate::position_store::PositionStore;

verus! {

/// Failure of a move or kill: no managed process has the target pid.
#[derive(Debug, Clone, Copy, PartialEq, Eq, Structural)]
pub struct UnknownPidError {
    pub pid: u32,
}

/// Failure of a spawn: the operating system could not create the
/// process.  Carries the host's description of the failure.
#[derive(Debug, PartialEq)]
pub struct SpawnError {
    pub message: String,
}

/// `c` with its assigned area replaced by `r`.
pub open spec fn with_area(c: AppConfigV, r: Rect) -> AppConfigV {
    AppConfigV { executable: c.executable, args: c.args, area: r }
}

/// The finite map described by a process entry sequence.
pub open spec fn proc_map_of(s: Seq<(u32, AppConfig)>) -> Map<u32, AppConfigV>
    decreases s.len(),
{
    if s.len() == 0 {
        Map::empty()
    } else {
        proc_map_of(s.drop_last()).insert(s.last().0, s.last().1@)
    }
}

/// Strictly ascending pids (hence pairwise distinct).
pub open spec fn pids_sorted(s: Seq<(u32, AppConfig)>) -> bool {
    forall|i: int, j: int| 0 <= i < j < s.len() ==> s[i].0 < s[j].0
}

proof fn lemma_proc_map_contains_key(s: Seq<(u32, AppConfig)>, k: u32)
    ensures
        proc_map_of(s).contains_key(k) <==> (exists|i: int| 0 <= i < s.len() && s[i].0 == k),
    decreases s.len(),
{
    if s.len() > 0 {
        lemma_proc_map_contains_key(s.drop_last(), k);
        if s.last().0 == k {
            assert(s[s.len() - 1].0 == k);
        } else if exists|i: int| 0 <= i < s.drop_last().len() && s.drop_last()[i].0 == k {
            let i = choose|i: int| 0 <= i < s.drop_last().len() && s.drop_last()[i].0 == k;
            assert(s[i].0 == k);
        } else if exists|i: int| 0 <= i < s.len() && s[i].0 == k {
            let i = choose|i: int| 0 <= i < s.len() && s[i].0 == k;
            if i < s.len() - 1 {
                assert(s.drop_last()[i].0 == k);
            }
        }
    }
}

proof fn lemma_proc_map_index(s: Seq<(u32, AppConfig)>, i: int)
    requires
        pids_sorted(s),
        0 <= i < s.len(),
    ensures
        proc_map_of(s).contains_key(s[i].0),
        proc_map_of(s)[s[i].0] == s[i].1@,
    decreases s.len(),
{
    if i < s.len() - 1 {
        assert(pids_sorted(s.drop_last()));
        lemma_proc_map_index(s.drop_last(), i);
        assert(s.drop_last()[i] == s[i]);
        assert(s[i].0 != s.last().0);
    }
}

proof fn lemma_proc_map_update(s: Seq<(u32, AppConfig)>, i: int, c: AppConfig)
    requires
        pids_sorted(s),
        0 <= i < s.len(),
    ensures
        proc_map_of(s.update(i, (s[i].0, c))) == proc_map_of(s).insert(s[i].0, c@),
    decreases s.len(),
{
    let k = s[i].0;
    let t = s.update(i, (k, c));
    if i == s.len() - 1 {
        assert(t.drop_last() =~= s.drop_last());
        assert(t.last() == (k, c));
        assert(proc_map_of(t) =~= proc_map_of(s).insert(k, c@));
    } else {
        assert(t.drop_last() =~= s.drop_last().update(i, (k, c)));
        assert(pids_sorted(s.drop_last()));
        assert(s.drop_last()[i] == s[i]);
        lemma_proc_map_update(s.drop_last(), i, c);
        assert(t.last() == s.last());
        assert(k != s.last().0);
        assert(proc_map_of(t) =~= proc_map_of(s).insert(k, c@));
    }
}

proof fn lemma_proc_map_insert_at(s: Seq<(u32, AppConfig)>, i: int, k: u32, c: AppConfig)
    requires
        0 <= i <= s.len(),
        forall|j: int| 0 <= j < s.len() ==> s[j].0 != k,
    ensures
        proc_map_of(s.insert(i, (k, c))) == proc_map_of(s).insert(k, c@),
    decreases s.len(),
{
    let t = s.insert(i, (k, c));
    if i == s.len() {
        assert(t.drop_last() =~= s);
        assert(t.last() == (k, c));
        assert(proc_map_of(t) =~= proc_map_of(s).insert(k, c@));
    } else {
        assert(t.drop_last() =~= s.drop_last().insert(i, (k, c)));
        assert(t.last() == s.last());
        assert(forall|j: int| 0 <= j < s.drop_last().len() ==> s.drop_last()[j].0 != k);
        lemma_proc_map_insert_at(s.drop_last(), i, k, c);
        assert(s.last().0 != k);
        assert(proc_map_of(t) =~= proc_map_of(s).insert(k, c@));
    }
}

proof fn lemma_proc_map_remove(s: Seq<(u32, AppConfig)>, i: int)
    requires
        pids_sorted(s),
        0 <= i < s.len(),
    ensures
        proc_map_of(s.remove(i)) == proc_map_of(s).remove(s[i].0),
    decreases s.len(),
{
    let k = s[i].0;
    let t = s.remove(i);
    if i == s.len() - 1 {
        assert(t =~= s.drop_last());
        lemma_proc_map_contains_key(s.drop_last(), k);
        assert(forall|j: int| 0 <= j < s.drop_last().len() ==> s.drop_last()[j].0 != k);
        assert(!proc_map_of(s.drop_last()).contains_key(k));
        assert(proc_map_of(t) =~= proc_map_of(s).remove(k));
    } else {
        assert(t.drop_last() =~= s.drop_last().remove(i));
        assert(t.last() == s.last());
        assert(pids_sorted(s.drop_last()));
        assert(s.drop_last()[i] == s[i]);
        lemma_proc_map_remove(s.drop_last(), i);
        assert(k != s.last().0);
        assert(proc_map_of(t) =~= proc_map_of(s).remove(k));
    }
}

/// With sorted (hence distinct) pids the map has one key per entry.
proof fn lemma_proc_map_dom_len(s: Seq<(u32, AppConfig)>)
    requires
        pids_sorted(s),
    ensures
        proc_map_of(s).dom().len() == s.len(),
        proc_map_of(s).dom().finite(),
    decreases s.len(),
{
    if s.len() == 0 {
        assert(proc_map_of(s).dom() =~= Set::<u32>::empty());
    } else {
        assert(pids_sorted(s.drop_last()));
        lemma_proc_map_dom_len(s.drop_last());
        lemma_proc_map_contains_key(s.drop_last(), s.last().0);
        assert(!proc_map_of(s.drop_last()).contains_key(s.last().0));
        assert(proc_map_of(s).dom() =~= proc_map_of(s.drop_last()).dom().insert(s.last().0));
    }
}

/// Supervisor state and position state agree: they know exactly the
/// same pids, and the registered rectangle of every pid is the area of
/// its process's configuration.
pub open spec fn consistent(procs: Map<u32, AppConfigV>, positions: Map<u32, Rect>) -> bool {
    &&& procs.dom() == positions.dom()
    &&& forall|pid: u32| procs.contains_key(pid) ==> positions[pid] == procs[pid].area
}

/// Reservation atomicity, over the model: while supervisor and store
/// are consistent, a pid is readable in the position store exactly when
/// its process entry is committed.  A spawn registers the position and
/// commits the process entry in one serialized step of this model, so
/// no interleaving of spawns can exhibit a half-spawned pid.
pub proof fn lemma_reservation_atomicity(
    procs: Map<u32, AppConfigV>,
    positions: Map<u32, Rect>,
    pid: u32,
)
    requires
        consistent(procs, positions),
    ensures
        positions.contains_key(pid) <==> procs.contains_key(pid),
{
    assert(procs.dom() == positions.dom());
    if positions.contains_key(pid) {
        assert(positions.dom().contains(pid));
    }
    if procs.contains_key(pid) {
        assert(procs.dom().contains(pid));
    }
}

/// The supervisor: one entry per managed process, kept in ascending
/// pid order.  The operating-system process handles themselves are
/// owned by the host, keyed by the same pids.
pub struct AppController {
    processes: Vec<(u32, AppConfig)>,
}

impl View for AppController {
    type V = Map<u32, AppConfigV>;

    closed spec fn view(&self) -> Map<u32, AppConfigV> {
        proc_map_of(self.processes@)
    }
}

impl AppController {
    /// Well-formedness: entries are sorted by strictly ascending pid.
    /// `new` establishes it and every operation preserves it.
    pub closed spec fn inv(self) -> bool {
        pids_sorted(self.processes@)
    }

    /// A supervisor with no managed processes.
    pub fn new() -> (r: AppController)
        ensures
            r@ == Map::<u32, AppConfigV>::empty(),
            r.inv(),
    {
        AppController { processes: Vec::new() }
    }

    /// Index of the entry for `pid`, if one exists.
    fn index_of(&self, pid: u32) -> (r: Option<usize>)
        ensures
            match r {
                Some(i) => i < self.processes@.len() && self.processes@[i as int].0 == pid,
                None => forall|i: int|
                    0 <= i < self.processes@.len() ==> self.processes@[i].0 != pid,
            },
    {
        let mut i: usize = 0;
        while i < self.processes.len()
            invariant
                i <= self.processes@.len(),
                forall|j: int| 0 <= j < i ==> self.processes@[j].0 != pid,
            decreases self.processes@.len() - i,
        {
            if self.processes[i].0 == pid {
                return Some(i);
            }
            i += 1;
        }
        None
    }

    /// Complete a spawn: `launch` is the outcome of the
    /// operating-system process creation that the host performed while
    /// it held the position-store reservation.  On success the new
    /// position and the process entry are registered together; on
    /// failure nothing is registered and the error is returned, the
    /// reservation being released by the host in either case.
    pub fn spawn_process(
        &mut self,
        positions: &mut PositionStore,
        config: &AppConfig,
        launch: Result<u32, SpawnError>,
    ) -> (r: Result<u32, SpawnError>)
        requires
            old(self).inv(),
            old(positions).inv(),
            consistent(old(self)@, old(positions)@),
        ensures
            final(self).inv(),
            final(positions).inv(),
            consistent(final(self)@, final(positions)@),
            match launch {
                Ok(pid) => {
                    &&& final(self)@ == old(self)@.insert(pid, config@)
                    &&& final(positions)@ == old(positions)@.insert(pid, config.area)
                    &&& r == Ok::<u32, SpawnError>(pid)
                },
                Err(e) => {
                    &&& final(self)@ == old(self)@
                    &&& final(positions)@ == old(positions)@
                    &&& r == Err::<u32, SpawnError>(e)
                },
            },
    {
        match launch {
            Ok(pid) => {
                positions.set_application_position(pid, config.area);
                self.insert_process(pid, config.clone());
                proof {
                    assert(self@.dom() =~= positions@.dom());
                }
                Ok(pid)
            },
            Err(e) => Err(e),
        }
    }

    /// Insert or replace the entry for `pid`, keeping the order.
    fn insert_process(&mut self, pid: u32, config: AppConfig)
        requires
            old(self).inv(),
        ensures
            final(self).inv(),
            final(self)@ == old(self)@.insert(pid, config@),
    {
        let mut i: usize = 0;
        while i < self.processes.len() && self.processes[i].0 < pid
            invariant
                i <= self.processes@.len(),
                forall|j: int| 0 <= j < i ==> self.processes@[j].0 < pid,
                self == old(self),
            decreases self.processes@.len() - i,
        {
            i += 1;
        }
        if i < self.processes.len() && self.processes[i].0 == pid {
            proof {
                lemma_proc_map_update(self.processes@, i as int, config);
            }
            self.processes[i] = (pid, config);
        } else {
            proof {
                assert forall|j: int|
                    i <= j < self.processes@.len() implies self.processes@[j].0 > pid by {
                    if i < self.processes@.len() && i < j {
                        assert(self.processes@[i as int].0 < self.processes@[j].0);
                    }
                };
                assert(forall|j: int|
                    0 <= j < self.processes@.len() ==> self.processes@[j].0 != pid);
                lemma_proc_map_insert_at(self.processes@, i as int, pid, config);
            }
            self.processes.insert(i, (pid, config));
        }
    }

    /// Move the window of `pid`: update the supervisor's record of its
    /// area, then register the same rectangle as its position.  Fails,
    /// mutating nothing, when `pid` is not managed.
    pub fn resize_process(
        &mut self,
        positions: &mut PositionStore,
        pid: u32,
        rect: Rect,
    ) -> (r: Result<u32, UnknownPidError>)
        requires
            old(self).inv(),
            old(positions).inv(),
            consistent(old(self)@, old(positions)@),
        ensures
            final(self).inv(),
            final(positions).inv(),
            consistent(final(self)@, final(positions)@),
            old(self)@.contains_key(pid) ==> {
                &&& final(self)@ == old(self)@.insert(pid, with_area(old(self)@[pid], rect))
                &&& final(positions)@ == old(positions)@.insert(pid, rect)
                &&& r == Ok::<u32, UnknownPidError>(pid)
            },
            !old(self)@.contains_key(pid) ==> {
                &&& final(self)@ == old(self)@
                &&& final(positions)@ == old(positions)@
                &&& r == Err::<u32, UnknownPidError>(UnknownPidError { pid })
            },
    {
        proof {
            lemma_proc_map_contains_key(self.processes@, pid);
        }
        match self.index_of(pid) {
            Some(i) => {
                proof {
                    lemma_proc_map_index(self.processes@, i as int);
                }
                let updated = AppConfig {
                    executable: self.processes[i].1.executable.clone(),
                    args: crate::config::clone_strings(&self.processes[i].1.args),
                    area: rect,
                };
                proof {
                    assert(updated@ == with_area(old(self)@[pid], rect));
                    lemma_proc_map_update(self.processes@, i as int, updated);
                }
                self.processes[i] = (pid, updated);
                positions.set_application_position(pid, rect);
                proof {
                    assert(self@.dom() =~= positions@.dom());
                }
                Ok(pid)
            },
            None => Err(UnknownPidError { pid }),
        }
    }

    /// Remove the process entry and the registered position of `pid`.
    /// The host then signal-terminates the operating-system process,
    /// without waiting for it to exit.  Fails, mutating nothing, when
    /// `pid` is not managed, and always with the same error value for
    /// a given pid: killing an already-absent pid is stable.
    pub fn kill_process(
        &mut self,
        positions: &mut PositionStore,
        pid: u32,
    ) -> (r: Result<(), UnknownPidError>)
        requires
            old(self).inv(),
            old(positions).inv(),
            consistent(old(self)@, old(positions)@),
        ensures
            final(self).inv(),
            final(positions).inv(),
            consistent(final(self)@, final(positions)@),
            old(self)@.contains_key(pid) ==> {
                &&& final(self)@ == old(self)@.remove(pid)
                &&& final(positions)@ == old(positions)@.remove(pid)
                &&& r == Ok::<(), UnknownPidError>(())
            },
            !old(self)@.contains_key(pid) ==> {
                &&& final(self)@ == old(self)@
                &&& final(positions)@ == old(positions)@
                &&& r == Err::<(), UnknownPidError>(UnknownPidError { pid })
            },
    {
        proof {
            lemma_proc_map_contains_key(self.processes@, pid);
        }
        match self.index_of(pid) {
            Some(i) => {
                proof {
                    lemma_proc_map_remove(self.processes@, i as int);
                }
                self.processes.remove(i);
                positions.remove_application_position(pid);
                proof {
                    assert(self@.dom() =~= positions@.dom());
                }
                Ok(())
            },
            None => Err(UnknownPidError { pid }),
        }
    }

    /// A snapshot of the managed processes, in ascending pid order
    /// (the documented, deterministic order of list responses).
    pub fn list_processes(&self) -> (r: Vec<(u32, AppConfig)>)
        requires
            self.inv(),
        ensures
            forall|i: int, j: int| 0 <= i < j < r@.len() ==> r@[i].0 < r@[j].0,
            forall|i: int|
                0 <= i < r@.len() ==> self@.contains_key(#[trigger] r@[i].0) && self@[r@[i].0]
                    == r@[i].1@,
            forall|pid: u32|
                self@.contains_key(pid) ==> exists|i: int| 0 <= i < r@.len() && r@[i].0 == pid,
    {
        let mut out: Vec<(u32, AppConfig)> = Vec::new();
        let mut i: usize = 0;
        while i < self.processes.len()
            invariant
                i <= self.processes@.len(),
                out@.len() == i,
                self.inv(),
                forall|j: int|
                    0 <= j < i ==> (#[trigger] out@[j]).0 == self.processes@[j].0 && out@[j].1@
                        == self.processes@[j].1@,
            decreases self.processes@.len() - i,
    {
            let pid = self.processes[i].0;
            let cfg = self.processes[i].1.clone();
            out.push((pid, cfg));
            i += 1;
        }
        proof {
            assert forall|j: int| 0 <= j < out@.len() implies self@.contains_key(
                #[trigger] out@[j].0,
            ) && self@[out@[j].0] == out@[j].1@ by {
                lemma_proc_map_index(self.processes@, j);
            };
            assert forall|pid: u32| self@.contains_key(pid) implies exists|j: int|
                0 <= j < out@.len() && out@[j].0 == pid by {
                lemma_proc_map_contains_key(self.processes@, pid);
                let j = choose|j: int|
                    0 <= j < self.processes@.len() && self.processes@[j].0 == pid;
                assert(out@[j].0 == pid);
            };
        }
        out
    }

    /// The number of managed processes.
    pub fn process_count(&self) -> (r: usize)
        requires
            self.inv(),
        ensures
            r == self@.dom().len(),
    {
        proof {
            lemma_proc_map_dom_len(self.processes@);
        }
        self.processes.len()
    }
}

/// The dimensions of the overall canvas, echoed back to the caller:
/// the canvas size is fixed at startup and never changes.
pub fn send_screen_size(screen_size: [u32; 2]) -> (r: [u32; 2])
    ensures
        r == screen_size,
{
    screen_size
}

} // verus!
