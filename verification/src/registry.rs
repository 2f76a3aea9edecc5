//! The process-wide manager registry: one active manager per session id,
//! created lazily and removed explicitly. The registry is a plain context
//! object so callers can build isolated instances; the surrounding
//! application serializes access to it.

use vstd::prelude::*;
use crate::manager::CheckpointManager;
use crate::types::{CheckpointError, CheckpointStrategy};

verus! {

/// The registry: active managers, one per session id.
pub struct ManagerRegistry {
    managers: Vec<CheckpointManager>,
}

impl ManagerRegistry {
    /// The active managers, in creation order.
    pub closed spec fn mgrs(self) -> Seq<CheckpointManager> {
        self.managers@
    }

    /// An active manager exists for this session.
    pub open spec fn has_session(self, sid: Seq<char>) -> bool {
        exists|i: int|
            0 <= i < self.mgrs().len() && (#[trigger] self.mgrs()[i]).session_id@ == sid
    }

    /// The index of this session's manager.
    pub open spec fn session_index(self, sid: Seq<char>) -> int {
        choose|i: int|
            0 <= i < self.mgrs().len() && (#[trigger] self.mgrs()[i]).session_id@ == sid
    }

    /// Session ids are pairwise distinct and every manager is well-formed.
    pub open spec fn wf(self) -> bool {
        &&& forall|i: int, j: int|
            0 <= i < j < self.mgrs().len() ==> (#[trigger] self.mgrs()[i]).session_id@ != (
            #[trigger] self.mgrs()[j]).session_id@
        &&& forall|i: int| 0 <= i < self.mgrs().len() ==> (#[trigger] self.mgrs()[i]).wf()
    }

    /// In a well-formed registry a session id pins its index.
    pub proof fn lemma_session_index(self, i: int, sid: Seq<char>)
        requires
            self.wf(),
            0 <= i < self.mgrs().len(),
            self.mgrs()[i].session_id@ == sid,
        ensures
            self.has_session(sid),
            self.session_index(sid) == i,
    {
        assert(self.has_session(sid));
        let j = self.session_index(sid);
        if i != j {
            assert(self.mgrs()[i].session_id@ != self.mgrs()[j].session_id@);
        }
    }

    /// An empty registry.
    pub fn new() -> (r: ManagerRegistry)
        ensures
            r.wf(),
            r.mgrs().len() == 0,
    {
        ManagerRegistry { managers: Vec::new() }
    }

    /// How many sessions have an active manager.
    pub fn active_count(&self) -> (r: usize)
        ensures
            r == self.mgrs().len(),
    {
        self.managers.len()
    }

    /// The session ids with an active manager, in creation order.
    pub fn list_active_sessions(&self) -> (r: Vec<String>)
        ensures
            r@.len() == self.mgrs().len(),
            forall|i: int|
                0 <= i < r@.len() ==> (#[trigger] r@[i])@ == self.mgrs()[i].session_id@,
    {
        let mut out: Vec<String> = Vec::new();
        let n = self.managers.len();
        let mut i: usize = 0;
        while i < n
            invariant
                n == self.mgrs().len(),
                i <= n,
                out@.len() == i,
                forall|j: int|
                    0 <= j < i ==> (#[trigger] out@[j])@ == self.mgrs()[j].session_id@,
            decreases n - i,
        {
            out.push(self.managers[i].session_id.clone());
            i += 1;
        }
        out
    }

    /// Looks up the index of this session's manager.
    pub fn manager_index(&self, session_id: &String) -> (r: Option<usize>)
        requires
            self.wf(),
        ensures
            match r {
                Some(i) => {
                    &&& i < self.mgrs().len()
                    &&& self.mgrs()[i as int].session_id@ == session_id@
                    &&& self.session_index(session_id@) == i
                    &&& self.has_session(session_id@)
                },
                None => !self.has_session(session_id@),
            },
    {
        let n = self.managers.len();
        let mut i: usize = 0;
        while i < n
            invariant
                self.wf(),
                n == self.mgrs().len(),
                i <= n,
                forall|j: int| 0 <= j < i ==> (#[trigger] self.mgrs()[j]).session_id@ != session_id@,
            decreases n - i,
        {
            if crate::strutil::str_eq(self.managers[i].session_id.as_str(), session_id.as_str()) {
                proof {
                    self.lemma_session_index(i as int, session_id@);
                }
                return Some(i);
            }
            i += 1;
        }
        None
    }

    /// A read borrow of the manager at `i`.
    pub fn manager(&self, i: usize) -> (r: &CheckpointManager)
        requires
            i < self.mgrs().len(),
        ensures
            *r == self.mgrs()[i as int],
    {
        &self.managers[i]
    }

    /// Returns the index of this session's manager, creating one lazily on
    /// first use. Idempotent per session id; calling again for a session
    /// that is bound to a different project or path is an error, not a
    /// silent rebinding.
    pub fn get_or_create_manager(
        &mut self,
        session_id: String,
        project_id: String,
        project_path: String,
        now_ms: u64,
    ) -> (r: Result<usize, CheckpointError>)
        requires
            old(self).wf(),
        ensures
            final(self).wf(),
            match r {
                Ok(i) => {
                    &&& i < final(self).mgrs().len()
                    &&& final(self).mgrs()[i as int].session_id@ == session_id@
                    &&& final(self).mgrs()[i as int].project_id@ == project_id@
                    &&& final(self).mgrs()[i as int].project_path@ == project_path@
                    &&& if old(self).has_session(session_id@) {
                        final(self).mgrs() == old(self).mgrs() && i == old(self).session_index(
                            session_id@,
                        )
                    } else {
                        &&& final(self).mgrs().drop_last() == old(self).mgrs()
                        &&& final(self).mgrs().len() == old(self).mgrs().len() + 1
                        &&& i == old(self).mgrs().len()
                        &&& final(self).mgrs()[i as int].total_checkpoints == 0
                        &&& final(self).mgrs()[i as int].current_checkpoint_id is None
                        &&& final(self).mgrs()[i as int].auto_checkpoint_enabled == false
                        &&& final(self).mgrs()[i as int].strategy == CheckpointStrategy::Manual
                    }
                },
                Err(e) => {
                    &&& final(self).mgrs() == old(self).mgrs()
                    &&& e is InvalidLineage
                    &&& old(self).has_session(session_id@)
                    &&& {
                        let m = old(self).mgrs()[old(self).session_index(session_id@)];
                        m.project_id@ != project_id@ || m.project_path@ != project_path@
                    }
                },
            },
    {
        match self.manager_index(&session_id) {
            Some(i) => {
                let ok = crate::strutil::str_eq(
                    self.managers[i].project_id.as_str(),
                    project_id.as_str(),
                ) && crate::strutil::str_eq(
                    self.managers[i].project_path.as_str(),
                    project_path.as_str(),
                );
                if ok {
                    Ok(i)
                } else {
                    Err(CheckpointError::InvalidLineage)
                }
            },
            None => {
                let m = CheckpointManager::new(session_id, project_id, project_path, now_ms);
                let i = self.managers.len();
                let ghost pre = self.mgrs();
                self.managers.push(m);
                proof {
                    assert(self.mgrs().drop_last() =~= pre);
                    assert forall|x: int, y: int|
                        0 <= x < y < self.mgrs().len() implies (
                        #[trigger] self.mgrs()[x]).session_id@ != (
                        #[trigger] self.mgrs()[y]).session_id@ by {
                        if y == self.mgrs().len() - 1 {
                            assert(pre[x] == self.mgrs()[x]);
                        }
                    }
                }
                Ok(i)
            },
        }
    }

    /// Removes this session's manager if one is active; says whether one
    /// was removed. The timeline state it held is gone with it.
    pub fn remove_manager(&mut self, session_id: &String) -> (r: bool)
        requires
            old(self).wf(),
        ensures
            final(self).wf(),
            r == old(self).has_session(session_id@),
            if old(self).has_session(session_id@) {
                final(self).mgrs() == old(self).mgrs().remove(
                    old(self).session_index(session_id@),
                )
            } else {
                final(self).mgrs() == old(self).mgrs()
            },
            !final(self).has_session(session_id@),
    {
        match self.manager_index(session_id) {
            Some(i) => {
                let ghost pre = self.mgrs();
                let _ = self.managers.remove(i);
                proof {
                    assert forall|x: int, y: int|
                        0 <= x < y < self.mgrs().len() implies (
                        #[trigger] self.mgrs()[x]).session_id@ != (
                        #[trigger] self.mgrs()[y]).session_id@ by {
                        let px: int = if x < i { x } else { x + 1 };
                        let py: int = if y < i { y } else { y + 1 };
                        assert(self.mgrs()[x] == pre[px]);
                        assert(self.mgrs()[y] == pre[py]);
                    }
                    if self.has_session(session_id@) {
                        let j = choose|j: int|
                            0 <= j < self.mgrs().len() && (#[trigger] self.mgrs()[j]).session_id@
                                == session_id@;
                        let pj: int = if j < i { j } else { j + 1 };
                        assert(self.mgrs()[j] == pre[pj]);
                        assert(pre[pj].session_id@ != pre[i as int].session_id@);
                    }
                }
                true
            },
            None => false,
        }
    }

    /// Takes the manager at `i` out of the registry, to operate on it; put
    /// it back with `put_manager`.
    pub fn take_manager(&mut self, i: usize) -> (r: CheckpointManager)
        requires
            old(self).wf(),
            i < old(self).mgrs().len(),
        ensures
            final(self).wf(),
            r == old(self).mgrs()[i as int],
            final(self).mgrs() == old(self).mgrs().remove(i as int),
    {
        let ghost pre = self.mgrs();
        let m = self.managers.remove(i);
        proof {
            assert forall|x: int, y: int|
                0 <= x < y < self.mgrs().len() implies (#[trigger] self.mgrs()[x]).session_id@
                != (#[trigger] self.mgrs()[y]).session_id@ by {
                let px: int = if x < i { x } else { x + 1 };
                let py: int = if y < i { y } else { y + 1 };
                assert(self.mgrs()[x] == pre[px]);
                assert(self.mgrs()[y] == pre[py]);
            }
            assert(forall|x: int|
                0 <= x < self.mgrs().len() ==> #[trigger] self.mgrs()[x] == pre[
                    if x < i {
                        x
                    } else {
                        x + 1
                    }
                ]);
        }
        m
    }

    /// Puts a manager back at `i`. The session must not already be active,
    /// so a take-operate-put round trip on one session is safe.
    pub fn put_manager(&mut self, i: usize, m: CheckpointManager)
        requires
            old(self).wf(),
            i <= old(self).mgrs().len(),
            m.wf(),
            !old(self).has_session(m.session_id@),
        ensures
            final(self).wf(),
            final(self).mgrs() == old(self).mgrs().insert(i as int, m),
    {
        let ghost pre = self.mgrs();
        self.managers.insert(i, m);
        proof {
            assert forall|x: int, y: int|
                0 <= x < y < self.mgrs().len() implies (#[trigger] self.mgrs()[x]).session_id@
                != (#[trigger] self.mgrs()[y]).session_id@ by {
                let px: int = if x < i { x } else { x - 1 };
                let py: int = if y < i { y } else { y - 1 };
                if x == i {
                    assert(self.mgrs()[y] == pre[py]);
                    assert(self.mgrs()[x] == m);
                } else if y == i {
                    assert(self.mgrs()[x] == pre[px]);
                    assert(self.mgrs()[y] == m);
                } else {
                    assert(self.mgrs()[x] == pre[px]);
                    assert(self.mgrs()[y] == pre[py]);
                }
            }
            assert(forall|x: int|
                0 <= x < self.mgrs().len() ==> #[trigger] self.mgrs()[x] == if x == i {
                    m
                } else {
                    pre[
                        if x < i {
                            x
                        } else {
                            x - 1
                        }
                    ]
                });
        }
    }
}

} // verus!
