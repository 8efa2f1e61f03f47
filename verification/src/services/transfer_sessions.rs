//! The open SFTP transfer sessions, by id.
use vstd::prelude::*;
use crate::contracts::errors::{plain_error, AppErrorCode, AppErrorDto};
use crate::text::str_eq;

verus! {

/// An open transfer session: its id, its host and the connection `C` that
/// carries it.
pub struct TransferSession<C> {
    pub transfer_session_id: String,
    pub host_id: String,
    pub connection: C,
}

/// The open transfer sessions.  No id occurs twice.
pub struct TransferSessions<C> {
    sessions: Vec<TransferSession<C>>,
}

impl<C> TransferSessions<C> {
    pub closed spec fn handles(&self) -> Seq<TransferSession<C>> {
        self.sessions@
    }

    /// The open transfer sessions, by id.
    pub open spec fn view(&self) -> Map<Seq<char>, TransferSession<C>> {
        Map::new(
            |id: Seq<char>| exists|i: int| 0 <= i < self.handles().len() && #[trigger] self.handles()[i].transfer_session_id@ == id,
            |id: Seq<char>| self.handles()[choose|i: int| 0 <= i < self.handles().len() && #[trigger] self.handles()[i].transfer_session_id@ == id],
        )
    }

    pub open spec fn wf(&self) -> bool {
        forall|i: int, j: int| 0 <= i < self.handles().len() && 0 <= j < self.handles().len() && i != j
            ==> #[trigger] self.handles()[i].transfer_session_id@ != #[trigger] self.handles()[j].transfer_session_id@
    }

    pub fn new() -> (r: Self)
        ensures
            r.wf(),
            r.view() == Map::<Seq<char>, TransferSession<C>>::empty(),
    {
        let r = TransferSessions { sessions: Vec::new() };
        assert(r.view() =~= Map::<Seq<char>, TransferSession<C>>::empty());
        r
    }

    proof fn lemma_view_at(&self, i: int)
        requires
            self.wf(),
            0 <= i < self.handles().len(),
        ensures
            self.view().dom().contains(self.handles()[i].transfer_session_id@),
            self.view()[self.handles()[i].transfer_session_id@] == self.handles()[i],
    {
        let id = self.handles()[i].transfer_session_id@;
        let k = choose|k: int| 0 <= k < self.handles().len() && #[trigger] self.handles()[k].transfer_session_id@ == id;
        assert(k == i);
    }

    fn find(&self, transfer_session_id: &str) -> (r: Option<usize>)
        requires
            self.wf(),
        ensures
            match r {
                Some(i) => i < self.handles().len() && self.handles()[i as int].transfer_session_id@ == transfer_session_id@,
                None => !self.view().dom().contains(transfer_session_id@),
            },
    {
        let mut i: usize = 0;
        while i < self.sessions.len()
            invariant
                i <= self.sessions.len(),
                forall|j: int| 0 <= j < i ==> #[trigger] self.handles()[j].transfer_session_id@ != transfer_session_id@,
            decreases self.sessions.len() - i,
        {
            if str_eq(self.sessions[i].transfer_session_id.as_str(), transfer_session_id) {
                return Some(i);
            }
            i = i + 1;
        }
        None
    }

    /// Whether a transfer session with this id is open.
    pub fn contains(&self, transfer_session_id: &str) -> (r: bool)
        requires
            self.wf(),
        ensures
            r == self.view().dom().contains(transfer_session_id@),
    {
        match self.find(transfer_session_id) {
            Some(i) => {
                proof {
                    self.lemma_view_at(i as int);
                }
                true
            },
            None => false,
        }
    }

    /// Registers a transfer session, replacing one with the same id.
    #[verifier::spinoff_prover]
    pub fn insert(&mut self, session: TransferSession<C>)
        requires
            old(self).wf(),
        ensures
            final(self).wf(),
            final(self).view() == old(self).view().insert(session.transfer_session_id@, session),
    {
        let ghost h = session;
        let ghost old_view = self.view();
        let ghost old_handles = self.handles();
        match self.find(session.transfer_session_id.as_str()) {
            Some(i) => {
                self.sessions.set(i, session);
                proof {
                    assert(self.handles() == old_handles.update(i as int, h));
                    assert forall|a: int, b: int| 0 <= a < self.handles().len() && 0 <= b < self.handles().len() && a != b
                        implies #[trigger] self.handles()[a].transfer_session_id@ != #[trigger] self.handles()[b].transfer_session_id@ by {
                        assert(self.handles()[a].transfer_session_id@ == old_handles[a].transfer_session_id@);
                        assert(self.handles()[b].transfer_session_id@ == old_handles[b].transfer_session_id@);
                    }
                    assert forall|id: Seq<char>| #[trigger] self.view().dom().contains(id) <==> old_view.insert(h.transfer_session_id@, h).dom().contains(id) by {
                        if self.view().dom().contains(id) {
                            let k = choose|k: int| 0 <= k < self.handles().len() && #[trigger] self.handles()[k].transfer_session_id@ == id;
                            assert(old_handles[k].transfer_session_id@ == id);
                            if k != i {
                                old(self).lemma_view_at(k);
                            }
                        }
                        if old_view.dom().contains(id) && id != h.transfer_session_id@ {
                            let k = choose|k: int| 0 <= k < old_handles.len() && #[trigger] old_handles[k].transfer_session_id@ == id;
                            assert(self.handles()[k].transfer_session_id@ == id);
                        }
                        if id == h.transfer_session_id@ {
                            self.lemma_view_at(i as int);
                        }
                    }
                    assert forall|id: Seq<char>| #[trigger] self.view().dom().contains(id) implies self.view()[id] == old_view.insert(h.transfer_session_id@, h)[id] by {
                        let k = choose|k: int| 0 <= k < self.handles().len() && #[trigger] self.handles()[k].transfer_session_id@ == id;
                        self.lemma_view_at(k);
                        if k != i {
                            old(self).lemma_view_at(k);
                        }
                    }
                    assert(self.view() =~= old_view.insert(h.transfer_session_id@, h));
                }
            },
            None => {
                self.sessions.push(session);
                proof {
                    let n = old_handles.len() as int;
                    assert(self.handles() == old_handles.push(h));
                    assert forall|a: int, b: int| 0 <= a < self.handles().len() && 0 <= b < self.handles().len() && a != b
                        implies #[trigger] self.handles()[a].transfer_session_id@ != #[trigger] self.handles()[b].transfer_session_id@ by {
                        if a < n && b < n {
                            assert(self.handles()[a] == old_handles[a]);
                            assert(self.handles()[b] == old_handles[b]);
                        } else if a < n {
                            assert(self.handles()[a] == old_handles[a]);
                            old(self).lemma_view_at(a);
                        } else if b < n {
                            assert(self.handles()[b] == old_handles[b]);
                            old(self).lemma_view_at(b);
                        }
                    }
                    assert forall|id: Seq<char>| #[trigger] self.view().dom().contains(id) <==> old_view.insert(h.transfer_session_id@, h).dom().contains(id) by {
                        if self.view().dom().contains(id) {
                            let k = choose|k: int| 0 <= k < self.handles().len() && #[trigger] self.handles()[k].transfer_session_id@ == id;
                            if k < n {
                                assert(old_handles[k] == self.handles()[k]);
                                old(self).lemma_view_at(k);
                            }
                        }
                        if old_view.dom().contains(id) {
                            let k = choose|k: int| 0 <= k < old_handles.len() && #[trigger] old_handles[k].transfer_session_id@ == id;
                            assert(self.handles()[k] == old_handles[k]);
                        }
                        if id == h.transfer_session_id@ {
                            self.lemma_view_at(n);
                        }
                    }
                    assert forall|id: Seq<char>| #[trigger] self.view().dom().contains(id) implies self.view()[id] == old_view.insert(h.transfer_session_id@, h)[id] by {
                        let k = choose|k: int| 0 <= k < self.handles().len() && #[trigger] self.handles()[k].transfer_session_id@ == id;
                        self.lemma_view_at(k);
                        if k < n {
                            assert(old_handles[k] == self.handles()[k]);
                            old(self).lemma_view_at(k);
                        }
                    }
                    assert(self.view() =~= old_view.insert(h.transfer_session_id@, h));
                }
            },
        }
    }

    /// Closes the transfer session with this id, if it is open, and hands it
    /// back.
    #[verifier::spinoff_prover]
    pub fn remove(&mut self, transfer_session_id: &str) -> (r: Option<TransferSession<C>>)
        requires
            old(self).wf(),
        ensures
            final(self).wf(),
            final(self).view() == old(self).view().remove(transfer_session_id@),
            match r {
                Some(h) => old(self).view().dom().contains(transfer_session_id@) && h == old(self).view()[transfer_session_id@],
                None => !old(self).view().dom().contains(transfer_session_id@),
            },
    {
        let ghost old_view = self.view();
        let ghost old_handles = self.handles();
        match self.find(transfer_session_id) {
            Some(i) => {
                proof {
                    old(self).lemma_view_at(i as int);
                }
                let removed = self.sessions.remove(i);
                proof {
                    let r = self.handles();
                    assert(r == old_handles.remove(i as int));
                    assert forall|a: int| 0 <= a < r.len() implies #[trigger] r[a] == old_handles[if a < i { a } else { a + 1 }] by {}
                    assert forall|a: int, b: int| 0 <= a < r.len() && 0 <= b < r.len() && a != b
                        implies #[trigger] r[a].transfer_session_id@ != #[trigger] r[b].transfer_session_id@ by {
                        let a2 = if a < i { a } else { a + 1 };
                        let b2 = if b < i { b } else { b + 1 };
                        assert(r[a] == old_handles[a2] && r[b] == old_handles[b2]);
                    }
                    assert forall|id: Seq<char>| #[trigger] self.view().dom().contains(id) <==> old_view.remove(transfer_session_id@).dom().contains(id) by {
                        if self.view().dom().contains(id) {
                            let k = choose|k: int| 0 <= k < r.len() && #[trigger] r[k].transfer_session_id@ == id;
                            let k2 = if k < i { k } else { k + 1 };
                            assert(r[k] == old_handles[k2]);
                            old(self).lemma_view_at(k2);
                            assert(k2 != i);
                        }
                        if old_view.dom().contains(id) && id != transfer_session_id@ {
                            let k = choose|k: int| 0 <= k < old_handles.len() && #[trigger] old_handles[k].transfer_session_id@ == id;
                            assert(k != i);
                            let k1 = if k < i { k } else { k - 1 };
                            assert(r[k1] == old_handles[k]);
                        }
                    }
                    assert forall|id: Seq<char>| #[trigger] self.view().dom().contains(id) implies self.view()[id] == old_view[id] by {
                        let k = choose|k: int| 0 <= k < r.len() && #[trigger] r[k].transfer_session_id@ == id;
                        self.lemma_view_at(k);
                        let k2 = if k < i { k } else { k + 1 };
                        assert(r[k] == old_handles[k2]);
                        old(self).lemma_view_at(k2);
                    }
                    assert(self.view() =~= old_view.remove(transfer_session_id@));
                }
                Some(removed)
            },
            None => {
                assert(self.view() =~= old_view.remove(transfer_session_id@));
                None
            },
        }
    }

    /// The open transfer session with this id; an unknown id is
    /// `SessionNotFound`.
    pub fn get(&self, transfer_session_id: &str) -> (r: Result<&TransferSession<C>, AppErrorDto>)
        requires
            self.wf(),
        ensures
            self.view().dom().contains(transfer_session_id@) ==> (r matches Ok(s) && *s == self.view()[transfer_session_id@]),
            !self.view().dom().contains(transfer_session_id@) ==> (r matches Err(e) && plain_error(
                e,
                AppErrorCode::SessionNotFound,
                "Session not found"@,
                false,
            )),
    {
        match self.find(transfer_session_id) {
            Some(i) => {
                proof {
                    self.lemma_view_at(i as int);
                }
                Ok(&self.sessions[i])
            },
            None => Err(AppErrorDto::session_not_found()),
        }
    }
}

} // verus!
