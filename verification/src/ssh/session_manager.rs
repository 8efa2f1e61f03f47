//! The open terminal sessions, by session id, and how commands reach their
//! workers.
use vstd::prelude::*;
use std::sync::mpsc::Sender;
use crate::contracts::errors::{plain_error, AppErrorCode, AppErrorDto};
use crate::contracts::ssh::{SshDisconnectInput, SshResizeInput, SshWriteInput};
use crate::encoding::{base64_standard_decoding, decode_base64};
use crate::ssh::types::SessionCommand;
use crate::text::str_eq;

verus! {

/// `std::sync::mpsc::Sender`, the sending end of a worker's command
/// queue; opaque to proofs.
#[verifier::external_type_specification]
#[verifier::external_body]
#[verifier::reject_recursive_types(T)]
pub struct ExSender<T>(std::sync::mpsc::Sender<T>);

/// The commands that have been handed to a worker's queue through this
/// sender, in order.
pub uninterp spec fn commands_sent(tx: Sender<SessionCommand>) -> Seq<SessionCommand>;

/// Wraps `std::sync::mpsc::Sender::send`.  Claims: where the worker still
/// holds the receiving end the command is taken into the queue, after those
/// handed over before (`true`); otherwise it is handed back and the queue
/// takes nothing (`false`).  Which of the two happens depends on the worker
/// and is not claimed.
#[verifier::external_body]
fn send_to_worker(tx: &mut Sender<SessionCommand>, command: SessionCommand) -> (delivered: bool)
    ensures
        delivered ==> commands_sent(*final(tx)) == commands_sent(*old(tx)).push(command),
        !delivered ==> commands_sent(*final(tx)) == commands_sent(*old(tx)),
{
    tx.send(command).is_ok()
}

/// An open session: its id, its host and the channel to its worker.
pub struct SessionHandle {
    pub session_id: String,
    pub host_id: String,
    pub command_tx: Sender<SessionCommand>,
}

/// The name of a command, as it appears in the log.
pub fn session_command_name(command: &SessionCommand) -> (r: &'static str)
    ensures
        r@ == match command {
            SessionCommand::Write(_) => "write"@,
            SessionCommand::Resize { .. } => "resize"@,
            SessionCommand::Disconnect => "disconnect"@,
        },
{
    match command {
        SessionCommand::Write(_) => "write",
        SessionCommand::Resize { .. } => "resize",
        SessionCommand::Disconnect => "disconnect",
    }
}

/// `after` holds the sessions of `before`, the session `id` having taken
/// one more command, `command`, with its id and host unchanged.
pub open spec fn took_command(
    before: Map<Seq<char>, SessionHandle>,
    after: Map<Seq<char>, SessionHandle>,
    id: Seq<char>,
    command: SessionCommand,
) -> bool {
    &&& before.dom().contains(id)
    &&& after.dom() == before.dom()
    &&& forall|k: Seq<char>| #[trigger] after.dom().contains(k) && k != id ==> after[k] == before[k]
    &&& after[id].session_id == before[id].session_id
    &&& after[id].host_id == before[id].host_id
    &&& commands_sent(after[id].command_tx) == commands_sent(before[id].command_tx).push(command)
}

/// The error for a command to a session that is not open: `Session not
/// found`, without details, not retryable.
pub open spec fn is_session_not_found_error(e: AppErrorDto) -> bool {
    plain_error(e, AppErrorCode::SessionNotFound, "Session not found"@, false)
}

/// The error for a command whose worker is gone.
pub open spec fn is_session_closed_error(e: AppErrorDto) -> bool {
    plain_error(e, AppErrorCode::SessionClosed, "Session command channel is closed"@, false)
}

/// The open sessions.  No session id occurs twice.
pub struct SessionRegistry {
    sessions: Vec<SessionHandle>,
}

impl SessionRegistry {
    pub closed spec fn handles(&self) -> Seq<SessionHandle> {
        self.sessions@
    }

    /// The open sessions, by id.
    pub open spec fn view(&self) -> Map<Seq<char>, SessionHandle> {
        Map::new(
            |id: Seq<char>| exists|i: int| 0 <= i < self.handles().len() && #[trigger] self.handles()[i].session_id@ == id,
            |id: Seq<char>| self.handles()[choose|i: int| 0 <= i < self.handles().len() && #[trigger] self.handles()[i].session_id@ == id],
        )
    }

    pub open spec fn wf(&self) -> bool {
        forall|i: int, j: int| 0 <= i < self.handles().len() && 0 <= j < self.handles().len() && i != j
            ==> #[trigger] self.handles()[i].session_id@ != #[trigger] self.handles()[j].session_id@
    }

    pub fn new() -> (r: Self)
        ensures
            r.wf(),
            r.view() == Map::<Seq<char>, SessionHandle>::empty(),
    {
        let r = SessionRegistry { sessions: Vec::new() };
        assert(r.view() =~= Map::<Seq<char>, SessionHandle>::empty());
        r
    }

    proof fn lemma_view_at(&self, i: int)
        requires
            self.wf(),
            0 <= i < self.handles().len(),
        ensures
            self.view().dom().contains(self.handles()[i].session_id@),
            self.view()[self.handles()[i].session_id@] == self.handles()[i],
    {
        let id = self.handles()[i].session_id@;
        let k = choose|k: int| 0 <= k < self.handles().len() && #[trigger] self.handles()[k].session_id@ == id;
        assert(k == i);
    }

    fn find(&self, session_id: &str) -> (r: Option<usize>)
        requires
            self.wf(),
        ensures
            match r {
                Some(i) => i < self.handles().len() && self.handles()[i as int].session_id@ == session_id@,
                None => !self.view().dom().contains(session_id@),
            },
    {
        let mut i: usize = 0;
        while i < self.sessions.len()
            invariant
                i <= self.sessions.len(),
                forall|j: int| 0 <= j < i ==> #[trigger] self.handles()[j].session_id@ != session_id@,
            decreases self.sessions.len() - i,
        {
            if str_eq(self.sessions[i].session_id.as_str(), session_id) {
                return Some(i);
            }
            i = i + 1;
        }
        None
    }

    /// Whether a session with this id is open.
    pub fn contains(&self, session_id: &str) -> (r: bool)
        requires
            self.wf(),
        ensures
            r == self.view().dom().contains(session_id@),
    {
        match self.find(session_id) {
            Some(i) => {
                proof {
                    self.lemma_view_at(i as int);
                }
                true
            },
            None => false,
        }
    }

    /// The host of an open session.
    pub fn host_of(&self, session_id: &str) -> (r: Option<String>)
        requires
            self.wf(),
        ensures
            match r {
                Some(h) => self.view().dom().contains(session_id@) && h == self.view()[session_id@].host_id,
                None => !self.view().dom().contains(session_id@),
            },
    {
        match self.find(session_id) {
            Some(i) => {
                proof {
                    self.lemma_view_at(i as int);
                }
                Some(self.sessions[i].host_id.clone())
            },
            None => None,
        }
    }

    /// Registers a session, replacing one with the same id.
    #[verifier::spinoff_prover]
    pub fn insert(&mut self, handle: SessionHandle)
        requires
            old(self).wf(),
        ensures
            final(self).wf(),
            final(self).view() == old(self).view().insert(handle.session_id@, handle),
    {
        let ghost h = handle;
        let ghost old_view = self.view();
        let ghost old_handles = self.handles();
        match self.find(handle.session_id.as_str()) {
            Some(i) => {
                self.sessions.set(i, handle);
                proof {
                    assert(self.handles() == old_handles.update(i as int, h));
                    assert forall|a: int, b: int| 0 <= a < self.handles().len() && 0 <= b < self.handles().len() && a != b
                        implies #[trigger] self.handles()[a].session_id@ != #[trigger] self.handles()[b].session_id@ by {
                        assert(self.handles()[a].session_id@ == old_handles[a].session_id@);
                        assert(self.handles()[b].session_id@ == old_handles[b].session_id@);
                    }
                    assert forall|id: Seq<char>| #[trigger] self.view().dom().contains(id) <==> old_view.insert(h.session_id@, h).dom().contains(id) by {
                        if self.view().dom().contains(id) {
                            let k = choose|k: int| 0 <= k < self.handles().len() && #[trigger] self.handles()[k].session_id@ == id;
                            assert(old_handles[k].session_id@ == id);
                            if k != i {
                                old(self).lemma_view_at(k);
                            }
                        }
                        if old_view.dom().contains(id) && id != h.session_id@ {
                            let k = choose|k: int| 0 <= k < old_handles.len() && #[trigger] old_handles[k].session_id@ == id;
                            assert(self.handles()[k].session_id@ == id);
                        }
                        if id == h.session_id@ {
                            self.lemma_view_at(i as int);
                        }
                    }
                    assert forall|id: Seq<char>| #[trigger] self.view().dom().contains(id) implies self.view()[id] == old_view.insert(h.session_id@, h)[id] by {
                        let k = choose|k: int| 0 <= k < self.handles().len() && #[trigger] self.handles()[k].session_id@ == id;
                        self.lemma_view_at(k);
                        if k != i {
                            old(self).lemma_view_at(k);
                        }
                    }
                    assert(self.view() =~= old_view.insert(h.session_id@, h));
                }
            },
            None => {
                self.sessions.push(handle);
                proof {
                    let n = old_handles.len() as int;
                    assert(self.handles() == old_handles.push(h));
                    assert forall|a: int, b: int| 0 <= a < self.handles().len() && 0 <= b < self.handles().len() && a != b
                        implies #[trigger] self.handles()[a].session_id@ != #[trigger] self.handles()[b].session_id@ by {
                        if a < n && b < n {
                            assert(self.handles()[a] == old_handles[a]);
                            assert(self.handles()[b] == old_handles[b]);
                        } else if a < n {
                            assert(self.handles()[a] == old_handles[a]);
                            old(self).lemma_view_at(a);
                        } else if b < n {
                            assert(self.handles()[b] == old_handles[b]);
                            old(self).lemma_view_at(b);
                        }
                    }
                    assert forall|id: Seq<char>| #[trigger] self.view().dom().contains(id) <==> old_view.insert(h.session_id@, h).dom().contains(id) by {
                        if self.view().dom().contains(id) {
                            let k = choose|k: int| 0 <= k < self.handles().len() && #[trigger] self.handles()[k].session_id@ == id;
                            if k < n {
                                assert(old_handles[k] == self.handles()[k]);
                                old(self).lemma_view_at(k);
                            }
                        }
                        if old_view.dom().contains(id) {
                            let k = choose|k: int| 0 <= k < old_handles.len() && #[trigger] old_handles[k].session_id@ == id;
                            assert(self.handles()[k] == old_handles[k]);
                        }
                        if id == h.session_id@ {
                            self.lemma_view_at(n);
                        }
                    }
                    assert forall|id: Seq<char>| #[trigger] self.view().dom().contains(id) implies self.view()[id] == old_view.insert(h.session_id@, h)[id] by {
                        let k = choose|k: int| 0 <= k < self.handles().len() && #[trigger] self.handles()[k].session_id@ == id;
                        self.lemma_view_at(k);
                        if k < n {
                            assert(old_handles[k] == self.handles()[k]);
                            old(self).lemma_view_at(k);
                        }
                    }
                    assert(self.view() =~= old_view.insert(h.session_id@, h));
                }
            },
        }
    }

    /// Drops the session with this id, if it is open.
    #[verifier::spinoff_prover]
    pub fn remove(&mut self, session_id: &str) -> (r: Option<SessionHandle>)
        requires
            old(self).wf(),
        ensures
            final(self).wf(),
            final(self).view() == old(self).view().remove(session_id@),
            match r {
                Some(h) => old(self).view().dom().contains(session_id@) && h == old(self).view()[session_id@],
                None => !old(self).view().dom().contains(session_id@),
            },
    {
        let ghost old_view = self.view();
        let ghost old_handles = self.handles();
        match self.find(session_id) {
            Some(i) => {
                proof {
                    old(self).lemma_view_at(i as int);
                }
                let removed = self.sessions.remove(i);
                proof {
                    let r = self.handles();
                    assert(r == old_handles.remove(i as int));
                    assert forall|a: int| 0 <= a < r.len() implies #[trigger] r[a] == old_handles[if a < i { a } else { a + 1 }] by {}
                    assert forall|a: int, b: int| 0 <= a < r.len() && 0 <= b < r.len() && a != b
                        implies #[trigger] r[a].session_id@ != #[trigger] r[b].session_id@ by {
                        let a2 = if a < i { a } else { a + 1 };
                        let b2 = if b < i { b } else { b + 1 };
                        assert(r[a] == old_handles[a2] && r[b] == old_handles[b2]);
                    }
                    assert forall|id: Seq<char>| #[trigger] self.view().dom().contains(id) <==> old_view.remove(session_id@).dom().contains(id) by {
                        if self.view().dom().contains(id) {
                            let k = choose|k: int| 0 <= k < r.len() && #[trigger] r[k].session_id@ == id;
                            let k2 = if k < i { k } else { k + 1 };
                            assert(r[k] == old_handles[k2]);
                            old(self).lemma_view_at(k2);
                            assert(k2 != i);
                        }
                        if old_view.dom().contains(id) && id != session_id@ {
                            let k = choose|k: int| 0 <= k < old_handles.len() && #[trigger] old_handles[k].session_id@ == id;
                            assert(k != i);
                            let k1 = if k < i { k } else { k - 1 };
                            assert(r[k1] == old_handles[k]);
                        }
                    }
                    assert forall|id: Seq<char>| #[trigger] self.view().dom().contains(id) implies self.view()[id] == old_view[id] by {
                        let k = choose|k: int| 0 <= k < r.len() && #[trigger] r[k].session_id@ == id;
                        self.lemma_view_at(k);
                        let k2 = if k < i { k } else { k + 1 };
                        assert(r[k] == old_handles[k2]);
                        old(self).lemma_view_at(k2);
                    }
                    assert(self.view() =~= old_view.remove(session_id@));
                }
                Some(removed)
            },
            None => {
                assert(self.view() =~= old_view.remove(session_id@));
                None
            },
        }
    }

    /// Hands a command to the worker of an open session.  An unknown session
    /// is refused; where the worker is gone the session is dropped and the
    /// command refused.
    pub fn send_command(&mut self, session_id: &str, command: SessionCommand) -> (r: Result<(), AppErrorDto>)
        requires
            old(self).wf(),
        ensures
            final(self).wf(),
            !old(self).view().dom().contains(session_id@) ==> (r matches Err(e) && is_session_not_found_error(e)
                && final(self).view() == old(self).view()),
            old(self).view().dom().contains(session_id@) ==> (
                (r is Ok && took_command(old(self).view(), final(self).view(), session_id@, command))
                || (r matches Err(e) && is_session_closed_error(e)
                    && final(self).view() == old(self).view().remove(session_id@))),
    {
        match self.remove(session_id) {
            None => Err(AppErrorDto::session_not_found()),
            Some(handle) => {
                let mut handle = handle;
                let delivered = send_to_worker(&mut handle.command_tx, command);
                let r = self.settle_send(handle, delivered);
                proof {
                    if delivered {
                        assert(self.view() =~= old(self).view().remove(session_id@).insert(session_id@, handle));
                        assert(self.view().dom() =~= old(self).view().dom());
                    }
                }
                r
            },
        }
    }

    /// What handing a command to the worker of a session taken out of the
    /// registry comes to, by whether the worker took it: the session is put
    /// back, or it stays dropped and the command is refused with
    /// `SessionClosed`.
    pub fn settle_send(&mut self, handle: SessionHandle, delivered: bool) -> (r: Result<(), AppErrorDto>)
        requires
            old(self).wf(),
        ensures
            final(self).wf(),
            delivered ==> r is Ok && final(self).view() == old(self).view().insert(handle.session_id@, handle),
            !delivered ==> (r matches Err(e) && is_session_closed_error(e) && final(self).view() == old(self).view()),
    {
        if delivered {
            self.insert(handle);
            Ok(())
        } else {
            Err(AppErrorDto::new(AppErrorCode::SessionClosed, "Session command channel is closed", false))
        }
    }

    /// Hands decoded input to a session.  Input that is not base64 is
    /// refused before the session is looked up.
    pub fn write(&mut self, input: &SshWriteInput) -> (r: Result<(), AppErrorDto>)
        requires
            old(self).wf(),
        ensures
            final(self).wf(),
            base64_standard_decoding(input.data_base64@) is None ==> (r matches Err(e)
                && e.code == AppErrorCode::IoError && e.message@ == "Invalid base64 input"@ && e.details is Some
                && !e.retryable && final(self).view() == old(self).view()),
            base64_standard_decoding(input.data_base64@) is Some && !old(self).view().dom().contains(input.session_id@)
                ==> (r matches Err(e) && is_session_not_found_error(e) && final(self).view() == old(self).view()),
            base64_standard_decoding(input.data_base64@) is Some && old(self).view().dom().contains(input.session_id@) ==> (
                (r is Ok && exists|data: Vec<u8>| base64_standard_decoding(input.data_base64@) == Some(data@) && #[trigger] took_command(
                    old(self).view(),
                    final(self).view(),
                    input.session_id@,
                    SessionCommand::Write(data),
                ))
                || (r matches Err(e) && is_session_closed_error(e)
                    && final(self).view() == old(self).view().remove(input.session_id@))),
    {
        let bytes = decode_base64(input.data_base64.as_str())?;
        let ghost data = bytes;
        let r = self.send_command(input.session_id.as_str(), SessionCommand::Write(bytes));
        proof {
            if r is Ok {
                assert(took_command(old(self).view(), self.view(), input.session_id@, SessionCommand::Write(data)));
            }
        }
        r
    }

    /// Asks a session's terminal to take a new size.
    pub fn resize(&mut self, input: &SshResizeInput) -> (r: Result<(), AppErrorDto>)
        requires
            old(self).wf(),
        ensures
            final(self).wf(),
            !old(self).view().dom().contains(input.session_id@) ==> (r matches Err(e)
                && is_session_not_found_error(e) && final(self).view() == old(self).view()),
            old(self).view().dom().contains(input.session_id@) ==> (
                (r is Ok && took_command(
                    old(self).view(),
                    final(self).view(),
                    input.session_id@,
                    SessionCommand::Resize { cols: input.cols, rows: input.rows },
                ))
                || (r matches Err(e) && is_session_closed_error(e)
                    && final(self).view() == old(self).view().remove(input.session_id@))),
    {
        self.send_command(input.session_id.as_str(), SessionCommand::Resize { cols: input.cols, rows: input.rows })
    }

    /// Asks a session to close and forgets it.  Whatever the outcome, the
    /// session is no longer open afterwards; where it succeeds, the session's
    /// worker was handed exactly one `Disconnect` after what it had before.
    pub fn disconnect(&mut self, input: &SshDisconnectInput) -> (r: Result<(), AppErrorDto>)
        requires
            old(self).wf(),
        ensures
            final(self).wf(),
            final(self).view() == old(self).view().remove(input.session_id@),
            !old(self).view().dom().contains(input.session_id@) ==> (r matches Err(e)
                && is_session_not_found_error(e)),
            old(self).view().dom().contains(input.session_id@) ==> (r is Ok || (r matches Err(e)
                && is_session_closed_error(e))),
            r is Ok ==> exists|h: SessionHandle| #[trigger] commands_sent(h.command_tx) == commands_sent(
                old(self).view()[input.session_id@].command_tx,
            ).push(SessionCommand::Disconnect) && h.session_id == old(self).view()[input.session_id@].session_id
                && h.host_id == old(self).view()[input.session_id@].host_id,
    {
        self.send_command(input.session_id.as_str(), SessionCommand::Disconnect)?;
        let ghost mid = self.view();
        let ghost h = mid[input.session_id@];
        self.remove(input.session_id.as_str());
        proof {
            assert(self.view() =~= old(self).view().remove(input.session_id@));
            assert(commands_sent(h.command_tx) == commands_sent(
                old(self).view()[input.session_id@].command_tx,
            ).push(SessionCommand::Disconnect));
        }
        Ok(())
    }
}


/// A session that was disconnected refuses every later command: after
/// `disconnect` (which leaves `after` as `before` without the session),
/// the session is unknown, which `send_command`, `write`, `resize` and
/// `disconnect` answer with the plain `Session not found` error.
pub proof fn law_disconnected_session_is_unknown(before: SessionRegistry, after: SessionRegistry, session_id: Seq<char>)
    requires
        after.view() == before.view().remove(session_id),
    ensures
        !after.view().dom().contains(session_id),
{
}

} // verus!
