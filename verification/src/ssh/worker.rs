//! Decisions of the loop that serves one interactive session.  The loop
//! itself, which reads and writes the SSH channel, receives commands and
//! sleeps, hands every outcome to the functions here and does what they
//! answer.
use vstd::prelude::*;
use std::collections::VecDeque;
use vstd::string::StringExecFns;
use crate::contracts::errors::{detailed_error, plain_error, AppErrorCode, AppErrorDto};
use crate::contracts::host::ConnectionStatus;
use crate::contracts::ssh::{SessionStatus, SshClosedReason};
use crate::repositories::host_repository::connection_status_text;
use crate::ssh::types::SessionCommand;
use crate::text::{contains_seq, contains_str, decimal, decimal_seq, to_lowercase, unicode_lowercase};

verus! {

/// Commands taken from the queue in one round of the loop.
pub const MAX_COMMANDS_PER_LOOP: usize = 6;
/// Attempts at a terminal resize while the channel asks to retry.
pub const MAX_RESIZE_RETRY_ATTEMPTS: usize = 80;
/// Consecutive transport read errors after which the session fails.
pub const MAX_TRANSIENT_READ_ERRORS: usize = 250;
/// Every this many consecutive transport read errors, a keepalive is sent.
pub const READ_ERROR_KEEPALIVE_INTERVAL: usize = 200;
/// Time a round may spend on commands, in milliseconds.
pub const COMMAND_BUDGET_MS: u64 = 2;
/// Bytes written to the channel at a time.
pub const SSH_WRITE_CHUNK_SIZE: usize = 256;
/// Input accepted but not yet written, at most.
pub const MAX_PENDING_INPUT_BYTES: usize = 4194304;
/// Pause when there is nothing to do, in milliseconds.
pub const IDLE_WAIT_MS: u64 = 20;
/// Pause between resize attempts, in milliseconds.
pub const RESIZE_RETRY_DELAY_MS: u64 = 5;
/// Size of the buffer the channel is read into.
pub const READ_BUFFER_SIZE: usize = 32768;

/// The kinds of I/O error that the loop tells apart.
#[derive(Clone, Copy, Debug, PartialEq, Eq, Structural)]
pub enum IoFailureKind {
    WouldBlock,
    TimedOut,
    Interrupted,
    Other,
}

/// An I/O error of the channel: its kind and its text.
#[derive(Clone, Debug)]
pub struct IoFailure {
    pub kind: IoFailureKind,
    pub message: String,
}

/// Markers in an error's text that mean "try again later".
pub open spec fn retry_marker(low: Seq<char>) -> bool {
    ||| contains_seq(low, "would block"@)
    ||| contains_seq(low, "wouldblock"@)
    ||| contains_seq(low, "eagain"@)
    ||| contains_seq(low, "resource temporarily unavailable"@)
    ||| contains_seq(low, "temporarily unavailable"@)
    ||| contains_seq(low, "operation timed out"@)
    ||| contains_seq(low, "timed out"@)
    ||| contains_seq(low, "draining incoming flow"@)
}

pub open spec fn is_retryable_io_failure(f: IoFailure) -> bool {
    ||| f.kind == IoFailureKind::WouldBlock
    ||| f.kind == IoFailureKind::TimedOut
    ||| f.kind == IoFailureKind::Interrupted
    ||| retry_marker(unicode_lowercase(f.message@))
}

pub open spec fn is_transport_read_failure(f: IoFailure) -> bool {
    contains_seq(unicode_lowercase(f.message@), "transport read"@)
}

/// An error that a later attempt may not repeat: a kind that says so, or a
/// text (in lower case) that says so.
pub fn is_retryable_io_error(f: &IoFailure) -> (r: bool)
    ensures
        r == is_retryable_io_failure(*f),
{
    if f.kind == IoFailureKind::WouldBlock || f.kind == IoFailureKind::TimedOut || f.kind
        == IoFailureKind::Interrupted {
        return true;
    }
    let low = to_lowercase(f.message.as_str());
    let m = low.as_str();
    contains_str(m, "would block") || contains_str(m, "wouldblock") || contains_str(m, "eagain")
        || contains_str(m, "resource temporarily unavailable") || contains_str(
        m,
        "temporarily unavailable",
    ) || contains_str(m, "operation timed out") || contains_str(m, "timed out") || contains_str(
        m,
        "draining incoming flow",
    )
}

/// A read error of the SSH transport, which the session rides out for a while.
pub fn is_transport_read_error(f: &IoFailure) -> (r: bool)
    ensures
        r == is_transport_read_failure(*f),
{
    let low = to_lowercase(f.message.as_str());
    contains_str(low.as_str(), "transport read")
}

/// An SSH error asking to retry: session error codes -37 (would block) and
/// -9 (timeout).  `session_code` is the code of a session error, `None` for
/// an SFTP error.
pub fn is_retryable_ssh_error(session_code: Option<i32>) -> (r: bool)
    ensures
        r == (session_code == Some(-37i32) || session_code == Some(-9i32)),
{
    match session_code {
        Some(code) => code == -37 || code == -9,
        None => false,
    }
}

/// The bytes of the chunks, one after the other.
pub open spec fn flat(chunks: Seq<Vec<u8>>) -> Seq<u8>
    decreases chunks.len(),
{
    if chunks.len() == 0 {
        Seq::empty()
    } else {
        chunks[0]@ + flat(chunks.drop_first())
    }
}

pub open spec fn min_nat(a: nat, b: nat) -> nat {
    if a <= b { a } else { b }
}

/// Input waiting to be written to the channel, in the order it came, with a
/// count of its bytes.
pub struct PendingInput {
    chunks: VecDeque<Vec<u8>>,
    bytes: usize,
}

/// What writing the front of the queue to the channel gave.
#[derive(Clone, Debug)]
pub enum WriteOutcome {
    Wrote(usize),
    Error(IoFailure),
}

impl PendingInput {
    /// The bytes waiting, in order.
    pub closed spec fn queued(&self) -> Seq<u8> {
        flat(self.chunks@)
    }

    pub closed spec fn chunk_count(&self) -> nat {
        self.chunks@.len()
    }

    /// The chunks waiting, each as it was queued (or what is left of it).
    pub closed spec fn chunk_views(&self) -> Seq<Seq<u8>> {
        self.chunks@.map_values(|c: Vec<u8>| c@)
    }

    /// The chunks make up the waiting bytes, the front chunk first.
    pub proof fn lemma_chunks(&self)
        ensures
            self.chunk_views().len() == self.chunk_count(),
            self.chunk_count() > 0 ==> self.front_len() == self.chunk_views()[0].len()
                && self.front_len() <= self.queued().len()
                && self.queued().subrange(0, self.front_len() as int) == self.chunk_views()[0],
    {
        if self.chunks@.len() > 0 {
            assert(self.queued() == self.chunks@[0]@ + flat(self.chunks@.drop_first()));
            assert(self.queued().subrange(0, self.front_len() as int) =~= self.chunks@[0]@);
        }
    }

    /// Length of the chunk at the front, 0 when there is none.
    pub closed spec fn front_len(&self) -> nat {
        if self.chunks@.len() > 0 { self.chunks@[0]@.len() } else { 0 }
    }

    /// The count of waiting bytes that the loop keeps.
    pub closed spec fn counted(&self) -> nat {
        self.bytes as nat
    }

    /// The count is exact and within the limit.
    pub open spec fn wf(&self) -> bool {
        &&& self.counted() == self.queued().len()
        &&& self.counted() <= MAX_PENDING_INPUT_BYTES
    }

    pub fn new() -> (r: Self)
        ensures
            r.wf(),
            r.queued() == Seq::<u8>::empty(),
            r.chunk_count() == 0,
    {
        PendingInput { chunks: VecDeque::new(), bytes: 0 }
    }

    pub fn is_empty(&self) -> (r: bool)
        ensures
            r == (self.chunk_count() == 0),
    {
        self.chunks.len() == 0
    }

    pub fn bytes(&self) -> (r: usize)
        ensures
            r == self.counted(),
    {
        self.bytes
    }

    /// Accepts input unless the waiting bytes would exceed the limit; then
    /// the input is refused with `InputBufferFull` and nothing changes.
    pub fn enqueue(&mut self, data: Vec<u8>) -> (r: Result<(), AppErrorDto>)
        requires
            old(self).wf(),
        ensures
            final(self).wf(),
            old(self).counted() + data@.len() <= MAX_PENDING_INPUT_BYTES ==> r is Ok
                && final(self).queued() == old(self).queued() + data@
                && final(self).chunk_count() == old(self).chunk_count() + 1
                && final(self).chunk_views() == old(self).chunk_views().push(data@),
            old(self).counted() + data@.len() > MAX_PENDING_INPUT_BYTES ==> (r matches Err(e) && detailed_error(
                e,
                AppErrorCode::InputBufferFull,
                "SSH write backpressure exceeded"@,
                "pending_input_bytes="@ + decimal_seq(
                    if old(self).counted() + data@.len() <= usize::MAX {
                        (old(self).counted() + data@.len()) as nat
                    } else {
                        usize::MAX as nat
                    },
                ),
                true,
            ) && *final(self) == *old(self)),
    {
        let next_total = self.bytes.saturating_add(data.len());
        if next_total > MAX_PENDING_INPUT_BYTES {
            let details = String::from_str("pending_input_bytes=").concat(decimal(next_total as u64).as_str());
            return Err(
                AppErrorDto::with_details(
                    AppErrorCode::InputBufferFull,
                    "SSH write backpressure exceeded",
                    details.as_str(),
                    true,
                ),
            );
        }
        let ghost old_chunks = self.chunks@;
        let ghost d = data@;
        self.bytes = next_total;
        self.chunks.push_back(data);
        proof {
            lemma_flat_push(old_chunks, self.chunks@.last());
            assert(self.chunks@ =~= old_chunks.push(self.chunks@.last()));
            assert(self.chunk_views() =~= old(self).chunk_views().push(d));
        }
        Ok(())
    }

    /// The bytes to hand to the channel next: the first
    /// `SSH_WRITE_CHUNK_SIZE` bytes of the front chunk, or fewer.
    pub fn next_write(&self) -> (r: &[u8])
        requires
            self.chunk_count() > 0,
        ensures
            r@.len() == min_nat(self.front_len(), SSH_WRITE_CHUNK_SIZE as nat),
            r@ == self.queued().subrange(0, r@.len() as int),
    {
        let front = &self.chunks[0];
        let n = if front.len() < SSH_WRITE_CHUNK_SIZE { front.len() } else { SSH_WRITE_CHUNK_SIZE };
        proof {
            assert(self.queued() == self.chunks@[0]@ + flat(self.chunks@.drop_first()));
            assert(self.queued().subrange(0, n as int) =~= front@.subrange(0, n as int));
        }
        vstd::slice::slice_subrange(front.as_slice(), 0, n)
    }

    /// How one write attempt settles the waiting input: `before` and `after`
    /// are the input before and after, `r` the answer (see `process_step`).
    pub open spec fn step_settles(
        before: PendingInput,
        outcome: Option<WriteOutcome>,
        r: Result<bool, AppErrorDto>,
        after: PendingInput,
    ) -> bool {
        &&& r is Ok ==> after.wf()
        &&& after.counted() >= after.queued().len()
        &&& match outcome {
            None => r == Ok::<bool, AppErrorDto>(false) && after.queued() == before.queued()
                && after.chunk_views() == (if before.chunk_count() > 0 {
                before.chunk_views().drop_first()
            } else {
                before.chunk_views()
            }),
            Some(WriteOutcome::Wrote(w)) => if w == 0 {
                r matches Err(e) && plain_error(
                    e,
                    AppErrorCode::IoError,
                    "SSH channel write returned zero bytes"@,
                    true,
                ) && after.queued() == before.queued().skip(before.front_len() as int)
                    && after.chunk_views() == before.chunk_views().drop_first()
            } else if w >= before.front_len() {
                r == Ok::<bool, AppErrorDto>(false) && after.queued() == before.queued().skip(
                    before.front_len() as int,
                ) && after.chunk_views() == before.chunk_views().drop_first()
            } else {
                r == Ok::<bool, AppErrorDto>(true) && after.queued() == before.queued().skip(
                    w as int,
                ) && after.chunk_views() == before.chunk_views().update(
                    0,
                    before.chunk_views()[0].skip(w as int),
                )
            },
            Some(WriteOutcome::Error(f)) => if is_retryable_io_failure(f)
                || is_transport_read_failure(f) {
                r == Ok::<bool, AppErrorDto>(true) && after.queued() == before.queued()
                    && after.chunk_views() == before.chunk_views()
            } else {
                r matches Err(e) && detailed_error(
                    e,
                    AppErrorCode::IoError,
                    "Failed to write SSH input"@,
                    f.message@,
                    true,
                ) && after.queued() == before.queued().skip(before.front_len() as int)
                    && after.chunk_views() == before.chunk_views().drop_first()
            },
        }
    }

    /// Settles the front chunk after a write attempt; `outcome` is `None`
    /// when there is no chunk or the front chunk is empty, and nothing was
    /// written.  A complete write drops the chunk; a partial write keeps
    /// what is left; an error asking to retry keeps the chunk.  In those two
    /// cases the answer is `Ok(true)`: the loop drains the channel's output
    /// once.  A write of zero bytes or any other error drops the chunk and
    /// fails.
    pub fn process_step(&mut self, outcome: Option<WriteOutcome>) -> (r: Result<bool, AppErrorDto>)
        requires
            old(self).wf(),
            outcome is None <==> old(self).front_len() == 0,
        ensures
            PendingInput::step_settles(*old(self), outcome, r, *final(self)),
    {
        let ghost old_chunks = self.chunks@;
        let ghost old_views = self.chunk_views();
        let current = match self.chunks.pop_front() {
            Some(c) => c,
            None => {
                assert(self.chunk_views() =~= old_views);
                return Ok(false);
            },
        };
        proof {
            assert(self.chunks@ =~= old_chunks.drop_first());
            assert(old_chunks[0] == current);
            assert(flat(old_chunks) == current@ + flat(self.chunks@));
            assert(flat(old_chunks).skip(current@.len() as int) =~= flat(self.chunks@));
            assert(self.chunk_views() =~= old_views.drop_first());
        }
        let len = current.len();
        match outcome {
            None => {
                assert(flat(old_chunks) =~= flat(self.chunks@));
                Ok(false)
            },
            Some(WriteOutcome::Wrote(w)) => {
                if w == 0 {
                    Err(AppErrorDto::new(AppErrorCode::IoError, "SSH channel write returned zero bytes", true))
                } else if w >= len {
                    self.bytes = self.bytes - len;
                    Ok(false)
                } else {
                    let rest = vstd::slice::slice_to_vec(
                        vstd::slice::slice_subrange(current.as_slice(), w, len),
                    );
                    self.bytes = self.bytes - w;
                    let ghost rest_view = rest@;
                    self.chunks.push_front(rest);
                    proof {
                        assert(self.chunks@[0]@ == rest_view);
                        assert(self.chunks@.drop_first() =~= old_chunks.drop_first());
                        assert(flat(self.chunks@) == rest_view + flat(old_chunks.drop_first()));
                        assert(rest_view =~= current@.skip(w as int));
                        assert(flat(old_chunks).skip(w as int) =~= current@.skip(w as int) + flat(old_chunks.drop_first()));
                        assert(self.chunk_views() =~= old_views.update(0, old_views[0].skip(w as int)));
                    }
                    Ok(true)
                }
            },
            Some(WriteOutcome::Error(f)) => {
                if is_retryable_io_error(&f) || is_transport_read_error(&f) {
                    self.chunks.push_front(current);
                    proof {
                        assert(self.chunks@ =~= old_chunks);
                        assert(self.chunk_views() =~= old_views);
                    }
                    Ok(true)
                } else {
                    Err(
                        AppErrorDto::with_details(
                            AppErrorCode::IoError,
                            "Failed to write SSH input",
                            f.message.as_str(),
                            true,
                        ),
                    )
                }
            },
        }
    }
}

/// Nothing is lost or reordered by a write: when the channel took `w` bytes
/// of those handed to it (at most the front chunk), the waiting input
/// before is the bytes written followed by the waiting input after.
pub proof fn law_written_then_rest(
    before: PendingInput,
    w: usize,
    r: Result<bool, AppErrorDto>,
    after: PendingInput,
)
    requires
        before.wf(),
        0 < w <= before.front_len(),
        PendingInput::step_settles(before, Some(WriteOutcome::Wrote(w)), r, after),
    ensures
        r is Ok,
        before.queued() == before.queued().subrange(0, w as int) + after.queued(),
{
    before.lemma_chunks();
    assert(before.queued() =~= before.queued().subrange(0, w as int) + before.queued().skip(w as int));
}

proof fn lemma_flat_push(chunks: Seq<Vec<u8>>, c: Vec<u8>)
    ensures
        flat(chunks.push(c)) == flat(chunks) + c@,
    decreases chunks.len(),
{
    if chunks.len() == 0 {
        assert(chunks.push(c).drop_first() =~= Seq::<Vec<u8>>::empty());
        assert(flat(chunks.push(c).drop_first()) =~= Seq::<u8>::empty());
        assert(chunks.push(c)[0] == c);
        assert(flat(chunks.push(c)) =~= c@);
    } else {
        lemma_flat_push(chunks.drop_first(), c);
        assert(chunks.push(c).drop_first() =~= chunks.drop_first().push(c));
        assert(flat(chunks.push(c)) =~= flat(chunks) + c@);
    }
}

/// What the loop does after a read of the channel.
#[derive(Clone, Debug)]
pub enum IdleAction {
    /// Wait a while for a command.
    WaitForCommand,
    /// Sleep a while.
    Sleep,
    /// Go on at once.
    Continue,
}

/// What reading the channel gave.
#[derive(Clone, Debug)]
pub enum ReadOutcome {
    /// Some bytes (more than zero).
    Data(usize),
    /// End of stream: the remote side closed.
    Closed,
    Error(IoFailure),
}

/// The loop's answer to a read.
#[derive(Clone, Debug)]
pub enum ReadAction {
    /// The remote side closed: the session ends normally.
    RemoteClosed,
    /// Forward the bytes read to the interface.
    Forward(usize),
    /// A transport read error to ride out; `log` and `keepalive` say
    /// whether to log it and whether to send a keepalive.
    Transient { log: bool, keepalive: bool, idle: IdleAction },
    /// An error that asks to retry.
    Retry { idle: IdleAction },
    /// The session fails with `error`; the history records `message`.
    Fatal { error: AppErrorDto, message: String },
}

/// State of the session loop apart from the channel: input waiting, the run
/// of transport read errors, and whether the command queue is gone.
pub struct SessionLoop {
    pending: PendingInput,
    transient_read_errors: usize,
    command_rx_closed: bool,
}

/// What waiting for a command gave.
#[derive(Debug)]
pub enum WaitOutcome {
    Command(SessionCommand),
    Timeout,
    Disconnected,
}

/// The loop's answer to a wait.
#[derive(Debug)]
pub enum WaitAction {
    /// Handle this command.
    Handle(SessionCommand),
    /// Nothing happened.
    Nothing,
    /// The command queue is gone: log it, then sleep.
    QueueClosed,
}

/// What a command asks of the loop, once its input (if any) is queued.
#[derive(Clone, Copy, Debug, PartialEq, Eq, Structural)]
pub enum CommandAction {
    Continue,
    Resize { cols: u16, rows: u16 },
    Disconnect,
}

pub open spec fn idle_after(handled_command: bool, transient: bool) -> IdleAction {
    if !handled_command {
        IdleAction::WaitForCommand
    } else if transient {
        IdleAction::Sleep
    } else {
        IdleAction::Continue
    }
}

impl SessionLoop {
    /// Input waiting to be written.
    pub closed spec fn input(&self) -> PendingInput {
        self.pending
    }

    pub closed spec fn read_errors(&self) -> nat {
        self.transient_read_errors as nat
    }

    pub closed spec fn queue_closed(&self) -> bool {
        self.command_rx_closed
    }

    pub open spec fn wf(&self) -> bool {
        &&& self.input().wf()
        &&& self.read_errors() < MAX_TRANSIENT_READ_ERRORS
    }

    pub fn new() -> (r: Self)
        ensures
            r.wf(),
            r.input().queued() == Seq::<u8>::empty(),
            r.input().chunk_count() == 0,
            r.read_errors() == 0,
            !r.queue_closed(),
    {
        SessionLoop { pending: PendingInput::new(), transient_read_errors: 0, command_rx_closed: false }
    }

    /// Whether input is waiting to be written.
    pub fn has_pending_input(&self) -> (r: bool)
        ensures
            r == (self.input().chunk_count() > 0),
    {
        !self.pending.is_empty()
    }

    /// Bytes of input waiting.
    pub fn pending_bytes(&self) -> (r: usize)
        ensures
            r == self.input().counted(),
    {
        self.pending.bytes()
    }

    /// The bytes to hand to the channel next (see `PendingInput::next_write`).
    pub fn next_write(&self) -> (r: &[u8])
        requires
            self.input().chunk_count() > 0,
        ensures
            r@.len() == min_nat(self.input().front_len(), SSH_WRITE_CHUNK_SIZE as nat),
            r@ == self.input().queued().subrange(0, r@.len() as int),
    {
        self.pending.next_write()
    }

    /// Settles the front of the waiting input after a write attempt (see
    /// `PendingInput::process_step`).
    pub fn process_pending_step(&mut self, outcome: Option<WriteOutcome>) -> (r: Result<bool, AppErrorDto>)
        requires
            old(self).wf(),
            outcome is None <==> old(self).input().front_len() == 0,
        ensures
            r is Ok ==> final(self).wf(),
            final(self).read_errors() == old(self).read_errors(),
            final(self).queue_closed() == old(self).queue_closed(),
            PendingInput::step_settles(old(self).input(), outcome, r, final(self).input()),
    {
        self.pending.process_step(outcome)
    }

    /// Consecutive transport read errors so far.
    pub fn transient_read_errors(&self) -> (r: usize)
        ensures
            r == self.read_errors(),
    {
        self.transient_read_errors
    }

    pub fn command_queue_closed(&self) -> (r: bool)
        ensures
            r == self.queue_closed(),
    {
        self.command_rx_closed
    }

    /// Decides what a read of the channel leads to.  `handled_command` says
    /// whether this round handled a command.  Data or a retryable error
    /// ends a run of transport errors; a transport error extends it, and the
    /// run's `MAX_TRANSIENT_READ_ERRORS`-th error is fatal.
    pub fn on_read(&mut self, outcome: ReadOutcome, handled_command: bool) -> (r: ReadAction)
        requires
            old(self).wf(),
        ensures
            final(self).input() == old(self).input(),
            final(self).queue_closed() == old(self).queue_closed(),
            !(r is Fatal) ==> final(self).wf(),
            match outcome {
                ReadOutcome::Closed => r is RemoteClosed,
                ReadOutcome::Data(n) => r == ReadAction::Forward(n) && final(self).read_errors() == 0,
                ReadOutcome::Error(f) => if is_transport_read_failure(f) {
                    let count = old(self).read_errors() + 1;
                    final(self).read_errors() == count && if count >= MAX_TRANSIENT_READ_ERRORS {
                        r matches ReadAction::Fatal { error, message } && message@ == f.message@
                            && detailed_error(error, AppErrorCode::IoError, "Failed to read SSH output"@, f.message@, true)
                    } else {
                        r == ReadAction::Transient {
                            log: count == 1 || count % READ_ERROR_KEEPALIVE_INTERVAL as nat == 0,
                            keepalive: count % READ_ERROR_KEEPALIVE_INTERVAL as nat == 0,
                            idle: idle_after(handled_command, true),
                        }
                    }
                } else if is_retryable_io_failure(f) {
                    r == ReadAction::Retry { idle: idle_after(handled_command, false) }
                        && final(self).read_errors() == 0
                } else {
                    r matches ReadAction::Fatal { error, message } && message@ == f.message@
                        && detailed_error(error, AppErrorCode::IoError, "Failed to read SSH output"@, f.message@, true)
                },
            },
    {
        match outcome {
            ReadOutcome::Closed => ReadAction::RemoteClosed,
            ReadOutcome::Data(n) => {
                self.transient_read_errors = 0;
                ReadAction::Forward(n)
            },
            ReadOutcome::Error(f) => {
                if is_transport_read_error(&f) {
                    self.transient_read_errors = self.transient_read_errors + 1;
                    let count = self.transient_read_errors;
                    if count >= MAX_TRANSIENT_READ_ERRORS {
                        let error = AppErrorDto::with_details(
                            AppErrorCode::IoError,
                            "Failed to read SSH output",
                            f.message.as_str(),
                            true,
                        );
                        return ReadAction::Fatal { error, message: f.message };
                    }
                    let log = count == 1 || count % READ_ERROR_KEEPALIVE_INTERVAL == 0;
                    let keepalive = count % READ_ERROR_KEEPALIVE_INTERVAL == 0;
                    let idle = if !handled_command { IdleAction::WaitForCommand } else { IdleAction::Sleep };
                    ReadAction::Transient { log, keepalive, idle }
                } else if is_retryable_io_error(&f) {
                    self.transient_read_errors = 0;
                    let idle = if !handled_command { IdleAction::WaitForCommand } else { IdleAction::Continue };
                    ReadAction::Retry { idle }
                } else {
                    let error = AppErrorDto::with_details(
                        AppErrorCode::IoError,
                        "Failed to read SSH output",
                        f.message.as_str(),
                        true,
                    );
                    ReadAction::Fatal { error, message: f.message }
                }
            },
        }
    }

    /// Decides what a wait for a command leads to.  Once the queue is gone
    /// the loop no longer waits on it and sleeps instead.
    pub fn on_wait(&mut self, outcome: WaitOutcome) -> (r: WaitAction)
        requires
            old(self).wf(),
            !old(self).queue_closed(),
        ensures
            final(self).wf(),
            final(self).input() == old(self).input(),
            final(self).read_errors() == old(self).read_errors(),
            match outcome {
                WaitOutcome::Command(c) => r == WaitAction::Handle(c) && !final(self).queue_closed(),
                WaitOutcome::Timeout => r is Nothing && !final(self).queue_closed(),
                WaitOutcome::Disconnected => r is QueueClosed && final(self).queue_closed(),
            },
    {
        match outcome {
            WaitOutcome::Command(c) => WaitAction::Handle(c),
            WaitOutcome::Timeout => WaitAction::Nothing,
            WaitOutcome::Disconnected => {
                self.command_rx_closed = true;
                WaitAction::QueueClosed
            },
        }
    }

    /// Takes a command: input is queued (or refused when the queue is
    /// full), a resize or a disconnect is handed back to the loop.
    pub fn accept_command(&mut self, command: SessionCommand) -> (r: Result<CommandAction, AppErrorDto>)
        requires
            old(self).wf(),
        ensures
            final(self).wf(),
            final(self).read_errors() == old(self).read_errors(),
            final(self).queue_closed() == old(self).queue_closed(),
            match command {
                SessionCommand::Write(data) => if old(self).input().counted() + data@.len() <= MAX_PENDING_INPUT_BYTES {
                    r == Ok::<CommandAction, AppErrorDto>(CommandAction::Continue)
                        && final(self).input().queued() == old(self).input().queued() + data@
                } else {
                    r matches Err(e) && e.code == AppErrorCode::InputBufferFull && final(self).input() == old(self).input()
                },
                SessionCommand::Resize { cols, rows } => r == Ok::<CommandAction, AppErrorDto>(CommandAction::Resize { cols, rows })
                    && final(self).input() == old(self).input(),
                SessionCommand::Disconnect => r == Ok::<CommandAction, AppErrorDto>(CommandAction::Disconnect)
                    && final(self).input() == old(self).input(),
            },
    {
        match command {
            SessionCommand::Write(data) => {
                self.pending.enqueue(data)?;
                Ok(CommandAction::Continue)
            },
            SessionCommand::Resize { cols, rows } => Ok(CommandAction::Resize { cols, rows }),
            SessionCommand::Disconnect => Ok(CommandAction::Disconnect),
        }
    }
}

/// What draining the channel's output once gave: `Ok(true)` when there are
/// bytes to forward, `Ok(false)` at the end of the stream or on an error
/// that asks to retry, an error otherwise.
pub fn drain_outcome(outcome: ReadOutcome) -> (r: Result<bool, AppErrorDto>)
    ensures
        match outcome {
            ReadOutcome::Data(_) => r == Ok::<bool, AppErrorDto>(true),
            ReadOutcome::Closed => r == Ok::<bool, AppErrorDto>(false),
            ReadOutcome::Error(f) => if is_retryable_io_failure(f) || is_transport_read_failure(f) {
                r == Ok::<bool, AppErrorDto>(false)
            } else {
                r matches Err(e) && detailed_error(
                    e,
                    AppErrorCode::IoError,
                    "Failed while draining SSH output"@,
                    f.message@,
                    true,
                )
            },
        },
{
    match outcome {
        ReadOutcome::Data(_) => Ok(true),
        ReadOutcome::Closed => Ok(false),
        ReadOutcome::Error(f) => {
            if is_retryable_io_error(&f) || is_transport_read_error(&f) {
                Ok(false)
            } else {
                Err(
                    AppErrorDto::with_details(
                        AppErrorCode::IoError,
                        "Failed while draining SSH output",
                        f.message.as_str(),
                        true,
                    ),
                )
            }
        },
    }
}

/// What a resize request gave: done, or an SSH error with its session code
/// (`None` for other errors) and text.
#[derive(Clone, Debug)]
pub enum ResizeOutcome {
    Done,
    Failed { session_code: Option<i32>, message: String },
}

/// The loop's answer to a resize attempt.
#[derive(Clone, Debug)]
pub enum ResizeDecision {
    Finished,
    /// Pause `RESIZE_RETRY_DELAY_MS`, then try again.
    RetryAfterDelay,
    /// Too many retries: log and leave the size as it is.
    GiveUp,
    Fail(AppErrorDto),
}

/// Decides the next step of a resize; `attempts` counts the retries so far.
pub fn resize_decision(attempts: &mut usize, outcome: ResizeOutcome) -> (r: ResizeDecision)
    requires
        *old(attempts) < MAX_RESIZE_RETRY_ATTEMPTS,
    ensures
        match outcome {
            ResizeOutcome::Done => r is Finished && *final(attempts) == *old(attempts),
            ResizeOutcome::Failed { session_code, message } => if session_code == Some(-37i32)
                || session_code == Some(-9i32) {
                *final(attempts) == *old(attempts) + 1 && if *final(attempts) >= MAX_RESIZE_RETRY_ATTEMPTS {
                    r is GiveUp
                } else {
                    r is RetryAfterDelay
                }
            } else {
                *final(attempts) == *old(attempts) && (r matches ResizeDecision::Fail(e) && detailed_error(
                    e,
                    AppErrorCode::IoError,
                    "Failed to resize PTY"@,
                    message@,
                    true,
                ))
            },
        },
{
    match outcome {
        ResizeOutcome::Done => ResizeDecision::Finished,
        ResizeOutcome::Failed { session_code, message } => {
            if is_retryable_ssh_error(session_code) {
                *attempts = *attempts + 1;
                if *attempts >= MAX_RESIZE_RETRY_ATTEMPTS {
                    ResizeDecision::GiveUp
                } else {
                    ResizeDecision::RetryAfterDelay
                }
            } else {
                ResizeDecision::Fail(
                    AppErrorDto::with_details(
                        AppErrorCode::IoError,
                        "Failed to resize PTY",
                        message.as_str(),
                        true,
                    ),
                )
            }
        },
    }
}


/// A step of starting a session after the connection is made.
#[derive(Clone, Copy, Debug, PartialEq, Eq, Structural)]
pub enum SetupStep {
    OpenChannel,
    RequestPty,
    StartShell,
    WriteStartupCommand,
    WriteStartupNewline,
}

pub open spec fn setup_message(step: SetupStep) -> Seq<char> {
    match step {
        SetupStep::OpenChannel => "Failed to open SSH channel"@,
        SetupStep::RequestPty => "Failed to request PTY"@,
        SetupStep::StartShell => "Failed to start shell"@,
        SetupStep::WriteStartupCommand => "Failed to write startup command"@,
        SetupStep::WriteStartupNewline => "Failed to write startup command newline"@,
    }
}

/// The error of a failed start-up step; `details` is the text of the
/// underlying error.  A retry may help.
pub fn setup_error(step: SetupStep, details: &str) -> (r: AppErrorDto)
    ensures
        detailed_error(r, AppErrorCode::IoError, setup_message(step), details@, true),
{
    let message = match step {
        SetupStep::OpenChannel => "Failed to open SSH channel",
        SetupStep::RequestPty => "Failed to request PTY",
        SetupStep::StartShell => "Failed to start shell",
        SetupStep::WriteStartupCommand => "Failed to write startup command",
        SetupStep::WriteStartupNewline => "Failed to write startup command newline",
    };
    AppErrorDto::with_details(AppErrorCode::IoError, message, details, true)
}

/// How a session ended, for the history, the status event and the closed
/// event.
#[derive(Clone, Debug)]
pub struct SessionEnd {
    pub recent_status: String,
    pub recent_code: Option<AppErrorCode>,
    pub recent_message: String,
    /// The status to report before the closed event, if any.
    pub status: Option<(SessionStatus, String)>,
    /// Whether an error event is reported (with the worker's error).
    pub report_error: bool,
    pub closed_reason: SshClosedReason,
    pub closed_message: String,
}

pub open spec fn recent_status_for_error_spec(code: AppErrorCode) -> Seq<char> {
    match code {
        AppErrorCode::AuthFailed => "auth_failed"@,
        AppErrorCode::Timeout => "timeout"@,
        AppErrorCode::NetworkUnreachable => "network_error"@,
        _ => "failed"@,
    }
}

/// History status of a session that failed with `error`.
pub fn recent_status_for_error(error: &AppErrorDto) -> (r: String)
    ensures
        r@ == recent_status_for_error_spec(error.code),
{
    match error.code {
        AppErrorCode::AuthFailed => String::from_str("auth_failed"),
        AppErrorCode::Timeout => String::from_str("timeout"),
        AppErrorCode::NetworkUnreachable => String::from_str("network_error"),
        _ => String::from_str("failed"),
    }
}

/// The user disconnected.
pub fn user_disconnect_end() -> (r: SessionEnd)
    ensures
        r.recent_status@ == "disconnected"@,
        r.recent_code is None,
        r.recent_message@ == "User disconnected"@,
        r.status matches Some((s, m)) && s == SessionStatus::Disconnected && m@ == "Disconnected"@,
        !r.report_error,
        r.closed_reason == SshClosedReason::UserDisconnect,
        r.closed_message@ == "User disconnected"@,
{
    SessionEnd {
        recent_status: String::from_str("disconnected"),
        recent_code: None,
        recent_message: String::from_str("User disconnected"),
        status: Some((SessionStatus::Disconnected, String::from_str("Disconnected"))),
        report_error: false,
        closed_reason: SshClosedReason::UserDisconnect,
        closed_message: String::from_str("User disconnected"),
    }
}

/// The remote side closed the channel.
pub fn remote_closed_end() -> (r: SessionEnd)
    ensures
        r.recent_status@ == "disconnected"@,
        r.recent_code is None,
        r.recent_message@ == "Remote closed"@,
        r.status matches Some((s, m)) && s == SessionStatus::Disconnected && m@ == "Remote closed"@,
        !r.report_error,
        r.closed_reason == SshClosedReason::RemoteClosed,
        r.closed_message@ == "Remote closed"@,
{
    SessionEnd {
        recent_status: String::from_str("disconnected"),
        recent_code: None,
        recent_message: String::from_str("Remote closed"),
        status: Some((SessionStatus::Disconnected, String::from_str("Remote closed"))),
        report_error: false,
        closed_reason: SshClosedReason::RemoteClosed,
        closed_message: String::from_str("Remote closed"),
    }
}

/// The worker failed with `error`.
pub fn worker_error_end(error: &AppErrorDto) -> (r: SessionEnd)
    ensures
        r.recent_status@ == recent_status_for_error_spec(error.code),
        r.recent_code == Some(error.code),
        r.recent_message@ == error.message@,
        r.status is None,
        r.report_error,
        r.closed_reason == SshClosedReason::WorkerError,
        r.closed_message@ == error.message@,
{
    SessionEnd {
        recent_status: recent_status_for_error(error),
        recent_code: Some(error.code),
        recent_message: String::from_str(error.message.as_str()),
        status: None,
        report_error: true,
        closed_reason: SshClosedReason::WorkerError,
        closed_message: String::from_str(error.message.as_str()),
    }
}


/// The history status that a failed session records is the text of a
/// connection status: authentication failures, time-outs and unreachable
/// networks keep their own status, every other failure reads as failed.
pub proof fn law_failure_status_is_connection_status(code: AppErrorCode)
    ensures
        recent_status_for_error_spec(code) == connection_status_text(match code {
            AppErrorCode::AuthFailed => ConnectionStatus::AuthFailed,
            AppErrorCode::Timeout => ConnectionStatus::Timeout,
            AppErrorCode::NetworkUnreachable => ConnectionStatus::NetworkError,
            _ => ConnectionStatus::Failed,
        }),
{
}

} // verus!
