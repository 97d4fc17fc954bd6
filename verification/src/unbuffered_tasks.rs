//! The tasks of the unbuffered asynchronous test, which run until the timer fires.
use vstd::prelude::*;

use crate::device::{is_written, Action, Message, Reply, TraceTag};
use crate::machine::{
    driven, lemma_closing, lemma_counting, lemma_receiving, lemma_sending, performed, received, run,
    written, Machine,
};
use crate::params::{MAX_ERROR_CNT, SERIAL_ASYNC_READ, SERIAL_ASYNC_WRITE};
use crate::rng::{lemma_stream_byte_after, stream, stream_byte, IncOneRng};

verus! {

#[derive(Clone, Copy, Debug, PartialEq, Eq)]
pub enum ReadTaskPhase {
    Register,
    CheckTimeout,
    TraceEnter,
    Receive,
    CountError { byte: u8 },
    Report { byte: u8, error_count: usize },
    TraceExit,
    Unregister,
    SignalDone,
    Done,
}

/// The receiving task: checks one byte after the other, and gives up after too many errors. Every
/// byte moves the expectation on, whether it was the expected one or not.
#[derive(Clone, Copy, Debug, PartialEq, Eq)]
pub struct UnbufferedReadTask {
    pub phase: ReadTaskPhase,
    pub uart_irqn: u16,
    pub rx: IncOneRng,
    pub expect_rx: u8,
}

impl UnbufferedReadTask {
    pub open spec fn initial(uart_irqn: u16, rx: u8) -> UnbufferedReadTask {
        UnbufferedReadTask {
            phase: ReadTaskPhase::Register,
            uart_irqn,
            rx: IncOneRng { x: stream_byte(rx, 0) },
            expect_rx: stream_byte(rx, 0),
        }
    }

    /// The task that receives from the port behind interrupt line `uart_irqn`.
    pub fn new(uart_irqn: u16, rx_rng: IncOneRng) -> (r: UnbufferedReadTask)
        ensures
            r == UnbufferedReadTask::initial(uart_irqn, rx_rng.x),
            UnbufferedReadTask::inv(r),
    {
        let mut rx = rx_rng;
        let expect_rx: u8 = rx.next_u8();
        UnbufferedReadTask { phase: ReadTaskPhase::Register, uart_irqn, rx, expect_rx }
    }

    /// The same task in another phase.
    pub open spec fn at(self, phase: ReadTaskPhase) -> UnbufferedReadTask {
        UnbufferedReadTask { phase, ..self }
    }

    /// The next byte is expected, and the driver call is over.
    pub open spec fn moved_on(self) -> UnbufferedReadTask {
        UnbufferedReadTask {
            phase: ReadTaskPhase::TraceExit,
            rx: IncOneRng { x: stream_byte(self.rx.x, 0) },
            expect_rx: stream_byte(self.rx.x, 0),
            ..self
        }
    }

    fn move_on(&mut self)
        ensures
            *final(self) == old(self).moved_on(),
    {
        self.expect_rx = self.rx.next_u8();
        self.phase = ReadTaskPhase::TraceExit;
    }
}

impl Machine for UnbufferedReadTask {
    type State = UnbufferedReadTask;

    open spec fn state(&self) -> UnbufferedReadTask {
        *self
    }

    open spec fn inv(s: UnbufferedReadTask) -> bool {
        s.expect_rx == s.rx.x
    }

    open spec fn finished(s: UnbufferedReadTask) -> bool {
        s.phase is Done
    }

    open spec fn action_of(s: UnbufferedReadTask) -> Action {
        match s.phase {
            ReadTaskPhase::Register => Action::RegisterRead,
            ReadTaskPhase::CheckTimeout => Action::LoadTimeout,
            ReadTaskPhase::TraceEnter => Action::Trace(TraceTag::CallEnter(SERIAL_ASYNC_READ)),
            ReadTaskPhase::Receive => Action::NextByte,
            ReadTaskPhase::CountError { .. } => Action::BumpErrorCount,
            ReadTaskPhase::Report { byte, error_count } => Action::Print(
                Message::TaskError {
                    uart_irqn: s.uart_irqn,
                    error_count,
                    expected: s.expect_rx,
                    received: byte,
                },
            ),
            ReadTaskPhase::TraceExit => Action::Trace(TraceTag::CallExit(SERIAL_ASYNC_READ)),
            ReadTaskPhase::Unregister => Action::RemoveRead,
            ReadTaskPhase::SignalDone => Action::SetReadDone,
            ReadTaskPhase::Done => arbitrary(),
        }
    }

    open spec fn accepts(s: UnbufferedReadTask, reply: Reply) -> bool {
        &&& reply.kind() == Self::action_of(s).wants()
        &&& s.phase is Receive ==> reply->Read_0 is Some
        &&& s.phase is CountError ==> reply->Count_0 < usize::MAX
    }

    open spec fn next(s: UnbufferedReadTask, reply: Reply) -> UnbufferedReadTask {
        match (s.phase, reply) {
            (ReadTaskPhase::Register, _) => s.at(ReadTaskPhase::CheckTimeout),
            (ReadTaskPhase::CheckTimeout, Reply::Flag(false)) => s.at(ReadTaskPhase::TraceEnter),
            (ReadTaskPhase::CheckTimeout, _) => s.at(ReadTaskPhase::Unregister),
            (ReadTaskPhase::TraceEnter, _) => s.at(ReadTaskPhase::Receive),
            (ReadTaskPhase::Receive, Reply::Read(Some(byte))) => if byte != s.expect_rx {
                s.at(ReadTaskPhase::CountError { byte })
            } else {
                s.moved_on()
            },
            (ReadTaskPhase::CountError { byte }, Reply::Count(count)) => s.at(
                ReadTaskPhase::Report { byte, error_count: (count + 1) as usize },
            ),
            (ReadTaskPhase::Report { error_count, .. }, _) => if error_count > MAX_ERROR_CNT {
                s.at(ReadTaskPhase::Unregister)
            } else {
                s.moved_on()
            },
            (ReadTaskPhase::TraceExit, _) => s.at(ReadTaskPhase::CheckTimeout),
            (ReadTaskPhase::Unregister, _) => s.at(ReadTaskPhase::SignalDone),
            (ReadTaskPhase::SignalDone, _) => s.at(ReadTaskPhase::Done),
            _ => s,
        }
    }

    fn is_finished(&self) -> (b: bool) {
        match self.phase {
            ReadTaskPhase::Done => true,
            _ => false,
        }
    }

    fn action(&self) -> (a: Action) {
        match self.phase {
            ReadTaskPhase::Register => Action::RegisterRead,
            ReadTaskPhase::CheckTimeout => Action::LoadTimeout,
            ReadTaskPhase::TraceEnter => Action::Trace(TraceTag::CallEnter(SERIAL_ASYNC_READ)),
            ReadTaskPhase::Receive => Action::NextByte,
            ReadTaskPhase::CountError { byte: _ } => Action::BumpErrorCount,
            ReadTaskPhase::Report { byte, error_count } => Action::Print(
                Message::TaskError {
                    uart_irqn: self.uart_irqn,
                    error_count,
                    expected: self.expect_rx,
                    received: byte,
                },
            ),
            ReadTaskPhase::TraceExit => Action::Trace(TraceTag::CallExit(SERIAL_ASYNC_READ)),
            ReadTaskPhase::Unregister => Action::RemoveRead,
            ReadTaskPhase::SignalDone => Action::SetReadDone,
            ReadTaskPhase::Done => Action::SetReadDone,
        }
    }

    fn admits(&self, reply: &Reply) -> (b: bool) {
        if reply.reply_kind() != self.action().wanted_kind() {
            return false;
        }
        match (self.phase, *reply) {
            (ReadTaskPhase::Receive, Reply::Read(byte)) => byte.is_some(),
            (ReadTaskPhase::CountError { byte: _ }, Reply::Count(count)) => count < usize::MAX,
            _ => true,
        }
    }

    fn advance(&mut self, reply: Reply) {
        match (self.phase, reply) {
            (ReadTaskPhase::Register, _) => {
                self.phase = ReadTaskPhase::CheckTimeout;
            },
            (ReadTaskPhase::CheckTimeout, Reply::Flag(false)) => {
                self.phase = ReadTaskPhase::TraceEnter;
            },
            (ReadTaskPhase::CheckTimeout, _) => {
                self.phase = ReadTaskPhase::Unregister;
            },
            (ReadTaskPhase::TraceEnter, _) => {
                self.phase = ReadTaskPhase::Receive;
            },
            (ReadTaskPhase::Receive, Reply::Read(Some(byte))) => {
                if byte != self.expect_rx {
                    self.phase = ReadTaskPhase::CountError { byte };
                } else {
                    self.move_on();
                }
            },
            (ReadTaskPhase::CountError { byte }, Reply::Count(count)) => {
                self.phase = ReadTaskPhase::Report { byte, error_count: count + 1 };
            },
            (ReadTaskPhase::Report { byte: _, error_count }, _) => {
                if error_count > MAX_ERROR_CNT {
                    self.phase = ReadTaskPhase::Unregister;
                } else {
                    self.move_on();
                }
            },
            (ReadTaskPhase::TraceExit, _) => {
                self.phase = ReadTaskPhase::CheckTimeout;
            },
            (ReadTaskPhase::Unregister, _) => {
                self.phase = ReadTaskPhase::SignalDone;
            },
            (ReadTaskPhase::SignalDone, _) => {
                self.phase = ReadTaskPhase::Done;
            },
            _ => {},
        }
    }

    proof fn lemma_next_keeps_inv(s: UnbufferedReadTask, reply: Reply) {
    }
}

#[derive(Clone, Copy, Debug, PartialEq, Eq)]
pub enum WriteTaskPhase {
    Register,
    CheckTimeout,
    TraceEnter,
    Send,
    TraceExit,
    Unregister,
    SignalDone,
    Done,
}

/// The sending task: sends one byte of the stream after the other.
#[derive(Clone, Copy, Debug, PartialEq, Eq)]
pub struct UnbufferedWriteTask {
    pub phase: WriteTaskPhase,
    pub tx: IncOneRng,
    pub next_tx: u8,
}

impl UnbufferedWriteTask {
    pub open spec fn initial(tx: u8) -> UnbufferedWriteTask {
        UnbufferedWriteTask {
            phase: WriteTaskPhase::Register,
            tx: IncOneRng { x: stream_byte(tx, 0) },
            next_tx: stream_byte(tx, 0),
        }
    }

    /// The task that sends the stream of `tx_rng`.
    pub fn new(tx_rng: IncOneRng) -> (r: UnbufferedWriteTask)
        ensures
            r == UnbufferedWriteTask::initial(tx_rng.x),
            UnbufferedWriteTask::inv(r),
    {
        let mut tx = tx_rng;
        let next_tx: u8 = tx.next_u8();
        UnbufferedWriteTask { phase: WriteTaskPhase::Register, tx, next_tx }
    }

    /// The same task in another phase.
    pub open spec fn at(self, phase: WriteTaskPhase) -> UnbufferedWriteTask {
        UnbufferedWriteTask { phase, ..self }
    }
}

impl Machine for UnbufferedWriteTask {
    type State = UnbufferedWriteTask;

    open spec fn state(&self) -> UnbufferedWriteTask {
        *self
    }

    open spec fn inv(s: UnbufferedWriteTask) -> bool {
        s.next_tx == s.tx.x
    }

    open spec fn finished(s: UnbufferedWriteTask) -> bool {
        s.phase is Done
    }

    open spec fn action_of(s: UnbufferedWriteTask) -> Action {
        match s.phase {
            WriteTaskPhase::Register => Action::RegisterWrite,
            WriteTaskPhase::CheckTimeout => Action::LoadTimeout,
            WriteTaskPhase::TraceEnter => Action::Trace(TraceTag::CallEnter(SERIAL_ASYNC_WRITE)),
            WriteTaskPhase::Send => Action::SendByte(s.next_tx),
            WriteTaskPhase::TraceExit => Action::Trace(TraceTag::CallExit(SERIAL_ASYNC_WRITE)),
            WriteTaskPhase::Unregister => Action::RemoveWrite,
            WriteTaskPhase::SignalDone => Action::SetWriteDone,
            WriteTaskPhase::Done => arbitrary(),
        }
    }

    open spec fn accepts(s: UnbufferedWriteTask, reply: Reply) -> bool {
        &&& reply.kind() == Self::action_of(s).wants()
        &&& s.phase is Send ==> reply->Wrote_0 is Written
    }

    open spec fn next(s: UnbufferedWriteTask, reply: Reply) -> UnbufferedWriteTask {
        match (s.phase, reply) {
            (WriteTaskPhase::Register, _) => s.at(WriteTaskPhase::CheckTimeout),
            (WriteTaskPhase::CheckTimeout, Reply::Flag(false)) => s.at(WriteTaskPhase::TraceEnter),
            (WriteTaskPhase::CheckTimeout, _) => s.at(WriteTaskPhase::Unregister),
            (WriteTaskPhase::TraceEnter, _) => s.at(WriteTaskPhase::Send),
            (WriteTaskPhase::Send, _) => UnbufferedWriteTask {
                phase: WriteTaskPhase::TraceExit,
                tx: IncOneRng { x: stream_byte(s.tx.x, 0) },
                next_tx: stream_byte(s.tx.x, 0),
            },
            (WriteTaskPhase::TraceExit, _) => s.at(WriteTaskPhase::CheckTimeout),
            (WriteTaskPhase::Unregister, _) => s.at(WriteTaskPhase::SignalDone),
            (WriteTaskPhase::SignalDone, _) => s.at(WriteTaskPhase::Done),
            _ => s,
        }
    }

    fn is_finished(&self) -> (b: bool) {
        match self.phase {
            WriteTaskPhase::Done => true,
            _ => false,
        }
    }

    fn action(&self) -> (a: Action) {
        match self.phase {
            WriteTaskPhase::Register => Action::RegisterWrite,
            WriteTaskPhase::CheckTimeout => Action::LoadTimeout,
            WriteTaskPhase::TraceEnter => Action::Trace(TraceTag::CallEnter(SERIAL_ASYNC_WRITE)),
            WriteTaskPhase::Send => Action::SendByte(self.next_tx),
            WriteTaskPhase::TraceExit => Action::Trace(TraceTag::CallExit(SERIAL_ASYNC_WRITE)),
            WriteTaskPhase::Unregister => Action::RemoveWrite,
            WriteTaskPhase::SignalDone => Action::SetWriteDone,
            WriteTaskPhase::Done => Action::SetWriteDone,
        }
    }

    fn admits(&self, reply: &Reply) -> (b: bool) {
        if reply.reply_kind() != self.action().wanted_kind() {
            return false;
        }
        match (self.phase, *reply) {
            (WriteTaskPhase::Send, Reply::Wrote(outcome)) => is_written(outcome),
            _ => true,
        }
    }

    fn advance(&mut self, reply: Reply) {
        match (self.phase, reply) {
            (WriteTaskPhase::Register, _) => {
                self.phase = WriteTaskPhase::CheckTimeout;
            },
            (WriteTaskPhase::CheckTimeout, Reply::Flag(false)) => {
                self.phase = WriteTaskPhase::TraceEnter;
            },
            (WriteTaskPhase::CheckTimeout, _) => {
                self.phase = WriteTaskPhase::Unregister;
            },
            (WriteTaskPhase::TraceEnter, _) => {
                self.phase = WriteTaskPhase::Send;
            },
            (WriteTaskPhase::Send, _) => {
                self.next_tx = self.tx.next_u8();
                self.phase = WriteTaskPhase::TraceExit;
            },
            (WriteTaskPhase::TraceExit, _) => {
                self.phase = WriteTaskPhase::CheckTimeout;
            },
            (WriteTaskPhase::Unregister, _) => {
                self.phase = WriteTaskPhase::SignalDone;
            },
            (WriteTaskPhase::SignalDone, _) => {
                self.phase = WriteTaskPhase::Done;
            },
            _ => {},
        }
    }

    proof fn lemma_next_keeps_inv(s: UnbufferedWriteTask, reply: Reply) {
    }
}

/// The bytes that the port takes are the sender's stream from its start, without gaps.
pub proof fn law_unbuffered_write_task_sends_the_stream(tx: u8, replies: Seq<Reply>)
    requires
        driven::<UnbufferedWriteTask>(UnbufferedWriteTask::initial(tx), replies),
    ensures
        ({
            let sent = written::<UnbufferedWriteTask>(UnbufferedWriteTask::initial(tx), replies);
            sent == stream(tx, sent.len())
        }),
{
    lemma_sending::<UnbufferedWriteTask>(
        UnbufferedWriteTask::initial(tx),
        replies,
        |t: UnbufferedWriteTask| t.next_tx,
        tx,
    );
}

/// Over a link that loses and changes nothing the receiving task finds no errors: while what the
/// port delivered is the beginning of the peer's stream, it never asks to count one.
pub proof fn law_unbuffered_read_task_clean_link_has_no_errors(
    uart_irqn: u16,
    rx: u8,
    replies: Seq<Reply>,
)
    requires
        driven::<UnbufferedReadTask>(UnbufferedReadTask::initial(uart_irqn, rx), replies),
        received(replies) == stream(rx, received(replies).len()),
    ensures
        ({
            let now = run::<UnbufferedReadTask>(
                UnbufferedReadTask::initial(uart_irqn, rx),
                replies,
            );
            !UnbufferedReadTask::finished(now) ==> !(UnbufferedReadTask::action_of(
                now,
            ) is BumpErrorCount)
        }),
{
    lemma_receiving::<UnbufferedReadTask>(
        UnbufferedReadTask::initial(uart_irqn, rx),
        replies,
        |t: UnbufferedReadTask| !(t.phase is CountError) && !(t.phase is Report),
        |t: UnbufferedReadTask| t.expect_rx,
        rx,
    );
}

/// The receiving task stays in step with the sender when bytes are changed on the way: except
/// after the error that makes it give up, the byte it expects next is the one that the peer sends
/// after those that were delivered.
pub proof fn law_unbuffered_read_task_counts_position(
    uart_irqn: u16,
    rx: u8,
    replies: Seq<Reply>,
)
    requires
        driven::<UnbufferedReadTask>(UnbufferedReadTask::initial(uart_irqn, rx), replies),
        ({
            let now = run::<UnbufferedReadTask>(
                UnbufferedReadTask::initial(uart_irqn, rx),
                replies,
            );
            now.phase is Receive || now.phase is CheckTimeout
        }),
    ensures
        run::<UnbufferedReadTask>(
            UnbufferedReadTask::initial(uart_irqn, rx),
            replies,
        ).expect_rx == stream_byte(rx, received(replies).len() as int),
{
    lemma_position(uart_irqn, rx, replies);
}

proof fn lemma_position(uart_irqn: u16, rx: u8, replies: Seq<Reply>)
    requires
        driven::<UnbufferedReadTask>(UnbufferedReadTask::initial(uart_irqn, rx), replies),
    ensures
        ({
            let now = run::<UnbufferedReadTask>(
                UnbufferedReadTask::initial(uart_irqn, rx),
                replies,
            );
            let n = received(replies).len() as int;
            &&& now.rx.x == now.expect_rx
            &&& match now.phase {
                ReadTaskPhase::CountError { .. } | ReadTaskPhase::Report { .. } => n > 0
                    && now.expect_rx == stream_byte(rx, n - 1),
                ReadTaskPhase::Unregister | ReadTaskPhase::SignalDone | ReadTaskPhase::Done => true,
                _ => now.expect_rx == stream_byte(rx, n),
            }
        }),
    decreases replies.len(),
{
    if replies.len() > 0 {
        lemma_position(uart_irqn, rx, replies.drop_last());
        let n = received(replies.drop_last()).len() as int;
        lemma_stream_byte_after(rx, n + 1, 0);
        lemma_stream_byte_after(rx, n, 0);
    }
}

/// How many of `bytes` differ from the byte of the peer's stream at their place.
pub open spec fn positional_mismatches(rx: u8, bytes: Seq<u8>) -> nat
    decreases bytes.len(),
{
    if bytes.len() == 0 {
        0
    } else {
        let earlier = positional_mismatches(rx, bytes.drop_last());
        if bytes.last() == stream_byte(rx, bytes.len() - 1) {
            earlier
        } else {
            earlier + 1
        }
    }
}

/// The receiving task counts one error for each received byte that differs from the byte of the
/// peer's stream at its place, since every byte moves the expectation by one; an error that the
/// task is about to count is not counted yet.
pub proof fn law_unbuffered_read_task_counts_mismatches(
    uart_irqn: u16,
    rx: u8,
    replies: Seq<Reply>,
)
    requires
        driven::<UnbufferedReadTask>(UnbufferedReadTask::initial(uart_irqn, rx), replies),
    ensures
        ({
            let start = UnbufferedReadTask::initial(uart_irqn, rx);
            let now = run::<UnbufferedReadTask>(start, replies);
            let counted = performed::<UnbufferedReadTask>(start, replies, Action::BumpErrorCount);
            let pending: int = if now.phase is CountError {
                1
            } else {
                0
            };
            counted + pending == positional_mismatches(rx, received(replies))
        }),
    decreases replies.len(),
{
    if replies.len() > 0 {
        law_unbuffered_read_task_counts_mismatches(uart_irqn, rx, replies.drop_last());
        lemma_position(uart_irqn, rx, replies.drop_last());
        let earlier = received(replies.drop_last());
        if let Reply::Read(Some(byte)) = replies.last() {
            assert(earlier.push(byte).drop_last() =~= earlier);
        }
    }
}

/// How many more replies a phase takes to the end of the receiving task, if it comes after its
/// loop.
spec fn read_closing_steps(phase: ReadTaskPhase) -> Option<nat> {
    match phase {
        ReadTaskPhase::Unregister => Some(2),
        ReadTaskPhase::SignalDone => Some(1),
        ReadTaskPhase::Done => Some(0),
        _ => None,
    }
}

/// Whether a phase comes after the last `left` steps of the receiving task began.
spec fn read_past(phase: ReadTaskPhase, left: nat) -> nat {
    match read_closing_steps(phase) {
        Some(steps) if steps < left => 1,
        _ => 0,
    }
}

/// Once the receiving task has seen that the timer fired, it receives nothing more, and takes at
/// most 3 replies to its end, that one included.
pub proof fn law_unbuffered_read_task_ends_after_the_timer(
    s: UnbufferedReadTask,
    replies: Seq<Reply>,
)
    requires
        s.phase is CheckTimeout,
        driven::<UnbufferedReadTask>(s, replies),
        replies.len() > 0,
        replies[0] == Reply::Flag(true),
    ensures
        replies.len() <= 3,
        ({
            let now = run::<UnbufferedReadTask>(s, replies);
            UnbufferedReadTask::finished(now) || !(UnbufferedReadTask::action_of(now) is NextByte)
        }),
{
    lemma_closing::<UnbufferedReadTask>(
        s,
        replies,
        |t: UnbufferedReadTask| read_closing_steps(t.phase),
    );
}

/// The receiving task registers once, and when it is finished it has taken its waker away once and
/// raised the done flag once; it raises the flag only after the waker is gone, and only then ends.
pub proof fn law_unbuffered_read_task_signals_its_end(
    uart_irqn: u16,
    rx: u8,
    replies: Seq<Reply>,
)
    requires
        driven::<UnbufferedReadTask>(UnbufferedReadTask::initial(uart_irqn, rx), replies),
    ensures
        ({
            let start = UnbufferedReadTask::initial(uart_irqn, rx);
            let now = run::<UnbufferedReadTask>(start, replies);
            let registered = performed::<UnbufferedReadTask>(start, replies, Action::RegisterRead);
            let removed = performed::<UnbufferedReadTask>(start, replies, Action::RemoveRead);
            let signalled = performed::<UnbufferedReadTask>(start, replies, Action::SetReadDone);
            &&& signalled <= removed <= registered <= 1
            &&& UnbufferedReadTask::finished(now) <==> signalled == 1
        }),
{
    let start = UnbufferedReadTask::initial(uart_irqn, rx);
    lemma_counting::<UnbufferedReadTask>(
        start,
        replies,
        Action::RegisterRead,
        |t: UnbufferedReadTask|
            if t.phase is Register {
                0nat
            } else {
                1nat
            },
    );
    lemma_counting::<UnbufferedReadTask>(
        start,
        replies,
        Action::RemoveRead,
        |t: UnbufferedReadTask| read_past(t.phase, 2),
    );
    lemma_counting::<UnbufferedReadTask>(
        start,
        replies,
        Action::SetReadDone,
        |t: UnbufferedReadTask| read_past(t.phase, 1),
    );
}

/// How many more replies a phase takes to the end of the sending task, if it comes after its
/// loop.
spec fn write_closing_steps(phase: WriteTaskPhase) -> Option<nat> {
    match phase {
        WriteTaskPhase::Unregister => Some(2),
        WriteTaskPhase::SignalDone => Some(1),
        WriteTaskPhase::Done => Some(0),
        _ => None,
    }
}

/// Whether a phase comes after the last `left` steps of the sending task began.
spec fn write_past(phase: WriteTaskPhase, left: nat) -> nat {
    match write_closing_steps(phase) {
        Some(steps) if steps < left => 1,
        _ => 0,
    }
}

/// Once the sending task has seen that the timer fired, it sends nothing more, and takes at most 3
/// replies to its end, that one included.
pub proof fn law_unbuffered_write_task_ends_after_the_timer(
    s: UnbufferedWriteTask,
    replies: Seq<Reply>,
)
    requires
        s.phase is CheckTimeout,
        driven::<UnbufferedWriteTask>(s, replies),
        replies.len() > 0,
        replies[0] == Reply::Flag(true),
    ensures
        replies.len() <= 3,
        ({
            let now = run::<UnbufferedWriteTask>(s, replies);
            UnbufferedWriteTask::finished(now) || !(UnbufferedWriteTask::action_of(now) is SendByte)
        }),
{
    lemma_closing::<UnbufferedWriteTask>(
        s,
        replies,
        |t: UnbufferedWriteTask| write_closing_steps(t.phase),
    );
}

/// The sending task registers once, and when it is finished it has taken its waker away once and
/// raised the done flag once; it raises the flag only after the waker is gone, and only then ends.
pub proof fn law_unbuffered_write_task_signals_its_end(
    tx: u8,
    replies: Seq<Reply>,
)
    requires
        driven::<UnbufferedWriteTask>(UnbufferedWriteTask::initial(tx), replies),
    ensures
        ({
            let start = UnbufferedWriteTask::initial(tx);
            let now = run::<UnbufferedWriteTask>(start, replies);
            let registered = performed::<UnbufferedWriteTask>(
                start,
                replies,
                Action::RegisterWrite,
            );
            let removed = performed::<UnbufferedWriteTask>(start, replies, Action::RemoveWrite);
            let signalled = performed::<UnbufferedWriteTask>(start, replies, Action::SetWriteDone);
            &&& signalled <= removed <= registered <= 1
            &&& UnbufferedWriteTask::finished(now) <==> signalled == 1
        }),
{
    let start = UnbufferedWriteTask::initial(tx);
    lemma_counting::<UnbufferedWriteTask>(
        start,
        replies,
        Action::RegisterWrite,
        |t: UnbufferedWriteTask|
            if t.phase is Register {
                0nat
            } else {
                1nat
            },
    );
    lemma_counting::<UnbufferedWriteTask>(
        start,
        replies,
        Action::RemoveWrite,
        |t: UnbufferedWriteTask| write_past(t.phase, 2),
    );
    lemma_counting::<UnbufferedWriteTask>(
        start,
        replies,
        Action::SetWriteDone,
        |t: UnbufferedWriteTask| write_past(t.phase, 1),
    );
}

} // verus!
