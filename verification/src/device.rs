//! What a test may ask of the machine it runs on, and what the machine may answer.
use vstd::prelude::*;

use crate::params::HALF_FIFO_DEPTH;

verus! {

/// A point of interest that is recorded in the event trace.
#[derive(Clone, Copy, Debug, PartialEq, Eq)]
pub enum TraceTag {
    TestEnter,
    TestExit,
    /// A driver call starts; the number says which one.
    CallEnter(usize),
    /// A driver call has returned.
    CallExit(usize),
    /// The user trap handler has taken an external interrupt.
    ExtTrapEnter,
    /// The program has serviced an external interrupt.
    ExtTrapReturn,
    /// Completion of an interrupt starts, in the given context.
    CompleteEnter(usize),
    /// Completion of an interrupt has returned, in the given context.
    CompleteExit(usize),
    AsyncIntrPoll,
    AsyncIntrWake,
    AsyncReadSpawn,
    AsyncWriteSpawn,
}

/// A line on the console.
#[derive(Clone, Copy, Debug, PartialEq, Eq)]
pub enum Message {
    PollingStart { serial_number: usize, batch: u8, claim: isize },
    PollingEnd { serial_number: usize, err_pos: isize, empty_read: usize },
    RawPollingStart { claim: isize },
    IntrStart { serial_number: usize, claim: isize, enable: isize },
    IntrEnd { serial_number: usize, intr: usize, tx: usize, rx: usize, err_pos: isize },
    AsyncStart { serial_number: usize, claim: isize, enable: isize },
    AsyncTasks {
        serial_number: usize,
        write_tasks: usize,
        write_bytes: usize,
        read_tasks: usize,
        read_bytes: usize,
        refcnt: usize,
    },
    AsyncEnd { serial_number: usize, intr: usize, tx: usize, rx: usize, err_pos: isize },
    UnbufferedRefs { serial_number: usize, refcnt: usize },
    UnbufferedEnd { serial_number: usize, intr: usize, tx: usize, rx: usize },
    /// A byte other than the expected one was received.
    ErrorAt { serial_number: usize, position: isize, expected: u8, received: u8 },
    /// The same, seen by a receiving task, which counts errors instead of positions.
    TaskError { uart_irqn: u16, error_count: usize, expected: u8, received: u8 },
    CtsSet,
    RtsSet,
    RtsClear,
    RoleChange,
    Sending(u8),
    Received(u8),
    UartDone(u16),
    InvalidUart,
    InvalidConfig(usize),
    UnknownIrq(u16),
}

/// One request to the machine.
#[derive(Clone, Copy, Debug, PartialEq, Eq)]
pub enum Action {
    /// Mask the user external, software and timer interrupts.
    ClearUserIntr,
    /// Unmask them.
    SetUserIntr,
    /// Claim an external interrupt line for this process.
    ClaimExtInt(usize),
    /// Enable that line.
    EnableExtInt(usize),
    /// Create the driver of the port behind an interrupt line.
    OpenSerial(u16),
    /// Program the port for a line rate.
    HardwareInit(usize),
    Print(Message),
    Trace(TraceTag),
    /// Read the time in milliseconds.
    GetTime,
    /// Ask for a timer interrupt at a time in microseconds.
    SetTimer(isize),
    Sleep(usize),
    /// Read and drop the delta-CTS flag.
    ReadDcts,
    ReadCts,
    SetRts(bool),
    /// Read whether received data is pending.
    ReadDataPending,
    /// Let the driver clear line errors; tells whether there were any.
    HandleLineErrors,
    /// Let the driver service its interrupt.
    HandleInterrupt,
    TryWrite(u8),
    TryRead,
    /// The driver's count of received bytes.
    RxCount,
    /// The driver's counts of received and sent bytes.
    ByteCounts,
    /// The driver's interrupt counts.
    IntrCounts,
    LoadTimeout,
    LoadHasIntr,
    ClearHasIntr,
    LoadErrorCount,
    /// Add one to the shared error count; tells the count before.
    BumpErrorCount,
    LoadReadDone,
    ClearReadDone,
    SetReadDone,
    LoadWriteDone,
    ClearWriteDone,
    SetWriteDone,
    /// The interrupt context of this hart in user mode.
    ReadContext,
    /// Tell the interrupt controller that an interrupt is finished.
    CompleteIrq { ctx: usize, irqn: u16 },
    /// Read a block from a file descriptor.
    ReadBlock(usize),
    /// Write the current block to a file descriptor.
    WriteBlock(usize),
    SpawnIntrHandler(u16),
    SpawnRead,
    SpawnWrite,
    RunUntilIdle,
    /// Whether the interrupt task has left a waker that can be reached now.
    PeekIntrWaker,
    WakeIntrTask,
    DropIntrWaker,
    RegisterRead,
    RegisterWrite,
    RemoveRead,
    RemoveWrite,
    /// Wait for the next received byte.
    NextByte,
    /// Wait until a byte is accepted for sending.
    SendByte(u8),
    RefCount,
}

/// How an attempt to write a byte ended.
#[derive(Clone, Copy, Debug, PartialEq, Eq)]
pub enum WriteOutcome {
    Written,
    WouldBlock,
    Failed,
}

/// Whether the byte was taken.
pub fn is_written(outcome: WriteOutcome) -> (b: bool)
    ensures
        b == outcome is Written,
{
    match outcome {
        WriteOutcome::Written => true,
        _ => false,
    }
}

/// The answer to an `Action`.
#[derive(Clone, Copy, Debug, PartialEq, Eq)]
pub enum Reply {
    Done,
    Flag(bool),
    Word(isize),
    Count(usize),
    Wrote(WriteOutcome),
    Read(Option<u8>),
    Bytes { rx: usize, tx: usize },
    Intrs { total: usize, tx: usize, rx: usize },
    /// What a block read returned, and the buffer after it.
    Block { count: isize, buf: [u8; HALF_FIFO_DEPTH] },
}

/// The shapes of replies.
#[derive(Clone, Copy, Debug, PartialEq, Eq, Structural)]
pub enum ReplyKind {
    Done,
    Flag,
    Word,
    Count,
    Wrote,
    Read,
    Bytes,
    Intrs,
    Block,
}

impl Reply {
    /// The shape of this reply.
    pub open spec fn kind(self) -> ReplyKind {
        match self {
            Reply::Done => ReplyKind::Done,
            Reply::Flag(_) => ReplyKind::Flag,
            Reply::Word(_) => ReplyKind::Word,
            Reply::Count(_) => ReplyKind::Count,
            Reply::Wrote(_) => ReplyKind::Wrote,
            Reply::Read(_) => ReplyKind::Read,
            Reply::Bytes { .. } => ReplyKind::Bytes,
            Reply::Intrs { .. } => ReplyKind::Intrs,
            Reply::Block { .. } => ReplyKind::Block,
        }
    }

    /// Computes `kind`.
    pub fn reply_kind(&self) -> (k: ReplyKind)
        ensures
            k == self.kind(),
    {
        match self {
            Reply::Done => ReplyKind::Done,
            Reply::Flag(_) => ReplyKind::Flag,
            Reply::Word(_) => ReplyKind::Word,
            Reply::Count(_) => ReplyKind::Count,
            Reply::Wrote(_) => ReplyKind::Wrote,
            Reply::Read(_) => ReplyKind::Read,
            Reply::Bytes { .. } => ReplyKind::Bytes,
            Reply::Intrs { .. } => ReplyKind::Intrs,
            Reply::Block { .. } => ReplyKind::Block,
        }
    }
}

impl Action {
    /// The shape of the replies to this action.
    pub open spec fn wants(self) -> ReplyKind {
        match self {
            Action::ClaimExtInt(_) | Action::EnableExtInt(_) | Action::GetTime
            | Action::WriteBlock(_) => ReplyKind::Word,
            Action::LoadTimeout | Action::LoadHasIntr | Action::LoadReadDone
            | Action::LoadWriteDone | Action::PeekIntrWaker | Action::ReadCts
            | Action::ReadDataPending | Action::HandleLineErrors => ReplyKind::Flag,
            Action::RxCount | Action::LoadErrorCount | Action::BumpErrorCount
            | Action::ReadContext | Action::RefCount => ReplyKind::Count,
            Action::TryWrite(_) | Action::SendByte(_) => ReplyKind::Wrote,
            Action::TryRead | Action::NextByte => ReplyKind::Read,
            Action::ByteCounts => ReplyKind::Bytes,
            Action::IntrCounts => ReplyKind::Intrs,
            Action::ReadBlock(_) => ReplyKind::Block,
            _ => ReplyKind::Done,
        }
    }

    /// Computes `wants`.
    pub fn wanted_kind(&self) -> (k: ReplyKind)
        ensures
            k == self.wants(),
    {
        match self {
            Action::ClaimExtInt(_) | Action::EnableExtInt(_) | Action::GetTime
            | Action::WriteBlock(_) => ReplyKind::Word,
            Action::LoadTimeout | Action::LoadHasIntr | Action::LoadReadDone
            | Action::LoadWriteDone | Action::PeekIntrWaker | Action::ReadCts
            | Action::ReadDataPending | Action::HandleLineErrors => ReplyKind::Flag,
            Action::RxCount | Action::LoadErrorCount | Action::BumpErrorCount
            | Action::ReadContext | Action::RefCount => ReplyKind::Count,
            Action::TryWrite(_) | Action::SendByte(_) => ReplyKind::Wrote,
            Action::TryRead | Action::NextByte => ReplyKind::Read,
            Action::ByteCounts => ReplyKind::Bytes,
            Action::IntrCounts => ReplyKind::Intrs,
            Action::ReadBlock(_) => ReplyKind::Block,
            _ => ReplyKind::Done,
        }
    }
}

/// Whether an action starts a task, wakes one or lets tasks run.
pub open spec fn drives_tasks(action: Action) -> bool {
    match action {
        Action::SpawnIntrHandler(_) | Action::SpawnRead | Action::SpawnWrite
        | Action::RunUntilIdle | Action::WakeIntrTask => true,
        _ => false,
    }
}

/// The shape of a reply tells its variant.
pub proof fn law_shapes_tell_replies_apart(reply: Reply)
    ensures
        reply.kind() is Done <==> reply is Done,
        reply.kind() is Flag <==> reply is Flag,
        reply.kind() is Word <==> reply is Word,
        reply.kind() is Count <==> reply is Count,
        reply.kind() is Wrote <==> reply is Wrote,
        reply.kind() is Read <==> reply is Read,
        reply.kind() is Bytes <==> reply is Bytes,
        reply.kind() is Intrs <==> reply is Intrs,
        reply.kind() is Block <==> reply is Block,
{
}

/// Questions are answered with what they ask for, system calls with their result, attempts to move
/// a byte with how they ended, and all other actions with nothing.
pub proof fn law_actions_are_answered_in_kind(action: Action)
    ensures
        action.wants() is Word <==> action is ClaimExtInt || action is EnableExtInt
            || action is GetTime || action is WriteBlock,
        action.wants() is Flag <==> action is LoadTimeout || action is LoadHasIntr
            || action is LoadReadDone || action is LoadWriteDone || action is PeekIntrWaker
            || action is ReadCts || action is ReadDataPending || action is HandleLineErrors,
        action.wants() is Count <==> action is RxCount || action is LoadErrorCount
            || action is BumpErrorCount || action is ReadContext || action is RefCount,
        action.wants() is Wrote <==> action is TryWrite || action is SendByte,
        action.wants() is Read <==> action is TryRead || action is NextByte,
        action.wants() is Bytes <==> action is ByteCounts,
        action.wants() is Intrs <==> action is IntrCounts,
        action.wants() is Block <==> action is ReadBlock,
{
}

} // verus!
