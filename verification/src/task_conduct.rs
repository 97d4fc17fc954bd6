//! What the tasks of the unbuffered asynchronous test do, told by their actions and the replies to
//! them.
use vstd::prelude::*;

use crate::device::{Action, Message, Reply, TraceTag};
use crate::machine::{
    driven, last_action, law_invariant_holds_throughout, lemma_sending, outstanding, received, run,
    written, Machine,
};
use crate::params::{MAX_ERROR_CNT, SERIAL_ASYNC_READ, SERIAL_ASYNC_WRITE};
use crate::rng::{lemma_stream_byte_after, stream_byte};
use crate::unbuffered_tasks::{ReadTaskPhase, UnbufferedReadTask, UnbufferedWriteTask};

verus! {

/// What a phase of the receiving task tells of the bytes that were received.
spec fn read_history(uart_irqn: u16, rx: u8, replies: Seq<Reply>) -> bool {
    let start = UnbufferedReadTask::initial(uart_irqn, rx);
    let now = run::<UnbufferedReadTask>(start, replies);
    let got = received(replies);
    let expected = stream_byte(rx, got.len() - 1);
    &&& now.uart_irqn == uart_irqn
    &&& match now.phase {
        ReadTaskPhase::Register => replies.len() == 0,
        ReadTaskPhase::CountError { byte } => got.len() > 0 && got.last() == byte
            && now.expect_rx == expected,
        ReadTaskPhase::Report { byte, error_count } => got.len() > 0 && got.last() == byte
            && now.expect_rx == expected && replies.len() > 0 && replies.last() is Count
            && error_count == replies.last()->Count_0 + 1,
        ReadTaskPhase::CheckTimeout => replies.len() >= 1 && now.expect_rx == stream_byte(
            rx,
            got.len() as int,
        ),
        ReadTaskPhase::TraceEnter | ReadTaskPhase::Receive
        | ReadTaskPhase::TraceExit => replies.len() > 1 && now.expect_rx == stream_byte(
            rx,
            got.len() as int,
        ),
        _ => replies.len() > 1,
    }
}

proof fn lemma_read_history(uart_irqn: u16, rx: u8, replies: Seq<Reply>)
    requires
        driven::<UnbufferedReadTask>(UnbufferedReadTask::initial(uart_irqn, rx), replies),
    ensures
        read_history(uart_irqn, rx, replies),
    decreases replies.len(),
{
    let start = UnbufferedReadTask::initial(uart_irqn, rx);
    if replies.len() > 0 {
        lemma_read_history(uart_irqn, rx, replies.drop_last());
        law_invariant_holds_throughout::<UnbufferedReadTask>(start, replies.drop_last());
        lemma_stream_byte_after(rx, received(replies.drop_last()).len() + 1int, 0);
        lemma_stream_byte_after(rx, received(replies.drop_last()).len() as int, 0);
    }
}

/// All of these together.
spec fn history(uart_irqn: u16, rx: u8, replies: Seq<Reply>) -> bool {
    &&& read_history(uart_irqn, rx, replies)
}

proof fn lemma_history(uart_irqn: u16, rx: u8, replies: Seq<Reply>)
    requires
        driven::<UnbufferedReadTask>(UnbufferedReadTask::initial(uart_irqn, rx), replies),
    ensures
        history(uart_irqn, rx, replies),
{
    lemma_read_history(uart_irqn, rx, replies);
}

/// The receiving task registers itself, and then takes one byte after the other. A byte other than
/// the one in its place of the peer's stream is counted in the shared error count and reported with
/// the new count. Between bytes the task looks at the timer; it takes its waker away and signals
/// its end exactly when the timer has fired or the count has gone over `MAX_ERROR_CNT`.
pub proof fn law_unbuffered_read_task_order_of_its_steps(
    uart_irqn: u16,
    rx: u8,
    replies: Seq<Reply>,
)
    requires
        driven::<UnbufferedReadTask>(UnbufferedReadTask::initial(uart_irqn, rx), replies),
    ensures
        ({
            let start = UnbufferedReadTask::initial(uart_irqn, rx);
            let then = outstanding::<UnbufferedReadTask>(start, replies);
            let got = received(replies);
            let expected = stream_byte(rx, got.len() - 1);
            let done = Some(Action::Trace(TraceTag::CallExit(SERIAL_ASYNC_READ)));
            if replies.len() == 0 {
                then == Some(Action::RegisterRead)
            } else {
                let reply = replies.last();
                match last_action::<UnbufferedReadTask>(start, replies) {
                    Action::RegisterRead => replies.len() == 1 && then == Some(Action::LoadTimeout),
                    Action::LoadTimeout => then == if reply == Reply::Flag(true) {
                        Some(Action::RemoveRead)
                    } else {
                        Some(Action::Trace(TraceTag::CallEnter(SERIAL_ASYNC_READ)))
                    },
                    Action::Trace(TraceTag::CallEnter(_)) => then == Some(Action::NextByte),
                    Action::NextByte => then == if got.last() == expected {
                        done
                    } else {
                        Some(Action::BumpErrorCount)
                    },
                    Action::BumpErrorCount => then == Some(
                        Action::Print(
                            Message::TaskError {
                                uart_irqn,
                                error_count: (reply->Count_0 + 1) as usize,
                                expected,
                                received: got.last(),
                            },
                        ),
                    ),
                    Action::Print(Message::TaskError { error_count, .. }) => then == if error_count
                        > MAX_ERROR_CNT {
                        Some(Action::RemoveRead)
                    } else {
                        done
                    },
                    Action::Trace(TraceTag::CallExit(_)) => then == Some(Action::LoadTimeout),
                    Action::RemoveRead => then == Some(Action::SetReadDone),
                    Action::SetReadDone => then is None,
                    _ => false,
                }
            }
        }),
{
    lemma_history(uart_irqn, rx, replies);
    if replies.len() > 0 {
        lemma_history(uart_irqn, rx, replies.drop_last());
    }
}

/// The generator of the receiving task is left where the peer's stream has come to, and one draw
/// before that if the task has given up on a byte.
pub proof fn law_unbuffered_read_task_leaves_its_generator(
    uart_irqn: u16,
    rx: u8,
    replies: Seq<Reply>,
)
    requires
        driven::<UnbufferedReadTask>(UnbufferedReadTask::initial(uart_irqn, rx), replies),
    ensures
        ({
            let start = UnbufferedReadTask::initial(uart_irqn, rx);
            let now = run::<UnbufferedReadTask>(start, replies);
            let got = received(replies);
            now.rx.x == stream_byte(rx, got.len() as int)
                || got.len() > 0 && got.last() != stream_byte(
                rx,
                got.len() - 1,
            ) && now.rx.x == stream_byte(rx, got.len() - 1)
        }),
{
    lemma_left(uart_irqn, rx, replies);
    law_invariant_holds_throughout::<UnbufferedReadTask>(
        UnbufferedReadTask::initial(uart_irqn, rx),
        replies,
    );
}

/// Where the expectation is.
proof fn lemma_left(uart_irqn: u16, rx: u8, replies: Seq<Reply>)
    requires
        driven::<UnbufferedReadTask>(UnbufferedReadTask::initial(uart_irqn, rx), replies),
    ensures
        ({
            let start = UnbufferedReadTask::initial(uart_irqn, rx);
            let now = run::<UnbufferedReadTask>(start, replies);
            let got = received(replies);
            let behind = got.len() > 0 && got.last() != stream_byte(rx, got.len() - 1)
                && now.expect_rx
                == stream_byte(rx, got.len() - 1);
            match now.phase {
                ReadTaskPhase::CountError { .. } | ReadTaskPhase::Report { .. } => behind,
                ReadTaskPhase::Unregister | ReadTaskPhase::SignalDone
                | ReadTaskPhase::Done => behind
                    || now.expect_rx == stream_byte(rx, got.len() as int),
                _ => now.expect_rx == stream_byte(rx, got.len() as int),
            }
        }),
    decreases replies.len(),
{
    let start = UnbufferedReadTask::initial(uart_irqn, rx);
    if replies.len() > 0 {
        lemma_left(uart_irqn, rx, replies.drop_last());
        law_invariant_holds_throughout::<UnbufferedReadTask>(start, replies.drop_last());
        lemma_stream_byte_after(rx, received(replies.drop_last()).len() + 1int, 0);
        lemma_stream_byte_after(rx, received(replies.drop_last()).len() as int, 0);
    }
}

/// The receiving task can take every answer of the right shape, except the end of the bytes and an
/// error count that cannot be counted on.
pub proof fn law_unbuffered_read_task_admits_every_byte(
    uart_irqn: u16,
    rx: u8,
    replies: Seq<Reply>,
    reply: Reply,
)
    requires
        driven::<UnbufferedReadTask>(UnbufferedReadTask::initial(uart_irqn, rx), replies),
    ensures
        ({
            let start = UnbufferedReadTask::initial(uart_irqn, rx);
            let now = run::<UnbufferedReadTask>(start, replies);
            let action = UnbufferedReadTask::action_of(now);
            !UnbufferedReadTask::finished(now) ==> (UnbufferedReadTask::accepts(now, reply) <==> {
                &&& reply.kind() == action.wants()
                &&& action is NextByte ==> reply->Read_0 is Some
                &&& action is BumpErrorCount ==> reply->Count_0 < usize::MAX
            })
        }),
{
    lemma_history(uart_irqn, rx, replies);
    if replies.len() > 0 {
        lemma_history(uart_irqn, rx, replies.drop_last());
    }
}

/// The sending task registers itself, and then sends one byte of its stream after the other.
/// Between bytes it looks at the timer; it takes its waker away and signals its end exactly when
/// the timer has fired.
pub proof fn law_unbuffered_write_task_order_of_its_steps(tx: u8, replies: Seq<Reply>)
    requires
        driven::<UnbufferedWriteTask>(UnbufferedWriteTask::initial(tx), replies),
    ensures
        ({
            let start = UnbufferedWriteTask::initial(tx);
            let then = outstanding::<UnbufferedWriteTask>(start, replies);
            let next_byte = stream_byte(
                tx,
                written::<UnbufferedWriteTask>(start, replies).len() as int,
            );
            if replies.len() == 0 {
                then == Some(Action::RegisterWrite)
            } else {
                match last_action::<UnbufferedWriteTask>(start, replies) {
                    Action::RegisterWrite => replies.len() == 1
                        && then == Some(Action::LoadTimeout),
                    Action::LoadTimeout => then == if replies.last() == Reply::Flag(true) {
                        Some(Action::RemoveWrite)
                    } else {
                        Some(Action::Trace(TraceTag::CallEnter(SERIAL_ASYNC_WRITE)))
                    },
                    Action::Trace(TraceTag::CallEnter(_)) => then
                        == Some(Action::SendByte(next_byte)),
                    Action::SendByte(_) => then == Some(
                        Action::Trace(TraceTag::CallExit(SERIAL_ASYNC_WRITE)),
                    ),
                    Action::Trace(TraceTag::CallExit(_)) => then == Some(Action::LoadTimeout),
                    Action::RemoveWrite => then == Some(Action::SetWriteDone),
                    Action::SetWriteDone => then is None,
                    _ => false,
                }
            }
        }),
{
    let start = UnbufferedWriteTask::initial(tx);
    lemma_sending::<UnbufferedWriteTask>(start, replies, |t: UnbufferedWriteTask| t.next_tx, tx);
    lemma_registering(tx, replies);
}

/// The sending task registers once, at first.
proof fn lemma_registering(tx: u8, replies: Seq<Reply>)
    requires
        driven::<UnbufferedWriteTask>(UnbufferedWriteTask::initial(tx), replies),
    ensures
        ({
            let start = UnbufferedWriteTask::initial(tx);
            run::<UnbufferedWriteTask>(start, replies).phase is Register <==> replies.len() == 0
        }),
    decreases replies.len(),
{
    if replies.len() > 0 {
        lemma_registering(tx, replies.drop_last());
    }
}

/// The sending task can take every answer of the right shape, except a byte that was not taken.
pub proof fn law_unbuffered_write_task_admits_every_write(
    tx: u8,
    replies: Seq<Reply>,
    reply: Reply,
)
    requires
        driven::<UnbufferedWriteTask>(UnbufferedWriteTask::initial(tx), replies),
    ensures
        ({
            let start = UnbufferedWriteTask::initial(tx);
            let now = run::<UnbufferedWriteTask>(start, replies);
            let action = UnbufferedWriteTask::action_of(now);
            !UnbufferedWriteTask::finished(now) ==> (UnbufferedWriteTask::accepts(now, reply) <==> {
                &&& reply.kind() == action.wants()
                &&& action is SendByte ==> reply->Wrote_0 is Written
            })
        }),
{

}

/// The generator of the sending task is left where its stream has come to.
pub proof fn law_unbuffered_write_task_leaves_its_generator(tx: u8, replies: Seq<Reply>)
    requires
        driven::<UnbufferedWriteTask>(UnbufferedWriteTask::initial(tx), replies),
    ensures
        ({
            let start = UnbufferedWriteTask::initial(tx);
            run::<UnbufferedWriteTask>(start, replies).tx.x
                == stream_byte(tx, written::<UnbufferedWriteTask>(start, replies).len() as int)
        }),
{
    let start = UnbufferedWriteTask::initial(tx);
    lemma_sending::<UnbufferedWriteTask>(start, replies, |t: UnbufferedWriteTask| t.next_tx, tx);
    law_invariant_holds_throughout::<UnbufferedWriteTask>(start, replies);
}

} // verus!
