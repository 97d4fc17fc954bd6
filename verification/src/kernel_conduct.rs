//! What the kernel driver test does, told by its actions and the replies to them.
use vstd::prelude::*;

use crate::check::{catch_up, law_batches_do_not_matter, take_bytes, CheckState};
use crate::device::{Action, Reply};
use crate::kernel_driver_test::{
    accepted_bytes, law_kernel_test_checks_every_byte, law_kernel_test_counts_accepted_bytes,
    law_kernel_test_sends_the_stream, read_blocks, sent_blocks, SETTLE_MS, KernelDriverTest,
    KernelPhase, KernelState,
};
use crate::machine::{
    answered, driven, last_action, law_invariant_holds_throughout, outstanding, performed, run,
    Machine,
};
use crate::params::{HALF_FIFO_DEPTH, TEST_TIME_US};
use crate::rng::{advanced, lemma_stream_byte_after, stream, stream_byte};
use crate::user_intr_test::intr_mismatches;

verus! {

/// Whether all of `replies` are blocks that hold at least one byte.
pub open spec fn all_filled(replies: Seq<Reply>) -> bool {
    forall|i: int|
        0 <= i < replies.len() ==> (#[trigger] replies[i] matches Reply::Block { count, .. }
            && count > 0)
}

/// The bytes that were read after the test had settled.
pub open spec fn checked_bytes(s: KernelState, replies: Seq<Reply>) -> Seq<u8>
    decreases replies.len(),
{
    if replies.len() == 0 {
        Seq::empty()
    } else {
        let earlier = checked_bytes(s, replies.drop_last());
        let settled = performed::<KernelDriverTest>(
            s,
            replies.drop_last(),
            Action::Sleep(SETTLE_MS),
        ) > 0;
        match replies.last() {
            Reply::Block { count, buf } if settled && count > 0 => earlier + buf@.take(
                count as int,
            ),
            _ => earlier,
        }
    }
}

/// What a phase tells of the draining and of the time.
spec fn drain_history(serial_number: usize, tx: u8, rx: u8, replies: Seq<Reply>) -> bool {
    let start = KernelDriverTest::initial(serial_number, tx, rx);
    let now = run::<KernelDriverTest>(start, replies);
    let settled = performed::<KernelDriverTest>(start, replies, Action::Sleep(SETTLE_MS));
    &&& now.fd == (serial_number + 1) as usize
    &&& match now.phase {
        KernelPhase::Drain => settled == 0 && all_filled(replies),
        KernelPhase::Settle => settled == 0 && replies.len() > 0 && all_filled(replies.drop_last())
            && (replies.last() matches Reply::Block { count, .. } && count <= 0),
        KernelPhase::Arm { deadline } => settled == 1 && replies.len() > 0 && replies.last() is Word
            && deadline == replies.last()->Word_0 * 1000 + TEST_TIME_US,
        _ => settled == 1,
    }
}

proof fn lemma_drain_history(serial_number: usize, tx: u8, rx: u8, replies: Seq<Reply>)
    requires
        driven::<KernelDriverTest>(KernelDriverTest::initial(serial_number, tx, rx), replies),
    ensures
        drain_history(serial_number, tx, rx, replies),
    decreases replies.len(),
{
    if replies.len() > 0 {
        lemma_drain_history(serial_number, tx, rx, replies.drop_last());
        if all_filled(replies.drop_last()) {
            assert forall|i: int| 0 <= i < replies.len() - 1 implies (
            #[trigger] replies[i] matches Reply::Block { count, .. } && count > 0) by {
                assert(replies[i] == replies.drop_last()[i]);
            }
        }
    }
}

/// What a phase tells of the timer.
spec fn exit_history(serial_number: usize, tx: u8, rx: u8, replies: Seq<Reply>) -> bool {
    let start = KernelDriverTest::initial(serial_number, tx, rx);
    let now = run::<KernelDriverTest>(start, replies);
    answered::<KernelDriverTest>(start, replies, Action::LoadTimeout, Reply::Flag(true))
        == match now.phase {
        KernelPhase::Done => 1nat,
        _ => 0nat,
    }
}

proof fn lemma_exit_history(serial_number: usize, tx: u8, rx: u8, replies: Seq<Reply>)
    requires
        driven::<KernelDriverTest>(KernelDriverTest::initial(serial_number, tx, rx), replies),
    ensures
        exit_history(serial_number, tx, rx, replies),
    decreases replies.len(),
{
    if replies.len() > 0 {
        lemma_exit_history(serial_number, tx, rx, replies.drop_last());
    }
}

/// All of these together.
spec fn history(serial_number: usize, tx: u8, rx: u8, replies: Seq<Reply>) -> bool {
    &&& drain_history(serial_number, tx, rx, replies)
    &&& exit_history(serial_number, tx, rx, replies)
}

proof fn lemma_history(serial_number: usize, tx: u8, rx: u8, replies: Seq<Reply>)
    requires
        driven::<KernelDriverTest>(KernelDriverTest::initial(serial_number, tx, rx), replies),
    ensures
        history(serial_number, tx, rx, replies),
{
    lemma_drain_history(serial_number, tx, rx, replies);
    lemma_exit_history(serial_number, tx, rx, replies);
}

/// The test begins by reading blocks from its file, which is the one after its serial number, for
/// as long as the reads return bytes; the first read that returns none ends this, and the test then
/// sleeps. It sleeps at no other time.
pub proof fn law_kernel_test_drains_stale_input(
    serial_number: usize,
    tx: u8,
    rx: u8,
    replies: Seq<Reply>,
)
    requires
        driven::<KernelDriverTest>(KernelDriverTest::initial(serial_number, tx, rx), replies),
    ensures
        ({
            let start = KernelDriverTest::initial(serial_number, tx, rx);
            let then = outstanding::<KernelDriverTest>(start, replies);
            &&& all_filled(replies)
                ==> then == Some(Action::ReadBlock((serial_number + 1) as usize))
            &&& then == Some(Action::Sleep(SETTLE_MS)) <==> {
                &&& replies.len() > 0
                &&& all_filled(replies.drop_last())
                &&& replies.last() matches Reply::Block { count, .. } && count <= 0
            }
        }),
{
    let start = KernelDriverTest::initial(serial_number, tx, rx);
    lemma_history(serial_number, tx, rx, replies);
    if replies.len() > 0 {
        lemma_history(serial_number, tx, rx, replies.drop_last());
        if all_filled(replies) {
            assert(replies[replies.len() - 1] == replies.last());
        }
    }
    lemma_drained(serial_number, tx, rx, replies);
}

/// Once a read has returned nothing, the test has left the draining.
proof fn lemma_drained(serial_number: usize, tx: u8, rx: u8, replies: Seq<Reply>)
    requires
        driven::<KernelDriverTest>(KernelDriverTest::initial(serial_number, tx, rx), replies),
    ensures
        ({
            let start = KernelDriverTest::initial(serial_number, tx, rx);
            let now = run::<KernelDriverTest>(start, replies);
            &&& all_filled(replies) ==> now.phase is Drain
            &&& replies.len() > 0 && all_filled(replies.drop_last())
                && (replies.last() matches Reply::Block {
                count,
                ..
            } && count <= 0) ==> now.phase is Settle
        }),
    decreases replies.len(),
{
    if replies.len() > 0 {
        lemma_drained(serial_number, tx, rx, replies.drop_last());
        if all_filled(replies) {
            assert(replies.last() == replies[replies.len() - 1]);
            assert forall|i: int| 0 <= i < replies.len() - 1 implies (
            #[trigger] replies.drop_last()[i] matches Reply::Block { count, .. } && count > 0) by {
                assert(replies[i] == replies.drop_last()[i]);
            }
        }
    }
}

/// After it has settled, the test reads the time and arms the timer. From then on it looks at the
/// timer, and unless it has fired, writes a block to its file, reads one from it, and looks again;
/// it is finished exactly when it has seen that the timer fired.
pub proof fn law_kernel_test_order_of_its_steps(
    serial_number: usize,
    tx: u8,
    rx: u8,
    replies: Seq<Reply>,
)
    requires
        driven::<KernelDriverTest>(KernelDriverTest::initial(serial_number, tx, rx), replies),
        replies.len() > 0,
    ensures
        ({
            let start = KernelDriverTest::initial(serial_number, tx, rx);
            let then = outstanding::<KernelDriverTest>(start, replies);
            let reply = replies.last();
            let fd = (serial_number + 1) as usize;
            let settled = performed::<KernelDriverTest>(start, replies, Action::Sleep(SETTLE_MS))
                > 0;
            &&& match last_action::<KernelDriverTest>(start, replies) {
                Action::Sleep(_) => then == Some(Action::GetTime),
                Action::GetTime => then == Some(
                    Action::SetTimer((reply->Word_0 * 1000 + TEST_TIME_US) as isize),
                ),
                Action::SetTimer(_) => then == Some(Action::LoadTimeout),
                Action::LoadTimeout => then == if reply == Reply::Flag(true) {
                    None
                } else {
                    Some(Action::WriteBlock(fd))
                },
                Action::WriteBlock(_) => then == Some(Action::ReadBlock(fd)),
                Action::ReadBlock(_) => settled ==> then == Some(Action::LoadTimeout),
                _ => false,
            }
            &&& then is None <==> answered::<KernelDriverTest>(
                start,
                replies,
                Action::LoadTimeout,
                Reply::Flag(true),
            ) > 0
        }),
{
    lemma_history(serial_number, tx, rx, replies);
    if replies.len() > 0 {
        lemma_history(serial_number, tx, rx, replies.drop_last());
    }
}

/// Every block that the test hands to the driver is whole, and is the piece of its stream that
/// follows what it has handed to the driver before.
pub proof fn law_kernel_test_writes_the_next_block(
    serial_number: usize,
    tx: u8,
    rx: u8,
    replies: Seq<Reply>,
)
    requires
        driven::<KernelDriverTest>(KernelDriverTest::initial(serial_number, tx, rx), replies),
    ensures
        ({
            let start = KernelDriverTest::initial(serial_number, tx, rx);
            let now = run::<KernelDriverTest>(start, replies);
            let sent = sent_blocks(start, replies);
            &&& outstanding::<KernelDriverTest>(start, replies) matches Some(Action::WriteBlock(_))
                ==> now.block == stream(
                advanced(tx, sent.len() as int),
                HALF_FIFO_DEPTH as nat,
            )
            &&& sent.len() == HALF_FIFO_DEPTH * performed::<KernelDriverTest>(
                start,
                replies,
                Action::WriteBlock((serial_number + 1) as usize),
            )
        }),
    decreases replies.len(),
{
    let start = KernelDriverTest::initial(serial_number, tx, rx);
    let now = run::<KernelDriverTest>(start, replies);
    let sent = sent_blocks(start, replies);
    law_invariant_holds_throughout::<KernelDriverTest>(start, replies);
    if replies.len() > 0 {
        law_kernel_test_writes_the_next_block(serial_number, tx, rx, replies.drop_last());
        lemma_history(serial_number, tx, rx, replies.drop_last());
        law_invariant_holds_throughout::<KernelDriverTest>(start, replies.drop_last());
    }
    if now.phase is Write {
        let more = replies.push(Reply::Word(0));
        assert(more.drop_last() =~= replies);
        lemma_accepts_none_taken(serial_number, tx, rx, replies);
        law_kernel_test_sends_the_stream(serial_number, tx, rx, more);
        let all = sent_blocks(start, more);
        assert(all == sent + now.block);
        let whole = stream(advanced(tx, sent.len() as int), HALF_FIFO_DEPTH as nat);
        assert forall|k: int| 0 <= k < HALF_FIFO_DEPTH implies now.block[k] == whole[k] by {
            assert(all[sent.len() + k] == now.block[k]);
            lemma_stream_byte_after(tx, sent.len() as int, k);
        }
        assert(now.block =~= whole);
    }
}

/// The test can always be told that the driver took nothing.
proof fn lemma_accepts_none_taken(serial_number: usize, tx: u8, rx: u8, replies: Seq<Reply>)
    requires
        driven::<KernelDriverTest>(KernelDriverTest::initial(serial_number, tx, rx), replies),
    ensures
        ({
            let start = KernelDriverTest::initial(serial_number, tx, rx);
            let now = run::<KernelDriverTest>(start, replies);
            now.phase is Write ==> driven::<KernelDriverTest>(start, replies.push(Reply::Word(0)))
        }),
{
    let start = KernelDriverTest::initial(serial_number, tx, rx);
    let more = replies.push(Reply::Word(0));
    assert(more.drop_last() =~= replies);
    lemma_counts_fit(serial_number, tx, rx, replies);
}

/// The counts of the test can be represented.
proof fn lemma_counts_fit(serial_number: usize, tx: u8, rx: u8, replies: Seq<Reply>)
    requires
        driven::<KernelDriverTest>(KernelDriverTest::initial(serial_number, tx, rx), replies),
    ensures
        ({
            let start = KernelDriverTest::initial(serial_number, tx, rx);
            let now = run::<KernelDriverTest>(start, replies);
            0 <= now.tx_count <= usize::MAX
        }),
    decreases replies.len(),
{
    if replies.len() > 0 {
        lemma_counts_fit(serial_number, tx, rx, replies.drop_last());
    }
}

/// A check that starts with the first byte of a stream counts the bytes that are not the expected
/// one, where such a byte moves the expectation by two.
pub proof fn law_check_counts_mismatches(x: u8, errors: int, bytes: Seq<u8>)
    ensures
        ({
            let first = stream_byte(x, 0);
            let (moved, mismatches) = intr_mismatches(x, bytes);
            take_bytes(CheckState { x: first, expect: first, errors }, bytes) == (CheckState {
                x: stream_byte(x, moved as int),
                expect: stream_byte(x, moved as int),
                errors: errors + mismatches,
            })
        }),
    decreases bytes.len(),
{
    if bytes.len() > 0 {
        law_check_counts_mismatches(x, errors, bytes.drop_last());
        let moved = intr_mismatches(x, bytes.drop_last()).0;
        lemma_stream_byte_after(x, moved + 1int, 0);
        lemma_stream_byte_after(x, moved + 2int, 0);
        reveal_with_fuel(catch_up, 3);
    }
}

/// The bytes that count are exactly those that were read after the test had settled; those that
/// were drained before that do not count.
pub proof fn law_kernel_test_checks_what_it_reads_after_settling(
    serial_number: usize,
    tx: u8,
    rx: u8,
    replies: Seq<Reply>,
)
    requires
        driven::<KernelDriverTest>(KernelDriverTest::initial(serial_number, tx, rx), replies),
    ensures
        ({
            let start = KernelDriverTest::initial(serial_number, tx, rx);
            read_blocks(start, replies) == checked_bytes(start, replies)
        }),
    decreases replies.len(),
{
    if replies.len() > 0 {
        law_kernel_test_checks_what_it_reads_after_settling(
            serial_number,
            tx,
            rx,
            replies.drop_last(),
        );
        lemma_history(serial_number, tx, rx, replies.drop_last());
    }
}

/// At any time the receive count is the number of bytes that were read after the draining, the send
/// count is the number of bytes that the driver said it took, and the error count is the number of
/// read bytes that were not the expected one, where such a byte moves the expectation by two. The
/// generators are left where the streams have come to.
pub proof fn law_kernel_test_returns_what_it_counted(
    serial_number: usize,
    tx: u8,
    rx: u8,
    replies: Seq<Reply>,
)
    requires
        driven::<KernelDriverTest>(KernelDriverTest::initial(serial_number, tx, rx), replies),
    ensures
        ({
            let start = KernelDriverTest::initial(serial_number, tx, rx);
            let now = run::<KernelDriverTest>(start, replies);
            let read = checked_bytes(start, replies);
            let (moved, errors) = intr_mismatches(rx, read);
            let drawn: int = if outstanding::<KernelDriverTest>(start, replies) matches Some(
                Action::WriteBlock(_),
            ) {
                HALF_FIFO_DEPTH as int
            } else {
                0
            };
            &&& now.rx_count == read.len()
            &&& now.tx_count == accepted_bytes(start, replies)
            &&& now.check.errors == errors
            &&& now.check.x == stream_byte(rx, moved as int)
            &&& now.tx == stream_byte(tx, sent_blocks(start, replies).len() + drawn)
        }),
{
    law_kernel_test_checks_every_byte(serial_number, tx, rx, replies);
    law_kernel_test_checks_what_it_reads_after_settling(serial_number, tx, rx, replies);
    law_kernel_test_counts_accepted_bytes(serial_number, tx, rx, replies);
    law_check_counts_mismatches(
        rx,
        0,
        read_blocks(KernelDriverTest::initial(serial_number, tx, rx), replies),
    );
    lemma_drawn(serial_number, tx, rx, replies);
}

/// How far the generator of sent bytes has come.
proof fn lemma_drawn(serial_number: usize, tx: u8, rx: u8, replies: Seq<Reply>)
    requires
        driven::<KernelDriverTest>(KernelDriverTest::initial(serial_number, tx, rx), replies),
    ensures
        ({
            let start = KernelDriverTest::initial(serial_number, tx, rx);
            let now = run::<KernelDriverTest>(start, replies);
            let drawn: int = if now.phase is Write {
                HALF_FIFO_DEPTH as int
            } else {
                0
            };
            now.tx == stream_byte(tx, sent_blocks(start, replies).len() + drawn)
        }),
    decreases replies.len(),
{
    let start = KernelDriverTest::initial(serial_number, tx, rx);
    if replies.len() > 0 {
        lemma_drawn(serial_number, tx, rx, replies.drop_last());
        law_invariant_holds_throughout::<KernelDriverTest>(start, replies.drop_last());
        let sent = sent_blocks(start, replies.drop_last()).len();
        lemma_stream_byte_after(tx, sent + 1int, HALF_FIFO_DEPTH as int);
    }
}

/// The test can take every answer of the right shape, whatever it says; only a time of which the
/// end of the test cannot be represented is outside of what it can deal with, and so are counts
/// that cannot be represented, and a block that is said to hold more than a block can.
pub proof fn law_kernel_test_admits_what_it_can_count(
    serial_number: usize,
    tx: u8,
    rx: u8,
    replies: Seq<Reply>,
    reply: Reply,
)
    requires
        driven::<KernelDriverTest>(KernelDriverTest::initial(serial_number, tx, rx), replies),
    ensures
        ({
            let start = KernelDriverTest::initial(serial_number, tx, rx);
            let now = run::<KernelDriverTest>(start, replies);
            let action = KernelDriverTest::action_of(now);
            !KernelDriverTest::finished(now) ==> (KernelDriverTest::accepts(now, reply) <==> {
                &&& reply.kind() == action.wants()
                &&& action is GetTime ==> isize::MIN <= reply->Word_0 * 1000 && reply->Word_0 * 1000
                    + TEST_TIME_US <= isize::MAX
                &&& action is WriteBlock
                    ==> accepted_bytes(start, replies) + reply->Word_0 <= usize::MAX
                &&& action is ReadBlock && performed::<KernelDriverTest>(
                    start,
                    replies,
                    Action::Sleep(SETTLE_MS),
                ) > 0 ==> {
                    let count = reply->Block_count;
                    let read = checked_bytes(start, replies);
                    &&& count <= HALF_FIFO_DEPTH
                    &&& read.len() + count <= usize::MAX
                    &&& count > 0
                        ==> intr_mismatches(rx, read + reply->Block_buf@.take(count as int)).1
                        <= usize::MAX
                }
            })
        }),
{
    let start = KernelDriverTest::initial(serial_number, tx, rx);
    let now = run::<KernelDriverTest>(start, replies);
    lemma_history(serial_number, tx, rx, replies);
    law_kernel_test_returns_what_it_counted(serial_number, tx, rx, replies);
    law_kernel_test_checks_every_byte(serial_number, tx, rx, replies);
    law_kernel_test_checks_what_it_reads_after_settling(serial_number, tx, rx, replies);
    if let Reply::Block { count, buf } = reply {
        if 0 < count <= HALF_FIFO_DEPTH {
            let read = read_blocks(start, replies);
            law_batches_do_not_matter(start.check, read, buf@.take(count as int));
            law_check_counts_mismatches(rx, 0, read + buf@.take(count as int));
        }
    }
}

} // verus!
