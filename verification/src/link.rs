//! What holds of a test that runs on both ends of the link.
use vstd::prelude::*;

use crate::buffered_tasks::{
    law_clean_block_causes_no_error, law_second_clean_block_is_out_of_step, read_task_bytes,
    read_task_start, second_block, sent_by_write_tasks,
};
use crate::device::{Message, Reply};
use crate::kernel_driver_test::{
    law_kernel_test_clean_link_has_no_errors, law_kernel_test_sends_the_stream, read_blocks,
    sent_blocks, KernelDriverTest,
};
use crate::machine::{driven, law_invariant_holds_throughout, received, run, written, Machine};
use crate::params::{HALF_FIFO_DEPTH, MAX_ERROR_CNT};
use crate::rng::{advanced, one_byte_seed, stream};
use crate::unbuffered_tasks::{
    law_unbuffered_read_task_clean_link_has_no_errors,
    law_unbuffered_write_task_sends_the_stream, UnbufferedReadTask, UnbufferedWriteTask,
};
use crate::user_full_load_test::{law_full_load_test_sends_one_word, UserFullLoadTest};
use crate::user_intr_test::{
    law_intr_test_clean_link_has_no_errors, law_intr_test_sends_the_stream, UserIntrTest,
};
use crate::user_polling_test::{
    law_polling_test_clean_link_has_no_errors, law_polling_test_sends_the_stream, UserPollingTest,
};
use crate::user_trap::{rx_seed_of, tx_seed_of, LinkEnd};

verus! {

/// The other end of the link.
pub open spec fn peer(end: LinkEnd) -> LinkEnd {
    match end {
        LinkEnd::Third => LinkEnd::Fourth,
        LinkEnd::Fourth => LinkEnd::Third,
    }
}

/// The state in which the generator of what an end sends starts.
pub open spec fn tx_start(end: LinkEnd) -> u8 {
    one_byte_seed(tx_seed_of(end) as u64)
}

/// The state in which the generator of what an end expects starts.
pub open spec fn rx_start(end: LinkEnd) -> u8 {
    one_byte_seed(rx_seed_of(end) as u64)
}

/// A beginning of a stream is a stream.
proof fn lemma_stream_prefix(bytes: Seq<u8>, x: u8, n: nat)
    requires
        bytes.is_prefix_of(stream(x, n)),
    ensures
        bytes == stream(x, bytes.len()),
{
    assert(bytes =~= stream(x, bytes.len()));
}

/// An end sends exactly the stream that the other end expects.
pub proof fn law_ends_agree_on_streams(end: LinkEnd)
    ensures
        tx_start(end) == rx_start(peer(end)),
        peer(peer(end)) == end,
{
}

/// When both ends run the kernel driver test, and what one end has read is the beginning of the
/// blocks that the other end wrote, then the reader counts no errors.
pub proof fn law_kernel_tests_agree(
    end: LinkEnd,
    sender: usize,
    sender_replies: Seq<Reply>,
    reader: usize,
    reader_replies: Seq<Reply>,
)
    requires
        ({
            let s = KernelDriverTest::initial(sender, tx_start(end), rx_start(end));
            let r = KernelDriverTest::initial(reader, tx_start(peer(end)), rx_start(peer(end)));
            &&& driven::<KernelDriverTest>(s, sender_replies)
            &&& driven::<KernelDriverTest>(r, reader_replies)
            &&& read_blocks(r, reader_replies).is_prefix_of(sent_blocks(s, sender_replies))
        }),
    ensures
        run::<KernelDriverTest>(
            KernelDriverTest::initial(reader, tx_start(peer(end)), rx_start(peer(end))),
            reader_replies,
        ).check.errors == 0,
{
    let s = KernelDriverTest::initial(sender, tx_start(end), rx_start(end));
    let r = KernelDriverTest::initial(reader, tx_start(peer(end)), rx_start(peer(end)));
    law_kernel_test_sends_the_stream(sender, tx_start(end), rx_start(end), sender_replies);
    lemma_stream_prefix(
        read_blocks(r, reader_replies),
        tx_start(end),
        sent_blocks(s, sender_replies).len(),
    );
    law_kernel_test_clean_link_has_no_errors(
        reader,
        tx_start(peer(end)),
        rx_start(peer(end)),
        reader_replies,
    );
}

/// When both ends run the polling test, and what one end has received is the beginning of what
/// the other end has sent, then the receiver counts no errors.
pub proof fn law_polling_tests_agree(
    end: LinkEnd,
    sender_irqn: u16,
    sender: usize,
    sender_replies: Seq<Reply>,
    receiver_irqn: u16,
    receiver: usize,
    receiver_replies: Seq<Reply>,
)
    requires
        ({
            let s = UserPollingTest::initial(sender_irqn, sender, tx_start(end), rx_start(end));
            let r = UserPollingTest::initial(
                receiver_irqn,
                receiver,
                tx_start(peer(end)),
                rx_start(peer(end)),
            );
            &&& driven::<UserPollingTest>(s, sender_replies)
            &&& driven::<UserPollingTest>(r, receiver_replies)
            &&& received(receiver_replies).is_prefix_of(
                written::<UserPollingTest>(s, sender_replies),
            )
        }),
    ensures
        run::<UserPollingTest>(
            UserPollingTest::initial(
                receiver_irqn,
                receiver,
                tx_start(peer(end)),
                rx_start(peer(end)),
            ),
            receiver_replies,
        ).error_count == 0,
{
    let s = UserPollingTest::initial(sender_irqn, sender, tx_start(end), rx_start(end));
    law_polling_test_sends_the_stream(
        sender_irqn,
        sender,
        tx_start(end),
        rx_start(end),
        sender_replies,
    );
    lemma_stream_prefix(
        received(receiver_replies),
        tx_start(end),
        written::<UserPollingTest>(s, sender_replies).len(),
    );
    law_polling_test_clean_link_has_no_errors(
        receiver_irqn,
        receiver,
        tx_start(peer(end)),
        rx_start(peer(end)),
        receiver_replies,
    );
}

/// When both ends run the interrupt test, and what one end has received is the beginning of what
/// the other end has sent, then the receiver counts no errors.
pub proof fn law_intr_tests_agree(
    end: LinkEnd,
    sender_irqn: u16,
    sender: usize,
    sender_replies: Seq<Reply>,
    receiver_irqn: u16,
    receiver: usize,
    receiver_replies: Seq<Reply>,
)
    requires
        ({
            let s = UserIntrTest::initial(sender_irqn, sender, tx_start(end), rx_start(end));
            let r = UserIntrTest::initial(
                receiver_irqn,
                receiver,
                tx_start(peer(end)),
                rx_start(peer(end)),
            );
            &&& driven::<UserIntrTest>(s, sender_replies)
            &&& driven::<UserIntrTest>(r, receiver_replies)
            &&& received(receiver_replies).is_prefix_of(written::<UserIntrTest>(s, sender_replies))
        }),
    ensures
        run::<UserIntrTest>(
            UserIntrTest::initial(
                receiver_irqn,
                receiver,
                tx_start(peer(end)),
                rx_start(peer(end)),
            ),
            receiver_replies,
        ).error_count == 0,
{
    let s = UserIntrTest::initial(sender_irqn, sender, tx_start(end), rx_start(end));
    law_intr_test_sends_the_stream(
        sender_irqn,
        sender,
        tx_start(end),
        rx_start(end),
        sender_replies,
    );
    lemma_stream_prefix(
        received(receiver_replies),
        tx_start(end),
        written::<UserIntrTest>(s, sender_replies).len(),
    );
    law_intr_test_clean_link_has_no_errors(
        receiver_irqn,
        receiver,
        tx_start(peer(end)),
        rx_start(peer(end)),
        receiver_replies,
    );
}

/// When both ends run the unbuffered asynchronous test, and what the receiving task of one end
/// has received is the beginning of what the sending task of the other end has sent, then the
/// receiving task has no error to count.
pub proof fn law_unbuffered_tasks_agree(
    end: LinkEnd,
    sender_replies: Seq<Reply>,
    receiver_irqn: u16,
    receiver_replies: Seq<Reply>,
)
    requires
        ({
            let s = UnbufferedWriteTask::initial(tx_start(end));
            let r = UnbufferedReadTask::initial(receiver_irqn, rx_start(peer(end)));
            &&& driven::<UnbufferedWriteTask>(s, sender_replies)
            &&& driven::<UnbufferedReadTask>(r, receiver_replies)
            &&& received(receiver_replies).is_prefix_of(
                written::<UnbufferedWriteTask>(s, sender_replies),
            )
        }),
    ensures
        ({
            let now = run::<UnbufferedReadTask>(
                UnbufferedReadTask::initial(receiver_irqn, rx_start(peer(end))),
                receiver_replies,
            );
            !UnbufferedReadTask::finished(now) ==> !(UnbufferedReadTask::action_of(
                now,
            ) is BumpErrorCount)
        }),
{
    let s = UnbufferedWriteTask::initial(tx_start(end));
    law_unbuffered_write_task_sends_the_stream(tx_start(end), sender_replies);
    lemma_stream_prefix(
        received(receiver_replies),
        tx_start(end),
        written::<UnbufferedWriteTask>(s, sender_replies).len(),
    );
    law_unbuffered_read_task_clean_link_has_no_errors(
        receiver_irqn,
        rx_start(peer(end)),
        receiver_replies,
    );
}

/// When both ends run the buffered asynchronous test, the first block that a write task of one
/// end sends causes no error in the first read task of the other end.
pub proof fn law_first_buffered_block_agrees(end: LinkEnd, receiver_irqn: u16, tasks: nat)
    requires
        tasks > 0,
    ensures
        ({
            let block = sent_by_write_tasks(tx_start(end), tasks).take(HALF_FIFO_DEPTH as int);
            let read = read_task_bytes(
                receiver_irqn,
                read_task_start(rx_start(peer(end)), 0),
                block,
            );
            read.check.errors == 0 && read.reports == Seq::<Message>::empty()
        }),
{
    let block = sent_by_write_tasks(tx_start(end), tasks).take(HALF_FIFO_DEPTH as int);
    assert(block =~= stream(tx_start(end), HALF_FIFO_DEPTH as nat));
    law_clean_block_causes_no_error(
        receiver_irqn,
        rx_start(peer(end)),
        0,
        HALF_FIFO_DEPTH as nat,
    );
}

/// When both ends run the buffered asynchronous test over a link that loses and changes nothing,
/// the second block is out of step by one byte: the second read task, after a first one that
/// found no error, counts errors until there are one too many, and stops.
pub proof fn law_second_buffered_block_disagrees(end: LinkEnd, receiver_irqn: u16, tasks: nat)
    requires
        tasks > 1,
    ensures
        ({
            let sent = sent_by_write_tasks(tx_start(end), tasks);
            let first = sent.take(HALF_FIFO_DEPTH as int);
            let second = sent.subrange(HALF_FIFO_DEPTH as int, 2 * HALF_FIFO_DEPTH);
            let after_first = read_task_bytes(
                receiver_irqn,
                read_task_start(rx_start(peer(end)), 0),
                first,
            );
            let start = read_task_start(after_first.check.x, after_first.check.errors);
            let after_second = read_task_bytes(receiver_irqn, start, second);
            &&& after_first.check.errors == 0
            &&& start.check.expect == second[1]
            &&& after_second.check.errors == MAX_ERROR_CNT + 1
            &&& after_second.stopped
        }),
{
    let x = tx_start(end);
    let sent = sent_by_write_tasks(x, tasks);
    let rest = sent_by_write_tasks(advanced(x, HALF_FIFO_DEPTH as int), (tasks - 1) as nat);
    law_first_buffered_block_agrees(end, receiver_irqn, tasks);
    assert(sent.take(HALF_FIFO_DEPTH as int) =~= stream(x, HALF_FIFO_DEPTH as nat));
    assert(sent.subrange(HALF_FIFO_DEPTH as int, 2 * HALF_FIFO_DEPTH) =~= rest.take(
        HALF_FIFO_DEPTH as int,
    ));
    assert(rest.take(HALF_FIFO_DEPTH as int) =~= second_block(x));
    law_second_clean_block_is_out_of_step(receiver_irqn, x, 0);
}

/// The full load test stays on its interrupt line.
proof fn lemma_full_load_keeps_its_line(uart_irqn: u16, replies: Seq<Reply>)
    requires
        driven::<UserFullLoadTest>(UserFullLoadTest::initial(uart_irqn), replies),
    ensures
        run::<UserFullLoadTest>(UserFullLoadTest::initial(uart_irqn), replies).uart_irqn
            == uart_irqn,
    decreases replies.len(),
{
    if replies.len() > 0 {
        lemma_full_load_keeps_its_line(uart_irqn, replies.drop_last());
    }
}

/// When one end runs the loading side of the full load test and the other one the acknowledging
/// side, then each of them admits every word that the other one has sent: the loading end only ever
/// meets acknowledgements, and the acknowledging end only the load.
pub proof fn law_full_load_tests_agree(
    sender: u16,
    sent: Seq<Reply>,
    receiver: u16,
    replies: Seq<Reply>,
    i: int,
)
    requires
        driven::<UserFullLoadTest>(UserFullLoadTest::initial(sender), sent),
        driven::<UserFullLoadTest>(UserFullLoadTest::initial(receiver), replies),
        sender % 2 != receiver % 2,
        0 <= i < written::<UserFullLoadTest>(UserFullLoadTest::initial(sender), sent).len(),
        ({
            let now = run::<UserFullLoadTest>(UserFullLoadTest::initial(receiver), replies);
            &&& !UserFullLoadTest::finished(now)
            &&& UserFullLoadTest::action_of(now) is TryRead
            &&& now.rx_cnt < i32::MAX
        }),
    ensures
        UserFullLoadTest::accepts(
            run::<UserFullLoadTest>(UserFullLoadTest::initial(receiver), replies),
            Reply::Read(
                Some(written::<UserFullLoadTest>(UserFullLoadTest::initial(sender), sent)[i]),
            ),
        ),
{
    law_full_load_test_sends_one_word(sender, sent, i);
    lemma_full_load_keeps_its_line(receiver, replies);
    law_invariant_holds_throughout::<UserFullLoadTest>(
        UserFullLoadTest::initial(receiver),
        replies,
    );
}

} // verus!
