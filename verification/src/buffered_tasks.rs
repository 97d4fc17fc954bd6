//! The tasks of the buffered asynchronous test, each of which moves one block.
use vstd::prelude::*;

use crate::check::{catch_up, expect_next, skip_expected, CheckState, StreamCheck};
use crate::device::Message;
use crate::params::{HALF_FIFO_DEPTH, MAX_ERROR_CNT, MAX_SHIFT};
use crate::rng::{
    advanced, law_stream_concatenates, lemma_stream_byte_after, stream, stream_byte, IncOneRng,
};
use crate::user_intr_test::intr_mismatches;

verus! {

/// Calls `array_init::array_init`, which builds an array by calling its argument once for each
/// index, from the lowest to the highest. The contract claims that the array holds as many
/// successive draws as it is long, and that the generator has advanced by that many.
#[verifier::external_body]
fn array_of_draws(rng: &mut IncOneRng) -> (block: [u8; HALF_FIFO_DEPTH])
    ensures
        block@ == stream(old(rng).x, HALF_FIFO_DEPTH as nat),
        final(rng).x == advanced(old(rng).x, HALF_FIFO_DEPTH as int),
{
    array_init::array_init(|_| rng.next_u8())
}

/// The block that one buffered write task sends: the next `HALF_FIFO_DEPTH` draws.
pub fn write_task(tx_rng: &mut IncOneRng) -> (tx_buf: [u8; HALF_FIFO_DEPTH])
    ensures
        tx_buf@ == stream(old(tx_rng).x, HALF_FIFO_DEPTH as nat),
        final(tx_rng).x == advanced(old(tx_rng).x, HALF_FIFO_DEPTH as int),
{
    array_of_draws(tx_rng)
}

/// What `tasks` write tasks send one after the other, from a generator in state `x`.
pub open spec fn sent_by_write_tasks(x: u8, tasks: nat) -> Seq<u8>
    decreases tasks,
{
    if tasks == 0 {
        Seq::empty()
    } else {
        stream(x, HALF_FIFO_DEPTH as nat) + sent_by_write_tasks(
            advanced(x, HALF_FIFO_DEPTH as int),
            (tasks - 1) as nat,
        )
    }
}

/// Together, successive write tasks send the stream without gaps.
pub proof fn law_write_tasks_send_the_stream(x: u8, tasks: nat)
    ensures
        sent_by_write_tasks(x, tasks) == stream(x, tasks * HALF_FIFO_DEPTH as nat),
    decreases tasks,
{
    if tasks == 0 {
        assert(sent_by_write_tasks(x, tasks) =~= stream(x, 0));
    } else {
        let rest = (tasks - 1) as nat;
        law_write_tasks_send_the_stream(advanced(x, HALF_FIFO_DEPTH as int), rest);
        law_stream_concatenates(x, HALF_FIFO_DEPTH as nat, rest * HALF_FIFO_DEPTH as nat);
        assert(HALF_FIFO_DEPTH as nat + rest * HALF_FIFO_DEPTH as nat == tasks
            * HALF_FIFO_DEPTH as nat) by (nonlinear_arith)
            requires
                rest == tasks - 1,
        ;
    }
}

/// The state of a read task while it checks its block.
pub struct ReadTaskState {
    pub check: CheckState,
    /// Whether there were too many errors to go on.
    pub stopped: bool,
    pub reports: Seq<Message>,
}

/// The reports on the expected bytes that are given up for `byte`.
pub open spec fn skip_reports(
    uart_irqn: u16,
    check: CheckState,
    byte: u8,
    shifts: int,
) -> Seq<Message>
    decreases shifts,
{
    if byte != check.expect && shifts > 0 {
        seq![
            Message::TaskError {
                uart_irqn,
                error_count: check.errors as usize,
                expected: check.expect,
                received: byte,
            },
        ] + skip_reports(uart_irqn, skip_expected(check), byte, shifts - 1)
    } else {
        Seq::empty()
    }
}

/// A byte of the block is checked, unless there were too many errors before it. Where it is the
/// last one that is checked, no further byte is expected.
pub open spec fn read_task_byte(uart_irqn: u16, s: ReadTaskState, byte: u8) -> ReadTaskState {
    if s.stopped {
        s
    } else {
        let caught = catch_up(s.check, byte, MAX_SHIFT as int);
        let stopped = caught.errors > MAX_ERROR_CNT;
        ReadTaskState {
            check: if stopped {
                caught
            } else {
                expect_next(caught)
            },
            stopped,
            reports: s.reports + skip_reports(uart_irqn, s.check, byte, MAX_SHIFT as int),
        }
    }
}

/// Several bytes are checked.
pub open spec fn read_task_bytes(
    uart_irqn: u16,
    s: ReadTaskState,
    bytes: Seq<u8>,
) -> ReadTaskState
    decreases bytes.len(),
{
    if bytes.len() == 0 {
        s
    } else {
        read_task_byte(
            uart_irqn,
            read_task_bytes(uart_irqn, s, bytes.drop_last()),
            bytes.last(),
        )
    }
}

/// A read task that starts with a generator in state `x`, after `errors` errors.
pub open spec fn read_task_start(x: u8, errors: int) -> ReadTaskState {
    ReadTaskState {
        check: CheckState { x: stream_byte(x, 0), expect: stream_byte(x, 0), errors },
        stopped: false,
        reports: Seq::empty(),
    }
}

/// Checks the block that a read task has received, and returns the new error count and the
/// errors to report.
pub fn read_task(
    uart_irqn: u16,
    rx_rng: &mut IncOneRng,
    rx_buf: &[u8; HALF_FIFO_DEPTH],
    error_count: usize,
) -> (r: (usize, Vec<Message>))
    requires
        error_count + MAX_SHIFT <= usize::MAX,
    ensures
        ({
            let end = read_task_bytes(
                uart_irqn,
                read_task_start(old(rx_rng).x, error_count as int),
                rx_buf@,
            );
            &&& r.0 == end.check.errors
            &&& r.1@ == end.reports
            &&& final(rx_rng).x == end.check.x
        }),
{
    let ghost start = read_task_start(rx_rng.x, error_count as int);
    let mut reports: Vec<Message> = Vec::new();
    let expect: u8 = rx_rng.next_u8();
    let mut check = StreamCheck { rng: *rx_rng, expect, errors: error_count };
    let mut stopped: bool = false;
    let mut i: usize = 0;
    assert(rx_buf@.take(0) =~= Seq::<u8>::empty());
    while i < HALF_FIFO_DEPTH && !stopped
        invariant
            i <= HALF_FIFO_DEPTH,
            error_count + MAX_SHIFT <= usize::MAX,
            !stopped ==> i == 0 && check.errors == error_count || check.errors <= MAX_ERROR_CNT,
            ({
                let now = read_task_bytes(uart_irqn, start, rx_buf@.take(i as int));
                &&& now.check == check@
                &&& now.stopped == stopped
                &&& now.reports == reports@
            }),
        decreases HALF_FIFO_DEPTH - i,
    {
        assert(rx_buf@.take(i + 1).drop_last() =~= rx_buf@.take(i as int));
        let byte: u8 = rx_buf[i];
        let mut max_shift: isize = MAX_SHIFT;
        let ghost before = check;
        let ghost earlier = reports@;
        assert(earlier =~= earlier + Seq::<Message>::empty());
        while byte != check.expect && max_shift > 0
            invariant
                0 <= max_shift <= MAX_SHIFT,
                check.errors + max_shift == before.errors + MAX_SHIFT,
                before.errors + MAX_SHIFT <= usize::MAX,
                catch_up(check@, byte, max_shift as int) == catch_up(
                    before@,
                    byte,
                    MAX_SHIFT as int,
                ),
                reports@ + skip_reports(uart_irqn, check@, byte, max_shift as int) == earlier
                    + skip_reports(uart_irqn, before@, byte, MAX_SHIFT as int),
            decreases max_shift,
        {
            let ghost was = check@;
            let ghost reported = reports@;
            reports.push(
                Message::TaskError {
                    uart_irqn,
                    error_count: check.errors,
                    expected: check.expect,
                    received: byte,
                },
            );
            check.errors += 1;
            max_shift -= 1;
            check.expect = check.rng.next_u8();
            assert(check@ == skip_expected(was));
            assert(reports@ + skip_reports(uart_irqn, check@, byte, max_shift as int) =~= reported
                + skip_reports(uart_irqn, was, byte, max_shift + 1));
        }
        assert(reports@ + Seq::<Message>::empty() =~= reports@);
        if check.errors > MAX_ERROR_CNT {
            stopped = true;
        } else {
            check.expect_next();
        }
        i += 1;
    }
    proof {
        lemma_stopped_for_good(uart_irqn, start, rx_buf@, i as int);
    }
    *rx_rng = check.rng;
    (check.errors, reports)
}

/// Once a read task has stopped, further bytes change nothing.
proof fn lemma_stopped_for_good(uart_irqn: u16, s: ReadTaskState, bytes: Seq<u8>, n: int)
    requires
        0 <= n <= bytes.len(),
        n < bytes.len() ==> read_task_bytes(uart_irqn, s, bytes.take(n)).stopped,
    ensures
        read_task_bytes(uart_irqn, s, bytes) == read_task_bytes(uart_irqn, s, bytes.take(n)),
    decreases bytes.len() - n,
{
    if n < bytes.len() {
        assert(bytes.take(n + 1).drop_last() =~= bytes.take(n));
        lemma_stopped_for_good(uart_irqn, s, bytes, n + 1);
    } else {
        assert(bytes.take(n) =~= bytes);
    }
}

/// A block that is the beginning of the peer's stream causes no error and no report if there were
/// not too many errors already, and leaves the generator one draw past the block.
pub proof fn law_clean_block_causes_no_error(uart_irqn: u16, x: u8, errors: int, n: nat)
    requires
        0 <= errors <= MAX_ERROR_CNT,
    ensures
        read_task_bytes(uart_irqn, read_task_start(x, errors), stream(x, n)) == (ReadTaskState {
            check: CheckState {
                x: stream_byte(x, n as int),
                expect: stream_byte(x, n as int),
                errors,
            },
            stopped: false,
            reports: Seq::empty(),
        }),
    decreases n,
{
    if n > 0 {
        law_clean_block_causes_no_error(uart_irqn, x, errors, (n - 1) as nat);
        assert(stream(x, n).drop_last() =~= stream(x, (n - 1) as nat));
        lemma_stream_byte_after(x, n as int, 0);
        assert(Seq::<Message>::empty() + Seq::<Message>::empty() =~= Seq::<Message>::empty());
    }
}

/// A read task that starts within the limit leaves the error count at most `MAX_SHIFT` above it,
/// and has stopped early exactly if the count is over the limit.
pub proof fn law_read_task_stops_after_too_many_errors(
    uart_irqn: u16,
    x: u8,
    errors: int,
    bytes: Seq<u8>,
)
    requires
        0 <= errors <= MAX_ERROR_CNT,
    ensures
        ({
            let end = read_task_bytes(uart_irqn, read_task_start(x, errors), bytes);
            &&& errors <= end.check.errors <= MAX_ERROR_CNT + MAX_SHIFT
            &&& end.stopped <==> end.check.errors > MAX_ERROR_CNT
            &&& end.reports.len() == end.check.errors - errors
        }),
    decreases bytes.len(),
{
    if bytes.len() > 0 {
        law_read_task_stops_after_too_many_errors(uart_irqn, x, errors, bytes.drop_last());
        reveal_with_fuel(catch_up, 3);
        reveal_with_fuel(skip_reports, 3);
    }
}

/// The second block of a sender whose generator was in state `x` before the first one.
pub open spec fn second_block(x: u8) -> Seq<u8> {
    stream(advanced(x, HALF_FIFO_DEPTH as int), HALF_FIFO_DEPTH as nat)
}

/// The state of the receiver's generator after a clean first block, if it was `x` before.
pub open spec fn after_first_block(uart_irqn: u16, x: u8) -> u8 {
    read_task_bytes(
        uart_irqn,
        read_task_start(x, 0),
        stream(x, HALF_FIFO_DEPTH as nat),
    ).check.x
}

/// The first bytes of a clean second block: each of them is an error, and the expectation runs
/// further ahead.
proof fn lemma_out_of_step(uart_irqn: u16, x: u8, errors: int, n: int)
    requires
        0 <= errors <= MAX_ERROR_CNT,
        0 <= n <= MAX_ERROR_CNT + 1 - errors,
    ensures
        ({
            let end = read_task_bytes(
                uart_irqn,
                read_task_start(after_first_block(uart_irqn, x), errors),
                second_block(x).take(n),
            );
            &&& end.check.errors == errors + n
            &&& end.stopped <==> errors + n > MAX_ERROR_CNT
            &&& !end.stopped ==> end.check.expect == advanced(x, HALF_FIFO_DEPTH + 2 + 2 * n)
                && end.check.x == end.check.expect
        }),
    decreases n,
{
    let block = second_block(x);
    law_clean_block_causes_no_error(uart_irqn, x, 0, HALF_FIFO_DEPTH as nat);
    lemma_stream_byte_after(x, HALF_FIFO_DEPTH + 1, 0);
    if n > 0 {
        lemma_out_of_step(uart_irqn, x, errors, n - 1);
        assert(block.take(n).drop_last() =~= block.take(n - 1));
        let before = read_task_bytes(
            uart_irqn,
            read_task_start(after_first_block(uart_irqn, x), errors),
            block.take(n - 1),
        );
        lemma_stream_byte_after(x, HALF_FIFO_DEPTH as int, n - 1);
        assert(block[n - 1] == advanced(x, HALF_FIFO_DEPTH + n));
        assert(before.check.expect == advanced(x, HALF_FIFO_DEPTH + 2 * n));
        assert(block[n - 1] != before.check.expect);
        lemma_stream_byte_after(x, HALF_FIFO_DEPTH + 2 * n, 0);
        lemma_stream_byte_after(x, HALF_FIFO_DEPTH + 2 * n + 1, 0);
        reveal_with_fuel(catch_up, 3);
    }
}

/// A clean second block is out of step: a read task draws once more than its block is long, so
/// the next one expects the second byte of its block first. From an error count within the limit
/// it finds nothing but errors, one for each byte, until the count is one over the limit, and
/// stops there.
pub proof fn law_second_clean_block_is_out_of_step(uart_irqn: u16, x: u8, errors: int)
    requires
        0 <= errors <= MAX_ERROR_CNT,
    ensures
        ({
            let start = read_task_start(after_first_block(uart_irqn, x), errors);
            let end = read_task_bytes(uart_irqn, start, second_block(x));
            &&& start.check.expect == second_block(x)[1]
            &&& end.check.errors == MAX_ERROR_CNT + 1
            &&& end.stopped
            &&& end.reports.len() == MAX_ERROR_CNT + 1 - errors
        }),
{
    let block = second_block(x);
    let start = read_task_start(after_first_block(uart_irqn, x), errors);
    let n = MAX_ERROR_CNT + 1 - errors;
    lemma_out_of_step(uart_irqn, x, errors, 0);
    lemma_out_of_step(uart_irqn, x, errors, n);
    assert(block.take(0) =~= Seq::<u8>::empty());
    lemma_stream_byte_after(x, HALF_FIFO_DEPTH as int, 1);
    lemma_stopped_for_good(uart_irqn, start, block, n);
    law_read_task_stops_after_too_many_errors(
        uart_irqn,
        after_first_block(uart_irqn, x),
        errors,
        block,
    );
}

/// How a read task's check goes on with one more byte, for every byte and every block before it. As
/// long as the task has not stopped, its errors are those that it started with and the mismatches
/// so far; the byte in its place of the stream changes neither errors nor reports, and any other
/// byte costs one error and one report, which tells the count before it, the expected byte and the
/// received one. The task stops as soon as there are more than `MAX_ERROR_CNT` errors, and then no
/// byte changes anything.
pub proof fn law_read_task_checks_each_byte(
    uart_irqn: u16,
    x: u8,
    errors: int,
    bytes: Seq<u8>,
    byte: u8,
)
    requires
        0 <= errors,
    ensures
        ({
            let start = read_task_start(x, errors);
            let before = read_task_bytes(uart_irqn, start, bytes);
            let after = read_task_bytes(uart_irqn, start, bytes.push(byte));
            let (moved, mismatches) = intr_mismatches(x, bytes);
            let expected = stream_byte(x, moved as int);
            let report = Message::TaskError {
                uart_irqn,
                error_count: before.check.errors as usize,
                expected,
                received: byte,
            };
            &&& bytes.len() == 0 ==> !before.stopped && before.reports.len() == 0
            &&& if before.stopped {
                after == before
            } else {
                let matched = byte == expected;
                let count = errors + mismatches + if matched {
                    0int
                } else {
                    1
                };
                let drawn = moved + if matched {
                    0int
                } else {
                    1
                };
                &&& before.check.errors == errors + mismatches
                &&& before.check.x == expected
                &&& after.check.errors == count
                &&& after.reports == if matched {
                    before.reports
                } else {
                    before.reports.push(report)
                }
                &&& after.stopped <==> count > MAX_ERROR_CNT
                &&& after.check.x == stream_byte(x, drawn + if after.stopped {
                    0int
                } else {
                    1
                })
            }
        }),
    decreases bytes.len(),
{
    let start = read_task_start(x, errors);
    let before = read_task_bytes(uart_irqn, start, bytes);
    let moved = intr_mismatches(x, bytes).0;
    if bytes.len() > 0 {
        law_read_task_checks_each_byte(uart_irqn, x, errors, bytes.drop_last(), bytes.last());
        assert(bytes.drop_last().push(bytes.last()) =~= bytes);
    }
    lemma_in_step(uart_irqn, start, bytes);
    assert(bytes.push(byte).drop_last() =~= bytes);
    lemma_stream_byte_after(x, moved + 1int, 0);
    lemma_stream_byte_after(x, moved + 2int, 0);
    reveal_with_fuel(catch_up, 3);
    reveal_with_fuel(skip_reports, 3);
    assert(before.reports + Seq::<Message>::empty() =~= before.reports);
    let report = Message::TaskError {
        uart_irqn,
        error_count: before.check.errors as usize,
        expected: before.check.expect,
        received: byte,
    };
    let grown = before.reports.push(report);
    assert(before.reports + (seq![report] + Seq::<Message>::empty()) =~= grown);
}

/// A read task always expects the byte that its generator yielded last.
proof fn lemma_in_step(uart_irqn: u16, s: ReadTaskState, bytes: Seq<u8>)
    requires
        s.check.expect == s.check.x,
    ensures
        ({
            let end = read_task_bytes(uart_irqn, s, bytes);
            end.check.expect == end.check.x
        }),
    decreases bytes.len(),
{
    if bytes.len() > 0 {
        lemma_in_step(uart_irqn, s, bytes.drop_last());
        reveal_with_fuel(catch_up, 3);
    }
}

} // verus!
