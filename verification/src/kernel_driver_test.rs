//! The test that goes through the kernel's serial driver, one block at a time.
use vstd::prelude::*;

use crate::check::{
    kept_bytes, law_batches_do_not_matter, law_expected_bytes_cause_no_error,
    law_lost_bytes_cost_one_error_each, lost_count, lost_singly, take_bytes, CheckState,
    StreamCheck,
};
use crate::device::{Action, Reply};
use crate::machine::{driven, lemma_arming, run, timer_armed, Machine, TimerStage};
use crate::params::{check_deadline, deadline_fits, test_deadline, HALF_FIFO_DEPTH, TEST_TIME_US};
use crate::rng::{
    advanced, law_stream_concatenates, lemma_stream_byte_after, stream, stream_byte, IncOneRng,
};

verus! {

/// How long the test lets stale input settle, in milliseconds.
pub const SETTLE_MS: usize = 20;

#[derive(Clone, Copy, Debug, PartialEq, Eq)]
pub enum KernelPhase {
    Drain,
    Settle,
    ReadTime,
    Arm { deadline: isize },
    CheckTimeout,
    Write,
    Read,
    Done,
}

/// The state of the test.
pub struct KernelState {
    pub phase: KernelPhase,
    pub fd: usize,
    pub tx: u8,
    pub next_tx: u8,
    pub check: CheckState,
    /// The block that was filled last.
    pub block: Seq<u8>,
    pub rx_count: int,
    pub tx_count: int,
}

/// The block that starts with `next_tx` and goes on with the draws of a generator in state `x`.
pub open spec fn block_from(next_tx: u8, x: u8) -> Seq<u8> {
    seq![next_tx] + stream(x, (HALF_FIFO_DEPTH - 1) as nat)
}

/// The test of the kernel's driver: first drains stale input, then writes blocks of the stream
/// and checks what it reads, until the timer fires.
#[derive(Clone, Copy, Debug, PartialEq, Eq)]
pub struct KernelDriverTest {
    phase: KernelPhase,
    fd: usize,
    tx: IncOneRng,
    next_tx: u8,
    check: StreamCheck,
    block: [u8; HALF_FIFO_DEPTH],
    rx_count: usize,
    tx_count: usize,
}

impl KernelDriverTest {
    pub open spec fn initial(serial_number: usize, tx: u8, rx: u8) -> KernelState {
        KernelState {
            phase: KernelPhase::Drain,
            fd: (serial_number + 1) as usize,
            tx: stream_byte(tx, 0),
            next_tx: stream_byte(tx, 0),
            check: CheckState { x: stream_byte(rx, 0), expect: stream_byte(rx, 0), errors: 0 },
            block: Seq::new(HALF_FIFO_DEPTH as nat, |i: int| 0u8),
            rx_count: 0,
            tx_count: 0,
        }
    }

    /// The test of the port with number `serial_number`, whose file descriptor is one more.
    pub fn new(serial_number: usize, tx_rng: IncOneRng, rx_rng: IncOneRng) -> (r: KernelDriverTest)
        requires
            serial_number < usize::MAX,
        ensures
            r.state() == KernelDriverTest::initial(serial_number, tx_rng.x, rx_rng.x),
            KernelDriverTest::inv(r.state()),
    {
        let mut tx = tx_rng;
        let mut rng = rx_rng;
        let next_tx: u8 = tx.next_u8();
        let expect: u8 = rng.next_u8();
        let r = KernelDriverTest {
            phase: KernelPhase::Drain,
            fd: serial_number + 1,
            tx,
            next_tx,
            check: StreamCheck { rng, expect, errors: 0 },
            block: [0u8; HALF_FIFO_DEPTH],
            rx_count: 0,
            tx_count: 0,
        };
        assert(r.block@ =~= Seq::new(HALF_FIFO_DEPTH as nat, |i: int| 0u8));
        r
    }

    /// The block to be written by `Action::WriteBlock`.
    pub fn block(&self) -> (r: [u8; HALF_FIFO_DEPTH])
        ensures
            r@ == self.state().block,
    {
        self.block
    }

    /// The counts of received bytes, sent bytes and errors.
    pub fn result(&self) -> (r: (usize, usize, usize))
        ensures
            r.0 == self.state().rx_count,
            r.1 == self.state().tx_count,
            r.2 == self.state().check.errors,
    {
        (self.rx_count, self.tx_count, self.check.errors)
    }

    /// The generators of sent and of expected bytes, as the test has left them.
    pub fn rngs(&self) -> (r: (IncOneRng, IncOneRng))
        ensures
            r.0.x == self.state().tx,
            r.1.x == self.state().check.x,
    {
        (self.tx, self.check.rng)
    }

    /// Fills the block with the bytes to send next.
    fn fill_block(&mut self)
        ensures
            final(self).state() == (KernelState {
                tx: advanced(old(self).tx.x, HALF_FIFO_DEPTH as int),
                next_tx: advanced(old(self).tx.x, HALF_FIFO_DEPTH as int),
                block: block_from(old(self).next_tx, old(self).tx.x),
                ..old(self).state()
            }),
    {
        let ghost x = self.tx.x;
        let ghost first = self.next_tx;
        let mut i: usize = 0;
        while i < HALF_FIFO_DEPTH
            invariant
                i <= HALF_FIFO_DEPTH,
                self.tx.x == advanced(x, i as int),
                self.next_tx == if i == 0 { first } else { self.tx.x },
                forall|k: int| 0 <= k < i ==> self.block@[k] == block_from(first, x)[k],
                self.phase == old(self).phase,
                self.fd == old(self).fd,
                self.check == old(self).check,
                self.rx_count == old(self).rx_count,
                self.tx_count == old(self).tx_count,
            decreases HALF_FIFO_DEPTH - i,
        {
            proof {
                lemma_stream_byte_after(x, i as int, 0);
            }
            assert(i > 0 ==> block_from(first, x)[i as int] == stream_byte(x, i - 1));
            self.block[i] = self.next_tx;
            self.next_tx = self.tx.next_u8();
            i += 1;
        }
        assert(self.block@ =~= block_from(first, x));
    }
}

impl Machine for KernelDriverTest {
    type State = KernelState;

    closed spec fn state(&self) -> KernelState {
        KernelState {
            phase: self.phase,
            fd: self.fd,
            tx: self.tx.x,
            next_tx: self.next_tx,
            check: self.check@,
            block: self.block@,
            rx_count: self.rx_count as int,
            tx_count: self.tx_count as int,
        }
    }

    open spec fn inv(s: KernelState) -> bool {
        &&& s.next_tx == s.tx
        &&& s.check.expect == s.check.x
        &&& s.block.len() == HALF_FIFO_DEPTH
    }

    open spec fn finished(s: KernelState) -> bool {
        s.phase is Done
    }

    open spec fn action_of(s: KernelState) -> Action {
        match s.phase {
            KernelPhase::Drain => Action::ReadBlock(s.fd),
            KernelPhase::Settle => Action::Sleep(SETTLE_MS),
            KernelPhase::ReadTime => Action::GetTime,
            KernelPhase::Arm { deadline } => Action::SetTimer(deadline),
            KernelPhase::CheckTimeout => Action::LoadTimeout,
            KernelPhase::Write => Action::WriteBlock(s.fd),
            KernelPhase::Read => Action::ReadBlock(s.fd),
            KernelPhase::Done => arbitrary(),
        }
    }

    open spec fn accepts(s: KernelState, reply: Reply) -> bool {
        &&& reply.kind() == Self::action_of(s).wants()
        &&& match (s.phase, reply) {
            (KernelPhase::ReadTime, Reply::Word(time)) => deadline_fits(time),
            (KernelPhase::Write, Reply::Word(n)) => s.tx_count + n <= usize::MAX,
            (KernelPhase::Read, Reply::Block { count, buf }) => {
                &&& count <= HALF_FIFO_DEPTH
                &&& s.rx_count + count <= usize::MAX
                &&& count > 0 ==> take_bytes(s.check, buf@.take(count as int)).errors <= usize::MAX
            },
            _ => true,
        }
    }

    open spec fn next(s: KernelState, reply: Reply) -> KernelState {
        match (s.phase, reply) {
            (KernelPhase::Drain, Reply::Block { count, .. }) => if count > 0 {
                s
            } else {
                KernelState { phase: KernelPhase::Settle, ..s }
            },
            (KernelPhase::Settle, _) => KernelState { phase: KernelPhase::ReadTime, ..s },
            (KernelPhase::ReadTime, Reply::Word(time)) => KernelState {
                phase: KernelPhase::Arm { deadline: (time * 1000 + TEST_TIME_US) as isize },
                ..s
            },
            (KernelPhase::Arm { .. }, _) => KernelState { phase: KernelPhase::CheckTimeout, ..s },
            (KernelPhase::CheckTimeout, Reply::Flag(false)) => KernelState {
                phase: KernelPhase::Write,
                tx: advanced(s.tx, HALF_FIFO_DEPTH as int),
                next_tx: advanced(s.tx, HALF_FIFO_DEPTH as int),
                block: block_from(s.next_tx, s.tx),
                ..s
            },
            (KernelPhase::CheckTimeout, _) => KernelState { phase: KernelPhase::Done, ..s },
            (KernelPhase::Write, Reply::Word(n)) => KernelState {
                phase: KernelPhase::Read,
                tx_count: if n > 0 {
                    s.tx_count + n
                } else {
                    s.tx_count
                },
                ..s
            },
            (KernelPhase::Read, Reply::Block { count, buf }) => if count > 0 {
                KernelState {
                    phase: KernelPhase::CheckTimeout,
                    check: take_bytes(s.check, buf@.take(count as int)),
                    rx_count: s.rx_count + count,
                    ..s
                }
            } else {
                KernelState { phase: KernelPhase::CheckTimeout, ..s }
            },
            _ => s,
        }
    }

    fn is_finished(&self) -> (b: bool) {
        match self.phase {
            KernelPhase::Done => true,
            _ => false,
        }
    }

    fn action(&self) -> (a: Action) {
        match self.phase {
            KernelPhase::Drain => Action::ReadBlock(self.fd),
            KernelPhase::Settle => Action::Sleep(SETTLE_MS),
            KernelPhase::ReadTime => Action::GetTime,
            KernelPhase::Arm { deadline } => Action::SetTimer(deadline),
            KernelPhase::CheckTimeout => Action::LoadTimeout,
            KernelPhase::Write => Action::WriteBlock(self.fd),
            KernelPhase::Read => Action::ReadBlock(self.fd),
            KernelPhase::Done => Action::LoadTimeout,
        }
    }

    fn admits(&self, reply: &Reply) -> (b: bool) {
        if reply.reply_kind() != self.action().wanted_kind() {
            return false;
        }
        match (self.phase, *reply) {
            (KernelPhase::ReadTime, Reply::Word(time)) => check_deadline(time),
            (KernelPhase::Write, Reply::Word(n)) => n <= 0 || n as usize <= usize::MAX
                - self.tx_count,
            (KernelPhase::Read, Reply::Block { count, buf }) => count <= 0 || (count as usize
                <= HALF_FIFO_DEPTH && count as usize <= usize::MAX - self.rx_count
                && self.check.can_take(buf.as_slice(), count as usize)),
            _ => true,
        }
    }

    fn advance(&mut self, reply: Reply) {
        match (self.phase, reply) {
            (KernelPhase::Drain, Reply::Block { count, buf: _ }) => {
                if count <= 0 {
                    self.phase = KernelPhase::Settle;
                }
            },
            (KernelPhase::Settle, _) => {
                self.phase = KernelPhase::ReadTime;
            },
            (KernelPhase::ReadTime, Reply::Word(time)) => {
                self.phase = KernelPhase::Arm { deadline: test_deadline(time) };
            },
            (KernelPhase::Arm { deadline: _ }, _) => {
                self.phase = KernelPhase::CheckTimeout;
            },
            (KernelPhase::CheckTimeout, Reply::Flag(false)) => {
                self.fill_block();
                self.phase = KernelPhase::Write;
            },
            (KernelPhase::CheckTimeout, _) => {
                self.phase = KernelPhase::Done;
            },
            (KernelPhase::Write, Reply::Word(n)) => {
                if n > 0 {
                    self.tx_count += n as usize;
                }
                self.phase = KernelPhase::Read;
            },
            (KernelPhase::Read, Reply::Block { count, buf }) => {
                if count > 0 {
                    self.check.take_bytes(buf.as_slice(), count as usize);
                    self.rx_count += count as usize;
                }
                self.phase = KernelPhase::CheckTimeout;
            },
            _ => {},
        }
        proof {
            Self::lemma_next_keeps_inv(old(self).state(), reply);
        }
    }

    proof fn lemma_next_keeps_inv(s: KernelState, reply: Reply) {
        if let (KernelPhase::Read, Reply::Block { count, buf }) = (s.phase, reply) {
            lemma_take_bytes_in_step(s.check, buf@.take(count as int));
        }
    }
}

/// A check always expects the byte that its generator yielded last.
proof fn lemma_take_bytes_in_step(s: CheckState, bytes: Seq<u8>)
    requires
        s.expect == s.x,
    ensures
        take_bytes(s, bytes).expect == take_bytes(s, bytes).x,
    decreases bytes.len(),
{
    if bytes.len() > 0 {
        lemma_take_bytes_in_step(s, bytes.drop_last());
    }
}

/// The bytes of all blocks that were handed to the driver.
pub open spec fn sent_blocks(s: KernelState, replies: Seq<Reply>) -> Seq<u8>
    decreases replies.len(),
{
    if replies.len() == 0 {
        Seq::empty()
    } else {
        let before = run::<KernelDriverTest>(s, replies.drop_last());
        let earlier = sent_blocks(s, replies.drop_last());
        if before.phase is Write {
            earlier + before.block
        } else {
            earlier
        }
    }
}

/// The bytes that were read, without those that were drained at the start.
pub open spec fn read_blocks(s: KernelState, replies: Seq<Reply>) -> Seq<u8>
    decreases replies.len(),
{
    if replies.len() == 0 {
        Seq::empty()
    } else {
        let before = run::<KernelDriverTest>(s, replies.drop_last());
        let earlier = read_blocks(s, replies.drop_last());
        match (before.phase, replies.last()) {
            (KernelPhase::Read, Reply::Block { count, buf }) if count > 0 => earlier + buf@.take(
                count as int,
            ),
            _ => earlier,
        }
    }
}

/// The blocks that are handed to the driver are consecutive pieces of the sender's stream,
/// whatever the driver makes of them.
pub proof fn law_kernel_test_sends_the_stream(
    serial_number: usize,
    tx: u8,
    rx: u8,
    replies: Seq<Reply>,
)
    requires
        driven::<KernelDriverTest>(KernelDriverTest::initial(serial_number, tx, rx), replies),
    ensures
        ({
            let sent = sent_blocks(KernelDriverTest::initial(serial_number, tx, rx), replies);
            sent == stream(tx, sent.len())
        }),
{
    lemma_sending(serial_number, tx, rx, replies);
}

proof fn lemma_sending(serial_number: usize, tx: u8, rx: u8, replies: Seq<Reply>)
    requires
        driven::<KernelDriverTest>(KernelDriverTest::initial(serial_number, tx, rx), replies),
    ensures
        ({
            let start = KernelDriverTest::initial(serial_number, tx, rx);
            let now = run::<KernelDriverTest>(start, replies);
            let sent = sent_blocks(start, replies);
            &&& sent == stream(tx, sent.len())
            &&& now.next_tx == now.tx
            &&& if now.phase is Write {
                &&& now.block == stream(advanced(tx, sent.len() as int), HALF_FIFO_DEPTH as nat)
                &&& now.tx == advanced(tx, sent.len() + HALF_FIFO_DEPTH + 1)
            } else {
                now.tx == advanced(tx, sent.len() + 1int)
            }
        }),
    decreases replies.len(),
{
    let start = KernelDriverTest::initial(serial_number, tx, rx);
    if replies.len() == 0 {
        assert(sent_blocks(start, replies) =~= stream(tx, 0));
    } else {
        lemma_sending(serial_number, tx, rx, replies.drop_last());
        let before = run::<KernelDriverTest>(start, replies.drop_last());
        let now = run::<KernelDriverTest>(start, replies);
        let sent = sent_blocks(start, replies.drop_last());
        if before.phase is Write {
            law_stream_concatenates(tx, sent.len(), HALF_FIFO_DEPTH as nat);
        }
        if now.phase is Write {
            let from = advanced(tx, sent.len() as int);
            lemma_stream_byte_after(tx, sent.len() + 1int, HALF_FIFO_DEPTH as int);
            assert forall|k: int| 0 <= k < HALF_FIFO_DEPTH implies #[trigger] now.block[k]
                == stream_byte(from, k) by {
                lemma_stream_byte_after(tx, sent.len() as int, k);
                if k > 0 {
                    lemma_stream_byte_after(tx, sent.len() + 1int, k - 1);
                }
            }
            assert(now.block =~= stream(from, HALF_FIFO_DEPTH as nat));
        }
    }
}

/// The error count is that of checking all bytes that were read, in order, and the receive count
/// is their number, however they were spread over blocks.
pub proof fn law_kernel_test_checks_every_byte(
    serial_number: usize,
    tx: u8,
    rx: u8,
    replies: Seq<Reply>,
)
    requires
        driven::<KernelDriverTest>(KernelDriverTest::initial(serial_number, tx, rx), replies),
    ensures
        ({
            let start = KernelDriverTest::initial(serial_number, tx, rx);
            let now = run::<KernelDriverTest>(start, replies);
            let read = read_blocks(start, replies);
            &&& now.check == take_bytes(start.check, read)
            &&& now.rx_count == read.len()
        }),
    decreases replies.len(),
{
    let start = KernelDriverTest::initial(serial_number, tx, rx);
    if replies.len() > 0 {
        law_kernel_test_checks_every_byte(serial_number, tx, rx, replies.drop_last());
        let before = run::<KernelDriverTest>(start, replies.drop_last());
        if let (KernelPhase::Read, Reply::Block { count, buf }) = (before.phase, replies.last()) {
            if count > 0 {
                law_batches_do_not_matter(
                    start.check,
                    read_blocks(start, replies.drop_last()),
                    buf@.take(count as int),
                );
            }
        }
    }
}

/// How many bytes the driver said that it took, over all blocks that were handed to it. A reply
/// that is not positive says that it took none.
pub open spec fn accepted_bytes(s: KernelState, replies: Seq<Reply>) -> int
    decreases replies.len(),
{
    if replies.len() == 0 {
        0
    } else {
        let before = run::<KernelDriverTest>(s, replies.drop_last());
        let earlier = accepted_bytes(s, replies.drop_last());
        match (KernelDriverTest::action_of(before), replies.last()) {
            (Action::WriteBlock(_), Reply::Word(n)) if n > 0 => earlier + n,
            _ => earlier,
        }
    }
}

/// The send count is the number of bytes that the driver said it took.
pub proof fn law_kernel_test_counts_accepted_bytes(
    serial_number: usize,
    tx: u8,
    rx: u8,
    replies: Seq<Reply>,
)
    requires
        driven::<KernelDriverTest>(KernelDriverTest::initial(serial_number, tx, rx), replies),
    ensures
        ({
            let start = KernelDriverTest::initial(serial_number, tx, rx);
            run::<KernelDriverTest>(start, replies).tx_count == accepted_bytes(start, replies)
        }),
    decreases replies.len(),
{
    if replies.len() > 0 {
        law_kernel_test_counts_accepted_bytes(serial_number, tx, rx, replies.drop_last());
    }
}

/// Over a link that loses and changes nothing the test counts no errors: if what was read is the
/// beginning of the peer's stream, the error count is zero.
pub proof fn law_kernel_test_clean_link_has_no_errors(
    serial_number: usize,
    tx: u8,
    rx: u8,
    replies: Seq<Reply>,
)
    requires
        driven::<KernelDriverTest>(KernelDriverTest::initial(serial_number, tx, rx), replies),
        ({
            let read = read_blocks(KernelDriverTest::initial(serial_number, tx, rx), replies);
            read == stream(rx, read.len())
        }),
    ensures
        run::<KernelDriverTest>(
            KernelDriverTest::initial(serial_number, tx, rx),
            replies,
        ).check.errors == 0,
{
    let start = KernelDriverTest::initial(serial_number, tx, rx);
    let read = read_blocks(start, replies);
    law_kernel_test_checks_every_byte(serial_number, tx, rx, replies);
    law_expected_bytes_cause_no_error(start.check, read.len());
    let expected = Seq::new(read.len(), |k: int| advanced(start.check.x, k));
    assert forall|k: int| 0 <= k < read.len() implies read[k] == expected[k] by {
        lemma_stream_byte_after(rx, 1, k);
    }
    assert(read =~= expected);
}

/// Over a link that loses bytes singly, the error count is the number of lost bytes: if what was
/// read is the beginning of the peer's stream without some bytes, no two of them neighbours and
/// the last one not among them, then the error count is how many they are.
pub proof fn law_kernel_test_counts_lost_bytes(
    serial_number: usize,
    tx: u8,
    rx: u8,
    replies: Seq<Reply>,
    keep: Seq<bool>,
)
    requires
        driven::<KernelDriverTest>(KernelDriverTest::initial(serial_number, tx, rx), replies),
        lost_singly(keep),
        read_blocks(KernelDriverTest::initial(serial_number, tx, rx), replies) == kept_bytes(
            stream_byte(rx, 0),
            keep,
        ),
    ensures
        run::<KernelDriverTest>(
            KernelDriverTest::initial(serial_number, tx, rx),
            replies,
        ).check.errors == lost_count(keep),
{
    let start = KernelDriverTest::initial(serial_number, tx, rx);
    law_kernel_test_checks_every_byte(serial_number, tx, rx, replies);
    law_lost_bytes_cost_one_error_each(start.check, keep);
}

/// How far a phase has come with arming the timer.
spec fn timer_stage(phase: KernelPhase) -> TimerStage {
    match phase {
        KernelPhase::Drain | KernelPhase::Settle | KernelPhase::ReadTime => TimerStage::Before,
        KernelPhase::Arm { deadline } => TimerStage::Arming(deadline),
        _ => TimerStage::After,
    }
}

/// The test reads the time once and sets the timer once, to the end of its time after that, and
/// both before its loop.
pub proof fn law_kernel_test_arms_its_timer(
    serial_number: usize,
    tx: u8,
    rx: u8,
    replies: Seq<Reply>,
)
    requires
        driven::<KernelDriverTest>(KernelDriverTest::initial(serial_number, tx, rx), replies),
    ensures
        ({
            let start = KernelDriverTest::initial(serial_number, tx, rx);
            let now = run::<KernelDriverTest>(start, replies);
            now.phase is CheckTimeout || KernelDriverTest::finished(now)
                ==> timer_armed::<KernelDriverTest>(start, replies)
        }),
{
    lemma_arming::<KernelDriverTest>(
        KernelDriverTest::initial(serial_number, tx, rx),
        replies,
        |t: KernelState| timer_stage(t.phase),
    );
}

} // verus!
