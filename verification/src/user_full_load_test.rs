//! The test that keeps one direction of the link fully loaded.
use vstd::prelude::*;

use crate::device::{is_written, Action, Message, Reply, TraceTag};
use crate::machine::{
    answered, driven, law_invariant_holds_throughout, lemma_arming, lemma_closing, received, run,
    taken_byte, timer_armed, written, Machine, TimerStage,
};
use crate::params::{
    check_deadline, deadline_fits, reports_late, test_deadline, BAUD_RATE, LATE_REPORT_MS,
    SERIAL_POLL_READ, SERIAL_POLL_WRITE, TEST_TIME_US,
};

verus! {

/// How many words make a batch.
pub const FULL_LOAD_BATCH: u8 = 16;

/// The word that the loading end sends.
pub const TX_WORD: u8 = 0x75;

/// The word that acknowledges a batch.
pub const ACK_WORD: u8 = 0x65;

#[derive(Clone, Copy, Debug, PartialEq, Eq)]
pub enum FullLoadPhase {
    Claim,
    Open { claim: isize },
    InitHardware { claim: isize },
    Announce { claim: isize },
    ReadTime,
    Arm { deadline: isize },
    CheckTimeout,
    TraceReadEnter,
    SendWord { left: u8 },
    ReadAck,
    LineErrors,
    Receive,
    CountLineErrors,
    SendAck,
    TraceReadExit,
    TraceWriteEnter,
    Wait,
    CountBytes,
    Done,
}

/// The full load test: an end with an even interrupt line sends batches of one word, and the
/// other end acknowledges whenever it has received at least a batch. A port that does not take a
/// word, and any other word on the line, are outside of what the test can deal with.
#[derive(Clone, Copy, Debug, PartialEq, Eq)]
pub struct UserFullLoadTest {
    pub phase: FullLoadPhase,
    pub uart_irqn: u16,
    /// Words received since the last acknowledgement.
    pub rx_cnt: i32,
    pub error_count: usize,
    pub rx_count: usize,
    pub tx_count: usize,
}

impl UserFullLoadTest {
    pub open spec fn initial(uart_irqn: u16) -> UserFullLoadTest {
        UserFullLoadTest {
            phase: FullLoadPhase::Claim,
            uart_irqn,
            rx_cnt: 0,
            error_count: 0,
            rx_count: 0,
            tx_count: 0,
        }
    }

    /// The test of the port behind interrupt line `uart_irqn`.
    pub fn new(uart_irqn: u16) -> (r: UserFullLoadTest)
        ensures
            r == UserFullLoadTest::initial(uart_irqn),
            UserFullLoadTest::inv(r),
    {
        UserFullLoadTest {
            phase: FullLoadPhase::Claim,
            uart_irqn,
            rx_cnt: 0,
            error_count: 0,
            rx_count: 0,
            tx_count: 0,
        }
    }

    /// The counts of received bytes, sent bytes and line errors, once the test is finished.
    pub fn result(&self) -> (r: (usize, usize, usize))
        ensures
            r == (self.rx_count, self.tx_count, self.error_count),
    {
        (self.rx_count, self.tx_count, self.error_count)
    }

    /// The same test in another phase.
    pub open spec fn at(self, phase: FullLoadPhase) -> UserFullLoadTest {
        UserFullLoadTest { phase, ..self }
    }
}

impl Machine for UserFullLoadTest {
    type State = UserFullLoadTest;

    open spec fn state(&self) -> UserFullLoadTest {
        *self
    }

    open spec fn inv(s: UserFullLoadTest) -> bool {
        &&& s.rx_cnt >= 0
        &&& match s.phase {
            FullLoadPhase::SendWord { left } => 1 <= left <= FULL_LOAD_BATCH && s.uart_irqn % 2
                == 0,
            FullLoadPhase::ReadAck | FullLoadPhase::LineErrors => s.uart_irqn % 2 == 0,
            FullLoadPhase::Receive | FullLoadPhase::CountLineErrors => s.uart_irqn % 2 == 1,
            FullLoadPhase::SendAck => s.uart_irqn % 2 == 1 && s.rx_cnt >= FULL_LOAD_BATCH,
            _ => true,
        }
    }

    open spec fn finished(s: UserFullLoadTest) -> bool {
        s.phase is Done
    }

    open spec fn action_of(s: UserFullLoadTest) -> Action {
        match s.phase {
            FullLoadPhase::Claim => Action::ClaimExtInt(s.uart_irqn as usize),
            FullLoadPhase::Open { .. } => Action::OpenSerial(s.uart_irqn),
            FullLoadPhase::InitHardware { .. } => Action::HardwareInit(BAUD_RATE),
            FullLoadPhase::Announce { claim } => Action::Print(Message::RawPollingStart { claim }),
            FullLoadPhase::ReadTime => Action::GetTime,
            FullLoadPhase::Arm { deadline } => Action::SetTimer(deadline),
            FullLoadPhase::CheckTimeout => Action::LoadTimeout,
            FullLoadPhase::TraceReadEnter => Action::Trace(TraceTag::CallEnter(SERIAL_POLL_READ)),
            FullLoadPhase::SendWord { .. } => Action::TryWrite(TX_WORD),
            FullLoadPhase::ReadAck => Action::TryRead,
            FullLoadPhase::LineErrors => Action::HandleLineErrors,
            FullLoadPhase::Receive => Action::TryRead,
            FullLoadPhase::CountLineErrors => Action::HandleLineErrors,
            FullLoadPhase::SendAck => Action::TryWrite(ACK_WORD),
            FullLoadPhase::TraceReadExit => Action::Trace(TraceTag::CallExit(SERIAL_POLL_READ)),
            FullLoadPhase::TraceWriteEnter => Action::Trace(TraceTag::CallEnter(SERIAL_POLL_WRITE)),
            FullLoadPhase::Wait => Action::Sleep(LATE_REPORT_MS),
            FullLoadPhase::CountBytes => Action::ByteCounts,
            FullLoadPhase::Done => arbitrary(),
        }
    }

    open spec fn accepts(s: UserFullLoadTest, reply: Reply) -> bool {
        &&& reply.kind() == Self::action_of(s).wants()
        &&& match (s.phase, reply) {
            (FullLoadPhase::ReadTime, Reply::Word(time)) => deadline_fits(time),
            (FullLoadPhase::SendWord { .. }, Reply::Wrote(outcome)) => outcome is Written,
            (FullLoadPhase::SendAck, Reply::Wrote(outcome)) => outcome is Written,
            (FullLoadPhase::ReadAck, Reply::Read(Some(byte))) => byte == ACK_WORD,
            (FullLoadPhase::Receive, Reply::Read(Some(byte))) => byte == TX_WORD && s.rx_cnt
                < i32::MAX,
            (FullLoadPhase::CountLineErrors, Reply::Flag(true)) => s.error_count < usize::MAX,
            _ => true,
        }
    }

    open spec fn next(s: UserFullLoadTest, reply: Reply) -> UserFullLoadTest {
        match (s.phase, reply) {
            (FullLoadPhase::Claim, Reply::Word(claim)) => s.at(FullLoadPhase::Open { claim }),
            (FullLoadPhase::Open { claim }, _) => s.at(FullLoadPhase::InitHardware { claim }),
            (FullLoadPhase::InitHardware { claim }, _) => s.at(FullLoadPhase::Announce { claim }),
            (FullLoadPhase::Announce { .. }, _) => s.at(FullLoadPhase::ReadTime),
            (FullLoadPhase::ReadTime, Reply::Word(time)) => s.at(
                FullLoadPhase::Arm { deadline: (time * 1000 + TEST_TIME_US) as isize },
            ),
            (FullLoadPhase::Arm { .. }, _) => s.at(FullLoadPhase::CheckTimeout),
            (FullLoadPhase::CheckTimeout, Reply::Flag(false)) => s.at(
                FullLoadPhase::TraceReadEnter,
            ),
            (FullLoadPhase::CheckTimeout, _) => if reports_late(s.uart_irqn) {
                s.at(FullLoadPhase::Wait)
            } else {
                s.at(FullLoadPhase::CountBytes)
            },
            (FullLoadPhase::TraceReadEnter, _) => if s.uart_irqn % 2 == 0 {
                s.at(FullLoadPhase::SendWord { left: FULL_LOAD_BATCH })
            } else {
                s.at(FullLoadPhase::Receive)
            },
            (FullLoadPhase::SendWord { left }, _) => if left > 1 {
                s.at(FullLoadPhase::SendWord { left: (left - 1) as u8 })
            } else {
                s.at(FullLoadPhase::ReadAck)
            },
            (FullLoadPhase::ReadAck, _) => s.at(FullLoadPhase::LineErrors),
            (FullLoadPhase::LineErrors, _) => s.at(FullLoadPhase::TraceReadExit),
            (FullLoadPhase::Receive, Reply::Read(Some(_))) => UserFullLoadTest {
                phase: FullLoadPhase::CountLineErrors,
                rx_cnt: (s.rx_cnt + 1) as i32,
                ..s
            },
            (FullLoadPhase::Receive, _) => if s.rx_cnt >= FULL_LOAD_BATCH {
                s.at(FullLoadPhase::SendAck)
            } else {
                s.at(FullLoadPhase::TraceReadExit)
            },
            (FullLoadPhase::CountLineErrors, Reply::Flag(true)) => UserFullLoadTest {
                phase: FullLoadPhase::Receive,
                error_count: (s.error_count + 1) as usize,
                ..s
            },
            (FullLoadPhase::CountLineErrors, _) => s.at(FullLoadPhase::Receive),
            (FullLoadPhase::SendAck, _) => UserFullLoadTest {
                phase: FullLoadPhase::TraceReadExit,
                rx_cnt: 0,
                ..s
            },
            (FullLoadPhase::TraceReadExit, _) => s.at(FullLoadPhase::TraceWriteEnter),
            (FullLoadPhase::TraceWriteEnter, _) => s.at(FullLoadPhase::CheckTimeout),
            (FullLoadPhase::Wait, _) => s.at(FullLoadPhase::CountBytes),
            (FullLoadPhase::CountBytes, Reply::Bytes { rx, tx }) => UserFullLoadTest {
                phase: FullLoadPhase::Done,
                rx_count: rx,
                tx_count: tx,
                ..s
            },
            _ => s,
        }
    }

    fn is_finished(&self) -> (b: bool) {
        match self.phase {
            FullLoadPhase::Done => true,
            _ => false,
        }
    }

    fn action(&self) -> (a: Action) {
        match self.phase {
            FullLoadPhase::Claim => Action::ClaimExtInt(self.uart_irqn as usize),
            FullLoadPhase::Open { claim: _ } => Action::OpenSerial(self.uart_irqn),
            FullLoadPhase::InitHardware { claim: _ } => Action::HardwareInit(BAUD_RATE),
            FullLoadPhase::Announce { claim } => Action::Print(Message::RawPollingStart { claim }),
            FullLoadPhase::ReadTime => Action::GetTime,
            FullLoadPhase::Arm { deadline } => Action::SetTimer(deadline),
            FullLoadPhase::CheckTimeout => Action::LoadTimeout,
            FullLoadPhase::TraceReadEnter => Action::Trace(TraceTag::CallEnter(SERIAL_POLL_READ)),
            FullLoadPhase::SendWord { left: _ } => Action::TryWrite(TX_WORD),
            FullLoadPhase::ReadAck => Action::TryRead,
            FullLoadPhase::LineErrors => Action::HandleLineErrors,
            FullLoadPhase::Receive => Action::TryRead,
            FullLoadPhase::CountLineErrors => Action::HandleLineErrors,
            FullLoadPhase::SendAck => Action::TryWrite(ACK_WORD),
            FullLoadPhase::TraceReadExit => Action::Trace(TraceTag::CallExit(SERIAL_POLL_READ)),
            FullLoadPhase::TraceWriteEnter => Action::Trace(TraceTag::CallEnter(SERIAL_POLL_WRITE)),
            FullLoadPhase::Wait => Action::Sleep(LATE_REPORT_MS),
            FullLoadPhase::CountBytes => Action::ByteCounts,
            FullLoadPhase::Done => Action::ByteCounts,
        }
    }

    fn admits(&self, reply: &Reply) -> (b: bool) {
        if reply.reply_kind() != self.action().wanted_kind() {
            return false;
        }
        match (self.phase, *reply) {
            (FullLoadPhase::ReadTime, Reply::Word(time)) => check_deadline(time),
            (FullLoadPhase::SendWord { left: _ }, Reply::Wrote(outcome)) => is_written(outcome),
            (FullLoadPhase::SendAck, Reply::Wrote(outcome)) => is_written(outcome),
            (FullLoadPhase::ReadAck, Reply::Read(Some(byte))) => byte == ACK_WORD,
            (FullLoadPhase::Receive, Reply::Read(Some(byte))) => byte == TX_WORD && self.rx_cnt
                < i32::MAX,
            (FullLoadPhase::CountLineErrors, Reply::Flag(true)) => self.error_count < usize::MAX,
            _ => true,
        }
    }

    fn advance(&mut self, reply: Reply) {
        match (self.phase, reply) {
            (FullLoadPhase::Claim, Reply::Word(claim)) => {
                self.phase = FullLoadPhase::Open { claim };
            },
            (FullLoadPhase::Open { claim }, _) => {
                self.phase = FullLoadPhase::InitHardware { claim };
            },
            (FullLoadPhase::InitHardware { claim }, _) => {
                self.phase = FullLoadPhase::Announce { claim };
            },
            (FullLoadPhase::Announce { claim: _ }, _) => {
                self.phase = FullLoadPhase::ReadTime;
            },
            (FullLoadPhase::ReadTime, Reply::Word(time)) => {
                self.phase = FullLoadPhase::Arm { deadline: test_deadline(time) };
            },
            (FullLoadPhase::Arm { deadline: _ }, _) => {
                self.phase = FullLoadPhase::CheckTimeout;
            },
            (FullLoadPhase::CheckTimeout, Reply::Flag(false)) => {
                self.phase = FullLoadPhase::TraceReadEnter;
            },
            (FullLoadPhase::CheckTimeout, _) => {
                if self.uart_irqn == 14 || self.uart_irqn == 6 {
                    self.phase = FullLoadPhase::Wait;
                } else {
                    self.phase = FullLoadPhase::CountBytes;
                }
            },
            (FullLoadPhase::TraceReadEnter, _) => {
                let irqn: u16 = self.uart_irqn;
                assert(irqn & 1 == irqn % 2) by (bit_vector);
                if irqn & 1 == 0 {
                    self.phase = FullLoadPhase::SendWord { left: FULL_LOAD_BATCH };
                } else {
                    self.phase = FullLoadPhase::Receive;
                }
            },
            (FullLoadPhase::SendWord { left }, _) => {
                if left > 1 {
                    self.phase = FullLoadPhase::SendWord { left: left - 1 };
                } else {
                    self.phase = FullLoadPhase::ReadAck;
                }
            },
            (FullLoadPhase::ReadAck, _) => {
                self.phase = FullLoadPhase::LineErrors;
            },
            (FullLoadPhase::LineErrors, _) => {
                self.phase = FullLoadPhase::TraceReadExit;
            },
            (FullLoadPhase::Receive, Reply::Read(Some(_))) => {
                self.rx_cnt += 1;
                self.phase = FullLoadPhase::CountLineErrors;
            },
            (FullLoadPhase::Receive, _) => {
                if self.rx_cnt >= FULL_LOAD_BATCH as i32 {
                    self.phase = FullLoadPhase::SendAck;
                } else {
                    self.phase = FullLoadPhase::TraceReadExit;
                }
            },
            (FullLoadPhase::CountLineErrors, Reply::Flag(true)) => {
                self.error_count += 1;
                self.phase = FullLoadPhase::Receive;
            },
            (FullLoadPhase::CountLineErrors, _) => {
                self.phase = FullLoadPhase::Receive;
            },
            (FullLoadPhase::SendAck, _) => {
                self.rx_cnt = 0;
                self.phase = FullLoadPhase::TraceReadExit;
            },
            (FullLoadPhase::TraceReadExit, _) => {
                self.phase = FullLoadPhase::TraceWriteEnter;
            },
            (FullLoadPhase::TraceWriteEnter, _) => {
                self.phase = FullLoadPhase::CheckTimeout;
            },
            (FullLoadPhase::Wait, _) => {
                self.phase = FullLoadPhase::CountBytes;
            },
            (FullLoadPhase::CountBytes, Reply::Bytes { rx, tx }) => {
                self.rx_count = rx;
                self.tx_count = tx;
                self.phase = FullLoadPhase::Done;
            },
            _ => {},
        }
    }

    proof fn lemma_next_keeps_inv(s: UserFullLoadTest, reply: Reply) {
    }
}

proof fn lemma_words(uart_irqn: u16, replies: Seq<Reply>)
    requires
        driven::<UserFullLoadTest>(UserFullLoadTest::initial(uart_irqn), replies),
    ensures
        ({
            let start = UserFullLoadTest::initial(uart_irqn);
            let now = run::<UserFullLoadTest>(start, replies);
            let sent = written::<UserFullLoadTest>(start, replies);
            &&& now.uart_irqn == uart_irqn
            &&& forall|i: int|
                0 <= i < sent.len() ==> #[trigger] sent[i] == if uart_irqn % 2 == 0 {
                    TX_WORD
                } else {
                    ACK_WORD
                }
            &&& uart_irqn % 2 == 1 ==> FULL_LOAD_BATCH * sent.len() + now.rx_cnt <= received(
                replies,
            ).len()
        }),
    decreases replies.len(),
{
    let start = UserFullLoadTest::initial(uart_irqn);
    if replies.len() > 0 {
        lemma_words(uart_irqn, replies.drop_last());
        law_invariant_holds_throughout::<UserFullLoadTest>(start, replies.drop_last());
    }
}

/// The loading end sends nothing but its word, and the other end nothing but acknowledgements.
pub proof fn law_full_load_test_sends_one_word(uart_irqn: u16, replies: Seq<Reply>, i: int)
    requires
        driven::<UserFullLoadTest>(UserFullLoadTest::initial(uart_irqn), replies),
        0 <= i < written::<UserFullLoadTest>(
            UserFullLoadTest::initial(uart_irqn),
            replies,
        ).len(),
    ensures
        ({
            let sent = written::<UserFullLoadTest>(UserFullLoadTest::initial(uart_irqn), replies);
            sent[i] == if uart_irqn % 2 == 0 {
                TX_WORD
            } else {
                ACK_WORD
            }
        }),
{
    lemma_words(uart_irqn, replies);
}

/// How many words of the current round's batch are still to be sent in a phase.
spec fn words_left(phase: FullLoadPhase) -> nat {
    match phase {
        FullLoadPhase::TraceReadEnter => FULL_LOAD_BATCH as nat,
        FullLoadPhase::SendWord { left } => left as nat,
        _ => 0,
    }
}

proof fn lemma_rounds(uart_irqn: u16, replies: Seq<Reply>)
    requires
        driven::<UserFullLoadTest>(UserFullLoadTest::initial(uart_irqn), replies),
    ensures
        ({
            let start = UserFullLoadTest::initial(uart_irqn);
            let now = run::<UserFullLoadTest>(start, replies);
            let sent = written::<UserFullLoadTest>(start, replies);
            let rounds = answered::<UserFullLoadTest>(
                start,
                replies,
                Action::LoadTimeout,
                Reply::Flag(false),
            );
            let line_errors = answered::<UserFullLoadTest>(
                start,
                replies,
                Action::HandleLineErrors,
                Reply::Flag(true),
            );
            &&& now.uart_irqn == uart_irqn
            &&& uart_irqn % 2 == 0 ==> sent.len() + words_left(now.phase) == FULL_LOAD_BATCH
                * rounds
            &&& now.error_count == if uart_irqn % 2 == 0 {
                0
            } else {
                line_errors
            }
        }),
    decreases replies.len(),
{
    let start = UserFullLoadTest::initial(uart_irqn);
    if replies.len() > 0 {
        lemma_rounds(uart_irqn, replies.drop_last());
        law_invariant_holds_throughout::<UserFullLoadTest>(start, replies.drop_last());
    }
}

/// The loading end sends one batch in each round: whenever it checks the timer, and when it is
/// finished, it has sent a batch for each time that it found the timer had not fired.
pub proof fn law_full_load_test_sends_a_batch_per_round(uart_irqn: u16, replies: Seq<Reply>)
    requires
        driven::<UserFullLoadTest>(UserFullLoadTest::initial(uart_irqn), replies),
        uart_irqn % 2 == 0,
        ({
            let now = run::<UserFullLoadTest>(UserFullLoadTest::initial(uart_irqn), replies);
            now.phase is CheckTimeout || UserFullLoadTest::finished(now)
        }),
    ensures
        written::<UserFullLoadTest>(UserFullLoadTest::initial(uart_irqn), replies).len()
            == FULL_LOAD_BATCH * answered::<UserFullLoadTest>(
            UserFullLoadTest::initial(uart_irqn),
            replies,
            Action::LoadTimeout,
            Reply::Flag(false),
        ),
{
    lemma_rounds(uart_irqn, replies);
}

/// The error count of the acknowledging end is the number of times that the driver found line
/// errors, and that of the loading end is zero.
pub proof fn law_full_load_test_counts_line_errors(uart_irqn: u16, replies: Seq<Reply>)
    requires
        driven::<UserFullLoadTest>(UserFullLoadTest::initial(uart_irqn), replies),
    ensures
        run::<UserFullLoadTest>(UserFullLoadTest::initial(uart_irqn), replies).error_count
            == if uart_irqn % 2 == 0 {
            0
        } else {
            answered::<UserFullLoadTest>(
                UserFullLoadTest::initial(uart_irqn),
                replies,
                Action::HandleLineErrors,
                Reply::Flag(true),
            )
        },
{
    lemma_rounds(uart_irqn, replies);
}

/// Every acknowledgement stands for at least a batch of received words, and no word counts for
/// two acknowledgements.
pub proof fn law_full_load_test_acknowledges_batches(uart_irqn: u16, replies: Seq<Reply>)
    requires
        driven::<UserFullLoadTest>(UserFullLoadTest::initial(uart_irqn), replies),
        uart_irqn % 2 == 1,
    ensures
        FULL_LOAD_BATCH * written::<UserFullLoadTest>(
            UserFullLoadTest::initial(uart_irqn),
            replies,
        ).len() <= received(replies).len(),
{
    lemma_words(uart_irqn, replies);
    law_invariant_holds_throughout::<UserFullLoadTest>(
        UserFullLoadTest::initial(uart_irqn),
        replies,
    );
}

/// How many words were received since the last one that was sent.
pub open spec fn received_since_sent(s: UserFullLoadTest, replies: Seq<Reply>) -> nat
    decreases replies.len(),
{
    if replies.len() == 0 {
        0
    } else {
        let before = run::<UserFullLoadTest>(s, replies.drop_last());
        if taken_byte(UserFullLoadTest::action_of(before), replies.last()) is Some {
            0
        } else if replies.last() matches Reply::Read(Some(_)) {
            received_since_sent(s, replies.drop_last()) + 1
        } else {
            received_since_sent(s, replies.drop_last())
        }
    }
}

/// The acknowledging end counts the words that it has received since its last acknowledgement,
/// and whenever it is about to acknowledge, they are at least a batch.
pub proof fn law_full_load_test_acknowledges_after_a_batch(uart_irqn: u16, replies: Seq<Reply>)
    requires
        driven::<UserFullLoadTest>(UserFullLoadTest::initial(uart_irqn), replies),
        uart_irqn % 2 == 1,
    ensures
        ({
            let start = UserFullLoadTest::initial(uart_irqn);
            let now = run::<UserFullLoadTest>(start, replies);
            let since = received_since_sent(start, replies);
            &&& now.rx_cnt == since
            &&& !UserFullLoadTest::finished(now) && UserFullLoadTest::action_of(now) is TryWrite
                ==> since >= FULL_LOAD_BATCH
        }),
    decreases replies.len(),
{
    let start = UserFullLoadTest::initial(uart_irqn);
    lemma_words(uart_irqn, replies);
    law_invariant_holds_throughout::<UserFullLoadTest>(start, replies);
    if replies.len() > 0 {
        law_full_load_test_acknowledges_after_a_batch(uart_irqn, replies.drop_last());
        lemma_words(uart_irqn, replies.drop_last());
        law_invariant_holds_throughout::<UserFullLoadTest>(start, replies.drop_last());
    }
}

/// How many more replies a phase takes at most to the end of the test, if it comes after the test
/// loop.
spec fn closing_steps(phase: FullLoadPhase) -> Option<nat> {
    match phase {
        FullLoadPhase::Wait => Some(2),
        FullLoadPhase::CountBytes => Some(1),
        FullLoadPhase::Done => Some(0),
        _ => None,
    }
}

/// Once the test has seen that the timer fired, it neither reads nor writes the port any more, and
/// takes at most 3 replies to its end, that one included.
pub proof fn law_full_load_test_ends_after_the_timer(
    s: UserFullLoadTest,
    replies: Seq<Reply>,
)
    requires
        s.phase is CheckTimeout,
        driven::<UserFullLoadTest>(s, replies),
        replies.len() > 0,
        replies[0] == Reply::Flag(true),
    ensures
        replies.len() <= 3,
        ({
            let now = run::<UserFullLoadTest>(s, replies);
            let action = UserFullLoadTest::action_of(now);
            UserFullLoadTest::finished(now) || !(action is TryRead) && !(action is TryWrite)
        }),
{
    lemma_closing::<UserFullLoadTest>(s, replies, |t: UserFullLoadTest| closing_steps(t.phase));
}

/// How far a phase has come with arming the timer.
spec fn timer_stage(phase: FullLoadPhase) -> TimerStage {
    match phase {
        FullLoadPhase::Claim | FullLoadPhase::Open { .. }
        | FullLoadPhase::InitHardware { .. } | FullLoadPhase::Announce { .. }
        | FullLoadPhase::ReadTime => TimerStage::Before,
        FullLoadPhase::Arm { deadline } => TimerStage::Arming(deadline),
        _ => TimerStage::After,
    }
}

/// The test reads the time once and sets the timer once, to the end of its time after that, and
/// both before its loop.
pub proof fn law_full_load_test_arms_its_timer(
    uart_irqn: u16,
    replies: Seq<Reply>,
)
    requires
        driven::<UserFullLoadTest>(UserFullLoadTest::initial(uart_irqn), replies),
    ensures
        ({
            let start = UserFullLoadTest::initial(uart_irqn);
            let now = run::<UserFullLoadTest>(start, replies);
            now.phase is CheckTimeout || UserFullLoadTest::finished(now)
                ==> timer_armed::<UserFullLoadTest>(start, replies)
        }),
{
    lemma_arming::<UserFullLoadTest>(
        UserFullLoadTest::initial(uart_irqn),
        replies,
        |t: UserFullLoadTest| timer_stage(t.phase),
    );
}

} // verus!
