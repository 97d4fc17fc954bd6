//! Tests as machines that alternate requests and replies.
use vstd::prelude::*;

use crate::device::{Action, Reply, TraceTag, WriteOutcome};
use crate::params::{deadline_fits, TEST_TIME_US};
use crate::rng::{lemma_stream_byte_after, stream, stream_byte};

verus! {

/// A test, or a task of one, as a state machine: in every unfinished state it has one outstanding
/// action, and the reply to that action takes it to its next state.
pub trait Machine: Sized {
    /// The mathematical state.
    type State;

    spec fn state(&self) -> Self::State;

    /// What holds of every state that can be reached.
    spec fn inv(s: Self::State) -> bool;

    spec fn finished(s: Self::State) -> bool;

    /// The action that is outstanding in an unfinished state.
    spec fn action_of(s: Self::State) -> Action;

    /// Which replies a state can take: those that its action can have, without those on which
    /// the test stops with a panic or a counter overflows.
    spec fn accepts(s: Self::State, reply: Reply) -> bool;

    spec fn next(s: Self::State, reply: Reply) -> Self::State;

    /// Whether the machine has nothing left to do.
    fn is_finished(&self) -> (b: bool)
        ensures
            b == Self::finished(self.state()),
    ;

    /// The action to perform now.
    fn action(&self) -> (a: Action)
        requires
            Self::inv(self.state()),
            !Self::finished(self.state()),
        ensures
            a == Self::action_of(self.state()),
    ;

    /// Whether `advance` may be called with `reply`.
    fn admits(&self, reply: &Reply) -> (b: bool)
        requires
            Self::inv(self.state()),
            !Self::finished(self.state()),
        ensures
            b == Self::accepts(self.state(), *reply),
    ;

    /// Takes the reply to the outstanding action.
    fn advance(&mut self, reply: Reply)
        requires
            Self::inv(old(self).state()),
            !Self::finished(old(self).state()),
            Self::accepts(old(self).state(), reply),
        ensures
            final(self).state() == Self::next(old(self).state(), reply),
            Self::inv(final(self).state()),
    ;

    /// Every step keeps the invariant.
    proof fn lemma_next_keeps_inv(s: Self::State, reply: Reply)
        requires
            Self::inv(s),
            !Self::finished(s),
            Self::accepts(s, reply),
        ensures
            Self::inv(Self::next(s, reply)),
    ;
}

/// The state after `replies`, taken one after the other.
pub open spec fn run<M: Machine>(s: M::State, replies: Seq<Reply>) -> M::State
    decreases replies.len(),
{
    if replies.len() == 0 {
        s
    } else {
        M::next(run::<M>(s, replies.drop_last()), replies.last())
    }
}

/// Whether each of `replies` comes while the machine is unfinished and is one that it accepts.
pub open spec fn driven<M: Machine>(s: M::State, replies: Seq<Reply>) -> bool
    decreases replies.len(),
{
    replies.len() > 0 ==> {
        let before = run::<M>(s, replies.drop_last());
        &&& driven::<M>(s, replies.drop_last())
        &&& !M::finished(before)
        &&& M::accepts(before, replies.last())
    }
}

/// The byte that the port took, if it took one.
pub open spec fn taken_byte(action: Action, reply: Reply) -> Option<u8> {
    match (action, reply) {
        (Action::TryWrite(byte), Reply::Wrote(WriteOutcome::Written)) => Some(byte),
        (Action::SendByte(byte), Reply::Wrote(WriteOutcome::Written)) => Some(byte),
        _ => None,
    }
}

/// The bytes that were handed to the port and accepted by it.
pub open spec fn written<M: Machine>(s: M::State, replies: Seq<Reply>) -> Seq<u8>
    decreases replies.len(),
{
    if replies.len() == 0 {
        Seq::empty()
    } else {
        let earlier = written::<M>(s, replies.drop_last());
        match taken_byte(M::action_of(run::<M>(s, replies.drop_last())), replies.last()) {
            Some(byte) => earlier.push(byte),
            None => earlier,
        }
    }
}

/// The bytes that the port delivered.
pub open spec fn received(replies: Seq<Reply>) -> Seq<u8>
    decreases replies.len(),
{
    if replies.len() == 0 {
        Seq::empty()
    } else {
        match replies.last() {
            Reply::Read(Some(byte)) => received(replies.drop_last()).push(byte),
            _ => received(replies.drop_last()),
        }
    }
}

/// The action that is outstanding after `replies`; `None` once the machine is finished.
pub open spec fn outstanding<M: Machine>(s: M::State, replies: Seq<Reply>) -> Option<Action> {
    let now = run::<M>(s, replies);
    if M::finished(now) {
        None
    } else {
        Some(M::action_of(now))
    }
}

/// The action that the last of `replies` answers.
pub open spec fn last_action<M: Machine>(s: M::State, replies: Seq<Reply>) -> Action {
    M::action_of(run::<M>(s, replies.drop_last()))
}

/// Whether the user interrupts are unmasked, as the last action on them left them; nothing is
/// claimed before the first such action.
pub open spec fn unmasked<M: Machine>(s: M::State, replies: Seq<Reply>) -> Option<bool>
    decreases replies.len(),
{
    if replies.len() == 0 {
        None
    } else {
        match M::action_of(run::<M>(s, replies.drop_last())) {
            Action::SetUserIntr => Some(true),
            Action::ClearUserIntr => Some(false),
            _ => unmasked::<M>(s, replies.drop_last()),
        }
    }
}

/// If the bytes that the port delivered are the stream of a generator in state `x`, then so are
/// those before the last reply, and a byte in the last reply is the next one of the stream.
pub proof fn lemma_received_stream(replies: Seq<Reply>, x: u8)
    requires
        replies.len() > 0,
        received(replies) == stream(x, received(replies).len()),
    ensures
        received(replies.drop_last()) == stream(x, received(replies.drop_last()).len()),
        replies.last() matches Reply::Read(Some(byte)) ==> byte == stream_byte(
            x,
            received(replies.drop_last()).len() as int,
        ),
{
    let earlier = received(replies.drop_last());
    assert forall|i: int| 0 <= i < earlier.len() implies earlier[i] == stream_byte(x, i) by {
        assert(earlier[i] == received(replies)[i]);
    }
    assert(earlier =~= stream(x, earlier.len()));
    if let Reply::Read(Some(byte)) = replies.last() {
        assert(received(replies)[earlier.len() as int] == byte);
    }
}

/// The trace that was recorded.
pub open spec fn traced<M: Machine>(s: M::State, replies: Seq<Reply>) -> Seq<TraceTag>
    decreases replies.len(),
{
    if replies.len() == 0 {
        Seq::empty()
    } else {
        match M::action_of(run::<M>(s, replies.drop_last())) {
            Action::Trace(tag) => traced::<M>(s, replies.drop_last()).push(tag),
            _ => traced::<M>(s, replies.drop_last()),
        }
    }
}

/// Whether a trace is inside a driver call.
pub enum Nesting {
    Outside,
    Inside(usize),
    /// A call was entered inside a call, or one was left that was not entered.
    Broken,
}

/// Where a trace is after one more entry.
pub open spec fn nest_step(before: Nesting, tag: TraceTag) -> Nesting {
    match tag {
        TraceTag::CallEnter(call) => if before is Outside {
            Nesting::Inside(call)
        } else {
            Nesting::Broken
        },
        TraceTag::CallExit(call) => if before == Nesting::Inside(call) {
            Nesting::Outside
        } else {
            Nesting::Broken
        },
        _ => before,
    }
}

/// Where a trace is after its last entry.
pub open spec fn nesting(trace: Seq<TraceTag>) -> Nesting
    decreases trace.len(),
{
    if trace.len() == 0 {
        Nesting::Outside
    } else {
        nest_step(nesting(trace.drop_last()), trace.last())
    }
}

/// How often `action` was performed and answered by `reply`.
pub open spec fn answered<M: Machine>(
    s: M::State,
    replies: Seq<Reply>,
    action: Action,
    reply: Reply,
) -> nat
    decreases replies.len(),
{
    if replies.len() == 0 {
        0
    } else {
        let earlier = answered::<M>(s, replies.drop_last(), action, reply);
        if M::action_of(run::<M>(s, replies.drop_last())) == action && replies.last() == reply {
            earlier + 1
        } else {
            earlier
        }
    }
}

/// How often `action` was performed, whatever the answer.
pub open spec fn performed<M: Machine>(s: M::State, replies: Seq<Reply>, action: Action) -> nat
    decreases replies.len(),
{
    if replies.len() == 0 {
        0
    } else {
        let earlier = performed::<M>(s, replies.drop_last(), action);
        if M::action_of(run::<M>(s, replies.drop_last())) == action {
            earlier + 1
        } else {
            earlier
        }
    }
}

/// A machine that starts in a state that satisfies its invariant, and is given only replies that
/// it accepts, satisfies its invariant for ever.
pub proof fn law_invariant_holds_throughout<M: Machine>(s: M::State, replies: Seq<Reply>)
    requires
        M::inv(s),
        driven::<M>(s, replies),
    ensures
        M::inv(run::<M>(s, replies)),
    decreases replies.len(),
{
    if replies.len() > 0 {
        law_invariant_holds_throughout::<M>(s, replies.drop_last());
        M::lemma_next_keeps_inv(run::<M>(s, replies.drop_last()), replies.last());
    }
}

/// If in every state from which the machine can step, `expected` follows its masking actions,
/// then it says at all times whether the user interrupts are unmasked.
pub proof fn lemma_masking<M: Machine>(
    s: M::State,
    replies: Seq<Reply>,
    expected: spec_fn(M::State) -> Option<bool>,
)
    requires
        driven::<M>(s, replies),
        expected(s) == None::<bool>,
        forall|t: M::State, r: Reply|
            !M::finished(t) && M::accepts(t, r) ==> expected(#[trigger] M::next(t, r))
                == match M::action_of(t) {
                Action::SetUserIntr => Some(true),
                Action::ClearUserIntr => Some(false),
                _ => expected(t),
            },
    ensures
        unmasked::<M>(s, replies) == expected(run::<M>(s, replies)),
    decreases replies.len(),
{
    if replies.len() > 0 {
        lemma_masking::<M>(s, replies.drop_last(), expected);
    }
}

/// If in every state from which the machine can step, `expected` follows its trace actions, then
/// it says at all times where the trace is.
pub proof fn lemma_tracing<M: Machine>(
    s: M::State,
    replies: Seq<Reply>,
    expected: spec_fn(M::State) -> Nesting,
)
    requires
        driven::<M>(s, replies),
        expected(s) is Outside,
        forall|t: M::State, r: Reply|
            !M::finished(t) && M::accepts(t, r) ==> expected(#[trigger] M::next(t, r))
                == match M::action_of(t) {
                Action::Trace(tag) => nest_step(expected(t), tag),
                _ => expected(t),
            },
    ensures
        nesting(traced::<M>(s, replies)) == expected(run::<M>(s, replies)),
    decreases replies.len(),
{
    if replies.len() > 0 {
        lemma_tracing::<M>(s, replies.drop_last(), expected);
        let earlier = traced::<M>(s, replies.drop_last());
        if let Action::Trace(tag) = M::action_of(run::<M>(s, replies.drop_last())) {
            assert(earlier.push(tag).drop_last() =~= earlier);
        }
    }
}

/// If every step from a state for which `left` gives a number leads to one for which it gives a
/// smaller number, then from the state after the first reply on there are no more replies than
/// that number.
pub proof fn lemma_closing<M: Machine>(
    s: M::State,
    replies: Seq<Reply>,
    left: spec_fn(M::State) -> Option<nat>,
)
    requires
        driven::<M>(s, replies),
        replies.len() > 0,
        left(M::next(s, replies[0])) is Some,
        forall|t: M::State, r: Reply|
            left(t) is Some && !M::finished(t) && M::accepts(t, r) ==> left(
                #[trigger] M::next(t, r),
            ) is Some && left(M::next(t, r))->0 < left(t)->0,
    ensures
        left(run::<M>(s, replies)) is Some,
        left(run::<M>(s, replies))->0 + replies.len() <= left(M::next(s, replies[0]))->0 + 1,
    decreases replies.len(),
{
    if replies.len() > 1 {
        assert(replies.drop_last()[0] == replies[0]);
        lemma_closing::<M>(s, replies.drop_last(), left);
    } else {
        assert(run::<M>(s, replies.drop_last()) == s);
    }
}

/// If `next_byte` says in every state which byte the machine offers to the port, and moves on
/// along a stream exactly when the port takes one, then what the port takes is that stream.
pub proof fn lemma_sending<M: Machine>(
    s: M::State,
    replies: Seq<Reply>,
    next_byte: spec_fn(M::State) -> u8,
    x: u8,
)
    requires
        M::inv(s),
        driven::<M>(s, replies),
        next_byte(s) == stream_byte(x, 0),
        forall|t: M::State, r: Reply|
            M::inv(t) && !M::finished(t) && M::accepts(t, r) ==> {
                &&& next_byte(#[trigger] M::next(t, r)) == match taken_byte(M::action_of(t), r) {
                    Some(byte) => stream_byte(byte, 0),
                    None => next_byte(t),
                }
                &&& taken_byte(M::action_of(t), r) matches Some(byte) ==> byte == next_byte(t)
            },
    ensures
        ({
            let sent = written::<M>(s, replies);
            &&& sent == stream(x, sent.len())
            &&& next_byte(run::<M>(s, replies)) == stream_byte(x, sent.len() as int)
        }),
    decreases replies.len(),
{
    let sent = written::<M>(s, replies);
    if replies.len() == 0 {
        assert(sent =~= stream(x, 0));
    } else {
        lemma_sending::<M>(s, replies.drop_last(), next_byte, x);
        law_invariant_holds_throughout::<M>(s, replies.drop_last());
        let earlier = written::<M>(s, replies.drop_last());
        let before = run::<M>(s, replies.drop_last());
        lemma_stream_byte_after(x, earlier.len() + 1int, 0);
        assert(run::<M>(s, replies) == M::next(before, replies.last()));
        assert(sent =~= stream(x, sent.len()));
    }
}

/// If, from a state that is `clean`, a reply with the byte that `expected` gives leads to a clean
/// state that expects the next byte of a stream, and any reply without a byte to a clean state
/// that expects the same one, then the machine stays clean while it receives that stream.
pub proof fn lemma_receiving<M: Machine>(
    s: M::State,
    replies: Seq<Reply>,
    clean: spec_fn(M::State) -> bool,
    expected: spec_fn(M::State) -> u8,
    x: u8,
)
    requires
        M::inv(s),
        driven::<M>(s, replies),
        received(replies) == stream(x, received(replies).len()),
        clean(s),
        expected(s) == stream_byte(x, 0),
        forall|t: M::State, r: Reply|
            M::inv(t) && clean(t) && !M::finished(t) && M::accepts(t, r) ==> {
                let after = #[trigger] M::next(t, r);
                match r {
                    Reply::Read(Some(byte)) => byte == expected(t) ==> clean(after) && expected(
                        after,
                    ) == stream_byte(byte, 0),
                    _ => clean(after) && expected(after) == expected(t),
                }
            },
    ensures
        clean(run::<M>(s, replies)),
        expected(run::<M>(s, replies)) == stream_byte(x, received(replies).len() as int),
    decreases replies.len(),
{
    if replies.len() > 0 {
        lemma_received_stream(replies, x);
        lemma_receiving::<M>(s, replies.drop_last(), clean, expected, x);
        law_invariant_holds_throughout::<M>(s, replies.drop_last());
        lemma_stream_byte_after(x, received(replies.drop_last()).len() + 1int, 0);
    }
}

/// The driver's counts of received bytes that were asked for.
pub open spec fn positions_read<M: Machine>(s: M::State, replies: Seq<Reply>) -> Seq<usize>
    decreases replies.len(),
{
    if replies.len() == 0 {
        Seq::empty()
    } else {
        let earlier = positions_read::<M>(s, replies.drop_last());
        match (M::action_of(run::<M>(s, replies.drop_last())), replies.last()) {
            (Action::RxCount, Reply::Count(count)) => earlier.push(count),
            _ => earlier,
        }
    }
}

/// The times that were read, in milliseconds.
pub open spec fn times_read<M: Machine>(s: M::State, replies: Seq<Reply>) -> Seq<isize>
    decreases replies.len(),
{
    if replies.len() == 0 {
        Seq::empty()
    } else {
        let earlier = times_read::<M>(s, replies.drop_last());
        match (M::action_of(run::<M>(s, replies.drop_last())), replies.last()) {
            (Action::GetTime, Reply::Word(time)) => earlier.push(time),
            _ => earlier,
        }
    }
}

/// The deadlines that the timer was set to, in microseconds.
pub open spec fn timers_set<M: Machine>(s: M::State, replies: Seq<Reply>) -> Seq<isize>
    decreases replies.len(),
{
    if replies.len() == 0 {
        Seq::empty()
    } else {
        let earlier = timers_set::<M>(s, replies.drop_last());
        match M::action_of(run::<M>(s, replies.drop_last())) {
            Action::SetTimer(deadline) => earlier.push(deadline),
            _ => earlier,
        }
    }
}

/// Whether the time was read exactly once, and the timer was set exactly once, to the end of the
/// test's time after that.
pub open spec fn timer_armed<M: Machine>(s: M::State, replies: Seq<Reply>) -> bool {
    let times = times_read::<M>(s, replies);
    let deadlines = timers_set::<M>(s, replies);
    &&& times.len() == 1
    &&& deadlines.len() == 1
    &&& deadlines[0] == times[0] * 1000 + TEST_TIME_US
}

/// How far a test has come with arming its timer.
pub enum TimerStage {
    Before,
    Arming(isize),
    After,
}

/// If `stage` follows the machine's reading of the time and setting of the timer, then the timer
/// is armed in every state after that.
pub proof fn lemma_arming<M: Machine>(
    s: M::State,
    replies: Seq<Reply>,
    stage: spec_fn(M::State) -> TimerStage,
)
    requires
        driven::<M>(s, replies),
        stage(s) is Before,
        forall|t: M::State, r: Reply|
            !M::finished(t) && M::accepts(t, r) ==> {
                let after = stage(#[trigger] M::next(t, r));
                match (M::action_of(t), r) {
                    (Action::GetTime, Reply::Word(time)) => stage(t) is Before && deadline_fits(
                        time,
                    ) && after == TimerStage::Arming((time * 1000 + TEST_TIME_US) as isize),
                    (Action::SetTimer(deadline), _) => stage(t) == TimerStage::Arming(deadline)
                        && after is After,
                    _ => after == stage(t),
                }
            },
    ensures
        ({
            let times = times_read::<M>(s, replies);
            let deadlines = timers_set::<M>(s, replies);
            match stage(run::<M>(s, replies)) {
                TimerStage::Before => times.len() == 0 && deadlines.len() == 0,
                TimerStage::Arming(deadline) => times.len() == 1 && deadlines.len() == 0
                    && deadline == times[0] * 1000 + TEST_TIME_US,
                TimerStage::After => timer_armed::<M>(s, replies),
            }
        }),
    decreases replies.len(),
{
    if replies.len() > 0 {
        lemma_arming::<M>(s, replies.drop_last(), stage);
    }
}

/// If `count` grows by one in every step that performs `action` and stays the same in all others,
/// then it has grown by how often the action was performed.
pub proof fn lemma_counting<M: Machine>(
    s: M::State,
    replies: Seq<Reply>,
    action: Action,
    count: spec_fn(M::State) -> nat,
)
    requires
        driven::<M>(s, replies),
        forall|t: M::State, r: Reply|
            !M::finished(t) && M::accepts(t, r) ==> count(#[trigger] M::next(t, r)) == count(t) + (
            if M::action_of(t) == action {
                1nat
            } else {
                0nat
            }),
    ensures
        count(run::<M>(s, replies)) == count(s) + performed::<M>(s, replies, action),
    decreases replies.len(),
{
    if replies.len() > 0 {
        lemma_counting::<M>(s, replies.drop_last(), action, count);
    }
}

} // verus!
