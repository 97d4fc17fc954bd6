//! Servicing a pending external interrupt, and the task that does so in the asynchronous tests.
use vstd::prelude::*;

use crate::device::{Action, Reply, TraceTag};
use crate::machine::{answered, driven, run, traced, Machine};

verus! {

/// How far the servicing of an interrupt has come.
///
/// The interrupt is completed in the context of the hart that the program runs on. Since the
/// program may be moved to another hart meanwhile, completion is repeated until the context is
/// the same before and after it.
#[derive(Clone, Copy, Debug, PartialEq, Eq)]
pub enum Service {
    Handle,
    TraceReturn,
    ClearFlag,
    FindContext,
    TraceEnter { ctx: usize },
    Complete { ctx: usize },
    FindContextAgain { ctx: usize },
    TraceExit { ctx: usize, after: usize },
}

impl Service {
    /// The action that is outstanding when the interrupt line `irqn` is serviced.
    pub open spec fn action_of(self, irqn: u16) -> Action {
        match self {
            Service::Handle => Action::HandleInterrupt,
            Service::TraceReturn => Action::Trace(TraceTag::ExtTrapReturn),
            Service::ClearFlag => Action::ClearHasIntr,
            Service::FindContext => Action::ReadContext,
            Service::TraceEnter { ctx } => Action::Trace(TraceTag::CompleteEnter(ctx)),
            Service::Complete { ctx } => Action::CompleteIrq { ctx, irqn },
            Service::FindContextAgain { ctx } => Action::ReadContext,
            Service::TraceExit { ctx, after } => Action::Trace(TraceTag::CompleteExit(after)),
        }
    }

    /// What follows a reply; `None` once the interrupt is serviced.
    pub open spec fn next(self, reply: Reply) -> Option<Service> {
        match (self, reply) {
            (Service::Handle, _) => Some(Service::TraceReturn),
            (Service::TraceReturn, _) => Some(Service::ClearFlag),
            (Service::ClearFlag, _) => Some(Service::FindContext),
            (Service::FindContext, Reply::Count(ctx)) => Some(Service::TraceEnter { ctx }),
            (Service::TraceEnter { ctx }, _) => Some(Service::Complete { ctx }),
            (Service::Complete { ctx }, _) => Some(Service::FindContextAgain { ctx }),
            (Service::FindContextAgain { ctx }, Reply::Count(after)) => Some(
                Service::TraceExit { ctx, after },
            ),
            (Service::TraceExit { ctx, after }, _) => if ctx == after {
                None
            } else {
                Some(Service::FindContext)
            },
            _ => Some(self),
        }
    }

    /// Computes `action_of`.
    pub fn action(&self, irqn: u16) -> (a: Action)
        ensures
            a == self.action_of(irqn),
    {
        match *self {
            Service::Handle => Action::HandleInterrupt,
            Service::TraceReturn => Action::Trace(TraceTag::ExtTrapReturn),
            Service::ClearFlag => Action::ClearHasIntr,
            Service::FindContext => Action::ReadContext,
            Service::TraceEnter { ctx } => Action::Trace(TraceTag::CompleteEnter(ctx)),
            Service::Complete { ctx } => Action::CompleteIrq { ctx, irqn },
            Service::FindContextAgain { ctx: _ } => Action::ReadContext,
            Service::TraceExit { ctx: _, after } => Action::Trace(TraceTag::CompleteExit(after)),
        }
    }

    /// Computes `next`.
    pub fn after(&self, reply: Reply) -> (r: Option<Service>)
        ensures
            r == self.next(reply),
    {
        match (*self, reply) {
            (Service::Handle, _) => Some(Service::TraceReturn),
            (Service::TraceReturn, _) => Some(Service::ClearFlag),
            (Service::ClearFlag, _) => Some(Service::FindContext),
            (Service::FindContext, Reply::Count(ctx)) => Some(Service::TraceEnter { ctx }),
            (Service::TraceEnter { ctx }, _) => Some(Service::Complete { ctx }),
            (Service::Complete { ctx }, _) => Some(Service::FindContextAgain { ctx }),
            (Service::FindContextAgain { ctx }, Reply::Count(after)) => Some(
                Service::TraceExit { ctx, after },
            ),
            (Service::TraceExit { ctx, after }, _) => if ctx == after {
                None
            } else {
                Some(Service::FindContext)
            },
            _ => Some(*self),
        }
    }
}

#[derive(Clone, Copy, Debug, PartialEq, Eq)]
pub enum PollPhase {
    TracePoll,
    CheckIntr,
    Service(Service),
    Pending,
}

/// One poll of the interrupt task: services the interrupt if there is one. The task itself never
/// becomes ready.
#[derive(Clone, Copy, Debug, PartialEq, Eq)]
pub struct IntrHandlerPoll {
    pub phase: PollPhase,
    pub irqn: u16,
}

impl IntrHandlerPoll {
    pub open spec fn initial(irqn: u16) -> IntrHandlerPoll {
        IntrHandlerPoll { phase: PollPhase::TracePoll, irqn }
    }

    /// A poll of the task for interrupt line `irqn`.
    pub fn new(irqn: u16) -> (r: IntrHandlerPoll)
        ensures
            r == IntrHandlerPoll::initial(irqn),
    {
        IntrHandlerPoll { phase: PollPhase::TracePoll, irqn }
    }
}

impl Machine for IntrHandlerPoll {
    type State = IntrHandlerPoll;

    open spec fn state(&self) -> IntrHandlerPoll {
        *self
    }

    open spec fn inv(s: IntrHandlerPoll) -> bool {
        true
    }

    open spec fn finished(s: IntrHandlerPoll) -> bool {
        s.phase is Pending
    }

    open spec fn action_of(s: IntrHandlerPoll) -> Action {
        match s.phase {
            PollPhase::TracePoll => Action::Trace(TraceTag::AsyncIntrPoll),
            PollPhase::CheckIntr => Action::LoadHasIntr,
            PollPhase::Service(p) => p.action_of(s.irqn),
            PollPhase::Pending => arbitrary(),
        }
    }

    open spec fn accepts(s: IntrHandlerPoll, reply: Reply) -> bool {
        reply.kind() == Self::action_of(s).wants()
    }

    open spec fn next(s: IntrHandlerPoll, reply: Reply) -> IntrHandlerPoll {
        let phase = match (s.phase, reply) {
            (PollPhase::TracePoll, _) => PollPhase::CheckIntr,
            (PollPhase::CheckIntr, Reply::Flag(true)) => PollPhase::Service(Service::Handle),
            (PollPhase::CheckIntr, _) => PollPhase::Pending,
            (PollPhase::Service(p), _) => match p.next(reply) {
                Some(q) => PollPhase::Service(q),
                None => PollPhase::Pending,
            },
            (PollPhase::Pending, _) => PollPhase::Pending,
        };
        IntrHandlerPoll { phase, irqn: s.irqn }
    }

    fn is_finished(&self) -> (b: bool) {
        match self.phase {
            PollPhase::Pending => true,
            _ => false,
        }
    }

    fn action(&self) -> (a: Action) {
        match self.phase {
            PollPhase::TracePoll => Action::Trace(TraceTag::AsyncIntrPoll),
            PollPhase::CheckIntr => Action::LoadHasIntr,
            PollPhase::Service(p) => p.action(self.irqn),
            PollPhase::Pending => Action::LoadHasIntr,
        }
    }

    fn admits(&self, reply: &Reply) -> (b: bool) {
        reply.reply_kind() == self.action().wanted_kind()
    }

    fn advance(&mut self, reply: Reply) {
        self.phase = match (self.phase, reply) {
            (PollPhase::TracePoll, _) => PollPhase::CheckIntr,
            (PollPhase::CheckIntr, Reply::Flag(true)) => PollPhase::Service(Service::Handle),
            (PollPhase::CheckIntr, _) => PollPhase::Pending,
            (PollPhase::Service(p), _) => match p.after(reply) {
                Some(q) => PollPhase::Service(q),
                None => PollPhase::Pending,
            },
            (PollPhase::Pending, _) => PollPhase::Pending,
        };
    }

    proof fn lemma_next_keeps_inv(s: IntrHandlerPoll, reply: Reply) {
    }
}

/// Whether `trace` ends with a completion in `ctx` during which the context did not change.
pub open spec fn ends_with_stable_completion(trace: Seq<TraceTag>, ctx: usize) -> bool {
    &&& trace.len() >= 2
    &&& trace[trace.len() - 2] == TraceTag::CompleteEnter(ctx)
    &&& trace.last() == TraceTag::CompleteExit(ctx)
}

/// What a trace tells of completions.
pub struct Completions {
    /// The context in which a completion began that has not ended.
    pub open: Option<usize>,
    /// How many completions have ended.
    pub ended: nat,
    /// How many of them ended in the context in which they began.
    pub stable: nat,
    /// Whether the last one did.
    pub last_stable: bool,
}

/// The completions in a trace.
pub open spec fn completions(trace: Seq<TraceTag>) -> Completions
    decreases trace.len(),
{
    if trace.len() == 0 {
        Completions { open: None, ended: 0, stable: 0, last_stable: false }
    } else {
        let before = completions(trace.drop_last());
        match trace.last() {
            TraceTag::CompleteEnter(ctx) => Completions { open: Some(ctx), ..before },
            TraceTag::CompleteExit(ctx) => {
                let stable = before.open == Some(ctx);
                Completions {
                    open: None,
                    ended: before.ended + 1,
                    stable: before.stable + if stable {
                        1nat
                    } else {
                        0nat
                    },
                    last_stable: stable,
                }
            },
            _ => before,
        }
    }
}

/// How often the interrupt controller was told that line `irqn` is finished, in any context.
pub open spec fn completed<M: Machine>(s: M::State, replies: Seq<Reply>, irqn: u16) -> nat
    decreases replies.len(),
{
    if replies.len() == 0 {
        0
    } else {
        let earlier = completed::<M>(s, replies.drop_last(), irqn);
        match M::action_of(run::<M>(s, replies.drop_last())) {
            Action::CompleteIrq { ctx: _, irqn: line } if line == irqn => earlier + 1,
            _ => earlier,
        }
    }
}

/// What a poll has done when it is in a given phase.
spec fn poll_history(irqn: u16, replies: Seq<Reply>) -> bool {
    let start = IntrHandlerPoll::initial(irqn);
    let now = run::<IntrHandlerPoll>(start, replies);
    let trace = traced::<IntrHandlerPoll>(start, replies);
    let handled = answered::<IntrHandlerPoll>(
        start,
        replies,
        Action::HandleInterrupt,
        Reply::Done,
    );
    let cleared = answered::<IntrHandlerPoll>(start, replies, Action::ClearHasIntr, Reply::Done);
    &&& now.irqn == irqn
    &&& match now.phase {
        PollPhase::TracePoll => trace.len() == 0 && handled == 0 && cleared == 0,
        PollPhase::CheckIntr | PollPhase::Service(Service::Handle) => {
            trace == seq![TraceTag::AsyncIntrPoll] && handled == 0 && cleared == 0
        },
        PollPhase::Service(Service::TraceReturn) | PollPhase::Service(Service::ClearFlag) => {
            handled == 1 && cleared == 0
        },
        PollPhase::Service(Service::FindContext) | PollPhase::Service(Service::TraceEnter { .. })
            => handled == 1 && cleared == 1,
        PollPhase::Service(Service::Complete { ctx }) => {
            &&& handled == 1 && cleared == 1
            &&& trace.len() > 0 && trace.last() == TraceTag::CompleteEnter(ctx)
        },
        PollPhase::Service(Service::FindContextAgain { ctx })
        | PollPhase::Service(Service::TraceExit { ctx, .. }) => {
            &&& handled == 1 && cleared == 1
            &&& trace.len() > 0 && trace.last() == TraceTag::CompleteEnter(ctx)
            &&& answered::<IntrHandlerPoll>(
                start,
                replies,
                Action::CompleteIrq { ctx, irqn },
                Reply::Done,
            ) >= 1
        },
        PollPhase::Pending => if handled == 0 {
            trace == seq![TraceTag::AsyncIntrPoll] && cleared == 0
        } else {
            &&& handled == 1 && cleared == 1
            &&& trace.len() > 0 && trace.last() is CompleteExit
            &&& ends_with_stable_completion(trace, trace.last()->CompleteExit_0)
            &&& answered::<IntrHandlerPoll>(
                start,
                replies,
                Action::CompleteIrq { ctx: trace.last()->CompleteExit_0, irqn },
                Reply::Done,
            ) >= 1
        },
    }
}

proof fn lemma_poll_history(irqn: u16, replies: Seq<Reply>)
    requires
        driven::<IntrHandlerPoll>(IntrHandlerPoll::initial(irqn), replies),
    ensures
        poll_history(irqn, replies),
    decreases replies.len(),
{
    if replies.len() > 0 {
        lemma_poll_history(irqn, replies.drop_last());
    }
}

/// A poll either finds no interrupt pending, and then only records that it ran; or it lets the
/// driver handle the interrupt once, lowers the pending flag once, and completes the interrupt
/// until a completion begins and ends in the same context.
pub proof fn law_poll_services_a_pending_interrupt(irqn: u16, replies: Seq<Reply>)
    requires
        driven::<IntrHandlerPoll>(IntrHandlerPoll::initial(irqn), replies),
        IntrHandlerPoll::finished(run::<IntrHandlerPoll>(IntrHandlerPoll::initial(irqn), replies)),
    ensures
        ({
            let start = IntrHandlerPoll::initial(irqn);
            let trace = traced::<IntrHandlerPoll>(start, replies);
            let handled = answered::<IntrHandlerPoll>(
                start,
                replies,
                Action::HandleInterrupt,
                Reply::Done,
            );
            let cleared = answered::<IntrHandlerPoll>(
                start,
                replies,
                Action::ClearHasIntr,
                Reply::Done,
            );
            ||| handled == 0 && cleared == 0 && trace == seq![TraceTag::AsyncIntrPoll]
            ||| handled == 1 && cleared == 1 && exists|ctx: usize| #[trigger]
                ends_with_stable_completion(trace, ctx) && answered::<IntrHandlerPoll>(
                    start,
                    replies,
                    Action::CompleteIrq { ctx, irqn },
                    Reply::Done,
                ) >= 1
        }),
{
    lemma_poll_history(irqn, replies);
}

/// The pending flag is lowered before the interrupt is completed, so that an interrupt which
/// arrives right after completion is not lost.
pub proof fn law_flag_is_lowered_before_completion(irqn: u16, replies: Seq<Reply>)
    requires
        driven::<IntrHandlerPoll>(IntrHandlerPoll::initial(irqn), replies),
        !IntrHandlerPoll::finished(run::<IntrHandlerPoll>(IntrHandlerPoll::initial(irqn), replies)),
        IntrHandlerPoll::action_of(
            run::<IntrHandlerPoll>(IntrHandlerPoll::initial(irqn), replies),
        ) is CompleteIrq,
    ensures
        answered::<IntrHandlerPoll>(
            IntrHandlerPoll::initial(irqn),
            replies,
            Action::ClearHasIntr,
            Reply::Done,
        ) == 1,
{
    lemma_poll_history(irqn, replies);
}

/// Servicing ends exactly when a completion has begun and ended in the same context.
pub proof fn law_service_ends_with_a_stable_completion(p: Service, reply: Reply)
    ensures
        p.next(reply) is None <==> (p matches Service::TraceExit { ctx, after } && ctx == after),
{
}

} // verus!
