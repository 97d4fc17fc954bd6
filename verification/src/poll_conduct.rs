//! What a poll of the interrupt task does, told by its actions and the replies to them.
use vstd::prelude::*;

use crate::device::{Action, Reply, TraceTag};
use crate::machine::{driven, last_action, outstanding, run, traced, Machine};
use crate::service::{completions, IntrHandlerPoll, PollPhase, Service};

verus! {

/// Whether a completion has begun and not ended, according to the phase.
spec fn poll_history(irqn: u16, replies: Seq<Reply>) -> bool {
    let start = IntrHandlerPoll::initial(irqn);
    let now = run::<IntrHandlerPoll>(start, replies);
    let open = completions(traced::<IntrHandlerPoll>(start, replies)).open;
    &&& now.irqn == irqn
    &&& now.phase is TracePoll <==> replies.len() == 0
    &&& match now.phase {
        PollPhase::Service(Service::Complete { ctx })
        | PollPhase::Service(Service::FindContextAgain { ctx }) => open == Some(ctx),
        PollPhase::Service(Service::TraceExit { ctx, after }) => open == Some(ctx),
        _ => open is None,
    }
}

proof fn lemma_poll_history(irqn: u16, replies: Seq<Reply>)
    requires
        driven::<IntrHandlerPoll>(IntrHandlerPoll::initial(irqn), replies),
    ensures
        poll_history(irqn, replies),
    decreases replies.len(),
{
    let start = IntrHandlerPoll::initial(irqn);
    if replies.len() > 0 {
        lemma_poll_history(irqn, replies.drop_last());
        let earlier = traced::<IntrHandlerPoll>(start, replies.drop_last());
        if let Action::Trace(tag) = last_action::<IntrHandlerPoll>(start, replies) {
            assert(earlier.push(tag).drop_last() =~= earlier);
        }
    }
}

/// All of these together.
spec fn history(irqn: u16, replies: Seq<Reply>) -> bool {
    &&& poll_history(irqn, replies)
}

proof fn lemma_history(irqn: u16, replies: Seq<Reply>)
    requires
        driven::<IntrHandlerPoll>(IntrHandlerPoll::initial(irqn), replies),
    ensures
        history(irqn, replies),
{
    lemma_poll_history(irqn, replies);
}

/// A poll of the interrupt task traces itself and looks whether an interrupt is pending; if not,
/// that is all. Otherwise the driver handles the interrupt, the trace records that, and the pending
/// flag is lowered; then the interrupt line that the task was created for is completed in the
/// context that the hart is in, which is read before and after, until both are the same. That ends
/// the poll.
pub proof fn law_poll_order_of_its_steps(irqn: u16, replies: Seq<Reply>)
    requires
        driven::<IntrHandlerPoll>(IntrHandlerPoll::initial(irqn), replies),
    ensures
        ({
            let start = IntrHandlerPoll::initial(irqn);
            let then = outstanding::<IntrHandlerPoll>(start, replies);
            if replies.len() == 0 {
                then == Some(Action::Trace(TraceTag::AsyncIntrPoll))
            } else {
                let reply = replies.last();
                let earlier = completions(traced::<IntrHandlerPoll>(start, replies.drop_last()));
                match last_action::<IntrHandlerPoll>(start, replies) {
                    Action::Trace(TraceTag::AsyncIntrPoll) => then == Some(Action::LoadHasIntr),
                    Action::LoadHasIntr => then == if reply == Reply::Flag(true) {
                        Some(Action::HandleInterrupt)
                    } else {
                        None
                    },
                    Action::HandleInterrupt => then == Some(Action::Trace(TraceTag::ExtTrapReturn)),
                    Action::Trace(TraceTag::ExtTrapReturn) => then == Some(Action::ClearHasIntr),
                    Action::ClearHasIntr => then == Some(Action::ReadContext),
                    Action::ReadContext => then == if earlier.open is None {
                        Some(Action::Trace(TraceTag::CompleteEnter(reply->Count_0)))
                    } else {
                        Some(Action::Trace(TraceTag::CompleteExit(reply->Count_0)))
                    },
                    Action::Trace(TraceTag::CompleteEnter(ctx)) => then == Some(
                        Action::CompleteIrq { ctx, irqn },
                    ),
                    Action::CompleteIrq { .. } => then == Some(Action::ReadContext),
                    Action::Trace(TraceTag::CompleteExit(ctx)) => then == if earlier.open
                        == Some(ctx) {
                        None
                    } else {
                        Some(Action::ReadContext)
                    },
                    _ => false,
                }
            }
        }),
{
    lemma_history(irqn, replies);
    if replies.len() > 0 {
        lemma_history(irqn, replies.drop_last());
    }
}

/// A poll can take every answer of the right shape.
pub proof fn law_poll_admits_every_answer(irqn: u16, replies: Seq<Reply>, reply: Reply)
    requires
        driven::<IntrHandlerPoll>(IntrHandlerPoll::initial(irqn), replies),
    ensures
        ({
            let start = IntrHandlerPoll::initial(irqn);
            let now = run::<IntrHandlerPoll>(start, replies);
            !IntrHandlerPoll::finished(now) ==> (IntrHandlerPoll::accepts(
                now,
                reply,
            ) <==> reply.kind() == IntrHandlerPoll::action_of(
                now,
            ).wants())
        }),
{

}

} // verus!
