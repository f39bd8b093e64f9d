//! Whole runs: what a channel manager and a worker make of everything in their queues.
//!
//! A run is driven by what is in the queue and by the outcomes of the other actions, in the
//! order in which they come. It goes on until the manager or the worker reports, or until the
//! outcome of its action is not there.

use vstd::prelude::*;
use crate::error::ChannelError;
use crate::message::{ChannelCommandView, RouterCommandView, WorkerCommandView};
use crate::protocol::{
    command_step,
    step,
    ActionView,
    EventView,
    ManagerView,
    Outcome,
    PhaseView,
    ReactionView,
};
use crate::worker::{
    DispatchView,
    WorkerActionView,
    WorkerEventView,
    WorkerPhaseView,
    WorkerReactionView,
    WorkerView,
};

verus! {

/// How far a run of a manager has got.
pub enum Progress<F> {
    /// The outcome of the last action is not there.
    Waiting,
    /// It can take the next command.
    Ready,
    /// It has reported.
    Reported(Result<bool, ChannelError<F>>),
}

// ---------------------------------------------------------------------------
// The channel manager
// ---------------------------------------------------------------------------

/// Commands, each with the identifier for a new channel, if it opens one.
pub type Commands = Seq<(ChannelCommandView, u32)>;

/// Where a run of a manager ends: the manager, the commands and the outcomes that it has not
/// taken, what it has given to the router, in order, and how far it has got.
pub struct Run<A, K, F> {
    pub manager: ManagerView<A, K>,
    pub queue: Commands,
    pub outcomes: Seq<EventView<A, K, F>>,
    pub given: Seq<RouterCommandView>,
    pub progress: Progress<F>,
}

/// What a reaction gives to the router: the outbox, and what the action sends.
pub open spec fn gives<A, K, F>(reaction: ReactionView<A, K, F>) -> Seq<RouterCommandView> {
    match reaction.action {
        ActionView::Send(command) => reaction.outbox.push(command),
        _ => reaction.outbox,
    }
}

impl<A, K, F> Run<A, K, F> {
    /// The run, after something was given to the router.
    pub open spec fn after(self, given: Seq<RouterCommandView>) -> Self {
        Run { given: given + self.given, ..self }
    }

    /// The run, with commands left.
    pub open spec fn leaving(self, queue: Commands) -> Self {
        Run { queue, ..self }
    }
}

/// What follows on an outcome, until the manager can take the next command or reports.
pub open spec fn settled<A, K, F>(
    outcome: Outcome<A, K, F>,
    outcomes: Seq<EventView<A, K, F>>,
) -> Run<A, K, F>
    decreases outcomes.len(),
{
    let (s, reaction) = outcome;
    let here = Run {
        manager: s,
        queue: Seq::empty(),
        outcomes,
        given: gives(reaction),
        progress: Progress::Waiting,
    };
    match reaction.action {
        ActionView::Receive => Run { progress: Progress::Ready, ..here },
        ActionView::Return(result) => Run { progress: Progress::Reported(result), ..here },
        _ => if outcomes.len() > 0 && s.expects(outcomes[0]) {
            settled(step(s, outcomes[0], 0), outcomes.drop_first()).after(gives(reaction))
        } else {
            here
        },
    }
}

/// A manager handles each of some commands, one after the other, as long as it can.
pub open spec fn handle_each<A, K, F>(
    s: ManagerView<A, K>,
    queue: Commands,
    outcomes: Seq<EventView<A, K, F>>,
) -> Run<A, K, F>
    decreases queue.len(),
{
    if queue.len() == 0 {
        Run {
            manager: s,
            queue,
            outcomes,
            given: Seq::empty(),
            progress: Progress::Ready,
        }
    } else {
        let first = settled(command_step::<A, K, F>(s, queue[0].0, queue[0].1), outcomes);
        if first.progress is Ready {
            handle_each(first.manager, queue.drop_first(), first.outcomes).after(first.given)
        } else {
            first.leaving(queue.drop_first())
        }
    }
}

/// What a manager does after an outcome: an action is followed by its outcome, which is the next
/// command, or that the queue is empty, where it wants a command.
pub open spec fn run<A, K, F>(
    outcome: Outcome<A, K, F>,
    queue: Commands,
    outcomes: Seq<EventView<A, K, F>>,
) -> Run<A, K, F>
    decreases queue.len() + outcomes.len(),
{
    let (s, reaction) = outcome;
    let here = Run {
        manager: s,
        queue,
        outcomes,
        given: gives(reaction),
        progress: Progress::Waiting,
    };
    match reaction.action {
        ActionView::Return(result) => Run { progress: Progress::Reported(result), ..here },
        ActionView::Receive => if queue.len() == 0 {
            let (t, last) = step::<A, K, F>(s, EventView::QueueEmpty, 0);
            Run {
                manager: t,
                given: gives(reaction) + gives(last),
                progress: match last.action {
                    ActionView::Return(result) => Progress::Reported(result),
                    _ => Progress::Waiting,
                },
                ..here
            }
        } else {
            run(
                step(s, EventView::Command(queue[0].0), queue[0].1),
                queue.drop_first(),
                outcomes,
            ).after(gives(reaction))
        },
        _ => if outcomes.len() > 0 && s.expects(outcomes[0]) {
            run(step(s, outcomes[0], 0), queue, outcomes.drop_first()).after(gives(reaction))
        } else {
            here
        },
    }
}

/// What a manager does when it checks for work to be done.
pub open spec fn polled<A, K, F>(
    s: ManagerView<A, K>,
    queue: Commands,
    outcomes: Seq<EventView<A, K, F>>,
) -> Run<A, K, F> {
    run(step(s, EventView::Wake, 0), queue, outcomes)
}

/// Whether a manager is where its action leaves it.
spec fn fits<A, K, F>(outcome: Outcome<A, K, F>) -> bool {
    &&& outcome.0.wf()
    &&& outcome.1.action is Receive <==> outcome.0.phase is Receiving
    &&& outcome.1.action is Return <==> outcome.0.phase is Idle
}

proof fn lemma_step_fits<A, K, F>(s: ManagerView<A, K>, event: EventView<A, K, F>, id: u32)
    requires
        s.wf(),
        s.expects(event),
    ensures
        fits(step(s, event, id)),
{
}

/// A run settles first, and then goes on with the next command.
proof fn lemma_run_settles<A, K, F>(
    outcome: Outcome<A, K, F>,
    queue: Commands,
    outcomes: Seq<EventView<A, K, F>>,
)
    requires
        fits(outcome),
    ensures
        ({
            let first = settled(outcome, outcomes);
            let next = (
                first.manager,
                ReactionView::<A, K, F> { outbox: Seq::empty(), action: ActionView::Receive },
            );
            &&& first.progress is Ready ==> fits(next)
            &&& run(outcome, queue, outcomes) == if first.progress is Ready {
                run(next, queue, first.outcomes).after(first.given)
            } else {
                first.leaving(queue)
            }
        }),
    decreases outcomes.len(),
{
    let (s, reaction) = outcome;
    let first = settled(outcome, outcomes);
    let next = (
        first.manager,
        ReactionView::<A, K, F> { outbox: Seq::empty(), action: ActionView::Receive },
    );
    match reaction.action {
        ActionView::Return(result) => {},
        ActionView::Receive => {
            assert(run(outcome, queue, outcomes).given =~= first.given + run(
                next,
                queue,
                first.outcomes,
            ).given);
        },
        _ => {
            if outcomes.len() > 0 && s.expects(outcomes[0]) {
                lemma_step_fits(s, outcomes[0], 0);
                lemma_run_settles(step(s, outcomes[0], 0), queue, outcomes.drop_first());
                let rest = settled(step(s, outcomes[0], 0), outcomes.drop_first());
                if rest.progress is Ready {
                    assert(run(outcome, queue, outcomes).given =~= first.given + run(
                        next,
                        queue,
                        first.outcomes,
                    ).given);
                }
            }
        },
    }
}

proof fn lemma_run_handles_each<A, K, F>(
    s: ManagerView<A, K>,
    queue: Commands,
    outcomes: Seq<EventView<A, K, F>>,
)
    requires
        s.wf(),
        s.phase is Receiving,
    ensures
        ({
            let all = handle_each(s, queue, outcomes);
            let start = (
                s,
                ReactionView::<A, K, F> { outbox: Seq::empty(), action: ActionView::Receive },
            );
            &&& run(start, queue, outcomes) == if all.progress is Ready {
                Run {
                    manager: all.manager.at(PhaseView::Idle),
                    progress: Progress::Reported(Ok(true)),
                    ..all
                }
            } else {
                all
            }
            &&& all.progress is Ready ==> all.queue.len() == 0
        }),
    decreases queue.len(),
{
    let start = (
        s,
        ReactionView::<A, K, F> { outbox: Seq::empty(), action: ActionView::Receive },
    );
    let all = handle_each(s, queue, outcomes);
    if queue.len() > 0 {
        let event = EventView::<A, K, F>::Command(queue[0].0);
        let outcome = step(s, event, queue[0].1);
        lemma_step_fits(s, event, queue[0].1);
        lemma_run_settles(outcome, queue.drop_first(), outcomes);
        let first = settled(outcome, outcomes);
        if first.progress is Ready {
            lemma_run_handles_each(first.manager, queue.drop_first(), first.outcomes);
        }
    }
    assert(run(start, queue, outcomes).given =~= all.given);
}

/// A manager that checks for work handles each command in its queue once, in the order in which
/// they stand there, each one as if it were alone: what it gives to the router, which outcomes
/// it takes and what it keeps is what comes of handling one after the other. It reports `true`
/// when it has handled them all; otherwise it ends with the command that ended it, and leaves
/// those behind it in the queue.
pub proof fn law_poll_handles_each_command<A, K, F>(
    s: ManagerView<A, K>,
    queue: Commands,
    outcomes: Seq<EventView<A, K, F>>,
)
    requires
        s.wf(),
        s.phase is Idle,
    ensures
        ({
            let all = handle_each(s.at(PhaseView::Receiving), queue, outcomes);
            polled(s, queue, outcomes) == if all.progress is Ready {
                Run {
                    manager: all.manager.at(PhaseView::Idle),
                    progress: Progress::Reported(Ok(true)),
                    ..all
                }
            } else {
                all
            }
        }),
{
    lemma_run_handles_each(s.at(PhaseView::Receiving), queue, outcomes);
}

/// Messages do not end a run well: a step on one either goes on or reports an error.
proof fn lemma_settled_without_stop<A, K, F>(
    outcome: Outcome<A, K, F>,
    outcomes: Seq<EventView<A, K, F>>,
)
    requires
        fits(outcome),
        outcome.1.action matches ActionView::Return(result) ==> result is Err,
    ensures
        settled(outcome, outcomes).progress matches Progress::Reported(result) ==> result is Err,
        settled(outcome, outcomes).progress is Ready ==> {
            &&& settled(outcome, outcomes).manager.wf()
            &&& settled(outcome, outcomes).manager.phase is Receiving
        },
    decreases outcomes.len(),
{
    let (s, reaction) = outcome;
    if !(reaction.action is Receive) && !(reaction.action is Return) && outcomes.len() > 0
        && s.expects(outcomes[0]) {
        lemma_step_fits(s, outcomes[0], 0);
        lemma_settled_without_stop(step(s, outcomes[0], 0), outcomes.drop_first());
    }
}

proof fn lemma_each_without_stop<A, K, F>(
    s: ManagerView<A, K>,
    queue: Commands,
    outcomes: Seq<EventView<A, K, F>>,
)
    requires
        s.wf(),
        s.phase is Receiving,
        forall|i: int| 0 <= i < queue.len() ==> !((#[trigger] queue[i]).0 is Stop),
    ensures
        handle_each(s, queue, outcomes).progress matches Progress::Reported(result)
            ==> result is Err,
    decreases queue.len(),
{
    if queue.len() > 0 {
        let event = EventView::<A, K, F>::Command(queue[0].0);
        let outcome = step(s, event, queue[0].1);
        lemma_step_fits(s, event, queue[0].1);
        lemma_settled_without_stop(outcome, outcomes);
        let first = settled(outcome, outcomes);
        if first.progress is Ready {
            assert forall|i: int| 0 <= i < queue.drop_first().len() implies !((
            #[trigger] queue.drop_first()[i]).0 is Stop) by {
                assert(queue.drop_first()[i] == queue[i + 1]);
            }
            lemma_each_without_stop(first.manager, queue.drop_first(), first.outcomes);
        }
    }
}

/// A manager that reports that all went well has no command left in its queue: it has handled
/// every one of them. A queue in which the manager is told to stop is left out: what stands
/// behind that command stays there.
pub proof fn law_good_poll_empties_queue<A, K, F>(
    s: ManagerView<A, K>,
    queue: Commands,
    outcomes: Seq<EventView<A, K, F>>,
)
    requires
        s.wf(),
        s.phase is Idle,
        forall|i: int| 0 <= i < queue.len() ==> !((#[trigger] queue[i]).0 is Stop),
        polled(s, queue, outcomes).progress matches Progress::Reported(Ok(_)),
    ensures
        handle_each(s.at(PhaseView::Receiving), queue, outcomes).progress is Ready,
        polled(s, queue, outcomes).queue.len() == 0,
        polled(s, queue, outcomes).progress matches Progress::Reported(Ok(keep_going))
            && keep_going,
{
    lemma_run_handles_each(s.at(PhaseView::Receiving), queue, outcomes);
    lemma_each_without_stop(s.at(PhaseView::Receiving), queue, outcomes);
}

// ---------------------------------------------------------------------------
// The worker
// ---------------------------------------------------------------------------

/// What a worker has become, and what it has given to the router, in order.
pub type WorkerDone = (WorkerView, Seq<RouterCommandView>);

/// The worker that has handled a command, and what it gives to the router.
pub open spec fn worker_handles(w: WorkerView, command: WorkerCommandView) -> WorkerDone {
    let (next, handled) = match command {
        WorkerCommandView::SendMessage(m) => w.send_step(m),
        WorkerCommandView::ReceiveMessage(m) => w.receive_step(m),
        _ => (w, Ok(None)),
    };
    (
        next,
        match handled {
            Ok(Some(d)) => seq![d.command],
            _ => Seq::empty(),
        },
    )
}

/// The worker that has handled each of some commands, one after the other.
pub open spec fn worker_handles_each(w: WorkerView, queue: Seq<WorkerCommandView>) -> WorkerDone
    decreases queue.len(),
{
    if queue.len() == 0 {
        (w, Seq::empty())
    } else {
        let (next, given) = worker_handles(w, queue[0]);
        let (last, rest) = worker_handles_each(next, queue.drop_first());
        (last, given + rest)
    }
}

/// What a worker does after a reaction, with a router that takes everything: an action is
/// followed by its outcome, which is the next command, or that the queue is empty, where it
/// wants a command. With it, what it reports; nothing, where it cannot go on.
pub open spec fn worker_run(
    w: WorkerView,
    reaction: WorkerReactionView,
    queue: Seq<WorkerCommandView>,
) -> (WorkerDone, Option<bool>)
    decreases
            queue.len(),
            if reaction.action is Send {
                1int
            } else {
                0int
            },
{
    match reaction.action {
        WorkerActionView::Return(keep_going) => ((w, reaction.outbox), Some(keep_going)),
        WorkerActionView::Receive => if queue.len() == 0 {
            let (v, last) = w.step(WorkerEventView::QueueEmpty);
            (
                (v, reaction.outbox + last.outbox),
                match last.action {
                    WorkerActionView::Return(keep_going) => Some(keep_going),
                    _ => None,
                },
            )
        } else if w.expects(WorkerEventView::Command(queue[0])) {
            let (v, next) = w.step(WorkerEventView::Command(queue[0]));
            let ((last, rest), report) = worker_run(v, next, queue.drop_first());
            ((last, reaction.outbox + rest), report)
        } else {
            ((w, reaction.outbox), None)
        },
        WorkerActionView::Send(command, on_failure) => if w.phase is Sending {
            let (v, next) = w.step(WorkerEventView::Sent);
            let ((last, rest), report) = worker_run(v, next, queue);
            ((last, reaction.outbox.push(command) + rest), report)
        } else {
            ((w, reaction.outbox), None)
        },
    }
}

/// What a worker does and reports when it checks for work to be done.
pub open spec fn worker_polled(w: WorkerView, queue: Seq<WorkerCommandView>) -> (
    WorkerDone,
    Option<bool>,
) {
    let (v, reaction) = w.step(WorkerEventView::Wake);
    worker_run(v, reaction, queue)
}

/// Whether a worker can work on every one of some commands.
pub open spec fn all_accepted(queue: Seq<WorkerCommandView>) -> bool {
    forall|i: int| 0 <= i < queue.len() ==> (#[trigger] queue[i]).accepted()
}

/// Whether no command tells a worker to stop.
pub open spec fn keeps_going(queue: Seq<WorkerCommandView>) -> bool {
    forall|i: int| 0 <= i < queue.len() ==> !(#[trigger] queue[i] is Stop)
}

/// What a worker does after a command that it has handled is what comes of the command, and then
/// what it does with the next one.
proof fn lemma_worker_dispatches(
    w: WorkerView,
    dispatch: Option<DispatchView>,
    keep_going: bool,
    queue: Seq<WorkerCommandView>,
)
    ensures
        ({
            let (v, reaction) = w.after(dispatch, keep_going);
            let (ready, receiving) = w.go_on(Seq::empty(), keep_going);
            let ((last, rest), report) = worker_run(ready, receiving, queue);
            let given = match dispatch {
                Some(d) => seq![d.command],
                None => Seq::empty(),
            };
            worker_run(v, reaction, queue) == ((last, given + rest), report)
        }),
{
    let (v, reaction) = w.after(dispatch, keep_going);
    let (ready, receiving) = w.go_on(Seq::empty(), keep_going);
    let ((last, rest), report) = worker_run(ready, receiving, queue);
    let given = match dispatch {
        Some(d) => seq![d.command],
        None => Seq::empty(),
    };
    reveal_with_fuel(worker_run, 2);
    assert(worker_run(v, reaction, queue).0.1 =~= given + rest);
}

/// What a worker makes of its commands does not depend on its phase.
proof fn lemma_phase_does_not_matter(
    w: WorkerView,
    phase: WorkerPhaseView,
    queue: Seq<WorkerCommandView>,
)
    ensures
        worker_handles_each(w.at(phase), queue) == (
            worker_handles_each(w, queue).0.at(phase),
            worker_handles_each(w, queue).1,
        ),
    decreases queue.len(),
{
    if queue.len() > 0 {
        lemma_phase_does_not_matter(worker_handles(w, queue[0]).0, phase, queue.drop_first());
    }
}

proof fn lemma_worker_run_handles_each(
    w: WorkerView,
    keep_going: bool,
    queue: Seq<WorkerCommandView>,
)
    requires
        all_accepted(queue),
    ensures
        ({
            let (all, given) = worker_handles_each(w, queue);
            let (ready, receiving) = w.go_on(Seq::empty(), keep_going);
            worker_run(ready, receiving, queue) == (
                (all.at(WorkerPhaseView::Idle), given),
                Some(keep_going && keeps_going(queue)),
            )
        }),
    decreases queue.len(),
{
    let (all, given) = worker_handles_each(w, queue);
    let (ready, receiving) = w.go_on(Seq::empty(), keep_going);
    if queue.len() > 0 {
        let rest = queue.drop_first();
        assert(all_accepted(rest)) by {
            assert forall|i: int| 0 <= i < rest.len() implies (#[trigger] rest[i]).accepted() by {
                assert(rest[i] == queue[i + 1]);
            }
        }
        assert(keeps_going(queue) <==> !(queue[0] is Stop) && keeps_going(rest)) by {
            if !(queue[0] is Stop) && keeps_going(rest) {
                assert forall|i: int| 0 <= i < queue.len() implies !(#[trigger] queue[i] is Stop) by {
                    assert(i > 0 ==> queue[i] == rest[i - 1]);
                }
            }
            if keeps_going(queue) {
                assert forall|i: int| 0 <= i < rest.len() implies !(#[trigger] rest[i] is Stop) by {
                    assert(rest[i] == queue[i + 1]);
                }
            }
        }
        assert(queue[0].accepted());
        let going = keep_going && !(queue[0] is Stop);
        let (next, handled) = match queue[0] {
            WorkerCommandView::SendMessage(m) => ready.send_step(m),
            WorkerCommandView::ReceiveMessage(m) => ready.receive_step(m),
            _ => (ready, Ok(None)),
        };
        assert(ready.step(WorkerEventView::Command(queue[0])) == next.after(handled->Ok_0, going));
        lemma_worker_dispatches(next, handled->Ok_0, going, rest);
        lemma_worker_run_handles_each(next, going, rest);
        lemma_phase_does_not_matter(w, ready.phase, queue);
    }
    assert(worker_run(ready, receiving, queue).0.1 =~= given);
}

/// A worker that checks for work handles each command in its queue once, in the order in which
/// they stand there: what it gives to the router and what it keeps is what comes of handling one
/// after the other. It reports whether none of them told it to stop. Commands that it cannot work
/// on are left out, and so is a router that does not take what it is given: the worker cannot go
/// on then.
pub proof fn law_worker_handles_each_command(w: WorkerView, queue: Seq<WorkerCommandView>)
    requires
        w.phase is Idle,
        all_accepted(queue),
    ensures
        worker_polled(w, queue) == (worker_handles_each(w, queue), Some(keeps_going(queue))),
{
    lemma_worker_run_handles_each(w, true, queue);
    lemma_phase_does_not_matter(w, WorkerPhaseView::Idle, queue);
    assert(w.at(WorkerPhaseView::Idle) == w);
}

} // verus!
