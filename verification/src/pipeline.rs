//! Processor chains: an ordered list of processors applied to each event.
//!
//! A processor turns one event into none, one or several, and may change
//! its own state while doing so. A chain feeds an event to its first
//! processor, what that one yields to the second, and so on. Once nothing is
//! left the chain has halted: the processors further down are not called.

use vstd::prelude::*;
use crate::event::{Event, EventView};

verus! {

/// One link of a chain. `reacts` says which answers the processor may give
/// to an event, and `process` has to give one of them.
///
/// A processor that goes by nothing but its own state and the event allows
/// one answer to each event. One that also goes by the shared mode, by the
/// time, or by anything else outside itself allows every answer that it may
/// give. What a processor does besides, such as reporting on its work, is
/// its own affair.
pub trait Processor {
    /// The processor as a mathematical value.
    type State;

    /// The state of this processor.
    spec fn state(&self) -> Self::State;

    /// Whether a processor in `state` may answer `event` with `reaction`:
    /// with these events, and going to that state.
    spec fn reacts(state: Self::State, event: EventView, reaction: Reaction<Self::State>) -> bool;

    /// Handles one event.
    fn process(&mut self, event: Event) -> (out: Vec<Event>)
        ensures
            Self::reacts(
                old(self).state(),
                event@,
                (Reaction { yields: event_views(out@), next: final(self).state() }),
            ),
    ;
}

/// What a processor makes of one event.
pub struct Reaction<S> {
    /// The events that it yields, in order.
    pub yields: Seq<EventView>,
    /// The state that it goes to.
    pub next: S,
}

/// The mathematical values of a list of events.
pub open spec fn event_views(events: Seq<Event>) -> Seq<EventView> {
    events.map_values(|event: Event| event@)
}

/// The states of a list of processors.
pub open spec fn states_of<P: Processor>(processors: Seq<P>) -> Seq<P::State> {
    processors.map_values(|processor: P| processor.state())
}

/// The state of a processor that began in `start` and has given the first
/// `given` of these answers.
pub open spec fn state_before<S>(start: S, answers: Seq<Reaction<S>>, given: int) -> S {
    if given <= 0 {
        start
    } else {
        answers[given - 1].next
    }
}

/// The state of a processor that began in `start` and has given all of
/// these answers.
pub open spec fn state_after<S>(start: S, answers: Seq<Reaction<S>>) -> S {
    state_before(start, answers, answers.len() as int)
}

/// All that a row of answers yields, in the order of the answers.
pub open spec fn yielded<S>(answers: Seq<Reaction<S>>) -> Seq<EventView>
    decreases answers.len(),
{
    if answers.len() == 0 {
        Seq::empty()
    } else {
        yielded(answers.drop_last()) + answers.last().yields
    }
}

/// `answers` is one processor handling `events` one after the other: one
/// answer to each event, each an answer that the processor may give in the
/// state that the answer before left it in.
pub open spec fn is_stage<P: Processor>(
    start: P::State,
    events: Seq<EventView>,
    answers: Seq<Reaction<P::State>>,
) -> bool {
    &&& answers.len() == events.len()
    &&& forall|k: int|
        0 <= k < answers.len() ==> P::reacts(
            #[trigger] state_before(start, answers, k),
            events[k],
            answers[k],
        )
}

/// What the processor at `position` is given in a run of a chain: the
/// first the events that enter the chain, every other all that the one in
/// front of it yielded. At the position behind the last processor this is
/// what comes out of the chain.
pub open spec fn entering<S>(
    events: Seq<EventView>,
    rounds: Seq<Seq<Reaction<S>>>,
    position: int,
) -> Seq<EventView> {
    if position <= 0 {
        events
    } else {
        yielded(rounds[position - 1])
    }
}

/// `rounds` is a run of a chain on `events`: for each processor, in the
/// order of the list, its answers to what it is given.
pub open spec fn is_chain<P: Processor>(
    states: Seq<P::State>,
    events: Seq<EventView>,
    rounds: Seq<Seq<Reaction<P::State>>>,
) -> bool {
    &&& rounds.len() == states.len()
    &&& forall|i: int|
        0 <= i < rounds.len() ==> is_stage::<P>(
            states[i],
            entering(events, rounds, i),
            #[trigger] rounds[i],
        )
}

/// `rounds` is a run of a chain that took processors in the states `before`
/// and the events `events` to the events `out` and the states `after`.
pub open spec fn runs_chain<P: Processor>(
    before: Seq<P::State>,
    events: Seq<EventView>,
    rounds: Seq<Seq<Reaction<P::State>>>,
    out: Seq<EventView>,
    after: Seq<P::State>,
) -> bool {
    &&& is_chain::<P>(before, events, rounds)
    &&& out == entering(events, rounds, rounds.len() as int)
    &&& after.len() == before.len()
    &&& forall|i: int|
        0 <= i < after.len() ==> #[trigger] after[i] == state_after(before[i], rounds[i])
}

/// A chain of processors in the states `before` has handled `events`: what
/// came out is `out`, and the processors are in the states `after`.
pub open spec fn chain_ran<P: Processor>(
    before: Seq<P::State>,
    events: Seq<EventView>,
    out: Seq<EventView>,
    after: Seq<P::State>,
) -> bool {
    exists|rounds: Seq<Seq<Reaction<P::State>>>|
        #[trigger] runs_chain::<P>(before, events, rounds, out, after)
}

/// Feeds `events` to the processor at `index`, one after the other, and
/// collects what it yields.
fn run_stage<P: Processor>(processors: &mut Vec<P>, index: usize, events: &Vec<Event>) -> (done: (
    Vec<Event>,
    Ghost<Seq<Reaction<P::State>>>,
))
    requires
        index < old(processors).len(),
    ensures
        final(processors).len() == old(processors).len(),
        forall|k: int|
            0 <= k < old(processors).len() && k != index ==> (#[trigger] final(processors)[k])
                == old(processors)[k],
        is_stage::<P>(old(processors)[index as int].state(), event_views(events@), done.1@),
        event_views(done.0@) == yielded(done.1@),
        final(processors)[index as int].state() == state_after(
            old(processors)[index as int].state(),
            done.1@,
        ),
{
    let ghost start = processors[index as int].state();
    let ghost given = event_views(events@);
    let ghost mut answers: Seq<Reaction<P::State>> = Seq::empty();
    let mut out: Vec<Event> = Vec::new();
    let mut j: usize = 0;
    proof {
        assert(event_views(out@) =~= yielded(answers));
    }
    while j < events.len()
        invariant
            j <= events.len(),
            index < processors.len(),
            processors.len() == old(processors).len(),
            start == old(processors)[index as int].state(),
            given == event_views(events@),
            forall|k: int|
                0 <= k < processors.len() && k != index ==> processors[k] == old(processors)[k],
            is_stage::<P>(start, given.take(j as int), answers),
            event_views(out@) == yielded(answers),
            processors[index as int].state() == state_after(start, answers),
        decreases events.len() - j,
    {
        let ghost before = event_views(out@);
        let ghost reached = processors[index as int].state();
        let mut fresh = processors[index].process(events[j].clone());
        let ghost answer = Reaction {
            yields: event_views(fresh@),
            next: processors[index as int].state(),
        };
        let ghost earlier = answers;
        out.append(&mut fresh);
        proof {
            answers = earlier.push(answer);
            assert(answers.drop_last() =~= earlier);
            assert(event_views(out@) =~= before + answer.yields);
            assert forall|k: int| 0 <= k < answers.len() implies P::reacts(
                #[trigger] state_before(start, answers, k),
                given.take(j as int + 1)[k],
                answers[k],
            ) by {
                if k < j {
                    assert(answers[k] == earlier[k]);
                    assert(state_before(start, answers, k) == state_before(start, earlier, k));
                    assert(given.take(j as int + 1)[k] == given.take(j as int)[k]);
                } else {
                    assert(state_before(start, answers, k) == reached);
                    assert(given.take(j as int + 1)[k] == events@[j as int]@);
                }
            }
        }
        j += 1;
    }
    proof {
        assert(given.take(j as int) =~= given);
    }
    (out, Ghost(answers))
}

/// Runs one event through a chain, processor by processor in the order of
/// the list: the first is given the event, every other what the one in
/// front of it yielded, one event after the other. What comes back is what
/// the last one yielded. A processor that is given nothing is not called.
pub fn run_chain<P: Processor>(processors: &mut Vec<P>, event: Event) -> (out: Vec<Event>)
    ensures
        final(processors).len() == old(processors).len(),
        chain_ran::<P>(
            states_of(old(processors)@),
            seq![event@],
            event_views(out@),
            states_of(final(processors)@),
        ),
{
    let ghost start = states_of(processors@);
    let ghost events = seq![event@];
    let ghost mut rounds: Seq<Seq<Reaction<P::State>>> = Seq::empty();
    let mut current: Vec<Event> = Vec::new();
    current.push(event);
    let mut i: usize = 0;
    proof {
        assert(event_views(current@) =~= events);
    }
    while i < processors.len()
        invariant
            i <= processors.len(),
            processors.len() == old(processors).len(),
            start == states_of(old(processors)@),
            rounds.len() == i,
            forall|k: int| i <= k < processors.len() ==> processors[k] == old(processors)[k],
            forall|k: int|
                0 <= k < i ==> is_stage::<P>(
                    start[k],
                    entering(events, rounds, k),
                    #[trigger] rounds[k],
                ),
            forall|k: int|
                0 <= k < i ==> (#[trigger] processors[k]).state() == state_after(
                    start[k],
                    rounds[k],
                ),
            event_views(current@) == entering(events, rounds, i as int),
        decreases processors.len() - i,
    {
        let ghost earlier = rounds;
        let ghost before = processors@;
        let (next, Ghost(answers)) = run_stage(processors, i, &current);
        proof {
            rounds = earlier.push(answers);
            assert forall|k: int| 0 <= k < i + 1 implies is_stage::<P>(
                start[k],
                entering(events, rounds, k),
                #[trigger] rounds[k],
            ) by {
                if k < i {
                    assert(rounds[k] == earlier[k]);
                    if k > 0 {
                        assert(rounds[k - 1] == earlier[k - 1]);
                    }
                } else {
                    if k > 0 {
                        assert(rounds[k - 1] == earlier[k - 1]);
                    }
                    assert(before[k] == old(processors)[k]);
                }
            }
            assert forall|k: int| 0 <= k < i + 1 implies (#[trigger] processors[k]).state()
                == state_after(start[k], rounds[k]) by {
                if k < i {
                    assert(processors[k] == before[k]);
                    assert(rounds[k] == earlier[k]);
                } else {
                    assert(before[k] == old(processors)[k]);
                }
            }
        }
        current = next;
        i += 1;
    }
    proof {
        let after = states_of(processors@);
        assert(runs_chain::<P>(start, events, rounds, event_views(current@), after));
    }
    current
}

/// Once a processor is given nothing, no processor from there on is called:
/// in every run of a chain in which nothing enters the processor at
/// `halted`, that one and every one behind it gives no answer and keeps its
/// state, and nothing comes out of the chain.
pub proof fn law_chain_short_circuit<P: Processor>(
    states: Seq<P::State>,
    events: Seq<EventView>,
    rounds: Seq<Seq<Reaction<P::State>>>,
    halted: int,
)
    requires
        is_chain::<P>(states, events, rounds),
        0 <= halted <= states.len(),
        entering(events, rounds, halted).len() == 0,
    ensures
        forall|j: int| halted <= j < states.len() ==> (#[trigger] rounds[j]).len() == 0,
        forall|j: int|
            halted <= j < states.len() ==> state_after(states[j], #[trigger] rounds[j])
                == states[j],
        entering(events, rounds, rounds.len() as int).len() == 0,
{
    assert forall|j: int| halted <= j <= states.len() implies entering(events, rounds, j).len()
        == 0 by {
        lemma_nothing_enters_behind::<P>(states, events, rounds, halted, j);
    }
    assert forall|j: int| halted <= j < states.len() implies (#[trigger] rounds[j]).len()
        == 0 by {
        assert(entering(events, rounds, j).len() == 0);
        assert(is_stage::<P>(states[j], entering(events, rounds, j), rounds[j]));
    }
}

/// Behind a processor that is given nothing, every processor is given
/// nothing.
proof fn lemma_nothing_enters_behind<P: Processor>(
    states: Seq<P::State>,
    events: Seq<EventView>,
    rounds: Seq<Seq<Reaction<P::State>>>,
    halted: int,
    position: int,
)
    requires
        is_chain::<P>(states, events, rounds),
        0 <= halted <= position <= states.len(),
        entering(events, rounds, halted).len() == 0,
    ensures
        entering(events, rounds, position).len() == 0,
    decreases position - halted,
{
    if position > halted {
        lemma_nothing_enters_behind::<P>(states, events, rounds, halted, position - 1);
        let front = rounds[position - 1];
        assert(is_stage::<P>(states[position - 1], entering(events, rounds, position - 1), front));
        assert(front.len() == 0);
    }
}

/// A chain takes its processors in the order of the list: in every run,
/// each processor behind the first is given exactly what the one in front
/// of it yielded, in the order in which that one yielded it, and what comes
/// out of the chain is what the last one yielded.
pub proof fn law_chain_order<P: Processor>(
    states: Seq<P::State>,
    events: Seq<EventView>,
    rounds: Seq<Seq<Reaction<P::State>>>,
    position: int,
)
    requires
        is_chain::<P>(states, events, rounds),
        0 < position < states.len(),
    ensures
        is_stage::<P>(states[position], yielded(rounds[position - 1]), rounds[position]),
        entering(events, rounds, rounds.len() as int) == yielded(rounds.last()),
{
    assert(is_stage::<P>(states[position], entering(events, rounds, position), rounds[position]));
}

/// A processor answers the events it is given one by one: all that it
/// yields is what it yielded up to the last event, and then its answer to
/// the last.
pub proof fn law_stage_order<P: Processor>(
    start: P::State,
    events: Seq<EventView>,
    answers: Seq<Reaction<P::State>>,
)
    requires
        is_stage::<P>(start, events, answers),
        events.len() > 0,
    ensures
        is_stage::<P>(start, events.drop_last(), answers.drop_last()),
        yielded(answers) == yielded(answers.drop_last()) + answers.last().yields,
        P::reacts(state_after(start, answers.drop_last()), events.last(), answers.last()),
{
    let shorter = answers.drop_last();
    assert forall|k: int| 0 <= k < shorter.len() implies P::reacts(
        #[trigger] state_before(start, shorter, k),
        events.drop_last()[k],
        shorter[k],
    ) by {
        assert(shorter[k] == answers[k]);
        assert(state_before(start, shorter, k) == state_before(start, answers, k));
    }
    let last = answers.len() - 1;
    assert(state_before(start, answers, last) == state_after(start, shorter));
    assert(P::reacts(state_before(start, answers, last), events[last], answers[last]));
}

} // verus!
