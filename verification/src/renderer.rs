//! The event loop's state machine: what the renderer does with each event, and
//! what one redraw asks of the terminal toolkit.

use crate::event::Event;
use crate::frame::{Frame, FrameModel, draw, frame_of};
use crate::sensor::{Reading, ReadingModel, readings_model};
use vstd::prelude::*;

verus! {

/// Position and size of the terminal, in cells.
#[derive(Clone, Copy, Debug, PartialEq, Eq, Structural)]
pub struct Geometry {
    pub x: u16,
    pub y: u16,
    pub width: u16,
    pub height: u16,
}

/// Where the event loop stands.
#[derive(Clone, Copy, Debug, PartialEq, Eq, Structural)]
pub enum LoopState {
    Running,
    /// The quit key has been consumed. Nothing leads out of this state.
    Terminating,
}

/// What the loop does with an event.
#[derive(Clone, Copy, Debug, PartialEq, Eq, Structural)]
pub enum Decision {
    /// Run one redraw: query the terminal size, take a snapshot, and perform
    /// the actions of [`Renderer::redraw`].
    Redraw,
    /// Restore the cursor and leave the loop.
    Quit,
    /// The loop has ended already; the event is dropped.
    Ignore,
}

/// A call into the terminal toolkit.
#[derive(Debug, PartialEq, Eq)]
pub enum Action<'a> {
    /// Adapt the toolkit to the new terminal size.
    Resize(Geometry),
    /// Paint the frame into the area.
    Paint { area: Geometry, frame: Frame<'a> },
}

/// The mathematical value of an [`Action`].
pub enum ActionModel {
    Resize(Geometry),
    Paint { area: Geometry, frame: FrameModel },
}

impl<'a> View for Action<'a> {
    type V = ActionModel;

    open spec fn view(&self) -> ActionModel {
        match *self {
            Action::Resize(size) => ActionModel::Resize(size),
            Action::Paint { area, frame } => ActionModel::Paint { area, frame: frame@ },
        }
    }
}

/// The actions as mathematical values, in the same order.
pub open spec fn actions_model<'a>(actions: Seq<Action<'a>>) -> Seq<ActionModel> {
    actions.map_values(|a: Action<'a>| a@)
}

/// The decision on `event` in `state`: while running, the quit key quits and
/// every other event redraws.
pub open spec fn decide(state: LoopState, event: Event) -> Decision {
    match state {
        LoopState::Terminating => Decision::Ignore,
        LoopState::Running => if event.is_quit() {
            Decision::Quit
        } else {
            Decision::Redraw
        },
    }
}

/// The state after `event` has been consumed in `state`.
pub open spec fn next_state(state: LoopState, event: Event) -> LoopState {
    match state {
        LoopState::Terminating => LoopState::Terminating,
        LoopState::Running => if event.is_quit() {
            LoopState::Terminating
        } else {
            LoopState::Running
        },
    }
}

/// The state after the events have been consumed, first to last, from `state`.
pub open spec fn state_after(state: LoopState, events: Seq<Event>) -> LoopState
    decreases events.len(),
{
    if events.len() == 0 {
        state
    } else {
        state_after(next_state(state, events.first()), events.drop_first())
    }
}

/// The decisions taken as the events are consumed, first to last, from
/// `state`.
pub open spec fn decisions(state: LoopState, events: Seq<Event>) -> Seq<Decision>
    decreases events.len(),
{
    if events.len() == 0 {
        Seq::empty()
    } else {
        seq![decide(state, events.first())] + decisions(
            next_state(state, events.first()),
            events.drop_first(),
        )
    }
}

/// How many of the decisions restore the cursor, that is, how many are
/// [`Decision::Quit`].
pub open spec fn cursor_restores(taken: Seq<Decision>) -> nat
    decreases taken.len(),
{
    if taken.len() == 0 {
        0
    } else {
        let rest = cursor_restores(taken.drop_first());
        if taken.first() == Decision::Quit {
            rest + 1
        } else {
            rest
        }
    }
}

/// Consuming a run of events and then another is consuming the two runs as
/// one: the state carries over, and the decisions follow one another.
pub proof fn lemma_decisions_concat(state: LoopState, first: Seq<Event>, rest: Seq<Event>)
    ensures
        state_after(state, first + rest) == state_after(state_after(state, first), rest),
        decisions(state, first + rest) == decisions(state, first) + decisions(
            state_after(state, first),
            rest,
        ),
    decreases first.len(),
{
    if first.len() == 0 {
        assert(first + rest == rest);
        assert(decisions(state, first) + decisions(state, rest) == decisions(state, rest));
    } else {
        let all = first + rest;
        let then = next_state(state, first.first());
        assert(all.first() == first.first());
        assert(all.drop_first() == first.drop_first() + rest);
        lemma_decisions_concat(then, first.drop_first(), rest);
        assert(decisions(state, all) == seq![decide(state, first.first())] + (decisions(
            then,
            first.drop_first(),
        ) + decisions(state_after(state, first), rest)));
        assert(decisions(state, all) == decisions(state, first) + decisions(
            state_after(state, first),
            rest,
        ));
    }
}

/// Events are decided one by one in the order in which they arrive: there is
/// one decision for each event, and the decision at each place is that on the
/// event at that place, taken in the state that the events before it left.
pub proof fn lemma_decisions_in_order(state: LoopState, events: Seq<Event>)
    ensures
        decisions(state, events).len() == events.len(),
        forall|i: int|
            0 <= i < events.len() ==> (#[trigger] decisions(state, events)[i]) == decide(
                state_after(state, events.take(i)),
                events[i],
            ),
    decreases events.len(),
{
    if events.len() > 0 {
        let then = next_state(state, events.first());
        let tail = events.drop_first();
        lemma_decisions_in_order(then, tail);
        assert forall|i: int| 0 <= i < events.len() implies (#[trigger] decisions(
            state,
            events,
        )[i]) == decide(state_after(state, events.take(i)), events[i]) by {
            if i == 0 {
                assert(events.take(0).len() == 0);
            } else {
                assert(events.take(i).first() == events.first());
                assert(events.take(i).drop_first() == tail.take(i - 1));
                assert(decisions(state, events)[i] == decisions(then, tail)[i - 1]);
            }
        }
    }
}

/// Nothing leads out of `Terminating`: whatever arrives is ignored, and no
/// cursor restore is asked for again.
pub proof fn lemma_terminating_absorbs(events: Seq<Event>)
    ensures
        state_after(LoopState::Terminating, events) == LoopState::Terminating,
        forall|i: int|
            0 <= i < events.len() ==> (#[trigger] decisions(LoopState::Terminating, events)[i])
                == Decision::Ignore,
        decisions(LoopState::Terminating, events).len() == events.len(),
        cursor_restores(decisions(LoopState::Terminating, events)) == 0,
    decreases events.len(),
{
    if events.len() > 0 {
        lemma_terminating_absorbs(events.drop_first());
        let taken = decisions(LoopState::Terminating, events);
        assert(taken.drop_first() == decisions(LoopState::Terminating, events.drop_first()));
    }
}

/// Only the quit key ends the loop: while it has not arrived the loop keeps
/// running and every event is answered by a redraw.
pub proof fn lemma_running_without_quit(events: Seq<Event>)
    requires
        forall|i: int| 0 <= i < events.len() ==> !(#[trigger] events[i]).is_quit(),
    ensures
        state_after(LoopState::Running, events) == LoopState::Running,
        decisions(LoopState::Running, events).len() == events.len(),
        forall|i: int|
            0 <= i < events.len() ==> (#[trigger] decisions(LoopState::Running, events)[i])
                == Decision::Redraw,
        cursor_restores(decisions(LoopState::Running, events)) == 0,
    decreases events.len(),
{
    if events.len() > 0 {
        let tail = events.drop_first();
        assert(!events[0].is_quit());
        assert forall|i: int| 0 <= i < tail.len() implies !(#[trigger] tail[i]).is_quit() by {
            assert(tail[i] == events[i + 1]);
        }
        lemma_running_without_quit(tail);
        let taken = decisions(LoopState::Running, events);
        assert(taken.drop_first() == decisions(LoopState::Running, tail));
    }
}

/// Once the quit key has arrived the loop is terminating and the cursor has
/// been restored exactly once, however many events came before the quit key
/// and after it.
pub proof fn lemma_quit_restores_cursor_once(events: Seq<Event>)
    requires
        exists|i: int| 0 <= i < events.len() && (#[trigger] events[i]).is_quit(),
    ensures
        state_after(LoopState::Running, events) == LoopState::Terminating,
        cursor_restores(decisions(LoopState::Running, events)) == 1,
    decreases events.len(),
{
    let at = choose|i: int| 0 <= i < events.len() && (#[trigger] events[i]).is_quit();
    let tail = events.drop_first();
    let taken = decisions(LoopState::Running, events);
    if events.first().is_quit() {
        lemma_terminating_absorbs(tail);
        assert(taken.drop_first() == decisions(LoopState::Terminating, tail));
    } else {
        assert(tail[at - 1] == events[at]);
        lemma_quit_restores_cursor_once(tail);
        assert(taken.drop_first() == decisions(LoopState::Running, tail));
    }
}

/// What one redraw asks of the toolkit. While running: a resize to the current
/// terminal size if that differs from the stored one, and then the frame of
/// the snapshot, painted into the current size. Once terminating: nothing.
pub open spec fn redraw_actions(
    state: LoopState,
    stored: Geometry,
    current: Geometry,
    readings: Seq<ReadingModel>,
) -> Seq<ActionModel> {
    let paint = ActionModel::Paint { area: current, frame: frame_of(readings) };
    match state {
        LoopState::Terminating => Seq::empty(),
        LoopState::Running => if current != stored {
            seq![ActionModel::Resize(current), paint]
        } else {
            seq![paint]
        },
    }
}

/// The consumer of the event channel. It holds the state of the loop and the
/// terminal size as of the last redraw.
#[derive(Debug)]
pub struct Renderer {
    state: LoopState,
    size: Geometry,
}

impl Renderer {
    /// Where the loop stands.
    pub closed spec fn spec_state(&self) -> LoopState {
        self.state
    }

    /// The terminal size as of the last redraw.
    pub closed spec fn spec_size(&self) -> Geometry {
        self.size
    }

    /// A running renderer for a terminal of the given size.
    pub fn new(size: Geometry) -> (renderer: Renderer)
        ensures
            renderer.state() == LoopState::Running,
            renderer.size() == size,
    {
        Renderer { state: LoopState::Running, size }
    }

    /// Where the loop stands.
    #[verifier::when_used_as_spec(spec_state)]
    pub fn state(&self) -> (state: LoopState)
        ensures
            state == self.spec_state(),
    {
        self.state
    }

    /// The terminal size as of the last redraw.
    #[verifier::when_used_as_spec(spec_size)]
    pub fn size(&self) -> (size: Geometry)
        ensures
            size == self.spec_size(),
    {
        self.size
    }

    /// Consumes one event and says what the loop does with it.
    pub fn on_event(&mut self, event: Event) -> (decision: Decision)
        ensures
            decision == decide(old(self).state(), event),
            final(self).state() == next_state(old(self).state(), event),
            final(self).size() == old(self).size(),
    {
        match self.state {
            LoopState::Terminating => Decision::Ignore,
            LoopState::Running => {
                if event.is_quit() {
                    self.state = LoopState::Terminating;
                    Decision::Quit
                } else {
                    Decision::Redraw
                }
            },
        }
    }

    /// Runs one redraw for the terminal size just queried and the snapshot
    /// just taken. Returns the calls to make, in order, and stores the size.
    pub fn redraw<'a>(&mut self, current: Geometry, sensors: &'a [Reading]) -> (actions: Vec<
        Action<'a>,
    >)
        ensures
            actions_model(actions@) == redraw_actions(
                old(self).state(),
                old(self).size(),
                current,
                readings_model(sensors@),
            ),
            final(self).state() == old(self).state(),
            final(self).size() == if old(self).state() == LoopState::Running {
                current
            } else {
                old(self).size()
            },
    {
        let mut actions: Vec<Action<'a>> = Vec::new();
        match self.state {
            LoopState::Terminating => {},
            LoopState::Running => {
                if current != self.size {
                    actions.push(Action::Resize(current));
                    self.size = current;
                }
                actions.push(Action::Paint { area: current, frame: draw(sensors) });
            },
        }
        proof {
            assert(actions_model(actions@) =~= redraw_actions(
                old(self).state(),
                old(self).size(),
                current,
                readings_model(sensors@),
            ));
        }
        actions
    }
}

} // verus!
